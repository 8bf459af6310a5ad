//! Geometry and pointer handling for a playback progress indicator.
//!
//! The crate lays out a progress bar on an integer pixel grid, either as a
//! flat two-part bar or as a loudness waveform, and turns pointer gestures
//! over the bar into seek requests. Times are whole milliseconds, loudness
//! is given in hundredths of a decibel, and every proportion is an exact
//! [`fraction::Fraction`], so that no result depends on floating point.

pub mod fraction;
pub mod geometry;
pub mod model;
pub mod render;
pub mod seek;
pub mod controls;
