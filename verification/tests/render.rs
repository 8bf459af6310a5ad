use playback_progress::fraction::Fraction;
use playback_progress::geometry::{center, scale, Color, Fill, Rect, Size};
use playback_progress::model::{AnalysisTrace, PlaybackSnapshot, Segment, TrackRef};
use playback_progress::render::{
    bright_color, dim_color, elapsed_fraction, loudness_fraction, render, render_analysis,
    render_flat, segment_fill, split_width, strategy, RenderStrategy, StyleEnv, BAR_HEIGHT,
    MIN_SEGMENT_WIDTH, REMAINING_ALPHA,
};

fn env() -> StyleEnv {
    StyleEnv {
        primary_dark: Color { r: 10, g: 20, b: 30, a: 255 },
        primary_light: Color { r: 200, g: 210, b: 220, a: 255 },
    }
}

fn snapshot(total: Option<u32>, elapsed: Option<u32>) -> PlaybackSnapshot {
    PlaybackSnapshot {
        current_item: total.map(|duration| TrackRef { duration }),
        elapsed,
        is_playing: true,
        analysis: None,
    }
}

fn with_trace(total: Option<u32>, elapsed: Option<u32>, segments: Vec<Segment>) -> PlaybackSnapshot {
    PlaybackSnapshot {
        current_item: total.map(|duration| TrackRef { duration }),
        elapsed,
        is_playing: true,
        analysis: Some(AnalysisTrace { segments }),
    }
}

fn value(f: &Fraction) -> f64 {
    f.numer() as f64 / f.denom() as f64
}

#[test]
fn flat_bar_a_quarter_played() {
    let snap = snapshot(Some(200_000), Some(50_000));
    let played = elapsed_fraction(&snap);
    assert_eq!(value(&played), 0.25);
    assert_eq!(split_width(100, &played), (25, 75));
    let fills = render(&Size { width: 100, height: 8 }, &snap, &env());
    assert_eq!(
        fills,
        vec![
            Fill {
                rect: Rect { x: 0, y: 2, width: 25, height: 3 },
                color: Color { r: 10, g: 20, b: 30, a: 255 },
            },
            Fill {
                rect: Rect { x: 25, y: 2, width: 75, height: 3 },
                color: Color { r: 200, g: 210, b: 220, a: 128 },
            },
        ]
    );
}

#[test]
fn flat_bar_keeps_the_quotient_as_given() {
    let played = elapsed_fraction(&snapshot(Some(200), Some(50)));
    assert_eq!((played.numer(), played.denom()), (50, 200));
}

#[test]
fn flat_widths_always_add_up() {
    for width in [0u32, 1, 2, 3, 7, 100, 1023, u32::MAX] {
        for total in [1u32, 2, 3, 7, 200, 65_537, u32::MAX] {
            for elapsed in [0u32, 1, 2, 3, 5, 100, 199, 65_536, u32::MAX - 1, u32::MAX] {
                let played = elapsed_fraction(&snapshot(Some(total), Some(elapsed)));
                let (first, second) = split_width(width, &played);
                assert_eq!(first as u64 + second as u64, width as u64);
                assert!(first <= width);
            }
        }
    }
}

#[test]
fn flat_width_rounds_to_the_nearest_pixel() {
    let third = elapsed_fraction(&snapshot(Some(3), Some(1)));
    assert_eq!(split_width(10, &third), (3, 7));
    let two_thirds = elapsed_fraction(&snapshot(Some(3), Some(2)));
    assert_eq!(split_width(10, &two_thirds), (7, 3));
}

#[test]
fn flat_width_rounds_a_half_upward() {
    let half = elapsed_fraction(&snapshot(Some(2), Some(1)));
    assert_eq!(split_width(3, &half), (2, 1));
    assert_eq!(split_width(1, &half), (1, 0));
    assert_eq!(split_width(5, &half), (3, 2));
}

#[test]
fn flat_width_at_the_largest_values() {
    let full = elapsed_fraction(&snapshot(Some(u32::MAX), Some(u32::MAX)));
    assert_eq!(split_width(u32::MAX, &full), (u32::MAX, 0));
    let nearly = elapsed_fraction(&snapshot(Some(u32::MAX), Some(u32::MAX - 1)));
    assert_eq!(split_width(u32::MAX, &nearly), (u32::MAX - 1, 1));
}

#[test]
fn flat_bar_of_a_track_without_length() {
    let snap = snapshot(Some(0), Some(0));
    let played = elapsed_fraction(&snap);
    assert_eq!((played.numer(), played.denom()), (0, 1));
    let fills = render_flat(&Size { width: 40, height: 9 }, &snap, &env());
    assert_eq!(fills.len(), 2);
    assert_eq!(fills[0].rect, Rect { x: 0, y: 3, width: 0, height: 3 });
    assert_eq!(fills[1].rect, Rect { x: 0, y: 3, width: 40, height: 3 });
}

#[test]
fn flat_bar_with_nothing_loaded() {
    let snap = snapshot(None, None);
    let fills = render(&Size { width: 40, height: 8 }, &snap, &env());
    assert_eq!(fills.len(), 2);
    assert_eq!(fills[0].rect.width, 0);
    assert_eq!(fills[1].rect.width, 40);
    let orphan = snapshot(None, Some(5));
    assert_eq!(elapsed_fraction(&orphan).numer(), 0);
}

#[test]
fn flat_bar_in_an_area_without_width() {
    let snap = snapshot(Some(200), Some(50));
    let fills = render_flat(&Size { width: 0, height: 8 }, &snap, &env());
    assert_eq!(fills[0].rect.width, 0);
    assert_eq!(fills[1].rect.width, 0);
    assert_eq!(fills[1].rect.x, 0);
}

#[test]
fn elapsed_beyond_the_end_counts_as_the_end() {
    let snap = snapshot(Some(200), Some(900));
    assert_eq!(snap.elapsed_time(), 200);
    assert_eq!(snap.total_time(), 200);
    let played = elapsed_fraction(&snap);
    assert_eq!((played.numer(), played.denom()), (200, 200));
    assert_eq!(split_width(100, &played), (100, 0));
}

#[test]
fn flat_bar_is_centred_and_may_start_above_the_area() {
    let snap = snapshot(Some(10), Some(5));
    let top = |height: u32| render_flat(&Size { width: 10, height }, &snap, &env())[0].rect.y;
    assert_eq!(top(0), -2);
    assert_eq!(top(1), -1);
    assert_eq!(top(2), -1);
    assert_eq!(top(3), 0);
    assert_eq!(top(4), 0);
    assert_eq!(top(5), 1);
    assert_eq!(top(8), 2);
}

#[test]
fn centre_rounds_down() {
    assert_eq!(center(10, 4), 3);
    assert_eq!(center(10, 5), 2);
    assert_eq!(center(0, 0), 0);
    assert_eq!(center(0, 1), -1);
    assert_eq!(center(0, u32::MAX), -2147483648);
    assert_eq!(center(u32::MAX, 0), 2147483647);
}

#[test]
fn scale_rounds_down_without_overflow() {
    assert_eq!(scale(100, 50, 200), 25);
    assert_eq!(scale(10, 1, 3), 3);
    assert_eq!(scale(10, 2, 3), 6);
    assert_eq!(scale(u32::MAX, u32::MAX, 1), 18446744065119617025);
    assert_eq!(scale(u32::MAX, u32::MAX, u32::MAX), 4294967295);
    assert_eq!(scale(7, 0, 5), 0);
}

#[test]
fn constants_of_the_bar() {
    assert_eq!(BAR_HEIGHT, 3);
    assert_eq!(MIN_SEGMENT_WIDTH, 1);
    assert_eq!(REMAINING_ALPHA, 128);
    assert_eq!(bright_color(), Color { r: 255, g: 255, b: 255, a: 255 });
    assert_eq!(dim_color(), Color { r: 77, g: 77, b: 77, a: 255 });
    assert_eq!(
        Color::rgba8(1, 2, 3, 4).with_alpha(9),
        Color { r: 1, g: 2, b: 3, a: 9 }
    );
}

#[test]
fn loudness_of_three_segments() {
    let levels: Vec<f64> = [-1000, -500, -1500]
        .iter()
        .map(|&l| value(&loudness_fraction(l, -1500, -500)))
        .collect();
    assert_eq!(levels, vec![0.5, 1.0, 0.0]);
    let middle = loudness_fraction(-10, -15, -5);
    assert_eq!((middle.numer(), middle.denom()), (5, 10));
}

#[test]
fn loudness_of_a_single_level() {
    let level = loudness_fraction(-800, -800, -800);
    assert_eq!((level.numer(), level.denom()), (1, 1));
    assert_eq!(value(&level), 1.0);
    let silent = loudness_fraction(0, 0, 0);
    assert_eq!((silent.numer(), silent.denom()), (1, 1));
    let loud = loudness_fraction(7, 7, 7);
    assert_eq!((loud.numer(), loud.denom()), (1, 1));
}

#[test]
fn loudness_stays_between_zero_and_one() {
    let ends = [i32::MIN, -1500, -1, 0, 1, 1500, i32::MAX];
    for &lo in ends.iter() {
        for &hi in ends.iter() {
            for &l in ends.iter() {
                let level = loudness_fraction(l, lo, hi);
                assert!(level.denom() > 0);
                assert!(level.numer() <= level.denom());
            }
        }
    }
}

#[test]
fn loudness_above_zero_adds_the_lower_end() {
    let level = loudness_fraction(5, 5, 10);
    assert_eq!((level.numer(), level.denom()), (10, 15));
    let top = loudness_fraction(10, 5, 10);
    assert_eq!((top.numer(), top.denom()), (15, 15));
}

#[test]
fn loudness_over_the_widest_range() {
    let level = loudness_fraction(i32::MAX, i32::MIN, i32::MAX);
    assert_eq!((level.numer(), level.denom()), (u32::MAX, u32::MAX));
    let bottom = loudness_fraction(i32::MIN, i32::MIN, i32::MAX);
    assert_eq!((bottom.numer(), bottom.denom()), (0, u32::MAX));
}

#[test]
fn loudness_outside_the_range_is_held_to_its_ends() {
    let above = loudness_fraction(0, -15, -5);
    assert_eq!((above.numer(), above.denom()), (10, 10));
    let below = loudness_fraction(-40, -15, -5);
    assert_eq!((below.numer(), below.denom()), (0, 10));
    let reversed = loudness_fraction(-10, -5, -15);
    assert_eq!((reversed.numer(), reversed.denom()), (0, 1));
}

#[test]
fn loudness_range_of_a_trace() {
    let trace = AnalysisTrace {
        segments: vec![
            Segment { start: 0, duration: 10, loudness_max: -1000 },
            Segment { start: 10, duration: 10, loudness_max: -500 },
            Segment { start: 20, duration: 10, loudness_max: -1500 },
        ],
    };
    assert_eq!(trace.loudness_range(), Some((-1500, -500)));
    let single = AnalysisTrace {
        segments: vec![Segment { start: 0, duration: 10, loudness_max: -800 }],
    };
    assert_eq!(single.loudness_range(), Some((-800, -800)));
    let empty = AnalysisTrace { segments: vec![] };
    assert_eq!(empty.loudness_range(), None);
}

#[test]
fn waveform_of_three_segments() {
    let snap = with_trace(
        Some(200),
        Some(60),
        vec![
            Segment { start: 0, duration: 50, loudness_max: -1000 },
            Segment { start: 50, duration: 100, loudness_max: -500 },
            Segment { start: 150, duration: 50, loudness_max: -1500 },
        ],
    );
    let fills = render(&Size { width: 100, height: 10 }, &snap, &env());
    assert_eq!(
        fills,
        vec![
            Fill { rect: Rect { x: 0, y: 2, width: 25, height: 5 }, color: bright_color() },
            Fill { rect: Rect { x: 25, y: 0, width: 50, height: 10 }, color: bright_color() },
            Fill { rect: Rect { x: 75, y: 5, width: 25, height: 0 }, color: dim_color() },
        ]
    );
}

#[test]
fn waveform_of_a_single_level_has_full_height() {
    let snap = with_trace(
        Some(100),
        Some(0),
        vec![Segment { start: 0, duration: 100, loudness_max: -800 }],
    );
    let fills = render(&Size { width: 60, height: 9 }, &snap, &env());
    assert_eq!(
        fills,
        vec![Fill { rect: Rect { x: 0, y: 0, width: 60, height: 9 }, color: bright_color() }]
    );
}

#[test]
fn waveform_colours_go_by_start_time_in_any_order() {
    let segments = vec![
        Segment { start: 90, duration: 10, loudness_max: -3 },
        Segment { start: 0, duration: 10, loudness_max: -2 },
        Segment { start: 51, duration: 10, loudness_max: -1 },
        Segment { start: 50, duration: 10, loudness_max: -4 },
        Segment { start: 49, duration: 10, loudness_max: -5 },
    ];
    let snap = with_trace(Some(100), Some(50), segments.clone());
    let fills = render(&Size { width: 100, height: 10 }, &snap, &env());
    assert_eq!(fills.len(), segments.len());
    for (fill, segment) in fills.iter().zip(segments.iter()) {
        assert_eq!(fill.color == bright_color(), segment.start <= 50);
        assert_eq!(fill.color == dim_color(), segment.start > 50);
    }
    let colors: Vec<bool> = fills.iter().map(|f| f.color == bright_color()).collect();
    assert_eq!(colors, vec![false, true, false, true, true]);
}

#[test]
fn waveform_colours_use_the_time_held_within_the_track() {
    let segments = vec![
        Segment { start: 100, duration: 10, loudness_max: -3 },
        Segment { start: 150, duration: 10, loudness_max: -2 },
    ];
    let snap = with_trace(Some(100), Some(500), segments);
    let fills = render(&Size { width: 100, height: 10 }, &snap, &env());
    assert_eq!(fills[0].color, bright_color());
    assert_eq!(fills[1].color, dim_color());
}

#[test]
fn waveform_of_a_track_without_length_is_empty() {
    let segments = vec![Segment { start: 0, duration: 10, loudness_max: -3 }];
    let zero = with_trace(Some(0), Some(0), segments.clone());
    assert_eq!(render(&Size { width: 100, height: 10 }, &zero, &env()), vec![]);
    let none = with_trace(None, Some(4), segments);
    assert_eq!(render(&Size { width: 100, height: 10 }, &none, &env()), vec![]);
}

#[test]
fn waveform_of_a_trace_without_segments_is_empty() {
    let snap = with_trace(Some(100), Some(10), vec![]);
    assert_eq!(render(&Size { width: 100, height: 10 }, &snap, &env()), vec![]);
    let trace = AnalysisTrace { segments: vec![] };
    assert_eq!(render_analysis(&Size { width: 1, height: 1 }, &trace, 100, 0), vec![]);
}

#[test]
fn waveform_in_an_area_without_extent() {
    let snap = with_trace(
        Some(100),
        Some(10),
        vec![
            Segment { start: 0, duration: 50, loudness_max: -3 },
            Segment { start: 50, duration: 50, loudness_max: -9 },
        ],
    );
    let fills = render(&Size { width: 0, height: 0 }, &snap, &env());
    assert_eq!(
        fills,
        vec![
            Fill { rect: Rect { x: 0, y: 0, width: 1, height: 0 }, color: bright_color() },
            Fill { rect: Rect { x: 0, y: 0, width: 1, height: 0 }, color: dim_color() },
        ]
    );
}

#[test]
fn short_segment_stays_one_pixel_wide() {
    let bounds = Size { width: 100, height: 10 };
    let short = Segment { start: 500, duration: 1, loudness_max: -5 };
    let fill = segment_fill(&bounds, &short, 1000, 0, -15, -5).unwrap();
    assert_eq!(fill.rect, Rect { x: 50, y: 0, width: 1, height: 10 });
    assert_eq!(fill.color, dim_color());
    let empty = Segment { start: 500, duration: 0, loudness_max: -5 };
    assert_eq!(segment_fill(&bounds, &empty, 1000, 0, -15, -5).unwrap().rect.width, 1);
}

#[test]
fn segment_geometry_rounds_down() {
    let bounds = Size { width: 10, height: 7 };
    let segment = Segment { start: 1, duration: 2, loudness_max: -10 };
    let fill = segment_fill(&bounds, &segment, 3, 1, -15, -5).unwrap();
    assert_eq!(fill.rect, Rect { x: 3, y: 2, width: 6, height: 3 });
    assert_eq!(fill.color, bright_color());
}

#[test]
fn segment_of_a_track_without_length_is_not_drawn() {
    let bounds = Size { width: 10, height: 7 };
    let segment = Segment { start: 1, duration: 2, loudness_max: -10 };
    assert_eq!(segment_fill(&bounds, &segment, 0, 0, -15, -5), None);
}

#[test]
fn segment_past_the_end_is_drawn_where_it_falls() {
    let bounds = Size { width: u32::MAX, height: 4 };
    let segment = Segment { start: u32::MAX, duration: u32::MAX, loudness_max: 0 };
    let fill = segment_fill(&bounds, &segment, 1, 0, 0, 0).unwrap();
    assert_eq!(fill.rect.x, 18446744065119617025);
    assert_eq!(fill.rect.width, 18446744065119617025);
    assert_eq!(fill.rect.height, 4);
    assert_eq!(fill.color, dim_color());
}

#[test]
fn strategy_follows_the_trace() {
    let flat = snapshot(Some(10), Some(1));
    assert!(matches!(strategy(&flat), RenderStrategy::Flat));
    let wave = with_trace(Some(10), Some(1), vec![]);
    match strategy(&wave) {
        RenderStrategy::Analysis(trace) => assert_eq!(trace.segments.len(), 0),
        RenderStrategy::Flat => panic!("a snapshot with a trace is drawn as a waveform"),
    }
}

#[test]
fn fraction_constructors() {
    assert_eq!((Fraction::zero().numer(), Fraction::zero().denom()), (0, 1));
    assert_eq!((Fraction::one().numer(), Fraction::one().denom()), (1, 1));
    let f = Fraction::clamped(3, 4);
    assert_eq!((f.numer(), f.denom()), (3, 4));
    let low = Fraction::clamped(-3, 4);
    assert_eq!((low.numer(), low.denom()), (0, 4));
    let high = Fraction::clamped(9, 4);
    assert_eq!((high.numer(), high.denom()), (4, 4));
    let none = Fraction::clamped(9, 0);
    assert_eq!((none.numer(), none.denom()), (0, 1));
    let wide = Fraction::clamped(i64::MAX, u32::MAX);
    assert_eq!((wide.numer(), wide.denom()), (u32::MAX, u32::MAX));
    assert_eq!(Fraction::clamped(1, 3).scale(10), 3);
    assert_eq!(Fraction::clamped(1, 2).scale(7), 4);
    assert_eq!(Fraction::clamped(0, 2).scale(7), 0);
}
