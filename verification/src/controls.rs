use crate::model::PlaybackSnapshot;
use vstd::prelude::*;

verus! {

/// What the transport buttons beside the indicator ask of the player.
#[derive(Clone, Copy, Debug, PartialEq, Eq, Structural)]
pub enum TransportCommand {
    PlayPrevious,
    PlayPause,
    PlayResume,
    PlayNext,
}

/// Whether the player and its indicator are shown at all: only while a
/// track is loaded.
pub fn shows_player(snapshot: &PlaybackSnapshot) -> (shown: bool)
    ensures
        shown == (snapshot.current_item is Some),
{
    snapshot.current_item.is_some()
}

/// What the middle transport button does: it pauses while the track
/// plays, and resumes while it does not.
pub fn toggle_command(snapshot: &PlaybackSnapshot) -> (command: TransportCommand)
    ensures
        snapshot.is_playing ==> command is PlayPause,
        !snapshot.is_playing ==> command is PlayResume,
{
    if snapshot.is_playing {
        TransportCommand::PlayPause
    } else {
        TransportCommand::PlayResume
    }
}

} // verus!
