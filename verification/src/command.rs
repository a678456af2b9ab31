//! The closed set of user-facing commands and their recognition.
//!
//! A command arrives as an HTTP path segment; only the nine exact,
//! case-sensitive names below are recognized, and an unrecognized name
//! is rejected here, before any request to the player is built or sent.

use vstd::prelude::*;
use crate::text::str_eq;

verus! {

/// The closed enumeration of player commands.
#[derive(Clone, Copy, Debug, PartialEq, Eq, Structural)]
pub enum PlayerCommand {
    Play,
    Pause,
    Stop,
    VolumeUp,
    VolumeDown,
    SeekForward,
    SeekBackward,
    NextTrack,
    PrevTrack,
}

/// The command a path segment names: exact, case-sensitive match against
/// the nine recognized names, and nothing for every other string.
pub open spec fn spec_parse_command(s: Seq<char>) -> Option<PlayerCommand> {
    if s == "play"@ {
        Some(PlayerCommand::Play)
    } else if s == "pause"@ {
        Some(PlayerCommand::Pause)
    } else if s == "stop"@ {
        Some(PlayerCommand::Stop)
    } else if s == "volume_up"@ {
        Some(PlayerCommand::VolumeUp)
    } else if s == "volume_down"@ {
        Some(PlayerCommand::VolumeDown)
    } else if s == "seek_forward"@ {
        Some(PlayerCommand::SeekForward)
    } else if s == "seek_backward"@ {
        Some(PlayerCommand::SeekBackward)
    } else if s == "next_track"@ {
        Some(PlayerCommand::NextTrack)
    } else if s == "prev_track"@ {
        Some(PlayerCommand::PrevTrack)
    } else {
        None
    }
}

/// Recognizes a path segment as a command.  Exactly the nine documented
/// names are accepted; every other string is rejected, so no request is
/// ever built for it.
pub fn parse_command(s: &str) -> (r: Option<PlayerCommand>)
    ensures
        r == spec_parse_command(s@),
{
    proof {
        reveal_strlit("play");
        reveal_strlit("pause");
        reveal_strlit("stop");
        reveal_strlit("volume_up");
        reveal_strlit("volume_down");
        reveal_strlit("seek_forward");
        reveal_strlit("seek_backward");
        reveal_strlit("next_track");
        reveal_strlit("prev_track");
    }
    if str_eq(s, "play") {
        Some(PlayerCommand::Play)
    } else if str_eq(s, "pause") {
        Some(PlayerCommand::Pause)
    } else if str_eq(s, "stop") {
        Some(PlayerCommand::Stop)
    } else if str_eq(s, "volume_up") {
        Some(PlayerCommand::VolumeUp)
    } else if str_eq(s, "volume_down") {
        Some(PlayerCommand::VolumeDown)
    } else if str_eq(s, "seek_forward") {
        Some(PlayerCommand::SeekForward)
    } else if str_eq(s, "seek_backward") {
        Some(PlayerCommand::SeekBackward)
    } else if str_eq(s, "next_track") {
        Some(PlayerCommand::NextTrack)
    } else if str_eq(s, "prev_track") {
        Some(PlayerCommand::PrevTrack)
    } else {
        None
    }
}

/// Whether a command consults the track navigator, and in which
/// direction: forward for the next track, backward for the previous.
pub open spec fn spec_nav_direction(c: PlayerCommand) -> Option<bool> {
    match c {
        PlayerCommand::NextTrack => Some(true),
        PlayerCommand::PrevTrack => Some(false),
        _ => None,
    }
}

/// The navigation a command asks for, if any: the forward flag for
/// `NextTrack`, the backward flag for `PrevTrack`, nothing for the rest.
pub fn nav_direction(c: &PlayerCommand) -> (r: Option<bool>)
    ensures
        r == spec_nav_direction(*c),
{
    match c {
        PlayerCommand::NextTrack => Some(true),
        PlayerCommand::PrevTrack => Some(false),
        _ => None,
    }
}

} // verus!
