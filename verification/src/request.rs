//! Building the JSON-RPC requests the player expects.
//!
//! Every request is one JSON object `{"command": [...]}` on a single
//! line.  The seven fixed commands map to fixed payloads; the two track
//! commands embed a file path, escaped by the JSON string rules: quote
//! and backslash get a backslash escape, the five control characters
//! with short forms get theirs, every other control character becomes
//! `\u00` followed by two lowercase hex digits, and all remaining
//! characters pass through unchanged.

use vstd::prelude::*;
use crate::command::PlayerCommand;
use crate::text::append_digit_char;
use crate::text::digit_char;

verus! {

/// What one character contributes to a JSON string body.
pub open spec fn escape_char(c: char) -> Seq<char> {
    if c == '"' {
        seq!['\\', '"']
    } else if c == '\\' {
        seq!['\\', '\\']
    } else if c == '\u{8}' {
        seq!['\\', 'b']
    } else if c == '\t' {
        seq!['\\', 't']
    } else if c == '\n' {
        seq!['\\', 'n']
    } else if c == '\u{c}' {
        seq!['\\', 'f']
    } else if c == '\r' {
        seq!['\\', 'r']
    } else if (c as u32) < 0x20 {
        seq!['\\', 'u', '0', '0', digit_char(c as u32 as int / 16), digit_char(c as u32 as int % 16)]
    } else {
        seq![c]
    }
}

/// The body of the JSON string that encodes `s`.
pub open spec fn escape_seq(s: Seq<char>) -> Seq<char>
    decreases s.len(),
{
    if s.len() == 0 {
        Seq::empty()
    } else {
        escape_seq(s.drop_last()) + escape_char(s.last())
    }
}

proof fn lemma_escape_push(t: Seq<char>, x: char)
    ensures
        escape_seq(t.push(x)) == escape_seq(t) + escape_char(x),
{
    assert(t.push(x).drop_last() =~= t);
    assert(t.push(x).last() == x);
}

/// Escapes a string for embedding between the quotes of a JSON string.
pub fn escape_json(s: &str) -> (r: String)
    ensures
        r@ == escape_seq(s@),
{
    let n = s.unicode_len();
    let mut out = String::new();
    let mut i: usize = 0;
    while i < n
        invariant
            i <= n,
            n == s@.len(),
            out@ == escape_seq(s@.take(i as int)),
        decreases n - i,
    {
        proof {
            reveal_strlit("\\\"");
            reveal_strlit("\\\\");
            reveal_strlit("\\b");
            reveal_strlit("\\t");
            reveal_strlit("\\n");
            reveal_strlit("\\f");
            reveal_strlit("\\r");
            reveal_strlit("\\u00");
        }
        let c = s.get_char(i);
        if c == '"' {
            out.append("\\\"");
            proof {
                assert(out@ =~= escape_seq(s@.take(i as int)) + escape_char(c));
            }
        } else if c == '\\' {
            out.append("\\\\");
            proof {
                assert(out@ =~= escape_seq(s@.take(i as int)) + escape_char(c));
            }
        } else if c == '\u{8}' {
            out.append("\\b");
            proof {
                assert(out@ =~= escape_seq(s@.take(i as int)) + escape_char(c));
            }
        } else if c == '\t' {
            out.append("\\t");
            proof {
                assert(out@ =~= escape_seq(s@.take(i as int)) + escape_char(c));
            }
        } else if c == '\n' {
            out.append("\\n");
            proof {
                assert(out@ =~= escape_seq(s@.take(i as int)) + escape_char(c));
            }
        } else if c == '\u{c}' {
            out.append("\\f");
            proof {
                assert(out@ =~= escape_seq(s@.take(i as int)) + escape_char(c));
            }
        } else if c == '\r' {
            out.append("\\r");
            proof {
                assert(out@ =~= escape_seq(s@.take(i as int)) + escape_char(c));
            }
        } else if (c as u32) < 0x20 {
            out.append("\\u00");
            append_digit_char(&mut out, c as u32 / 16);
            append_digit_char(&mut out, c as u32 % 16);
            proof {
                assert(out@ =~= escape_seq(s@.take(i as int)) + escape_char(c));
            }
        } else {
            out.append(s.substring_char(i, i + 1));
            proof {
                assert(s@.subrange(i as int, i as int + 1) =~= seq![c]);
                assert(out@ =~= escape_seq(s@.take(i as int)) + escape_char(c));
            }
        }
        proof {
            assert(s@.take(i as int).push(c) =~= s@.take(i as int + 1));
            lemma_escape_push(s@.take(i as int), c);
        }
        i = i + 1;
    }
    proof {
        assert(s@.take(n as int) =~= s@);
    }
    out
}

/// The request that reads the property named `name`.
pub open spec fn property_query_payload(name: Seq<char>) -> Seq<char> {
    "{\"command\":[\"get_property\",\""@ + escape_seq(name) + "\"]}"@
}

/// Builds the request that reads a property of the player: the pause
/// flag, the volume level, or the currently playing path.
pub fn property_query(name: &str) -> (r: String)
    ensures
        r@ == property_query_payload(name@),
{
    let mut out = String::from_str("{\"command\":[\"get_property\",\"");
    let escaped = escape_json(name);
    out.append(escaped.as_str());
    out.append("\"]}");
    out
}

/// Why no request could be built for a track command.
#[derive(Clone, Copy, Debug, PartialEq, Eq, Structural)]
pub enum NavigationFailure {
    /// The navigator found no file after the current one.
    NoNextFile,
    /// The navigator found no file before the current one.
    NoPrevFile,
}

/// The request that loads the file at `path`.
pub open spec fn loadfile_payload(path: Seq<char>) -> Seq<char> {
    "{\"command\":[\"loadfile\",\""@ + escape_seq(path) + "\"]}"@
}

/// The request a command maps to.  The seven fixed commands map to
/// their fixed payloads; a track command embeds the adjacent file the
/// navigator resolved, and fails where the navigator resolved none.
pub open spec fn spec_payload(c: PlayerCommand, adjacent: Option<Seq<char>>) -> Result<
    Seq<char>,
    NavigationFailure,
> {
    match c {
        PlayerCommand::Play => Ok("{\"command\":[\"set_property\",\"pause\",false]}"@),
        PlayerCommand::Pause => Ok("{\"command\":[\"set_property\",\"pause\",true]}"@),
        PlayerCommand::Stop => Ok("{\"command\":[\"quit\"]}"@),
        PlayerCommand::VolumeUp => Ok("{\"command\":[\"add\",\"volume\",5]}"@),
        PlayerCommand::VolumeDown => Ok("{\"command\":[\"add\",\"volume\",-5]}"@),
        PlayerCommand::SeekForward => Ok("{\"command\":[\"seek\",10,\"relative\"]}"@),
        PlayerCommand::SeekBackward => Ok("{\"command\":[\"seek\",-10,\"relative\"]}"@),
        PlayerCommand::NextTrack => match adjacent {
            Some(p) => Ok(loadfile_payload(p)),
            None => Err(NavigationFailure::NoNextFile),
        },
        PlayerCommand::PrevTrack => match adjacent {
            Some(p) => Ok(loadfile_payload(p)),
            None => Err(NavigationFailure::NoPrevFile),
        },
    }
}

/// Builds the request that loads `path`.
fn build_loadfile(path: &String) -> (r: String)
    ensures
        r@ == loadfile_payload(path@),
{
    let mut out = String::from_str("{\"command\":[\"loadfile\",\"");
    let escaped = escape_json(path.as_str());
    out.append(escaped.as_str());
    out.append("\"]}");
    out
}

/// Translates a command into the exact request to send, given the
/// adjacent file the navigator resolved for a track command (`None`
/// where it resolved none; ignored for the seven fixed commands).
/// Fails exactly where a track command has no adjacent file.
pub fn translate(c: &PlayerCommand, adjacent: Option<&String>) -> (r: Result<
    String,
    NavigationFailure,
>)
    ensures
        (match r {
            Ok(p) => spec_payload(
                *c,
                match adjacent {
                    Some(a) => Some(a@),
                    None => None,
                },
            ) == Ok::<Seq<char>, NavigationFailure>(p@),
            Err(e) => spec_payload(
                *c,
                match adjacent {
                    Some(a) => Some(a@),
                    None => None,
                },
            ) == Err::<Seq<char>, NavigationFailure>(e),
        }),
{
    match c {
        PlayerCommand::Play => Ok(
            String::from_str("{\"command\":[\"set_property\",\"pause\",false]}"),
        ),
        PlayerCommand::Pause => Ok(
            String::from_str("{\"command\":[\"set_property\",\"pause\",true]}"),
        ),
        PlayerCommand::Stop => Ok(String::from_str("{\"command\":[\"quit\"]}")),
        PlayerCommand::VolumeUp => Ok(String::from_str("{\"command\":[\"add\",\"volume\",5]}")),
        PlayerCommand::VolumeDown => Ok(String::from_str("{\"command\":[\"add\",\"volume\",-5]}")),
        PlayerCommand::SeekForward => Ok(
            String::from_str("{\"command\":[\"seek\",10,\"relative\"]}"),
        ),
        PlayerCommand::SeekBackward => Ok(
            String::from_str("{\"command\":[\"seek\",-10,\"relative\"]}"),
        ),
        PlayerCommand::NextTrack => match adjacent {
            Some(p) => Ok(build_loadfile(p)),
            None => Err(NavigationFailure::NoNextFile),
        },
        PlayerCommand::PrevTrack => match adjacent {
            Some(p) => Ok(build_loadfile(p)),
            None => Err(NavigationFailure::NoPrevFile),
        },
    }
}

/// The diagnostic text a navigation failure is reported with.
pub open spec fn spec_failure_message(f: NavigationFailure) -> Seq<char> {
    match f {
        NavigationFailure::NoNextFile => "No next file found"@,
        NavigationFailure::NoPrevFile => "No previous file found"@,
    }
}

/// The diagnostic text of a navigation failure, as the boundary
/// reports it.
pub fn failure_message(f: &NavigationFailure) -> (r: String)
    ensures
        r@ == spec_failure_message(*f),
{
    match f {
        NavigationFailure::NoNextFile => String::from_str("No next file found"),
        NavigationFailure::NoPrevFile => String::from_str("No previous file found"),
    }
}

} // verus!
