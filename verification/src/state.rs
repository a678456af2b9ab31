//! The shared cache of last-known player state.
//!
//! A single [`MediaState`] record holds the paused flag and the volume
//! level.  A refresh updates the two fields independently: each field
//! moves to a freshly observed value where its query produced one, and
//! keeps its previous value where the query failed — a refresh never
//! tears the record or resets a field to its default.

use vstd::prelude::*;
use crate::response::json_data_bool;
use crate::response::read_data_bool;
use crate::text::append_digit_char;
use crate::text::digit_char;

verus! {

/// Last-known player state: the paused flag and the volume level.
pub struct MediaState {
    pub paused: bool,
    pub volume: i32,
}

/// The paused flag after one refresh: the `data` boolean of the pause
/// query's response line where the query returned one, and the previous
/// flag where the query failed or its line carried no boolean.
pub open spec fn refreshed_paused(prev: bool, line: Option<Seq<char>>) -> bool {
    match line {
        Some(l) => match json_data_bool(l) {
            Some(p) => p,
            None => prev,
        },
        None => prev,
    }
}

impl MediaState {
    /// The state a fresh cache starts from: paused, at volume 50.
    pub fn new() -> (s: Self)
        ensures
            s.paused == true,
            s.volume == 50,
    {
        MediaState { paused: true, volume: 50 }
    }

    /// One refresh step over already-extracted observations.  Each field
    /// is updated independently: it takes the observed value where one
    /// is given and keeps its previous value where none is — the two
    /// fields never reset together and the record is never torn.
    pub fn apply_refresh(&mut self, paused: Option<bool>, volume: Option<i32>)
        ensures
            final(self).paused == match paused {
                Some(p) => p,
                None => old(self).paused,
            },
            final(self).volume == match volume {
                Some(v) => v,
                None => old(self).volume,
            },
    {
        match paused {
            Some(p) => self.paused = p,
            None => {}
        }
        match volume {
            Some(v) => self.volume = v,
            None => {}
        }
    }

    /// One full refresh.  `pause_line` is the response line of the pause
    /// query, absent where the round trip failed; the boolean is read
    /// out of it here.  `volume` is the already-read volume observation:
    /// the player reports volume as a floating-point number, so the
    /// surrounding program reads it from its response line and hands the
    /// integer over.
    pub fn refresh(&mut self, pause_line: Option<&String>, volume: Option<i32>)
        ensures
            final(self).paused == refreshed_paused(
                old(self).paused,
                match pause_line {
                    Some(l) => Some(l@),
                    None => None,
                },
            ),
            final(self).volume == match volume {
                Some(v) => v,
                None => old(self).volume,
            },
    {
        let observed: Option<bool> = match pause_line {
            Some(l) => read_data_bool(l.as_str()),
            None => None,
        };
        self.apply_refresh(observed, volume);
    }
}

/// The decimal digits of `n`, most significant first.
pub open spec fn dec_digits(n: nat) -> Seq<char>
    decreases n,
{
    if n < 10 {
        seq![digit_char(n as int)]
    } else {
        dec_digits(n / 10) + seq![digit_char((n % 10) as int)]
    }
}

/// The decimal text of `v`, with a leading minus sign when negative.
pub open spec fn dec_str(v: int) -> Seq<char> {
    if v < 0 {
        seq!['-'] + dec_digits((-v) as nat)
    } else {
        dec_digits(v as nat)
    }
}

/// Appends the decimal digits of `n`.
fn push_digits(out: &mut String, n: u32)
    ensures
        final(out)@ == old(out)@ + dec_digits(n as nat),
    decreases n,
{
    if n < 10 {
        append_digit_char(out, n);
    } else {
        push_digits(out, n / 10);
        append_digit_char(out, n % 10);
        proof {
            assert(final(out)@ =~= old(out)@ + dec_digits(n as nat));
        }
    }
}

/// The status line the background poller emits each interval.
pub open spec fn spec_status_line(paused: bool, volume: int) -> Seq<char> {
    "Video Status = "@ + (if paused {
        "Paused"@
    } else {
        "Playing"@
    }) + " : Volume = "@ + dec_str(volume)
}

/// Renders the human-readable status line for one poll of the cache:
/// `Video Status = <Playing|Paused> : Volume = <n>`.
pub fn status_line(paused: bool, volume: i32) -> (r: String)
    ensures
        r@ == spec_status_line(paused, volume as int),
{
    let mut out = String::from_str("Video Status = ");
    if paused {
        out.append("Paused");
    } else {
        out.append("Playing");
    }
    out.append(" : Volume = ");
    if volume < 0 {
        proof {
            reveal_strlit("-");
        }
        out.append("-");
        proof {
            assert("-"@ =~= seq!['-']);
        }
        let magnitude = (-(volume as i64)) as u32;
        push_digits(&mut out, magnitude);
    } else {
        push_digits(&mut out, volume as u32);
    }
    proof {
        assert(out@ =~= spec_status_line(paused, volume as int));
    }
    out
}

} // verus!
