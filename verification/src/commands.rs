//! What the settings window's commands decide.

use vstd::prelude::*;
use crate::config::Rgb;
use crate::manager::{Forced, Manager, TestCmd, minutes_left};
use crate::text::{chars_of, same_chars};

verus! {

broadcast use vstd::string::group_string_axioms;

/// The pause and force-busy controls as the settings window shows them.
pub struct Controls {
    pub paused: bool,
    /// -1 off, 0 until cleared, n minutes left.
    pub forced: i64,
}

/// The force-busy code shown to the settings window: -1 when off, 0 when
/// forced until cleared, else the minutes left (1 if unknown).
pub open spec fn forced_code(forced: Forced, now: u64) -> i64 {
    match forced {
        Forced::Off => -1i64,
        Forced::Indefinite => 0i64,
        Forced::Until(_, _) => match minutes_left(forced, now) {
            Some(m) => m as i64,
            None => 1i64,
        },
    }
}

impl Manager {
    /// The controls at `now`.
    pub fn controls(&self, now: u64) -> (res: Controls)
        ensures
            res.paused == self.paused,
            res.forced == forced_code(self.forced, now),
            self.forced is Until ==> res.forced == minutes_left(self.forced, now)->0 as i64,
            self.forced == Forced::Off ==> res.forced == -1,
            self.forced == Forced::Indefinite ==> res.forced == 0,
    {
        let forced = match self.forced() {
            Forced::Off => -1i64,
            Forced::Indefinite => 0i64,
            Forced::Until(_, _) => match self.forced_minutes_left(now) {
                Some(m) => m as i64,
                None => 1i64,
            },
        };
        Controls { paused: self.is_paused(), forced }
    }
}

/// The test command for a request from the settings window: "blink" strobes,
/// "off" switches off, anything else shows the colour; white when no colour
/// is given.
pub open spec fn test_command_view(kind: Seq<char>, colour: Option<Rgb>) -> TestCmd {
    let c = match colour {
        Some(c) => c,
        None => [255u8, 255u8, 255u8],
    };
    if kind == "blink"@ {
        TestCmd::Strobe(c)
    } else if kind == "off"@ {
        TestCmd::Off
    } else {
        TestCmd::Colour(c)
    }
}

/// The test command for a request from the settings window (see
/// [`test_command_view`]).
pub fn test_command(kind: &str, colour: Option<Rgb>) -> (res: TestCmd)
    ensures
        res == test_command_view(kind@, colour),
{
    let c = match colour {
        Some(c) => c,
        None => [255, 255, 255],
    };
    let k = chars_of(kind);
    if same_chars(&k, &chars_of("blink")) {
        TestCmd::Strobe(c)
    } else if same_chars(&k, &chars_of("off")) {
        TestCmd::Off
    } else {
        TestCmd::Colour(c)
    }
}

} // verus!
