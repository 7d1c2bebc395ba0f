//! The tray menu's logic: labels, which force option is ticked, what a menu
//! click does to the shared state, and the colour of the tray dot.

use vstd::prelude::*;
use crate::config::{ConfigView, Rgb};
use crate::manager::{
    Forced, Manager, State, TestCmd, forced_for, minutes_left,
};
use crate::text::{
    chars_of, decimal, decimal_chars, parse_u64, parse_u64_spec, push_chars, push_str,
    same_chars, strip_prefix,
};

verus! {

broadcast use vstd::string::group_string_axioms;

/// The durations offered under "Force busy for…", in minutes, in menu order;
/// 0 is "until I turn it off".
pub open spec fn force_minutes() -> Seq<u64> {
    seq![5u64, 15u64, 30u64, 60u64, 120u64, 0u64]
}

/// The durations offered under "Force busy for…", in menu order.
pub fn force_options() -> (res: Vec<u64>)
    ensures
        res@ == force_minutes(),
{
    let v: Vec<u64> = vec![5, 15, 30, 60, 120, 0];
    assert(v@ =~= force_minutes());
    v
}

/// The label of the quick force item for a default of `mins` minutes.
pub open spec fn quick_label_view(mins: u64) -> Seq<char> {
    if mins == 0 {
        "Force busy"@
    } else if mins % 60 == 0 {
        "Force busy ("@ + decimal((mins / 60) as nat) + " h)"@
    } else {
        "Force busy ("@ + decimal(mins as nat) + " min)"@
    }
}

/// "Force busy", "Force busy (N h)" for whole hours, or "Force busy (N min)".
pub fn quick_label(mins: u64) -> (res: String)
    ensures
        res@ == quick_label_view(mins),
{
    let mut s = String::new();
    if mins == 0 {
        push_str(&mut s, "Force busy");
    } else if mins % 60 == 0 {
        push_str(&mut s, "Force busy (");
        push_chars(&mut s, &decimal_chars(mins / 60));
        push_str(&mut s, " h)");
    } else {
        push_str(&mut s, "Force busy (");
        push_chars(&mut s, &decimal_chars(mins));
        push_str(&mut s, " min)");
    }
    s
}

/// Whether `mins` is one of the timed options of "Force busy for…".
pub open spec fn is_timed_option(mins: u64) -> bool {
    mins > 0 && force_minutes().contains(mins)
}

/// Which force option is ticked: none when not forced, 0 when forced until
/// cleared, else the option the timer was started with (none when it was
/// started with a duration that is not on the menu).
pub open spec fn force_choice(forced: Forced, now: u64) -> Option<u64> {
    match forced {
        Forced::Off => None,
        Forced::Indefinite => Some(0u64),
        Forced::Until(_, mins) => if is_timed_option(mins) {
            Some(mins)
        } else {
            None
        },
    }
}

/// Which force option is ticked at `now` (see [`force_choice`]).
pub fn current_force_choice(m: &Manager, now: u64) -> (res: Option<u64>)
    ensures
        res == force_choice(m.forced, now),
{
    match m.forced() {
        Forced::Off => None,
        Forced::Indefinite => Some(0),
        Forced::Until(_, mins) => {
            if mins == 0 {
                return None;
            }
            let opts = force_options();
            let mut k: usize = 0;
            while k < opts.len()
                invariant
                    opts@ == force_minutes(),
                    k <= opts.len(),
                    mins > 0,
                    m.forced matches Forced::Until(_, x) && x == mins,
                    forall|j: int| 0 <= j < k ==> opts@[j] != mins,
                decreases opts.len() - k,
            {
                if opts[k] == mins {
                    assert(force_minutes()[k as int] == mins);
                    assert(force_minutes().contains(mins));
                    return Some(mins);
                }
                k = k + 1;
            }
            assert(!force_minutes().contains(mins));
            None
        },
    }
}

/// The colour of the tray dot for a state.
pub open spec fn icon_colour_view(state: State) -> Seq<u8> {
    match state {
        State::Free => seq![52u8, 199u8, 89u8],
        State::Busy => seq![255u8, 59u8, 48u8],
        State::ForcedBusy => seq![255u8, 59u8, 48u8],
        State::Locked => seq![255u8, 170u8, 0u8],
        State::Paused => seq![142u8, 142u8, 147u8],
    }
}

/// The colour of the tray dot: green free, red busy or forced, amber locked,
/// grey paused.
pub fn icon_colour(state: State) -> (res: Rgb)
    ensures
        res@ == icon_colour_view(state),
{
    let c: Rgb = match state {
        State::Free => [52, 199, 89],
        State::Busy => [255, 59, 48],
        State::ForcedBusy => [255, 59, 48],
        State::Locked => [255, 170, 0],
        State::Paused => [142, 142, 147],
    };
    assert(c@ =~= icon_colour_view(state));
    c
}

/// What a tray menu item asks for.
#[derive(Clone, Copy, Debug)]
pub enum MenuCommand {
    TogglePause,
    ClearForce,
    QuickForce,
    /// One of the "Force busy for…" options, in minutes (0 = until cleared).
    ForceFor(u64),
    ToggleCamera,
    Test(TestCmd),
    Settings,
    Quit,
    /// An id this menu does not know, or a malformed force option.
    Unknown,
}

/// The command behind a menu item id.
pub open spec fn menu_command_view(id: Seq<char>) -> MenuCommand {
    if id == "pause"@ {
        MenuCommand::TogglePause
    } else if id == "force_clear"@ {
        MenuCommand::ClearForce
    } else if id == "force_quick"@ {
        MenuCommand::QuickForce
    } else if crate::text::has_prefix(id, "force_"@) {
        match parse_u64_spec(id.skip("force_"@.len() as int)) {
            Some(m) => MenuCommand::ForceFor(m),
            None => MenuCommand::Unknown,
        }
    } else if id == "camera"@ {
        MenuCommand::ToggleCamera
    } else if id == "test_red"@ {
        MenuCommand::Test(TestCmd::Colour([255u8, 0u8, 0u8]))
    } else if id == "test_green"@ {
        MenuCommand::Test(TestCmd::Colour([0u8, 255u8, 0u8]))
    } else if id == "test_blue"@ {
        MenuCommand::Test(TestCmd::Colour([0u8, 0u8, 255u8]))
    } else if id == "test_blink"@ {
        MenuCommand::Test(TestCmd::Strobe([255u8, 255u8, 0u8]))
    } else if id == "test_off"@ {
        MenuCommand::Test(TestCmd::Off)
    } else if id == "settings"@ {
        MenuCommand::Settings
    } else if id == "quit"@ {
        MenuCommand::Quit
    } else {
        MenuCommand::Unknown
    }
}

fn equals_lit(v: &Vec<char>, lit: &str) -> (res: bool)
    ensures
        res == (v@ == lit@),
{
    same_chars(v, &chars_of(lit))
}

/// The command behind a menu item id (see [`menu_command_view`]).
pub fn menu_command(id: &str) -> (res: MenuCommand)
    ensures
        res == menu_command_view(id@),
{
    let v = chars_of(id);
    if equals_lit(&v, "pause") {
        MenuCommand::TogglePause
    } else if equals_lit(&v, "force_clear") {
        MenuCommand::ClearForce
    } else if equals_lit(&v, "force_quick") {
        MenuCommand::QuickForce
    } else if let Some(rest) = strip_prefix(&v, &chars_of("force_")) {
        match parse_u64(&rest) {
            Some(m) => MenuCommand::ForceFor(m),
            None => MenuCommand::Unknown,
        }
    } else if equals_lit(&v, "camera") {
        MenuCommand::ToggleCamera
    } else if equals_lit(&v, "test_red") {
        MenuCommand::Test(TestCmd::Colour([255, 0, 0]))
    } else if equals_lit(&v, "test_green") {
        MenuCommand::Test(TestCmd::Colour([0, 255, 0]))
    } else if equals_lit(&v, "test_blue") {
        MenuCommand::Test(TestCmd::Colour([0, 0, 255]))
    } else if equals_lit(&v, "test_blink") {
        MenuCommand::Test(TestCmd::Strobe([255, 255, 0]))
    } else if equals_lit(&v, "test_off") {
        MenuCommand::Test(TestCmd::Off)
    } else if equals_lit(&v, "settings") {
        MenuCommand::Settings
    } else if equals_lit(&v, "quit") {
        MenuCommand::Quit
    } else {
        MenuCommand::Unknown
    }
}

/// What is left for the caller after a menu command has updated the shared
/// state.
#[derive(Clone, Copy, Debug, PartialEq, Eq, Structural)]
pub enum MenuEffect {
    /// Nothing more.
    Done,
    /// The config changed: save it and tell the settings window.
    SaveConfig,
    /// Bring up the settings window.
    ShowSettings,
    /// Wait for the light to go off, then exit.
    Exit,
}

/// The force-busy setting a command asks for at `now`, if it asks for one:
/// the quick item toggles the default duration; a "for…" option toggles
/// itself (clicking the option that is active turns force-busy off).
pub open spec fn requested_force(m: Manager, cmd: MenuCommand, now: u64) -> Option<Option<u64>> {
    match cmd {
        MenuCommand::ClearForce => Some(None),
        MenuCommand::QuickForce => if m.forced == Forced::Off {
            Some(Some(m.cfg.force_busy_default_minutes))
        } else {
            Some(None)
        },
        MenuCommand::ForceFor(mins) => {
            let same = (m.forced == Forced::Indefinite && mins == 0) || (mins > 0 && minutes_left(
                m.forced,
                now,
            ) is Some && force_choice(m.forced, now) == Some(mins));
            if same {
                Some(None)
            } else {
                Some(Some(mins))
            }
        },
        _ => None,
    }
}

impl Manager {
    /// The force-busy setting a command asks for (see [`requested_force`]).
    pub fn force_request(&self, cmd: MenuCommand, now: u64) -> (res: Option<Option<u64>>)
        ensures
            res == requested_force(*self, cmd, now),
    {
        match cmd {
            MenuCommand::ClearForce => Some(None),
            MenuCommand::QuickForce => if self.forced == Forced::Off {
                Some(Some(self.cfg.force_busy_default_minutes))
            } else {
                Some(None)
            },
            MenuCommand::ForceFor(mins) => {
                let same = (self.forced == Forced::Indefinite && mins == 0) || (mins > 0
                    && self.forced_minutes_left(now).is_some() && current_force_choice(self, now)
                    == Some(mins));
                if same {
                    Some(None)
                } else {
                    Some(Some(mins))
                }
            },
            _ => None,
        }
    }

    /// Carries out a menu command at `now`: pause toggles; the force items
    /// set the force mode they ask for; the camera item toggles whether the
    /// camera counts; the test items queue a test; quit starts the shutdown.
    pub fn on_menu(&mut self, cmd: MenuCommand, now: u64) -> (effect: MenuEffect)
        ensures
            match requested_force(*old(self), cmd, now) {
                Some(minutes) => final(self).forced == forced_for(minutes, now),
                None => final(self).forced == old(self).forced,
            },
            final(self).paused == (if cmd is TogglePause {
                !old(self).paused
            } else {
                old(self).paused
            }),
            cmd is ToggleCamera ==> final(self).cfg@ == (ConfigView {
                use_camera: !old(self).cfg@.use_camera,
                ..old(self).cfg@
            }),
            !(cmd is ToggleCamera) ==> final(self).cfg == old(self).cfg,
            final(self).test == match cmd {
                MenuCommand::Test(t) => Some(t),
                _ => old(self).test,
            },
            final(self).quitting == (old(self).quitting || cmd is Quit),
            final(self).status == old(self).status,
            effect == match cmd {
                MenuCommand::ToggleCamera => MenuEffect::SaveConfig,
                MenuCommand::Settings => MenuEffect::ShowSettings,
                MenuCommand::Quit => MenuEffect::Exit,
                _ => MenuEffect::Done,
            },
    {
        if let Some(minutes) = self.force_request(cmd, now) {
            self.set_forced_minutes(minutes, now);
        }
        match cmd {
            MenuCommand::TogglePause => {
                let p = !self.is_paused();
                self.set_paused(p);
                MenuEffect::Done
            },
            MenuCommand::ToggleCamera => {
                let v = !self.cfg.use_camera;
                let _ = self.set_use_camera(v);
                MenuEffect::SaveConfig
            },
            MenuCommand::Test(t) => {
                self.test(t);
                MenuEffect::Done
            },
            MenuCommand::Settings => MenuEffect::ShowSettings,
            MenuCommand::Quit => {
                self.shutdown();
                MenuEffect::Exit
            },
            _ => MenuEffect::Done,
        }
    }
}

} // verus!
