//! The free/busy state machine: which state the light shows, the force-busy
//! timer, the hold time after activity, the light's connection grace period,
//! and the status line shown in the tray.
//!
//! Time is a monotonic clock in milliseconds, supplied by the caller.

use vstd::prelude::*;
use crate::config::{Config, ConfigView, Rgb, copy_strings, scaled_view, string_views};
use crate::text::{decimal, decimal_chars, push_chars, push_str};

verus! {

broadcast use vstd::string::group_string_axioms;

/// What the light shows.
#[derive(Clone, Copy, PartialEq, Eq, Debug, Structural)]
pub enum State {
    Free,
    Busy,
    ForcedBusy,
    Locked,
    Paused,
}

/// Force-busy mode: not forced, forced until cleared, or forced until a
/// deadline on the millisecond clock (held wide enough for any number of
/// minutes from any time), for the number of minutes it was started with.
#[derive(Clone, Copy, PartialEq, Eq, Debug, Structural)]
pub enum Forced {
    Off,
    Indefinite,
    Until(u128, u64),
}

/// A request from the settings window or tray to show something on the light.
#[derive(Clone, Copy, Debug)]
pub enum TestCmd {
    Colour(Rgb),
    Strobe(Rgb),
    Off,
}

/// What the settings window and tray show.
#[derive(Clone, Debug, PartialEq)]
pub struct Status {
    pub state: State,
    /// Devices or apps using the microphone.
    pub mic: Vec<String>,
    /// Devices or apps using the camera.
    pub cam: Vec<String>,
    pub light_connected: bool,
    /// Minutes left on a timed force-busy (None = no timer).
    pub forced_minutes_left: Option<u64>,
}

/// The mathematical value of a [`Status`].
pub struct StatusView {
    pub state: State,
    pub mic: Seq<Seq<char>>,
    pub cam: Seq<Seq<char>>,
    pub light_connected: bool,
    pub forced_minutes_left: Option<u64>,
}

impl View for Status {
    type V = StatusView;

    open spec fn view(&self) -> StatusView {
        StatusView {
            state: self.state,
            mic: string_views(self.mic@),
            cam: string_views(self.cam@),
            light_connected: self.light_connected,
            forced_minutes_left: self.forced_minutes_left,
        }
    }
}

/// Whether two lists of strings hold the same strings in the same order.
pub fn same_strings(a: &Vec<String>, b: &Vec<String>) -> (res: bool)
    ensures
        res == (string_views(a@) == string_views(b@)),
{
    if a.len() != b.len() {
        assert(string_views(a@).len() != string_views(b@).len());
        return false;
    }
    let mut i: usize = 0;
    while i < a.len()
        invariant
            a.len() == b.len(),
            i <= a.len(),
            forall|j: int| 0 <= j < i ==> a@[j]@ == b@[j]@,
        decreases a.len() - i,
    {
        if a[i] != b[i] {
            assert(string_views(a@)[i as int] != string_views(b@)[i as int]);
            return false;
        }
        i = i + 1;
    }
    assert(string_views(a@) =~= string_views(b@));
    true
}

/// The names of everything capturing: microphone users, then camera users.
pub open spec fn users(st: StatusView) -> Seq<Seq<char>> {
    st.mic + st.cam
}

/// `list` joined with `sep` between consecutive items.
pub open spec fn join(list: Seq<Seq<char>>, sep: Seq<char>) -> Seq<char>
    decreases list.len(),
{
    if list.len() == 0 {
        Seq::empty()
    } else if list.len() == 1 {
        list[0]
    } else {
        join(list.drop_last(), sep) + sep + list.last()
    }
}

/// The status line without the note about a missing light.
pub open spec fn state_line(st: StatusView) -> Seq<char> {
    match st.state {
        State::Free => "Free"@,
        State::Busy => if users(st).len() == 0 {
            "Busy"@
        } else {
            "Busy: "@ + join(users(st), ", "@)
        },
        State::ForcedBusy => match st.forced_minutes_left {
            Some(m) => "Busy (forced, "@ + decimal(m as nat) + " min left)"@,
            None => "Busy (forced)"@,
        },
        State::Locked => "Away (screen locked)"@,
        State::Paused => "Paused"@,
    }
}

/// The status line shown in the tray and the settings window.
pub open spec fn headline_view(st: StatusView) -> Seq<char> {
    if st.light_connected {
        state_line(st)
    } else {
        state_line(st) + " · No Luxafor Flag found, plug it in"@
    }
}

/// Appends `list` joined by ", " to `out`.
fn push_joined(out: &mut String, list: &Vec<String>, first: bool) -> (now_first: bool)
    ensures
        first ==> final(out)@ == old(out)@ + join(string_views(list@), ", "@),
        !first ==> final(out)@ == old(out)@ + (if list@.len() == 0 {
            Seq::<char>::empty()
        } else {
            ", "@ + join(string_views(list@), ", "@)
        }),
        now_first == (first && list@.len() == 0),
{
    let ghost start = out@;
    let ghost views = string_views(list@);
    let mut first_now = first;
    let mut i: usize = 0;
    while i < list.len()
        invariant
            i <= list.len(),
            views == string_views(list@),
            first_now == (first && i == 0),
            i > 0 && first ==> out@ == start + join(views.take(i as int), ", "@),
            i > 0 && !first ==> out@ == start + ", "@ + join(views.take(i as int), ", "@),
            i == 0 ==> out@ == start,
        decreases list.len() - i,
    {
        let ghost before = out@;
        if !first_now {
            push_str(out, ", ");
        }
        push_str(out, list[i].as_str());
        proof {
            let t = views.take(i + 1);
            assert(t.drop_last() =~= views.take(i as int));
            assert(t.last() == views[i as int]);
            if i > 0 {
                assert(join(t, ", "@) == join(views.take(i as int), ", "@) + ", "@ + views[i as int]);
            } else {
                assert(join(t, ", "@) == views[0]);
            }
        }
        first_now = false;
        i = i + 1;
    }
    assert(views.take(list.len() as int) =~= views);
    first_now
}

impl Default for Status {
    /// The status before the first poll: free, nobody capturing, light not
    /// connected, no timer.
    fn default() -> (s: Self)
        ensures
            s@.state == State::Free,
            s@.mic == Seq::<Seq<char>>::empty(),
            s@.cam == Seq::<Seq<char>>::empty(),
            !s@.light_connected,
            s@.forced_minutes_left is None,
    {
        let s = Status {
            state: State::Free,
            mic: Vec::new(),
            cam: Vec::new(),
            light_connected: false,
            forced_minutes_left: None,
        };
        assert(s@.mic =~= Seq::<Seq<char>>::empty());
        assert(s@.cam =~= Seq::<Seq<char>>::empty());
        s
    }
}

impl Status {
    /// A copy of this status.
    pub fn copy(&self) -> (res: Self)
        ensures
            res@ == self@,
    {
        Status {
            state: self.state,
            mic: copy_strings(&self.mic),
            cam: copy_strings(&self.cam),
            light_connected: self.light_connected,
            forced_minutes_left: self.forced_minutes_left,
        }
    }

    /// Whether two statuses are equal field by field.
    pub fn same_as(&self, other: &Status) -> (res: bool)
        ensures
            res == (self@ == other@),
    {
        let r = self.state == other.state && same_strings(&self.mic, &other.mic) && same_strings(
            &self.cam,
            &other.cam,
        ) && self.light_connected == other.light_connected && self.forced_minutes_left
            == other.forced_minutes_left;
        if r {
            assert(self@ =~= other@);
        }
        r
    }

    /// The one-line description: "Free", "Busy", "Busy: " and the capturing
    /// apps joined by ", ", "Busy (forced)" or "Busy (forced, N min left)",
    /// "Away (screen locked)" or "Paused", followed by a note when no light is
    /// connected.
    pub fn headline(&self) -> (res: String)
        ensures
            res@ == headline_view(self@),
    {
        let mut s = String::new();
        match self.state {
            State::Free => push_str(&mut s, "Free"),
            State::Busy => {
                if self.mic.len() == 0 && self.cam.len() == 0 {
                    push_str(&mut s, "Busy");
                } else {
                    push_str(&mut s, "Busy: ");
                    let ghost after_prefix = s@;
                    let f = push_joined(&mut s, &self.mic, true);
                    let ghost after_mic = s@;
                    let _ = push_joined(&mut s, &self.cam, f);
                    proof {
                        lemma_join_append(self@.mic, self@.cam, ", "@);
                        assert(users(self@) == self@.mic + self@.cam);
                        if self@.mic.len() == 0 {
                            assert(self@.mic + self@.cam =~= self@.cam);
                        }
                        if self@.cam.len() == 0 {
                            assert(self@.mic + self@.cam =~= self@.mic);
                        }
                        assert(s@ == "Busy: "@ + join(users(self@), ", "@));
                    }
                }
            },
            State::ForcedBusy => {
                match self.forced_minutes_left {
                    Some(m) => {
                        push_str(&mut s, "Busy (forced, ");
                        let d = decimal_chars(m);
                        push_chars(&mut s, &d);
                        push_str(&mut s, " min left)");
                    },
                    None => push_str(&mut s, "Busy (forced)"),
                }
            },
            State::Locked => push_str(&mut s, "Away (screen locked)"),
            State::Paused => push_str(&mut s, "Paused"),
        }
        assert(s@ =~= state_line(self@));
        if !self.light_connected {
            push_str(&mut s, " · No Luxafor Flag found, plug it in");
        }
        s
    }
}

/// Joining two non-empty lists is joining each and putting the separator between.
pub proof fn lemma_join_append(a: Seq<Seq<char>>, b: Seq<Seq<char>>, sep: Seq<char>)
    ensures
        a.len() > 0 && b.len() > 0 ==> join(a + b, sep) == join(a, sep) + sep + join(b, sep),
    decreases b.len(),
{
    if a.len() > 0 && b.len() > 0 {
        if b.len() == 1 {
            assert((a + b).drop_last() =~= a);
            assert((a + b).last() == b[0]);
        } else {
            lemma_join_append(a, b.drop_last(), sep);
            assert((a + b).drop_last() =~= a + b.drop_last());
            assert((a + b).last() == b.last());
        }
    }
}

// ---------------------------------------------------------------------------
// Timing rules
// ---------------------------------------------------------------------------

/// Milliseconds from `earlier` to `later`, or 0 if `later` is not after it
/// (`Instant::saturating_duration_since`).
pub open spec fn elapsed(later: u64, earlier: u64) -> nat {
    if later >= earlier {
        (later - earlier) as nat
    } else {
        0
    }
}

/// `later - earlier`, or 0 if `later` comes first.
pub fn elapsed_ms(later: u64, earlier: u64) -> (r: u64)
    ensures
        r == elapsed(later, earlier),
{
    if later >= earlier {
        later - earlier
    } else {
        0
    }
}

/// How long a missing light is still reported as connected, so that a USB
/// re-enumeration blip does not flash the tray icon.
pub const DISCONNECT_GRACE_MS: u64 = 3_000;

/// How long `shutdown` waits for the light to be switched off.
pub const SHUTDOWN_WAIT_MS: u64 = 1_500;

/// The force-busy mode that `set_forced_minutes(minutes)` selects at `now`:
/// `None` clears it, `Some(0)` forces until cleared, `Some(m)` forces for `m`
/// minutes.
pub open spec fn forced_for(minutes: Option<u64>, now: u64) -> Forced {
    match minutes {
        None => Forced::Off,
        Some(m) => if m == 0 {
            Forced::Indefinite
        } else {
            Forced::Until((now + m * 60_000) as u128, m)
        },
    }
}

/// Milliseconds from `now` to `deadline`, or 0 once it has come.
pub open spec fn remaining(deadline: u128, now: u64) -> nat {
    if deadline > now {
        (deadline - now) as nat
    } else {
        0
    }
}

/// `v`, or `u64::MAX` where it does not fit.
pub open spec fn capped(v: nat) -> u64 {
    if v <= u64::MAX {
        v as u64
    } else {
        u64::MAX
    }
}

/// Whole minutes left on a timed force at `now`, rounded up from whole
/// seconds (at most `u64::MAX`); `None` unless the force is timed.
pub open spec fn minutes_left(f: Forced, now: u64) -> Option<u64> {
    match f {
        Forced::Until(t, _) => Some(capped((remaining(t, now) / 1000 + 59) / 60)),
        _ => None,
    }
}

/// A timed force whose deadline has come is cleared; anything else stays.
pub open spec fn expire(f: Forced, now: u64) -> Forced {
    match f {
        Forced::Until(t, _) => if now >= t {
            Forced::Off
        } else {
            f
        },
        _ => f,
    }
}

/// The state the light shows. Pause wins over everything, then force-busy,
/// then real activity (or its hold time), then the locked screen when lock
/// detection is on; otherwise free.
pub open spec fn state_for(
    paused: bool,
    forced: Forced,
    busy: bool,
    lock_detection: bool,
    locked: bool,
) -> State {
    if paused {
        State::Paused
    } else if forced != Forced::Off {
        State::ForcedBusy
    } else if busy {
        State::Busy
    } else if lock_detection && locked {
        State::Locked
    } else {
        State::Free
    }
}

/// Whether the screen lock is consulted at all for this decision.
pub open spec fn lock_matters(paused: bool, forced: Forced, busy: bool, lock_detection: bool) -> bool {
    !paused && forced == Forced::Off && !busy && lock_detection
}

/// The configured colour for a state, scaled by brightness.
pub open spec fn colour_for(cfg: ConfigView, state: State) -> Seq<u8> {
    scaled_view(
        match state {
            State::Free => cfg.free_colour,
            State::Busy => cfg.busy_colour,
            State::ForcedBusy => cfg.busy_colour,
            State::Locked => cfg.locked_colour,
            State::Paused => cfg.paused_colour,
        },
        cfg.brightness,
    )
}

/// The state for the given inputs (see [`state_for`]).
pub fn decide_state(
    paused: bool,
    forced: Forced,
    busy: bool,
    lock_detection: bool,
    locked: bool,
) -> (s: State)
    ensures
        s == state_for(paused, forced, busy, lock_detection, locked),
{
    if paused {
        State::Paused
    } else if forced != Forced::Off {
        State::ForcedBusy
    } else if busy {
        State::Busy
    } else if lock_detection && locked {
        State::Locked
    } else {
        State::Free
    }
}

/// Whether the decision depends on the screen lock, so that it has to be
/// queried.
pub fn needs_lock_query(paused: bool, forced: Forced, busy: bool, lock_detection: bool) -> (r: bool)
    ensures
        r == lock_matters(paused, forced, busy, lock_detection),
        !r ==> forall|a: bool, b: bool|
            state_for(paused, forced, busy, lock_detection, a) == state_for(
                paused,
                forced,
                busy,
                lock_detection,
                b,
            ),
{
    !paused && forced == Forced::Off && !busy && lock_detection
}

impl Config {
    /// The colour the light shows in `state`, scaled by brightness.
    pub fn colour_for(&self, state: State) -> (res: Rgb)
        ensures
            res@ == colour_for(self@, state),
    {
        let base = match state {
            State::Free => self.free_colour,
            State::Busy => self.busy_colour,
            State::ForcedBusy => self.busy_colour,
            State::Locked => self.locked_colour,
            State::Paused => self.paused_colour,
        };
        self.scaled(base)
    }
}

// ---------------------------------------------------------------------------
// Shared state
// ---------------------------------------------------------------------------

/// How long the poll thread waits before restarting after its `restarts`-th
/// crash: that many seconds, at most 30.
pub fn restart_delay_secs(restarts: u32) -> (secs: u64)
    ensures
        secs == (if restarts < 30 {
            restarts as u64
        } else {
            30u64
        }),
{
    if restarts < 30 {
        restarts as u64
    } else {
        30
    }
}

/// The state shared between the poll loop, the tray and the settings window.
pub struct Manager {
    pub cfg: Config,
    pub status: Status,
    pub paused: bool,
    pub forced: Forced,
    pub quitting: bool,
    pub test: Option<TestCmd>,
}

impl Manager {
    /// The shared state at start-up: the given config, the initial status,
    /// not paused, not forced, no pending test.
    pub fn start(cfg: Config) -> (m: Self)
        ensures
            m.cfg == cfg,
            m.status@.state == State::Free,
            m.status@.mic.len() == 0,
            m.status@.cam.len() == 0,
            !m.status@.light_connected,
            m.status@.forced_minutes_left is None,
            !m.paused,
            m.forced == Forced::Off,
            !m.quitting,
            m.test is None,
    {
        Manager {
            cfg,
            status: Status::default(),
            paused: false,
            forced: Forced::Off,
            quitting: false,
            test: None,
        }
    }

    /// A copy of the current config.
    pub fn config(&self) -> (res: Config)
        ensures
            res@ == self.cfg@,
    {
        self.cfg.copy()
    }

    /// Replaces the config.
    pub fn set_config(&mut self, cfg: Config)
        ensures
            final(self).cfg == cfg,
            final(self).status == old(self).status,
            final(self).paused == old(self).paused,
            final(self).forced == old(self).forced,
            final(self).quitting == old(self).quitting,
            final(self).test == old(self).test,
    {
        self.cfg = cfg;
    }

    /// A copy of the current status.
    pub fn status(&self) -> (res: Status)
        ensures
            res@ == self.status@,
    {
        self.status.copy()
    }

    /// Whether the light is paused.
    pub fn is_paused(&self) -> (res: bool)
        ensures
            res == self.paused,
    {
        self.paused
    }

    /// Pauses or resumes.
    pub fn set_paused(&mut self, v: bool)
        ensures
            final(self).paused == v,
            final(self).cfg == old(self).cfg,
            final(self).status == old(self).status,
            final(self).forced == old(self).forced,
            final(self).quitting == old(self).quitting,
            final(self).test == old(self).test,
    {
        self.paused = v;
    }

    /// The force-busy mode.
    pub fn forced(&self) -> (res: Forced)
        ensures
            res == self.forced,
    {
        self.forced
    }

    /// `None` clears; `Some(0)` forces until cleared; `Some(n)` forces for n
    /// minutes from `now`.
    pub fn set_forced_minutes(&mut self, minutes: Option<u64>, now: u64)
        ensures
            final(self).forced == forced_for(minutes, now),
            final(self).cfg == old(self).cfg,
            final(self).status == old(self).status,
            final(self).paused == old(self).paused,
            final(self).quitting == old(self).quitting,
            final(self).test == old(self).test,
    {
        self.forced = match minutes {
            None => Forced::Off,
            Some(m) => if m == 0 {
                Forced::Indefinite
            } else {
                assert(m as u128 * 60_000 <= u64::MAX as u128 * 60_000) by (nonlinear_arith)
                    requires
                        m <= u64::MAX,
                ;
                Forced::Until(now as u128 + m as u128 * 60_000, m)
            },
        };
    }

    /// Minutes remaining at `now` on a timed force (rounded up), if any.
    pub fn forced_minutes_left(&self, now: u64) -> (res: Option<u64>)
        ensures
            res == minutes_left(self.forced, now),
    {
        match self.forced {
            Forced::Until(t, _) => {
                let left: u128 = if t > now as u128 {
                    t - now as u128
                } else {
                    0
                };
                let mins: u128 = (left / 1000 + 59) / 60;
                if mins <= u64::MAX as u128 {
                    Some(mins as u64)
                } else {
                    Some(u64::MAX)
                }
            },
            _ => None,
        }
    }

    /// Sets whether camera use counts as busy; returns the new config.
    pub fn set_use_camera(&mut self, v: bool) -> (res: Config)
        ensures
            final(self).cfg@ == (ConfigView { use_camera: v, ..old(self).cfg@ }),
            res@ == final(self).cfg@,
            final(self).status == old(self).status,
            final(self).paused == old(self).paused,
            final(self).forced == old(self).forced,
            final(self).quitting == old(self).quitting,
            final(self).test == old(self).test,
    {
        self.cfg.use_camera = v;
        self.cfg.copy()
    }

    /// Queues a test command for the light.
    pub fn test(&mut self, cmd: TestCmd)
        ensures
            final(self).test == Some(cmd),
            final(self).cfg == old(self).cfg,
            final(self).status == old(self).status,
            final(self).paused == old(self).paused,
            final(self).forced == old(self).forced,
            final(self).quitting == old(self).quitting,
    {
        self.test = Some(cmd);
    }

    /// Takes the queued test command, if any.
    pub fn take_test(&mut self) -> (res: Option<TestCmd>)
        ensures
            res == old(self).test,
            final(self).test is None,
            final(self).cfg == old(self).cfg,
            final(self).status == old(self).status,
            final(self).paused == old(self).paused,
            final(self).forced == old(self).forced,
            final(self).quitting == old(self).quitting,
    {
        let t = self.test;
        self.test = None;
        t
    }

    /// Asks the poll loop to switch the light off and stop.
    pub fn shutdown(&mut self)
        ensures
            final(self).quitting,
            final(self).cfg == old(self).cfg,
            final(self).status == old(self).status,
            final(self).paused == old(self).paused,
            final(self).forced == old(self).forced,
            final(self).test == old(self).test,
    {
        self.quitting = true;
    }

    /// Whether a shutdown that began `waited_ms` ago should keep waiting for
    /// the poll loop to report the light off.
    pub fn awaiting_light_off(&self, waited_ms: u64) -> (res: bool)
        ensures
            res == (self.status.light_connected && waited_ms < SHUTDOWN_WAIT_MS),
    {
        self.status.light_connected && waited_ms < SHUTDOWN_WAIT_MS
    }

    /// Records that the poll loop switched the light off on its way out.
    pub fn mark_light_off(&mut self)
        ensures
            final(self).status@ == (StatusView { light_connected: false, ..old(self).status@ }),
            final(self).cfg == old(self).cfg,
            final(self).paused == old(self).paused,
            final(self).forced == old(self).forced,
            final(self).quitting == old(self).quitting,
            final(self).test == old(self).test,
    {
        self.status.light_connected = false;
    }

    /// Clears a timed force whose deadline has come.
    pub fn expire_forced(&mut self, now: u64)
        ensures
            final(self).forced == expire(old(self).forced, now),
            final(self).cfg == old(self).cfg,
            final(self).status == old(self).status,
            final(self).paused == old(self).paused,
            final(self).quitting == old(self).quitting,
            final(self).test == old(self).test,
    {
        if let Forced::Until(t, _) = self.forced {
            if now as u128 >= t {
                self.forced = Forced::Off;
            }
        }
    }

    /// Stores a freshly computed status; returns whether it differs from the
    /// previous one (and so has to be published).
    pub fn publish(&mut self, status: Status) -> (changed: bool)
        ensures
            changed == (old(self).status@ != status@),
            final(self).status@ == status@,
            final(self).cfg == old(self).cfg,
            final(self).paused == old(self).paused,
            final(self).forced == old(self).forced,
            final(self).quitting == old(self).quitting,
            final(self).test == old(self).test,
    {
        if self.status.same_as(&status) {
            false
        } else {
            self.status = status;
            true
        }
    }
}

// ---------------------------------------------------------------------------
// The poll loop's own memory
// ---------------------------------------------------------------------------

/// What the poll loop remembers between iterations.
pub struct Poller {
    /// When activity was last seen.
    pub last_busy: Option<u64>,
    /// The colour last sent to the light, if it is known to show it.
    pub last_colour: Option<Rgb>,
    /// Until when a test command owns the light.
    pub test_until: Option<u128>,
    /// Since when the light has been missing.
    pub missing_since: Option<u64>,
}

/// Activity at `last_busy` still counts at `now`.
pub open spec fn held(last_busy: Option<u64>, now: u64, hold_ms: u64) -> bool {
    match last_busy {
        Some(t) => elapsed(now, t) < hold_ms,
        None => false,
    }
}

/// A test command started a hold on the light that has not run out at `now`.
pub open spec fn testing(test_until: Option<u128>, now: u64) -> bool {
    match test_until {
        Some(t) => now < t,
        None => false,
    }
}

/// The light is not known to show `colour`.
pub open spec fn colour_stale(last: Option<Rgb>, colour: Seq<u8>) -> bool {
    match last {
        Some(c) => c@ != colour,
        None => true,
    }
}

/// A fade is due: no test holds the light, the light is connected, and it is
/// not known to show the colour already.
pub open spec fn fade_due(p: Poller, now: u64, connected: bool, colour: Seq<u8>) -> bool {
    !testing(p.test_until, now) && connected && colour_stale(p.last_colour, colour)
}

/// The end of a test hold of `secs` seconds started at `now`.
pub open spec fn test_end(now: u64, secs: u64) -> u128 {
    (now + secs * 1000) as u128
}

/// Whether the light counts as connected: it is, or it has been missing for
/// less than the grace period.
pub open spec fn reported_connected(connected: bool, missing_since: Option<u64>, now: u64) -> bool {
    connected || match missing_since {
        Some(t) => elapsed(now, t) < DISCONNECT_GRACE_MS,
        None => true,
    }
}

impl Poller {
    /// Nothing seen yet.
    pub fn new() -> (p: Self)
        ensures
            p.last_busy is None,
            p.last_colour is None,
            p.test_until is None,
            p.missing_since is None,
    {
        Poller { last_busy: None, last_colour: None, test_until: None, missing_since: None }
    }

    /// Records this poll's detection result: activity moves `last_busy` to `now`.
    pub fn note_activity(&mut self, raw_busy: bool, now: u64)
        ensures
            final(self).last_busy == (if raw_busy {
                Some(now)
            } else {
                old(self).last_busy
            }),
            final(self).last_colour == old(self).last_colour,
            final(self).test_until == old(self).test_until,
            final(self).missing_since == old(self).missing_since,
    {
        if raw_busy {
            self.last_busy = Some(now);
        }
    }

    /// Whether the last activity is less than `hold_ms` old at `now`.
    pub fn held(&self, now: u64, hold_ms: u64) -> (res: bool)
        ensures
            res == held(self.last_busy, now, hold_ms),
    {
        match self.last_busy {
            Some(t) => elapsed_ms(now, t) < hold_ms,
            None => false,
        }
    }

    /// After a (re)connection the light's colour is unknown.
    pub fn on_connection(&mut self, reconnected: bool)
        ensures
            final(self).last_colour == (if reconnected {
                None
            } else {
                old(self).last_colour
            }),
            final(self).last_busy == old(self).last_busy,
            final(self).test_until == old(self).test_until,
            final(self).missing_since == old(self).missing_since,
    {
        if reconnected {
            self.last_colour = None;
        }
    }

    /// After a test command: if the light took it, it is held for
    /// `test_duration_s` seconds and its colour is unknown afterwards.
    pub fn after_test(&mut self, ok: bool, now: u64, test_duration_s: u64)
        ensures
            ok ==> final(self).test_until == Some(test_end(now, test_duration_s)),
            ok ==> final(self).last_colour is None,
            !ok ==> final(self).test_until == old(self).test_until,
            !ok ==> final(self).last_colour == old(self).last_colour,
            final(self).last_busy == old(self).last_busy,
            final(self).missing_since == old(self).missing_since,
    {
        if ok {
            assert(test_duration_s as u128 * 1000 <= u64::MAX as u128 * 1000) by (nonlinear_arith)
                requires
                    test_duration_s <= u64::MAX,
            ;
            self.test_until = Some(now as u128 + test_duration_s as u128 * 1000);
            self.last_colour = None;
        }
    }

    /// Whether a test command still holds the light at `now`.
    pub fn testing(&self, now: u64) -> (res: bool)
        ensures
            res == testing(self.test_until, now),
    {
        match self.test_until {
            Some(t) => (now as u128) < t,
            None => false,
        }
    }

    /// Whether to fade the light to `colour` now.
    pub fn wants_fade(&self, now: u64, connected: bool, colour: Rgb) -> (res: bool)
        ensures
            res == fade_due(*self, now, connected, colour@),
    {
        let stale = match self.last_colour {
            Some(c) => c[0] != colour[0] || c[1] != colour[1] || c[2] != colour[2],
            None => true,
        };
        proof {
            if let Some(c) = self.last_colour {
                if !stale {
                    assert(c@ =~= colour@);
                } else {
                    assert(c@ != colour@) by {
                        if c[0] != colour[0] {
                            assert(c@[0] != colour@[0]);
                        } else if c[1] != colour[1] {
                            assert(c@[1] != colour@[1]);
                        } else {
                            assert(c@[2] != colour@[2]);
                        }
                    }
                }
            }
        }
        !self.testing(now) && connected && stale
    }

    /// After a fade: if the light took it, it is known to show `colour`.
    pub fn after_fade(&mut self, ok: bool, colour: Rgb)
        ensures
            final(self).last_colour == (if ok {
                Some(colour)
            } else {
                old(self).last_colour
            }),
            final(self).last_busy == old(self).last_busy,
            final(self).test_until == old(self).test_until,
            final(self).missing_since == old(self).missing_since,
    {
        if ok {
            self.last_colour = Some(colour);
        }
    }

    /// Whether to report the light as connected at `now`; a missing light is
    /// reported only once it has been gone for the grace period.
    pub fn report_connected(&mut self, connected: bool, now: u64) -> (res: bool)
        ensures
            res == reported_connected(connected, old(self).missing_since, now),
            final(self).missing_since == (if connected {
                None
            } else {
                match old(self).missing_since {
                    Some(t) => Some(t),
                    None => Some(now),
                }
            }),
            final(self).last_busy == old(self).last_busy,
            final(self).last_colour == old(self).last_colour,
            final(self).test_until == old(self).test_until,
    {
        if connected {
            self.missing_since = None;
            true
        } else {
            let since = match self.missing_since {
                Some(t) => t,
                None => {
                    self.missing_since = Some(now);
                    now
                },
            };
            elapsed_ms(now, since) < DISCONNECT_GRACE_MS
        }
    }
}

/// The poller after this poll's test command, if one was sent: `Some(ok)`
/// with whether the light took it.
pub open spec fn after_tested(p: Poller, tested: Option<bool>, now: u64, secs: u64) -> Poller {
    match tested {
        Some(true) => Poller { test_until: Some(test_end(now, secs)), last_colour: None, ..p },
        _ => p,
    }
}

/// The poller after a fade to `colour`, if one was sent: `Some(ok)` with
/// whether the light took it.
pub open spec fn after_faded(p: Poller, faded: Option<bool>, colour: Rgb) -> Poller {
    match faded {
        Some(true) => Poller { last_colour: Some(colour), ..p },
        _ => p,
    }
}

/// The poller after the light's presence is reported at `now`.
pub open spec fn after_report(p: Poller, connected: bool, now: u64) -> Poller {
    Poller {
        missing_since: if connected {
            None
        } else {
            match p.missing_since {
                Some(t) => Some(t),
                None => Some(now),
            }
        },
        ..p
    }
}

/// What the light did during one poll that sent no test command: whether it
/// was connected when the fade was decided, the state colour, whether a fade
/// (if one was sent) was taken, and whether it was connected when reported.
pub struct LightPoll {
    pub now: u64,
    pub connected: bool,
    pub colour: Rgb,
    pub fade_ok: bool,
    pub connected_after: bool,
}

/// The poller after one poll, in the poll's order: the test command (if one
/// was sent), then a fade when one is due, then the presence report.
pub open spec fn poll_light(p: Poller, tested: Option<bool>, secs: u64, q: LightPoll) -> Poller {
    let p1 = after_tested(p, tested, q.now, secs);
    let p2 = if fade_due(p1, q.now, q.connected, q.colour@) {
        after_faded(p1, Some(q.fade_ok), q.colour)
    } else {
        p1
    };
    after_report(p2, q.connected_after, q.now)
}

/// The poller after a run of polls that sent no test command.
pub open spec fn polls_light(p: Poller, secs: u64, qs: Seq<LightPoll>) -> Poller
    decreases qs.len(),
{
    if qs.len() == 0 {
        p
    } else {
        poll_light(polls_light(p, secs, qs.drop_last()), None, secs, qs.last())
    }
}

impl Poller {
    /// The light's part of a poll, up to the fade: records the test command
    /// sent this poll, if any (`Some(ok)` with whether the light took it),
    /// and says whether the state colour is to be faded in now; a test that
    /// the light took holds it, so no fade follows in the same poll.
    pub fn plan_fade(&mut self, tested: Option<bool>, now: u64, connected: bool, colour: Rgb, test_duration_s: u64) -> (fade: bool)
        ensures
            *final(self) == after_tested(*old(self), tested, now, test_duration_s),
            fade == fade_due(*final(self), now, connected, colour@),
    {
        if let Some(ok) = tested {
            self.after_test(ok, now, test_duration_s);
        }
        self.wants_fade(now, connected, colour)
    }

    /// The rest of the poll: records the fade, if one was sent (`Some(ok)`
    /// with whether the light took it), and returns whether the light is to
    /// be reported connected.
    pub fn finish_poll(&mut self, faded: Option<bool>, colour: Rgb, connected: bool, now: u64) -> (reported: bool)
        ensures
            *final(self) == after_report(after_faded(*old(self), faded, colour), connected, now),
            reported == reported_connected(connected, old(self).missing_since, now),
    {
        if let Some(ok) = faded {
            self.after_fade(ok, colour);
        }
        self.report_connected(connected, now)
    }
}

/// What one poll has established before the screen lock is consulted.
pub struct Observation {
    pub paused: bool,
    /// The force mode after a timed force whose deadline has come is cleared.
    pub forced: Forced,
    pub forced_minutes_left: Option<u64>,
    /// Activity now, or within the hold time.
    pub busy: bool,
    /// Whether the state depends on the screen lock.
    pub needs_lock: bool,
}

/// Whether the detectors' answers count as activity: a microphone in use, or
/// a camera in use while the configuration watches cameras.
pub open spec fn activity_seen(use_camera: bool, mic: Seq<String>, cam: Seq<String>) -> bool {
    mic.len() > 0 || (use_camera && cam.len() > 0)
}

impl Manager {
    /// The first half of a poll at `now`, after the detectors answered with
    /// the apps using a microphone (`mic`) and a camera (`cam`), under the
    /// configuration `cfg` taken at the start of the poll: records the
    /// activity, clears an expired force, and reports whether the state is
    /// busy (activity now, or seen less than `busy_hold_ms` before `hold_now`)
    /// and whether the screen lock matters.
    pub fn observe(
        &mut self,
        poller: &mut Poller,
        cfg: &Config,
        now: u64,
        mic: &Vec<String>,
        cam: &Vec<String>,
        hold_now: u64,
    ) -> (obs: Observation)
        ensures
            final(poller).last_busy == (if activity_seen(cfg.use_camera, mic@, cam@) {
                Some(now)
            } else {
                old(poller).last_busy
            }),
            final(poller).last_colour == old(poller).last_colour,
            final(poller).test_until == old(poller).test_until,
            final(poller).missing_since == old(poller).missing_since,
            final(self).forced == expire(old(self).forced, now),
            final(self).cfg == old(self).cfg,
            final(self).status == old(self).status,
            final(self).paused == old(self).paused,
            final(self).quitting == old(self).quitting,
            final(self).test == old(self).test,
            obs.paused == old(self).paused,
            obs.forced == final(self).forced,
            obs.forced_minutes_left == minutes_left(final(self).forced, now),
            obs.busy == (activity_seen(cfg.use_camera, mic@, cam@) || held(
                final(poller).last_busy,
                hold_now,
                cfg.busy_hold_ms,
            )),
            obs.needs_lock == lock_matters(obs.paused, obs.forced, obs.busy, cfg.lock_detection),
            mic@.len() > 0 ==> obs.busy && final(poller).last_busy == Some(now),
            !cfg.use_camera ==> obs.busy == (mic@.len() > 0 || held(
                final(poller).last_busy,
                hold_now,
                cfg.busy_hold_ms,
            )),
    {
        let raw_busy = mic.len() > 0 || (cfg.use_camera && cam.len() > 0);
        poller.note_activity(raw_busy, now);
        let held_now = poller.held(hold_now, cfg.busy_hold_ms);
        self.expire_forced(now);
        let busy = raw_busy || held_now;
        let forced = self.forced;
        Observation {
            paused: self.paused,
            forced,
            forced_minutes_left: self.forced_minutes_left(now),
            busy,
            needs_lock: needs_lock_query(self.paused, forced, busy, cfg.lock_detection),
        }
    }

    /// The second half of the decision: the state to show and its colour
    /// under the configuration `cfg` of the poll, given whether the screen is
    /// locked (ignored unless it matters).
    pub fn settle(&self, cfg: &Config, obs: &Observation, locked: bool) -> (res: (State, Rgb))
        ensures
            res.0 == state_for(obs.paused, obs.forced, obs.busy, cfg.lock_detection, locked),
            res.1@ == colour_for(cfg@, res.0),
    {
        let state = decide_state(obs.paused, obs.forced, obs.busy, cfg.lock_detection, locked);
        (state, cfg.colour_for(state))
    }
}

} // verus!
