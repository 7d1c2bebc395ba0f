//! Properties that hold across the library's operations.

use vstd::prelude::*;
use crate::config::{ConfigView, sanitised_view, scale_component, within_bounds};
use crate::detect::linux::{MicSource, capture_apps_of, pulse_after_polls, source_for};
use crate::detect::windows::{display_name, entry_name, entry_names, opt_view, ConsentEntry};
use crate::config::ignores;
use crate::commands::forced_code;
use crate::layers::{file_members, layer_members, union_chain};
use crate::layers::json_layer;
use crate::light::{Link, RECONNECT_EVERY_MS, VERIFY_EVERY_MS, connect_due, report_of, verify_due};
use crate::manager::{
    DISCONNECT_GRACE_MS, Forced, Poller, State, expire, remaining, fade_due, forced_for, held,
    minutes_left, reported_connected, state_for, test_end, testing,
};
use crate::manager::{LightPoll, activity_seen, after_tested, poll_light, polls_light};
use crate::manager::{StatusView, headline_view, join, users};
use crate::text::{has_substring, occurs_at};
use crate::tray::{MenuCommand, force_choice, is_timed_option, requested_force};
use crate::manager::Manager;

verus! {

/// Pause wins over everything: while paused the light shows the paused
/// colour, whatever else holds.
pub proof fn law_pause_wins(forced: Forced, busy: bool, lock_detection: bool, locked: bool)
    ensures
        state_for(true, forced, busy, lock_detection, locked) == State::Paused,
{
}

/// Force-busy wins over everything but pause.
pub proof fn law_force_wins_unless_paused(forced: Forced, busy: bool, lock_detection: bool, locked: bool)
    requires
        forced != Forced::Off,
    ensures
        state_for(false, forced, busy, lock_detection, locked) == State::ForcedBusy,
{
}

/// Busy still wins over a locked screen: activity shows busy whether or not
/// the screen is locked.
pub proof fn law_busy_wins_over_lock(lock_detection: bool, locked: bool)
    ensures
        state_for(false, Forced::Off, true, lock_detection, locked) == State::Busy,
{
}

/// The away colour shows exactly when nothing is paused, forced or busy, lock
/// detection is on and the screen is locked; otherwise an idle machine is free.
pub proof fn law_locked_only_when_idle(
    paused: bool,
    forced: Forced,
    busy: bool,
    lock_detection: bool,
    locked: bool,
)
    ensures
        (state_for(paused, forced, busy, lock_detection, locked) == State::Locked) <==> (!paused
            && forced == Forced::Off && !busy && lock_detection && locked),
        (state_for(paused, forced, busy, lock_detection, locked) == State::Free) <==> (!paused
            && forced == Forced::Off && !busy && !(lock_detection && locked)),
{
}

/// Forcing busy for `m` minutes shows `m` minutes left at once.
pub proof fn law_force_minutes_read_back(m: u64, now: u64)
    requires
        m > 0,
    ensures
        minutes_left(forced_for(Some(m), now), now) == Some(m),
{
    let d = (now + m * 60_000) as u128;
    assert(remaining(d, now) == m * 60_000);
    assert((m * 60_000) as nat / 1000 == m * 60) by (nonlinear_arith);
    assert((m * 60 + 59) / 60 == m) by (nonlinear_arith);
}

/// A timed force ends exactly at its deadline: it is still on before, and
/// cleared from then on.
pub proof fn law_force_expires_at_deadline(m: u64, now: u64, later: u64)
    requires
        m > 0,
    ensures
        expire(forced_for(Some(m), now), later) == (if later >= now + m * 60_000 {
            Forced::Off
        } else {
            forced_for(Some(m), now)
        }),
{
}

/// Forcing until cleared never runs out, and clearing turns force-busy off.
pub proof fn law_indefinite_and_clear(now: u64, later: u64)
    ensures
        expire(forced_for(Some(0), now), later) == Forced::Indefinite,
        forced_for(None, now) == Forced::Off,
        minutes_left(Forced::Indefinite, later) is None,
{
}

/// The minutes left on a timed force never go up as time passes.
pub proof fn law_minutes_left_count_down(deadline: u128, mins: u64, t1: u64, t2: u64)
    requires
        t1 <= t2,
    ensures
        minutes_left(Forced::Until(deadline, mins), t2)->0 <= minutes_left(Forced::Until(deadline, mins), t1)->0,
{
    let a = remaining(deadline, t1);
    let b = remaining(deadline, t2);
    assert(b <= a);
    assert(b / 1000 <= a / 1000) by (nonlinear_arith)
        requires
            b <= a,
    ;
    assert((b / 1000 + 59) / 60 <= (a / 1000 + 59) / 60) by (nonlinear_arith)
        requires
            b / 1000 <= a / 1000,
    ;
}

/// Activity keeps the state busy for the hold time: seen at `t`, it still
/// counts strictly before `t + hold_ms` and no longer from then on.
pub proof fn law_hold_time(t: u64, now: u64, hold_ms: u64)
    requires
        t <= now,
    ensures
        held(Some(t), now, hold_ms) <==> now < t + hold_ms,
        !held(None, now, hold_ms),
{
}

/// A missing light is still reported as connected for the grace period, and
/// reported missing once it has been gone that long.
pub proof fn law_disconnect_grace(since: u64, now: u64)
    requires
        since <= now,
    ensures
        reported_connected(false, Some(since), now) <==> now < since + DISCONNECT_GRACE_MS,
        reported_connected(true, Some(since), now),
        reported_connected(false, None, now),
{
}

/// The light is written only when its colour changes: once a fade to a
/// colour succeeded, no further fade to the same colour is due; after a
/// reconnection (which forgets the colour) it is due again.
pub proof fn law_fade_only_on_change(p: Poller, now: u64, connected: bool, colour: [u8; 3])
    ensures
        !fade_due(Poller { last_colour: Some(colour), ..p }, now, connected, colour@),
        !testing(p.test_until, now) && connected ==> fade_due(
            Poller { last_colour: None, ..p },
            now,
            connected,
            colour@,
        ),
{
}

/// A test command holds the light for its duration: from a successful test
/// at `now` lasting `secs` seconds, no fade is due before `now + secs * 1000`.
pub proof fn law_test_holds_light(p: Poller, now: u64, secs: u64, later: u64, connected: bool, colour: [u8; 3])
    requires
        now <= later,
        later < now + secs * 1000,
    ensures
        !fade_due(Poller { test_until: Some(test_end(now, secs)), ..p }, later, connected, colour@),
{
}

/// Holding the settings to their bounds is idempotent and leaves settings
/// that are already in bounds unchanged.
pub proof fn law_sanitised_idempotent(c: ConfigView)
    ensures
        within_bounds(sanitised_view(c)),
        sanitised_view(sanitised_view(c)) == sanitised_view(c),
        within_bounds(c) ==> sanitised_view(c) == c,
{
}

/// At full brightness colours are unchanged; at any brightness up to 100 a
/// component never gets brighter.
pub proof fn law_brightness(c: u8, brightness: u8)
    ensures
        scale_component(c, 100) == c,
        brightness <= 100 ==> scale_component(c, brightness) <= c,
{
    assert(c as u32 * 100 / 100 == c as u32) by (nonlinear_arith);
    if brightness <= 100 {
        assert(c as u32 * brightness as u32 / 100 <= c as u32) by (nonlinear_arith)
            requires
                brightness <= 100,
        ;
    }
}

/// Every report sent to the flag is nine bytes with report id 0 first.
pub proof fn law_report_shape(payload: Seq<u8>)
    requires
        payload.len() <= 8,
    ensures
        report_of(payload).len() == 9,
        report_of(payload)[0] == 0,
        forall|i: int| 0 <= i < payload.len() ==> report_of(payload)[i + 1] == payload[i],
{
}

/// Reconnection attempts are rate limited: after an attempt at `t`, an
/// unforced attempt is not due again until two seconds have passed.
pub proof fn law_reconnect_rate_limited(l: Link, t: u64, now: u64)
    requires
        l.last_attempt == Some(t),
        t <= now < t + 2000,
    ensures
        !connect_due(l, false, false, now),
        connect_due(l, false, true, now),
        !connect_due(l, true, true, now),
{
}

/// The consent store reports only apps in use right now: an entry whose
/// `LastUsedTimeStop` is not 0 contributes nothing.
pub proof fn law_consent_only_active(apps: Seq<Seq<char>>, entries: Seq<ConsentEntry>, e: ConsentEntry)
    requires
        e.last_used_stop != Some(0u64),
    ensures
        entry_names(apps, entries.push(e)) == entry_names(apps, entries),
{
    assert(entries.push(e).drop_last() =~= entries);
    assert(entry_name(apps, e) is None);
}

/// Monitor and corked streams are excluded: a stream that is corked, or that
/// captures from a monitor source, contributes no app.
pub proof fn law_monitor_and_corked_excluded(
    rs: Seq<(Option<u64>, Option<bool>, Option<Seq<char>>)>,
    r: (Option<u64>, Option<bool>, Option<Seq<char>>),
    monitors: Set<u64>,
    ignore: Seq<Seq<char>>,
)
    requires
        r.1 == Some(true) || (r.0 matches Some(s) && monitors.contains(s)),
    ensures
        capture_apps_of(rs.push(r), monitors, ignore) == capture_apps_of(rs, monitors, ignore),
{
    assert(rs.push(r).drop_last() =~= rs);
}

/// Precedence of the config layers: a key the user's config sets takes the
/// user's value; otherwise a key the machine-wide defaults set takes theirs;
/// otherwise the built-in default stands.
pub proof fn law_layer_precedence(
    defaults: Map<Seq<char>, Seq<char>>,
    system: Map<Seq<char>, Seq<char>>,
    user: Map<Seq<char>, Seq<char>>,
    k: Seq<char>,
)
    ensures
        user.dom().contains(k) ==> union_chain(defaults, system, user)[k] == user[k],
        !user.dom().contains(k) && system.dom().contains(k) ==> union_chain(
            defaults,
            system,
            user,
        )[k] == system[k],
        !user.dom().contains(k) && !system.dom().contains(k) ==> (union_chain(
            defaults,
            system,
            user,
        ).dom().contains(k) <==> defaults.dom().contains(k)) && (defaults.dom().contains(k)
            ==> union_chain(defaults, system, user)[k] == defaults[k]),
{
}

/// The ticked force option is the one the timer was started with: forcing
/// for one of the offered durations keeps that duration ticked for as long as
/// the force lasts; forcing until cleared ticks "until I turn it off"; nothing
/// is ticked when not forced.
pub proof fn law_force_choice_is_started_option(o: u64, now: u64, later: u64)
    requires
        is_timed_option(o),
    ensures
        force_choice(forced_for(Some(o), now), later) == Some(o),
        force_choice(forced_for(Some(0), now), later) == Some(0u64),
        force_choice(Forced::Off, later) is None,
{
}

/// The quick force item toggles: when not forced, it forces for the default
/// duration `d` (until cleared when `d` is 0), with `d` minutes left at once;
/// clicking it again, at any later time, clears the force.
pub proof fn law_quick_force_toggles(m: Manager, now: u64, later: u64)
    requires
        m.forced == Forced::Off,
    ensures
        requested_force(m, MenuCommand::QuickForce, now) == Some(
            Some(m.cfg.force_busy_default_minutes),
        ),
        m.cfg.force_busy_default_minutes == 0 ==> forced_for(
            Some(m.cfg.force_busy_default_minutes),
            now,
        ) == Forced::Indefinite,
        m.cfg.force_busy_default_minutes > 0 ==> forced_for(
            Some(m.cfg.force_busy_default_minutes),
            now,
        ) is Until && minutes_left(forced_for(Some(m.cfg.force_busy_default_minutes), now), now)
            == Some(m.cfg.force_busy_default_minutes),
        requested_force(
            Manager { forced: forced_for(Some(m.cfg.force_busy_default_minutes), now), ..m },
            MenuCommand::QuickForce,
            later,
        ) == Some(None::<u64>),
{
    let d = m.cfg.force_busy_default_minutes;
    if d > 0 {
        law_force_minutes_read_back(d, now);
    }
}

/// Clicking the force option that is active turns force-busy off: "until I
/// turn it off" while forced indefinitely, or the duration a running timer
/// was started with, at any time while it runs. Clicking another option, or
/// any option when not forced, forces for that option, with its full
/// duration left at once.
pub proof fn law_active_option_turns_off(m: Manager, o: u64, t: u64, now: u64)
    ensures
        m.forced == Forced::Indefinite ==> requested_force(m, MenuCommand::ForceFor(0), now)
            == Some(None::<u64>),
        m.forced == Forced::Indefinite && o > 0 ==> requested_force(
            m,
            MenuCommand::ForceFor(o),
            now,
        ) == Some(Some(o)),
        is_timed_option(o) && m.forced == forced_for(Some(o), t)
            ==> requested_force(m, MenuCommand::ForceFor(o), now) == Some(None::<u64>),
        m.forced == Forced::Off ==> requested_force(m, MenuCommand::ForceFor(o), now) == Some(
            Some(o),
        ),
        o > 0 ==> minutes_left(forced_for(Some(o), now), now)
            == Some(o),
{
    if o > 0 {
        law_force_minutes_read_back(o, now);
    }
}

proof fn lemma_occurs_in_prefix(a: Seq<char>, b: Seq<char>, p: Seq<char>, k: int)
    requires
        occurs_at(a, p, k),
    ensures
        occurs_at(a + b, p, k),
{
    assert((a + b).subrange(k, k + p.len()) =~= a.subrange(k, k + p.len()));
}

proof fn lemma_occurs_after(a: Seq<char>, b: Seq<char>, p: Seq<char>, k: int)
    requires
        occurs_at(b, p, k),
    ensures
        occurs_at(a + b, p, a.len() + k),
{
    assert((a + b).subrange(a.len() + k, a.len() + k + p.len()) =~= b.subrange(k, k + p.len()));
}

proof fn lemma_join_contains(list: Seq<Seq<char>>, sep: Seq<char>, i: int)
    requires
        0 <= i < list.len(),
    ensures
        has_substring(join(list, sep), list[i]),
    decreases list.len(),
{
    if list.len() == 1 {
        assert(occurs_at(join(list, sep), list[0], 0)) by {
            assert(join(list, sep).subrange(0, list[0].len() as int) =~= list[0]);
        }
    } else {
        let p = list.drop_last();
        let front = join(p, sep) + sep;
        if i == list.len() - 1 {
            assert(occurs_at(list.last(), list.last(), 0)) by {
                assert(list.last().subrange(0, list.last().len() as int) =~= list.last());
            }
            lemma_occurs_after(front, list.last(), list.last(), 0);
        } else {
            lemma_join_contains(p, sep, i);
            assert(p[i] == list[i]);
            let k = choose|k: int| occurs_at(join(p, sep), p[i], k);
            lemma_occurs_in_prefix(join(p, sep), sep, p[i], k);
            lemma_occurs_in_prefix(front, list.last(), p[i], k);
        }
    }
}

/// The status line names everyone who is capturing: while busy, every
/// microphone and camera user appears in it.
pub proof fn law_headline_names_users(st: StatusView, i: int)
    requires
        st.state == State::Busy,
        0 <= i < users(st).len(),
    ensures
        has_substring(headline_view(st), users(st)[i]),
{
    lemma_join_contains(users(st), ", "@, i);
    let j = join(users(st), ", "@);
    let k = choose|k: int| occurs_at(j, users(st)[i], k);
    lemma_occurs_after("Busy: "@, j, users(st)[i], k);
    if !st.light_connected {
        lemma_occurs_in_prefix(
            "Busy: "@ + j,
            " · No Luxafor Flag found, plug it in"@,
            users(st)[i],
            "Busy: "@.len() + k,
        );
    }
}

/// Once `pactl` has failed, the microphone is read from ALSA for good: from a
/// failed poll on, whatever later polls bring, `pactl` no longer counts as
/// working and the ALSA fallback is the source asked.
pub proof fn law_alsa_fallback_is_final(pulse_ok: bool, answers: Seq<bool>, i: int)
    requires
        0 <= i < answers.len(),
        !answers[i],
    ensures
        !pulse_after_polls(pulse_ok, answers),
        source_for(pulse_after_polls(pulse_ok, answers)) == MicSource::Alsa,
        !pulse_after_polls(false, answers),
{
    lemma_pulse_stays_off(pulse_ok, answers, i);
    lemma_pulse_stays_off(false, answers, i);
}

proof fn lemma_pulse_stays_off(pulse_ok: bool, answers: Seq<bool>, i: int)
    requires
        0 <= i < answers.len(),
        !answers[i],
    ensures
        !pulse_after_polls(pulse_ok, answers),
    decreases answers.len(),
{
    if i < answers.len() - 1 {
        lemma_pulse_stays_off(pulse_ok, answers.drop_last(), i);
    }
}

/// While `pactl` answers every poll, it stays the source asked.
pub proof fn law_pulse_kept_while_answering(answers: Seq<bool>)
    requires
        forall|j: int| 0 <= j < answers.len() ==> answers[j],
    ensures
        pulse_after_polls(true, answers),
        source_for(pulse_after_polls(true, answers)) == MicSource::Pulse,
    decreases answers.len(),
{
    if answers.len() > 0 {
        law_pulse_kept_while_answering(answers.drop_last());
    }
}

/// A test command owns the light for its duration, across polls: once the
/// light took a test at `t` lasting `secs` seconds, no poll before
/// `t + secs * 1000` fades the state colour in (whatever the state, the
/// connection and the fades' outcomes), and the first poll from then on with
/// the light connected fades the state colour in, even where it is the
/// colour shown before the test.
pub proof fn law_test_owns_light_over_polls(
    p0: Poller,
    t: u64,
    secs: u64,
    q0: LightPoll,
    qs: Seq<LightPoll>,
    q: LightPoll,
)
    requires
        q0.now == t,
        secs > 0,
        forall|i: int| 0 <= i < qs.len() ==> t <= #[trigger] qs[i].now < t + secs * 1000,
        q.now >= t + secs * 1000,
        q.connected,
    ensures
        !fade_due(after_tested(p0, Some(true), t, secs), t, q0.connected, q0.colour@),
        forall|i: int|
            0 <= i < qs.len() ==> !fade_due(
                #[trigger] polls_light(poll_light(p0, Some(true), secs, q0), secs, qs.take(i)),
                qs[i].now,
                qs[i].connected,
                qs[i].colour@,
            ),
        fade_due(
            polls_light(poll_light(p0, Some(true), secs, q0), secs, qs),
            q.now,
            q.connected,
            q.colour@,
        ),
{
    let p1 = poll_light(p0, Some(true), secs, q0);
    assert(p1.test_until == Some(test_end(t, secs)) && p1.last_colour is None);
    assert forall|n: int| 0 <= n <= qs.len() implies polls_light(p1, secs, #[trigger] qs.take(n)).test_until
        == Some(test_end(t, secs)) && polls_light(p1, secs, qs.take(n)).last_colour is None by {
        lemma_held_through(p1, t, secs, qs, n);
    }
    assert(qs.take(qs.len() as int) =~= qs);
}

proof fn lemma_held_through(p1: Poller, t: u64, secs: u64, qs: Seq<LightPoll>, n: int)
    requires
        0 <= n <= qs.len(),
        p1.test_until == Some(test_end(t, secs)),
        p1.last_colour is None,
        forall|i: int| 0 <= i < qs.len() ==> t <= #[trigger] qs[i].now < t + secs * 1000,
    ensures
        polls_light(p1, secs, qs.take(n)).test_until == Some(test_end(t, secs)),
        polls_light(p1, secs, qs.take(n)).last_colour is None,
    decreases n,
{
    if n > 0 {
        lemma_held_through(p1, t, secs, qs, n - 1);
        assert(qs.take(n).drop_last() =~= qs.take(n - 1));
        assert(qs.take(n).last() == qs[n - 1]);
        assert(t <= qs[n - 1].now < t + secs * 1000);
    }
}

/// An unplugged flag is noticed and then looked for on schedule. While it
/// still counts as open, a presence check is due at every poll at least
/// [`VERIFY_EVERY_MS`] after the unplug (the last check having come before
/// it), so it is found gone within that time plus one poll interval. Once it
/// was found gone, or an attempt to open it was made, at `at`, the next
/// attempt is due exactly from [`RECONNECT_EVERY_MS`] later.
pub proof fn law_unplug_noticed_and_retried(l: Link, unplug: u64, now: u64, at: u64, later: u64)
    ensures
        (match l.last_verify {
            Some(v) => v <= unplug,
            None => true,
        }) && now >= unplug + VERIFY_EVERY_MS ==> verify_due(l, true, now),
        at <= later ==> (connect_due(Link { last_attempt: Some(at), ..l }, false, false, later)
            <==> later >= at + RECONNECT_EVERY_MS),
{
}

/// A saved config reads back whatever the machine-wide defaults hold: when
/// the user's file is an object that sets every key of the built-in
/// defaults, the merged settings take each of those keys from the user's
/// file.
pub proof fn law_saved_config_wins(defaults: Seq<char>, system: Option<Seq<char>>, user: Seq<char>, k: Seq<char>)
    requires
        layer_members(json_layer(defaults)).dom().subset_of(layer_members(json_layer(user)).dom()),
        layer_members(json_layer(defaults)).dom().contains(k),
    ensures
        union_chain(
            layer_members(json_layer(defaults)),
            file_members(system),
            file_members(Some(user)),
        )[k] == layer_members(json_layer(user))[k],
{
}

/// A microphone in use is activity whether or not cameras are watched; with
/// no microphone in use, a camera in use is activity exactly when cameras are
/// watched, and nothing in use is no activity.
pub proof fn law_activity_from_devices(use_camera: bool, mic: Seq<String>, cam: Seq<String>)
    ensures
        mic.len() > 0 ==> activity_seen(use_camera, mic, cam),
        mic.len() == 0 && use_camera && cam.len() > 0 ==> activity_seen(use_camera, mic, cam),
        mic.len() == 0 && !use_camera ==> !activity_seen(use_camera, mic, cam),
        mic.len() == 0 && cam.len() == 0 ==> !activity_seen(use_camera, mic, cam),
{
}

/// While a timer started for one of the offered durations `p` runs (or after
/// it ran out, until it is cleared), clicking another offered duration `o`
/// switches the force to `o`, and clicking "until I turn it off" switches to
/// forcing until cleared; only the option the timer was started with clears.
pub proof fn law_other_option_switches(m: Manager, o: u64, p: u64, t: u64, now: u64)
    requires
        is_timed_option(o),
        is_timed_option(p),
        o != p,
        m.forced == forced_for(Some(p), t),
    ensures
        requested_force(m, MenuCommand::ForceFor(o), now) == Some(Some(o)),
        requested_force(m, MenuCommand::ForceFor(0), now) == Some(Some(0u64)),
        requested_force(m, MenuCommand::ForceFor(p), now) == Some(None::<u64>),
{
}

/// An entry of the consent store that the ignore list names, by its key
/// (the package or executable name) or by the name it is shown under,
/// contributes nothing; an entry not in use contributes nothing; an entry in
/// use that neither name matches contributes its shown name.
pub proof fn law_ignored_entry_contributes_nothing(
    apps: Seq<Seq<char>>,
    entries: Seq<ConsentEntry>,
    e: ConsentEntry,
)
    ensures
        ignores(apps, e.key@) ==> entry_names(apps, entries.push(e)) == entry_names(apps, entries),
        ignores(apps, display_name(e.key@, opt_view(e.product))) ==> entry_names(
            apps,
            entries.push(e),
        ) == entry_names(apps, entries),
        e.last_used_stop != Some(0u64) ==> entry_names(apps, entries.push(e)) == entry_names(
            apps,
            entries,
        ),
        e.last_used_stop == Some(0u64) && !ignores(apps, e.key@) && !ignores(
            apps,
            display_name(e.key@, opt_view(e.product)),
        ) ==> entry_names(apps, entries.push(e)) == entry_names(apps, entries).push(
            display_name(e.key@, opt_view(e.product)),
        ),
{
    assert(entries.push(e).drop_last() =~= entries);
}

/// The settings window counts a timed force down: `k` whole minutes into a
/// force for `m` minutes it shows `m - k` minutes left; it shows -1 when not
/// forced and 0 when forced until cleared.
pub proof fn law_controls_count_down(m: u64, t: u64, k: u64, now: u64)
    requires
        m > 0,
        k <= m,
        m <= i64::MAX,
        t + k * 60_000 <= u64::MAX,
    ensures
        forced_code(forced_for(Some(m), t), (t + k * 60_000) as u64) == (m - k) as i64,
        forced_code(Forced::Off, now) == -1i64,
        forced_code(Forced::Indefinite, now) == 0i64,
{
    let at = (t + k * 60_000) as u64;
    let d = (t + m * 60_000) as u128;
    assert(m * 60_000 >= k * 60_000) by (nonlinear_arith)
        requires
            k <= m,
    ;
    assert(remaining(d, at) == (m - k) * 60_000) by (nonlinear_arith)
        requires
            d == t + m * 60_000,
            at == t + k * 60_000,
            m * 60_000 >= k * 60_000,
            remaining(d, at) == (if d > at { (d - at) as nat } else { 0nat }),
    ;
    assert(((m - k) * 60_000) as nat / 1000 == (m - k) * 60) by (nonlinear_arith)
        requires
            k <= m,
    ;
    assert(((m - k) * 60 + 59) / 60 == m - k) by (nonlinear_arith)
        requires
            k <= m,
    ;
}

/// The light is faded whenever the state colour differs from the colour last
/// sent (in any component), no test holds it and it is connected; never to
/// the colour it already shows.
pub proof fn law_fade_when_colour_differs(p: Poller, now: u64, connected: bool, c: [u8; 3], colour: Seq<u8>)
    ensures
        !testing(p.test_until, now) && connected && c@ != colour ==> fade_due(
            Poller { last_colour: Some(c), ..p },
            now,
            connected,
            colour,
        ),
        c@ == colour ==> !fade_due(Poller { last_colour: Some(c), ..p }, now, connected, colour),
        testing(p.test_until, now) || !connected ==> !fade_due(p, now, connected, colour),
{
}

/// While a force for `m` minutes started at `t` runs, the minutes shown as
/// left are the whole seconds left rounded up to whole minutes: never fewer
/// than the seconds left cover, and one fewer would not cover them.
pub proof fn law_minutes_left_round_up(m: u64, t: u64, now: u64)
    requires
        m > 0,
        t <= now <= t + m * 60_000,
    ensures
        minutes_left(forced_for(Some(m), t), now) matches Some(r) && r * 60 >= (t + m * 60_000
            - now) / 1000 && (r == 0 || (r - 1) * 60 < (t + m * 60_000 - now) / 1000),
{
    let d = (t + m * 60_000) as u128;
    let secs: int = (t + m * 60_000 - now) / 1000;
    assert(remaining(d, now) == t + m * 60_000 - now);
    assert(secs <= m * 60) by (nonlinear_arith)
        requires
            secs == (t + m * 60_000 - now) / 1000,
            t <= now,
    ;
    let r: int = (secs + 59) / 60;
    assert(r <= m) by (nonlinear_arith)
        requires
            r == (secs + 59) / 60,
            secs <= m * 60,
            0 <= secs,
    ;
    assert(r * 60 >= secs && (r == 0 || (r - 1) * 60 < secs)) by (nonlinear_arith)
        requires
            r == (secs + 59) / 60,
            0 <= secs,
    ;
}

} // verus!
