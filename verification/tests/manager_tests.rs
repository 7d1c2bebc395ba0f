use busyflag::commands::test_command;
use busyflag::config::Config;
use busyflag::manager::{
    decide_state, needs_lock_query, restart_delay_secs, Forced, Manager, Poller, State, Status, TestCmd,
};

fn status(state: State, mic: &[&str], cam: &[&str], connected: bool, left: Option<u64>) -> Status {
    Status {
        state,
        mic: mic.iter().map(|s| s.to_string()).collect(),
        cam: cam.iter().map(|s| s.to_string()).collect(),
        light_connected: connected,
        forced_minutes_left: left,
    }
}

#[test]
fn headline_free() {
    assert_eq!(status(State::Free, &[], &[], true, None).headline(), "Free");
}

#[test]
fn headline_busy_without_names() {
    assert_eq!(status(State::Busy, &[], &[], true, None).headline(), "Busy");
}

#[test]
fn headline_busy_lists_mic_then_camera_users() {
    let s = status(State::Busy, &["zoom.us", "Chrome"], &["FaceTime HD Camera"], true, None);
    assert_eq!(s.headline(), "Busy: zoom.us, Chrome, FaceTime HD Camera");
    let s = status(State::Busy, &[], &["Camera"], true, None);
    assert_eq!(s.headline(), "Busy: Camera");
}

#[test]
fn headline_forced_with_and_without_timer() {
    assert_eq!(status(State::ForcedBusy, &[], &[], true, Some(25)).headline(), "Busy (forced, 25 min left)");
    assert_eq!(status(State::ForcedBusy, &[], &[], true, None).headline(), "Busy (forced)");
}

#[test]
fn headline_locked_and_paused() {
    assert_eq!(status(State::Locked, &[], &[], true, None).headline(), "Away (screen locked)");
    assert_eq!(status(State::Paused, &[], &[], true, None).headline(), "Paused");
}

#[test]
fn headline_notes_missing_light() {
    assert_eq!(
        status(State::Free, &[], &[], false, None).headline(),
        "Free · No Luxafor Flag found, plug it in"
    );
}

#[test]
fn status_default_is_free_and_disconnected() {
    let s = Status::default();
    assert_eq!(s.state, State::Free);
    assert!(s.mic.is_empty() && s.cam.is_empty());
    assert!(!s.light_connected);
    assert_eq!(s.forced_minutes_left, None);
}

#[test]
fn state_priority_order() {
    assert_eq!(decide_state(true, Forced::Indefinite, true, true, true), State::Paused);
    assert_eq!(decide_state(false, Forced::Until(5, 1), true, true, true), State::ForcedBusy);
    assert_eq!(decide_state(false, Forced::Off, true, true, true), State::Busy);
    assert_eq!(decide_state(false, Forced::Off, false, true, true), State::Locked);
    assert_eq!(decide_state(false, Forced::Off, false, false, true), State::Free);
    assert_eq!(decide_state(false, Forced::Off, false, true, false), State::Free);
}

#[test]
fn lock_is_queried_only_when_it_matters() {
    assert!(needs_lock_query(false, Forced::Off, false, true));
    assert!(!needs_lock_query(false, Forced::Off, false, false));
    assert!(!needs_lock_query(false, Forced::Off, true, true));
    assert!(!needs_lock_query(true, Forced::Off, false, true));
    assert!(!needs_lock_query(false, Forced::Indefinite, false, true));
}

#[test]
fn forced_minutes_set_and_read_back() {
    let mut m = Manager::start(Config::default());
    m.set_forced_minutes(Some(5), 1_000);
    assert_eq!(m.forced(), Forced::Until(301_000, 5));
    assert_eq!(m.forced_minutes_left(1_000), Some(5));
    // 61 s later 239 s remain, rounded up to 4 minutes.
    assert_eq!(m.forced_minutes_left(62_000), Some(4));
    // past the deadline: 0
    assert_eq!(m.forced_minutes_left(400_000), Some(0));
}

#[test]
fn forced_zero_is_until_cleared_and_none_clears() {
    let mut m = Manager::start(Config::default());
    m.set_forced_minutes(Some(0), 10);
    assert_eq!(m.forced(), Forced::Indefinite);
    assert_eq!(m.forced_minutes_left(10), None);
    m.set_forced_minutes(None, 20);
    assert_eq!(m.forced(), Forced::Off);
}

#[test]
fn forced_expires_at_deadline() {
    let mut m = Manager::start(Config::default());
    m.set_forced_minutes(Some(1), 0);
    m.expire_forced(59_999);
    assert_eq!(m.forced(), Forced::Until(60_000, 1));
    m.expire_forced(60_000);
    assert_eq!(m.forced(), Forced::Off);
}

#[test]
fn manager_setters_and_test_queue() {
    let mut m = Manager::start(Config::default());
    assert!(!m.is_paused());
    m.set_paused(true);
    assert!(m.is_paused());
    let c = m.set_use_camera(true);
    assert!(c.use_camera);
    assert!(m.config().use_camera);
    m.test(TestCmd::Off);
    assert!(matches!(m.take_test(), Some(TestCmd::Off)));
    assert!(m.take_test().is_none());
    let mut other = Config::default();
    other.brightness = 3;
    m.set_config(other);
    assert_eq!(m.config().brightness, 3);
}

#[test]
fn publish_reports_changes_only() {
    let mut m = Manager::start(Config::default());
    let s = status(State::Busy, &["zoom"], &[], true, None);
    assert!(m.publish(s.clone()));
    assert!(!m.publish(s.clone()));
    assert_eq!(m.status(), s);
    assert!(m.publish(status(State::Busy, &["zoom", "teams"], &[], true, None)));
}

#[test]
fn shutdown_waits_for_light_off_up_to_limit() {
    let mut m = Manager::start(Config::default());
    m.shutdown();
    assert!(m.quitting);
    m.publish(status(State::Free, &[], &[], true, None));
    assert!(m.awaiting_light_off(0));
    assert!(!m.awaiting_light_off(1_500));
    m.mark_light_off();
    assert!(!m.awaiting_light_off(0));
}

#[test]
fn poller_hold_time() {
    let mut p = Poller::new();
    assert!(!p.held(0, 2_000));
    p.note_activity(true, 10_000);
    assert!(p.held(10_000, 2_000));
    assert!(p.held(11_999, 2_000));
    assert!(!p.held(12_000, 2_000));
    p.note_activity(false, 13_000);
    assert_eq!(p.last_busy, Some(10_000));
}

#[test]
fn poller_fades_only_on_colour_change() {
    let mut p = Poller::new();
    assert!(p.wants_fade(0, true, [255, 0, 0]));
    assert!(!p.wants_fade(0, false, [255, 0, 0]));
    p.after_fade(true, [255, 0, 0]);
    assert!(!p.wants_fade(1, true, [255, 0, 0]));
    assert!(p.wants_fade(1, true, [0, 255, 0]));
    p.after_fade(false, [0, 255, 0]);
    assert_eq!(p.last_colour, Some([255, 0, 0]));
    p.on_connection(true);
    assert!(p.wants_fade(2, true, [255, 0, 0]));
}

#[test]
fn poller_test_command_holds_light() {
    let mut p = Poller::new();
    p.after_fade(true, [0, 255, 0]);
    p.after_test(true, 1_000, 3);
    assert_eq!(p.test_until, Some(4_000));
    assert_eq!(p.last_colour, None);
    assert!(p.testing(3_999));
    assert!(!p.wants_fade(3_999, true, [0, 255, 0]));
    assert!(!p.testing(4_000));
    assert!(p.wants_fade(4_000, true, [0, 255, 0]));
    let mut q = Poller::new();
    q.after_test(true, 5, u64::MAX);
    assert_eq!(q.test_until, Some(5 + u64::MAX as u128 * 1000));
    assert!(q.testing(u64::MAX));
}

#[test]
fn poller_disconnect_grace() {
    let mut p = Poller::new();
    assert!(p.report_connected(false, 1_000));
    assert_eq!(p.missing_since, Some(1_000));
    assert!(p.report_connected(false, 3_999));
    assert!(!p.report_connected(false, 4_000));
    assert!(p.report_connected(true, 4_100));
    assert_eq!(p.missing_since, None);
}

#[test]
fn colour_for_scales_state_colour() {
    let mut c = Config::default();
    assert_eq!(c.colour_for(State::Busy), [255, 0, 0]);
    assert_eq!(c.colour_for(State::ForcedBusy), [255, 0, 0]);
    assert_eq!(c.colour_for(State::Free), [0, 255, 0]);
    assert_eq!(c.colour_for(State::Locked), [255, 170, 0]);
    assert_eq!(c.colour_for(State::Paused), [0, 0, 0]);
    c.brightness = 10;
    assert_eq!(c.colour_for(State::Locked), [25, 17, 0]);
}

#[test]
fn controls_codes() {
    let mut m = Manager::start(Config::default());
    assert_eq!(m.controls(0).forced, -1);
    m.set_forced_minutes(Some(0), 0);
    assert_eq!(m.controls(0).forced, 0);
    m.set_forced_minutes(Some(10), 0);
    assert_eq!(m.controls(0).forced, 10);
    m.set_paused(true);
    assert!(m.controls(0).paused);
}

#[test]
fn test_light_kinds() {
    assert!(matches!(test_command("blink", Some([1, 2, 3])), TestCmd::Strobe([1, 2, 3])));
    assert!(matches!(test_command("off", Some([1, 2, 3])), TestCmd::Off));
    assert!(matches!(test_command("colour", None), TestCmd::Colour([255, 255, 255])));
    assert!(matches!(test_command("", Some([9, 9, 9])), TestCmd::Colour([9, 9, 9])));
}

#[test]
fn restart_backoff_caps_at_thirty_seconds() {
    assert_eq!(restart_delay_secs(1), 1);
    assert_eq!(restart_delay_secs(29), 29);
    assert_eq!(restart_delay_secs(30), 30);
    assert_eq!(restart_delay_secs(1_000), 30);
}

#[test]
fn observe_then_settle() {
    let mut m = Manager::start(Config::default());
    let cfg = m.config();
    let mut p = Poller::new();
    let zoom = vec!["zoom".to_string()];
    let none: Vec<String> = vec![];
    let obs = m.observe(&mut p, &cfg, 1_000, &zoom, &none, 1_000);
    assert!(obs.busy && !obs.needs_lock && !obs.paused);
    assert_eq!(m.settle(&cfg, &obs, true), (State::Busy, [255, 0, 0]));
    // 1.5 s later nothing is capturing, but the 2 s hold keeps it busy.
    let obs = m.observe(&mut p, &cfg, 2_500, &none, &none, 2_500);
    assert!(obs.busy);
    // after the hold the lock matters and the screen is locked
    let obs = m.observe(&mut p, &cfg, 3_000, &none, &none, 3_000);
    assert!(!obs.busy && obs.needs_lock);
    assert_eq!(m.settle(&cfg, &obs, true), (State::Locked, [255, 170, 0]));
    assert_eq!(m.settle(&cfg, &obs, false), (State::Free, [0, 255, 0]));
    m.set_forced_minutes(Some(1), 3_000);
    let obs = m.observe(&mut p, &cfg, 4_000, &none, &none, 4_000);
    assert_eq!(obs.forced_minutes_left, Some(1));
    assert_eq!(m.settle(&cfg, &obs, true).0, State::ForcedBusy);
    let obs = m.observe(&mut p, &cfg, 63_000, &none, &none, 63_000);
    assert_eq!(obs.forced, Forced::Off);
    assert_eq!(m.forced(), Forced::Off);
    m.set_paused(true);
    let obs = m.observe(&mut p, &cfg, 64_000, &zoom, &none, 64_000);
    assert_eq!(m.settle(&cfg, &obs, false), (State::Paused, [0, 0, 0]));
}

#[test]
fn camera_counts_only_when_watched() {
    let mut m = Manager::start(Config::default());
    let mut cfg = m.config();
    let mut p = Poller::new();
    let none: Vec<String> = vec![];
    let cam = vec!["Photo Booth".to_string()];
    cfg.use_camera = false;
    let obs = m.observe(&mut p, &cfg, 1_000, &none, &cam, 1_000);
    assert!(!obs.busy);
    assert_eq!(p.last_busy, None);
    cfg.use_camera = true;
    let obs = m.observe(&mut p, &cfg, 2_000, &none, &cam, 2_000);
    assert!(obs.busy);
    assert_eq!(p.last_busy, Some(2_000));
}

#[test]
fn poll_test_then_fade_order() {
    let green = [0, 255, 0];
    let mut p = Poller::new();
    // a poll with no test fades the state colour in
    assert!(p.plan_fade(None, 0, true, green, 3));
    assert!(p.finish_poll(Some(true), green, true, 0));
    assert_eq!(p.last_colour, Some(green));
    // the light takes a test at 1 s: no fade in that poll
    assert!(!p.plan_fade(Some(true), 1_000, true, green, 3));
    assert!(p.finish_poll(None, green, true, 1_000));
    // while the test holds the light, the state colour is not written
    assert!(!p.plan_fade(None, 3_999, true, green, 3));
    p.finish_poll(None, green, true, 3_999);
    // afterwards the same colour as before the test is written again
    assert!(p.plan_fade(None, 4_000, true, green, 3));
    p.finish_poll(Some(true), green, true, 4_000);
    assert!(!p.plan_fade(None, 5_000, true, green, 3));
}

#[test]
fn poll_failed_test_still_fades() {
    let red = [255, 0, 0];
    let mut p = Poller::new();
    assert!(p.plan_fade(Some(false), 0, true, red, 3));
    assert_eq!(p.test_until, None);
}

#[test]
fn poll_reports_missing_light_after_grace() {
    let mut p = Poller::new();
    assert!(p.finish_poll(None, [0, 0, 0], false, 1_000));
    assert_eq!(p.missing_since, Some(1_000));
    assert!(p.finish_poll(None, [0, 0, 0], false, 3_999));
    assert!(!p.finish_poll(None, [0, 0, 0], false, 4_000));
    assert!(p.finish_poll(None, [0, 0, 0], true, 4_500));
    assert_eq!(p.missing_since, None);
}
