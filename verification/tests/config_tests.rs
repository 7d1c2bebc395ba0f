use busyflag::config::Config;

#[test]
fn default_config_matches_documented_file() {
    let c = Config::default();
    assert_eq!(c.busy_colour, [255, 0, 0]);
    assert_eq!(c.free_colour, [0, 255, 0]);
    assert_eq!(c.paused_colour, [0, 0, 0]);
    assert_eq!(c.locked_colour, [255, 170, 0]);
    assert!(c.lock_detection);
    assert_eq!(c.force_busy_default_minutes, 30);
    assert_eq!(c.test_duration_s, 3);
    assert!(!c.use_camera);
    assert_eq!(c.brightness, 100);
    assert_eq!(c.poll_interval_ms, 500);
    assert_eq!(c.busy_hold_ms, 2000);
    assert_eq!(c.fade_speed, 10);
    assert!(c.ignore_devices.is_empty());
    assert_eq!(
        c.ignore_apps,
        vec!["com.apple.CoreSpeech", "com.apple.assistantd", "com.apple.Siri", "com.apple.SiriNCService"]
    );
    assert!(!c.process_level_detection);
}

#[test]
fn sanitised_clamps_low_values() {
    let mut c = Config::default();
    c.brightness = 0;
    c.poll_interval_ms = 5;
    c.fade_speed = 0;
    c.test_duration_s = 0;
    let s = c.sanitised();
    assert_eq!(s.brightness, 1);
    assert_eq!(s.poll_interval_ms, 100);
    assert_eq!(s.fade_speed, 1);
    assert_eq!(s.test_duration_s, 1);
}

#[test]
fn sanitised_clamps_high_values() {
    let mut c = Config::default();
    c.brightness = 250;
    c.poll_interval_ms = 60_000;
    c.busy_hold_ms = 120_000;
    c.force_busy_default_minutes = 5_000;
    c.test_duration_s = 10_000;
    let s = c.sanitised();
    assert_eq!(s.brightness, 100);
    assert_eq!(s.poll_interval_ms, 10_000);
    assert_eq!(s.busy_hold_ms, 60_000);
    assert_eq!(s.force_busy_default_minutes, 1440);
    assert_eq!(s.test_duration_s, 600);
}

#[test]
fn sanitised_keeps_values_in_range_and_is_idempotent() {
    let mut c = Config::default();
    c.brightness = 42;
    c.busy_hold_ms = 0;
    let once = c.sanitised();
    assert_eq!(once.brightness, 42);
    assert_eq!(once.busy_hold_ms, 0);
    assert_eq!(once.poll_interval_ms, 500);
    let twice = once.clone().sanitised();
    assert_eq!(once.brightness, twice.brightness);
    assert_eq!(once.poll_interval_ms, twice.poll_interval_ms);
    assert_eq!(once.test_duration_s, twice.test_duration_s);
    assert_eq!(once.fade_speed, twice.fade_speed);
}

#[test]
fn scaled_at_full_brightness_is_identity() {
    let c = Config::default();
    assert_eq!(c.scaled([255, 170, 3]), [255, 170, 3]);
}

#[test]
fn scaled_at_half_brightness_rounds_down() {
    let mut c = Config::default();
    c.brightness = 50;
    assert_eq!(c.scaled([255, 170, 1]), [127, 85, 0]);
}

#[test]
fn scaled_above_hundred_truncates_to_eight_bits() {
    let mut c = Config::default();
    c.brightness = 200;
    // 255 * 200 / 100 = 510, which wraps to 254 in eight bits.
    assert_eq!(c.scaled([255, 100, 0]), [254, 200, 0]);
}

#[test]
fn ignores_app_case_insensitive_substring() {
    let c = Config::default();
    assert!(c.ignores_app("com.apple.Siri"));
    assert!(c.ignores_app("COM.APPLE.SIRINCSERVICE.helper"));
    assert!(!c.ignores_app("us.zoom.xos"));
}

#[test]
fn ignores_app_skips_empty_entries() {
    let mut c = Config::default();
    c.ignore_apps = vec![String::new()];
    assert!(!c.ignores_app("anything"));
    assert!(!c.ignores_app(""));
}

#[test]
fn ignores_device_uses_device_list() {
    let mut c = Config::default();
    c.ignore_devices = vec!["Loopback".to_string()];
    assert!(c.ignores_device("My LOOPBACK Audio"));
    assert!(!c.ignores_device("MacBook Pro Microphone"));
    assert!(!c.ignores_app("My LOOPBACK Audio"));
}

#[test]
fn config_copy_keeps_every_field() {
    let mut c = Config::default();
    c.ignore_devices = vec!["x".to_string()];
    c.brightness = 7;
    let d = c.copy();
    assert_eq!(d.ignore_devices, c.ignore_devices);
    assert_eq!(d.ignore_apps, c.ignore_apps);
    assert_eq!(d.brightness, 7);
}
