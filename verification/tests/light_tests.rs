use busyflag::light::{colour_report, fade_report, frame, off_report, strobe_report, Link, LED_ALL, PID, VID};

#[test]
fn luxafor_ids() {
    assert_eq!(VID, 0x04D8);
    assert_eq!(PID, 0xF372);
    assert_eq!(LED_ALL, 0xFF);
}

#[test]
fn static_colour_report() {
    assert_eq!(colour_report([1, 2, 3]), [0x00, 0x01, 0xFF, 1, 2, 3, 0, 0, 0]);
}

#[test]
fn fade_report_layout() {
    assert_eq!(fade_report([10, 20, 30], 7), [0x00, 0x02, 0xFF, 10, 20, 30, 0x00, 7, 0]);
}

#[test]
fn strobe_report_layout() {
    assert_eq!(strobe_report([255, 255, 0], 10, 5), [0x00, 0x03, 0xFF, 255, 255, 0, 10, 0x00, 5]);
}

#[test]
fn off_is_black() {
    assert_eq!(off_report(), [0x00, 0x01, 0xFF, 0, 0, 0, 0, 0, 0]);
}

#[test]
fn frame_pads_with_zeros() {
    assert_eq!(frame(&[]), [0; 9]);
    assert_eq!(frame(&[6, 1, 2]), [0, 6, 1, 2, 0, 0, 0, 0, 0]);
    assert_eq!(frame(&[1, 2, 3, 4, 5, 6, 7, 8]), [0, 1, 2, 3, 4, 5, 6, 7, 8]);
}

#[test]
fn reconnect_attempts_are_rate_limited() {
    let mut l = Link::new();
    assert!(l.begin_connect(false, false, 0));
    assert_eq!(l.last_attempt, Some(0));
    assert!(!l.begin_connect(false, false, 1_999));
    assert!(l.begin_connect(false, true, 1_999));
    assert!(!l.begin_connect(false, false, 2_500));
    assert!(l.begin_connect(false, false, 3_999));
    assert!(!l.begin_connect(true, true, 10_000));
}

#[test]
fn presence_checks_are_rate_limited() {
    let mut l = Link::new();
    assert!(!l.begin_verify(false, 0));
    assert!(l.begin_verify(true, 0));
    assert!(!l.begin_verify(true, 1_000));
    assert!(l.begin_verify(true, 2_000));
    l.unplugged(2_100);
    assert_eq!(l.last_attempt, Some(2_100));
    assert!(!l.begin_connect(false, false, 3_000));
}

#[test]
fn unplugged_flag_is_noticed_then_retried_every_two_seconds() {
    let mut l = Link::new();
    assert!(l.begin_verify(true, 10_000));
    // unplugged at 10.5 s; a poll before 12 s checks nothing, the one at 12.5 s checks
    assert!(!l.begin_verify(true, 11_999));
    assert!(l.begin_verify(true, 12_500));
    l.unplugged(12_500);
    assert!(!l.begin_connect(false, false, 14_499));
    assert!(l.begin_connect(false, false, 14_500));
    assert!(!l.begin_connect(false, false, 16_499));
    assert!(l.begin_connect(false, false, 16_500));
}
