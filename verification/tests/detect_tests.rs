use std::collections::HashSet;
use busyflag::config::Config;
use busyflag::detect::dedup;
use busyflag::detect::linux::{
    alsa_devices,
    alsa_label, alsa_running, answer_is, capture_apps_json, capture_apps_text, is_capture_pcm, is_card_entry,
    is_pid_entry, monitor_indexes_json, monitor_indexes_text, opens_video, video_user, video_users, LinuxDetector,
};
use busyflag::detect::macos::{
    audio_device_name, camera_name, first_u32, fourcc, input_channels, process_label, running_somewhere, u32s,
    MacDetector,
};
use busyflag::detect::windows::{executable_path, friendly, ConsentEntry, WinDetector};

fn strings(v: &[&str]) -> Vec<String> {
    v.iter().map(|s| s.to_string()).collect()
}

#[test]
fn dedup_keeps_first_occurrences_in_order() {
    assert_eq!(dedup(strings(&["a", "b", "a", "c", "b"])), strings(&["a", "b", "c"]));
    assert_eq!(dedup(vec![]), Vec::<String>::new());
    assert_eq!(dedup(strings(&["x", "X"])), strings(&["x", "X"]));
}

#[test]
fn friendly_names() {
    assert_eq!(friendly("C:#Program Files#Zoom#bin#Zoom.exe"), "Zoom.exe");
    assert_eq!(friendly("Microsoft.Teams_8wekyb3d8bbwe"), "Microsoft.Teams");
    assert_eq!(friendly("plain"), "plain");
    assert_eq!(friendly("ends#"), "");
    assert_eq!(friendly("_lead"), "");
}

fn entry(key: &str, stop: Option<u64>, product: Option<&str>) -> ConsentEntry {
    ConsentEntry { key: key.into(), last_used_stop: stop, product: product.map(|p| p.to_string()) }
}

#[test]
fn consent_store_entries_in_use() {
    let mut cfg = Config::default();
    cfg.ignore_apps = strings(&["skype"]);
    let d = WinDetector::new();
    let entries = vec![
        entry("Microsoft.Teams_8wekyb3d8bbwe", Some(0), None),
        entry("Microsoft.SkypeApp_kzf8qxf38zg5c", Some(0), None),
        entry("C:#Program Files#Zoom#bin#Zoom.exe", Some(1234), Some("Zoom")),
        entry("C:#Apps#Opera#opera.exe", Some(0), Some("Opera")),
        entry("C:#Apps#tool.exe", Some(0), Some("")),
        entry("NoValue", None, None),
        entry("Microsoft.Teams_other", Some(0), None),
    ];
    assert_eq!(d.active_in(&cfg, &entries), strings(&["Microsoft.Teams", "Opera", "tool.exe"]));
}

#[test]
fn consent_store_names_executables_by_product() {
    let cfg = Config::default();
    let d = WinDetector::new();
    let entries = vec![entry("C:#Program Files#Opera#opera.exe", Some(0), Some("Opera"))];
    assert_eq!(d.active_in(&cfg, &entries), strings(&["Opera"]));
    let entries = vec![entry("C:#Program Files#Opera#opera.exe", Some(0), None)];
    assert_eq!(d.active_in(&cfg, &entries), strings(&["opera.exe"]));
}

#[test]
fn executable_paths_decode_hashes() {
    assert_eq!(executable_path("C:#Program Files#Zoom#bin#Zoom.exe"), Some(r"C:\Program Files\Zoom\bin\Zoom.exe".to_string()));
    assert_eq!(executable_path("Microsoft.Teams_8wekyb3d8bbwe"), None);
}

#[test]
fn fourcc_is_big_endian() {
    assert_eq!(fourcc(*b"dev#"), 0x6465_7623);
    assert_eq!(fourcc(*b"gone"), u32::from_be_bytes(*b"gone"));
}

#[test]
fn u32s_decodes_whole_words() {
    let raw = [1, 0, 0, 0, 2, 1, 0, 0, 9];
    assert_eq!(u32s(&raw, true), vec![1, 258]);
    assert_eq!(u32s(&raw, false), vec![0x0100_0000, 0x0201_0000]);
    assert_eq!(u32s(&[], true), Vec::<u32>::new());
}

#[test]
fn first_u32_or_zero() {
    assert_eq!(first_u32(&Some(vec![5, 0, 0, 0, 7]), true), 5);
    assert_eq!(first_u32(&Some(vec![5, 0, 0]), true), 0);
    assert_eq!(first_u32(&None, true), 0);
    assert!(running_somewhere(&Some(vec![1, 0, 0, 0]), true));
    assert!(!running_somewhere(&Some(vec![0, 0, 0, 0]), true));
    assert!(!running_somewhere(&None, true));
}

fn buffer_list(counts: &[u32]) -> Vec<u8> {
    let mut raw = Vec::new();
    raw.extend_from_slice(&(counts.len() as u32).to_le_bytes());
    raw.extend_from_slice(&[0, 0, 0, 0]);
    for c in counts {
        raw.extend_from_slice(&c.to_le_bytes());
        raw.extend_from_slice(&[0; 12]);
    }
    raw
}

#[test]
fn input_channels_sums_buffers() {
    assert_eq!(input_channels(&Some(buffer_list(&[2, 1])), true), Some(3));
    assert_eq!(input_channels(&Some(buffer_list(&[])), true), Some(0));
    assert_eq!(input_channels(&None, true), Some(0));
    assert_eq!(input_channels(&Some(vec![1, 0]), true), Some(0));
    // A count larger than the buffers present: the missing ones are skipped.
    let mut raw = buffer_list(&[4]);
    raw[0] = 3;
    assert_eq!(input_channels(&Some(raw), true), Some(4));
    assert_eq!(input_channels(&Some(buffer_list(&[u32::MAX, 1])), true), None);
}

#[test]
fn mac_names_and_labels() {
    assert_eq!(audio_device_name(Some("MacBook Pro Microphone".into()), 3), "MacBook Pro Microphone");
    assert_eq!(audio_device_name(None, 73), "audio device 73");
    assert_eq!(camera_name(None, 0), "camera 0");
    assert_eq!(process_label("us.zoom.xos".into(), 12), "us.zoom.xos");
    assert_eq!(process_label(String::new(), 4321), "pid 4321");
}

#[test]
fn mac_mic_reports_apps_only_with_device_or_process_level() {
    let mut cfg = Config::default();
    let d = MacDetector::new();
    let apps = strings(&["us.zoom.xos", "com.apple.CoreSpeech"]);
    assert_eq!(d.mic_active(&cfg, vec![], apps.clone()), Vec::<String>::new());
    assert_eq!(
        d.mic_active(&cfg, strings(&["Mic", "Mic"]), apps.clone()),
        strings(&["Mic", "us.zoom.xos"])
    );
    cfg.process_level_detection = true;
    assert_eq!(d.mic_active(&cfg, vec![], apps.clone()), strings(&["us.zoom.xos"]));
    cfg.ignore_devices = strings(&["mic"]);
    cfg.process_level_detection = false;
    assert_eq!(d.mic_active(&cfg, strings(&["Mic"]), apps), Vec::<String>::new());
    assert_eq!(d.camera_active(&cfg, strings(&["FaceTime HD", "Virtual MIC cam"])), strings(&["FaceTime HD"]));
}

const SOURCES_TEXT: &str = "Source #0\n\tState: SUSPENDED\n\tName: alsa_output.pci.analog-stereo.monitor\n\tDescription: Monitor\n\nSource #1\n\tName: alsa_input.pci.analog-stereo\n\nSource #7\r\n\tName: bluez_output.headset.monitor\r\n";

#[test]
fn monitor_sources_from_text() {
    assert_eq!(monitor_indexes_text(SOURCES_TEXT), vec![0, 7]);
    assert_eq!(monitor_indexes_text(""), Vec::<u64>::new());
    assert_eq!(monitor_indexes_text("Name: x.monitor\n"), Vec::<u64>::new());
}

const OUTPUTS_TEXT: &str = "Source Output #41\n\tDriver: protocol-native.c\n\tSource: 1\n\tCorked: no\n\tProperties:\n\t\tapplication.name = \"Firefox\"\n\nSource Output #42\n\tSource: 0\n\tCorked: no\n\t\tapplication.name = \"Recorder\"\n\nSource Output #43\n\tSource: 1\n\tCorked: yes\n\t\tapplication.name = \"Paused\"\n\nSource Output #44\n\tSource: 1\n\tCorked: no\n\nSource Output #45\n\tSource: 1\n\t\tapplication.name = \"com.apple.Siri\"\n";

#[test]
fn capture_streams_from_text() {
    let cfg = Config::default();
    assert_eq!(capture_apps_text(&cfg, &HashSet::from([0u64]), OUTPUTS_TEXT), strings(&["Firefox", "unknown app"]));
    assert_eq!(capture_apps_text(&cfg, &HashSet::new(), ""), Vec::<String>::new());
}

#[test]
fn monitor_sources_from_json() {
    let json = r#"[{"index":0,"name":"a.monitor"},{"index":1,"name":"mic"},{"name":"b.monitor"},{"index":5,"name":"c.monitor"}]"#;
    assert_eq!(monitor_indexes_json(json), Some(vec![0, 5]));
    assert_eq!(monitor_indexes_json("{}"), Some(vec![]));
    assert_eq!(monitor_indexes_json("not json"), None);
}

#[test]
fn capture_streams_from_json() {
    let cfg = Config::default();
    let json = r#"[
        {"source":1,"corked":false,"properties":{"application.name":"Firefox"}},
        {"source":0,"corked":false,"properties":{"application.name":"Loop"}},
        {"source":1,"corked":true,"properties":{"application.name":"Corked"}},
        {"source":2,"properties":{}},
        {"corked":false,"properties":{"application.name":"NoSource"}},
        {"source":3,"properties":{"application.name":"com.apple.Siri"}}
    ]"#;
    assert_eq!(
        capture_apps_json(&cfg, &HashSet::from([0u64]), json),
        Some(strings(&["Firefox", "unknown app", "NoSource"]))
    );
    assert_eq!(capture_apps_json(&cfg, &HashSet::new(), "[oops"), None);
    assert_eq!(capture_apps_json(&cfg, &HashSet::new(), "{\"a\": 1}"), Some(vec![]));
}

#[test]
fn alsa_status_and_names() {
    assert!(alsa_running("closed\nstate: RUNNING  \nowner_pid: 1\n"));
    assert!(!alsa_running("state: PREPARED\n"));
    assert!(!alsa_running(""));
    assert!(is_card_entry("card0"));
    assert!(!is_card_entry("cards"[1..].as_ref()));
    assert!(is_capture_pcm("pcm0c"));
    assert!(!is_capture_pcm("pcm0p"));
    assert_eq!(alsa_label("card1", "pcm0c"), "ALSA card1/pcm0c");
}

#[test]
fn video_device_helpers() {
    let cfg = Config::default();
    assert!(is_pid_entry("1234"));
    assert!(!is_pid_entry("self"));
    assert!(is_pid_entry(""));
    assert!(opens_video("/dev/video0"));
    assert!(!opens_video("/dev/snd/pcmC0D0c"));
    assert_eq!(video_user(&cfg, "77", "cheese\n"), Some("cheese".to_string()));
    assert_eq!(video_user(&cfg, "77", "  \n"), Some("pid 77".to_string()));
    assert_eq!(video_user(&cfg, "77", "com.apple.Siri"), None);
    assert_eq!(video_users(strings(&["a", "a", "b"])), strings(&["a", "b"]));
}

#[test]
fn lock_query_answers() {
    assert!(answer_is("yes\n", "yes"));
    assert!(!answer_is("no\n", "yes"));
    assert!(answer_is("  b true\n", "b true"));
}

#[test]
fn linux_detector_memory() {
    let mut d = LinuxDetector::new(true);
    assert!(d.monitors_due(0));
    d.set_monitors(vec![3, 7, 3], 1_000);
    assert_eq!(d.monitors, HashSet::from([3u64, 7]));
    assert!(!d.monitors_due(31_000));
    assert!(d.monitors_due(31_001));
    assert_eq!(d.pulse_answer(Some(strings(&["a", "a"]))), Some(strings(&["a"])));
    assert!(d.pulse_ok);
    assert_eq!(d.pulse_answer(None), None);
    assert!(!d.pulse_ok);
}

#[test]
fn alsa_fallback_applies_device_ignore_list() {
    let mut cfg = Config::default();
    cfg.ignore_devices = strings(&["alsa card1/pcm0c"]);
    let found = strings(&["ALSA card0/pcm0c", "ALSA card1/pcm0c"]);
    assert_eq!(alsa_devices(&cfg, found.clone()), strings(&["ALSA card0/pcm0c"]));
    assert_eq!(alsa_devices(&Config::default(), found.clone()), found);
}
