use busyflag::layers::{layered, merge_into, read_layer, Entry, JsonDoc};

fn entry(k: &str, v: &str) -> Entry {
    Entry { key: k.to_string(), value: v.to_string() }
}

fn value(merged: &[Entry], key: &str) -> Option<serde_json::Value> {
    merged.iter().find(|e| e.key == key).map(|e| serde_json::from_str(&e.value).unwrap())
}

#[test]
fn read_layer_kinds() {
    assert!(matches!(read_layer("not json"), JsonDoc::Invalid));
    assert!(matches!(read_layer("[1,2]"), JsonDoc::NotObject));
    match read_layer(r#"{"a": 1, "b": [true, null]}"#) {
        JsonDoc::Object(v) => {
            let pairs: Vec<(String, String)> = v.into_iter().map(|e| (e.key, e.value)).collect();
            assert_eq!(pairs, vec![("a".into(), "1".into()), ("b".into(), "[true,null]".into())]);
        }
        _ => panic!("expected an object"),
    }
}

#[test]
fn merge_overrides_and_adds() {
    let mut base = vec![entry("a", "1"), entry("b", "2")];
    merge_into(&mut base, vec![entry("b", "20"), entry("c", "3")]);
    let pairs: Vec<(String, String)> = base.into_iter().map(|e| (e.key, e.value)).collect();
    assert_eq!(pairs, vec![("a".into(), "1".into()), ("b".into(), "20".into()), ("c".into(), "3".into())]);
}

#[test]
fn layers_precedence_user_over_system_over_defaults() {
    let defaults = r#"{"brightness":100,"use_camera":false,"fade_speed":10}"#;
    let system = Some(r#"{"use_camera":true,"brightness":50}"#.to_string());
    let user = Some(r#"{"brightness":70}"#.to_string());
    let l = layered(defaults, system, user);
    assert!(l.have_user);
    assert_eq!(value(&l.merged, "brightness"), Some(serde_json::Value::from(70)));
    assert_eq!(value(&l.merged, "use_camera"), Some(serde_json::Value::from(true)));
    assert_eq!(value(&l.merged, "fade_speed"), Some(serde_json::Value::from(10)));
}

#[test]
fn layers_ignore_files_that_are_not_objects() {
    let defaults = r#"{"brightness":100}"#;
    let l = layered(defaults, Some("[1]".into()), Some("garbage".into()));
    assert!(!l.have_user);
    assert!(matches!(l.system, Some(JsonDoc::NotObject)));
    assert!(matches!(l.user, Some(JsonDoc::Invalid)));
    assert_eq!(value(&l.merged, "brightness"), Some(serde_json::Value::from(100)));
    let l = layered(defaults, None, None);
    assert!(l.system.is_none() && l.user.is_none() && !l.have_user);
    let pairs: Vec<(String, String)> = l.merged.into_iter().map(|e| (e.key, e.value)).collect();
    assert_eq!(pairs, vec![("brightness".to_string(), "100".to_string())]);
}

#[test]
fn saved_config_wins_over_system_defaults() {
    let defaults = r#"{"brightness":100,"use_camera":false}"#;
    let system = Some(r#"{"brightness":40,"use_camera":true,"extra":1}"#.to_string());
    let user = Some(r#"{"brightness":80,"use_camera":false}"#.to_string());
    let l = layered(defaults, system, user);
    assert_eq!(value(&l.merged, "brightness"), Some(serde_json::Value::from(80)));
    assert_eq!(value(&l.merged, "use_camera"), Some(serde_json::Value::from(false)));
}
