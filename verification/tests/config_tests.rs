use autogit::config::{config_to_json, load_or_create_config, parse_config, AutogitConfig};

fn default_config() -> AutogitConfig {
    AutogitConfig::default()
}

#[test]
fn default_values() {
    let c = default_config();
    assert_eq!(c.interval_seconds, 60);
    assert!(c.enabled);
    assert_eq!(
        c.exclude,
        vec![
            "node_modules".to_string(),
            ".git".to_string(),
            "dist".to_string(),
            "build".to_string(),
            "target".to_string(),
            ".next".to_string(),
        ]
    );
}

#[test]
fn serialize_default_exact() {
    let c = default_config();
    let text = config_to_json(&c);
    let expected = "{\n  \"interval_seconds\": 60,\n  \"exclude\": [\n    \"node_modules\",\n    \".git\",\n    \"dist\",\n    \"build\",\n    \"target\",\n    \".next\"\n  ],\n  \"enabled\": true\n}";
    assert_eq!(text, expected);
}

#[test]
fn serialize_empty_exclude() {
    let c = AutogitConfig { interval_seconds: 5, exclude: vec![], enabled: false };
    let text = config_to_json(&c);
    assert_eq!(text, "{\n  \"interval_seconds\": 5,\n  \"exclude\": [],\n  \"enabled\": false\n}");
}

#[test]
fn write_read_write_is_byte_identical() {
    let c = default_config();
    let first = config_to_json(&c);
    let read_back = parse_config(&first).expect("own output must parse");
    let second = config_to_json(&read_back);
    assert_eq!(first, second);
}

#[test]
fn round_trip_preserves_values() {
    let c = AutogitConfig {
        interval_seconds: 17,
        exclude: vec![
            "no tes".to_string(),
            "a/b".to_string(),
            "we\"ird\\pat".to_string(),
            "line\nbreak\ttab".to_string(),
        ],
        enabled: false,
    };
    let text = config_to_json(&c);
    let back = parse_config(&text).expect("serialized config parses");
    assert_eq!(back.interval_seconds, 17);
    assert_eq!(back.exclude, c.exclude);
    assert!(!back.enabled);
}

#[test]
fn parse_accepts_any_member_order() {
    let text = "{ \"enabled\": false, \"exclude\": [\"x\"], \"interval_seconds\": 9 }";
    let c = parse_config(text).expect("reordered members parse");
    assert_eq!(c.interval_seconds, 9);
    assert_eq!(c.exclude, vec!["x".to_string()]);
    assert!(!c.enabled);
}

#[test]
fn parse_rejects_garbage() {
    assert!(parse_config("not json at all").is_err());
    assert!(parse_config("").is_err());
    assert!(parse_config("{}").is_err());
    assert!(parse_config("{\"interval_seconds\": 1, \"enabled\": true}").is_err());
    assert!(parse_config(
        "{\"interval_seconds\": 1, \"exclude\": [], \"enabled\": true} trailing"
    )
    .is_err());
    assert!(parse_config(
        "{\"interval_seconds\": 1, \"interval_seconds\": 2, \"exclude\": [], \"enabled\": true}"
    )
    .is_err());
}

#[test]
fn interval_zero_is_coerced_to_one_on_load() {
    let text = "{\n  \"interval_seconds\": 0,\n  \"exclude\": [],\n  \"enabled\": true\n}".to_string();
    let (c, written) = load_or_create_config(Some(&text)).expect("file parses");
    assert_eq!(c.interval_seconds, 1);
    assert!(written.is_none());
}

#[test]
fn load_without_file_creates_default_payload() {
    let (c, written) = load_or_create_config(None).expect("defaults always load");
    assert_eq!(c.interval_seconds, 60);
    assert!(c.enabled);
    let payload = written.expect("a missing file is created");
    assert_eq!(payload, config_to_json(&AutogitConfig::default()));
}

#[test]
fn load_propagates_parse_errors() {
    let bad = "{broken".to_string();
    assert!(load_or_create_config(Some(&bad)).is_err());
}
