use sorakey::json::{Json, JsonNumber};
use sorakey::pack_checker::{validate_soundpack_config, ConfigSource};
use sorakey::pack_info::{audio_path_to_check, load_soundpack_metadata};

fn to_json(v: &serde_json::Value) -> Json {
    match v {
        serde_json::Value::Null => Json::Null,
        serde_json::Value::Bool(b) => Json::Bool(*b),
        serde_json::Value::Number(n) => {
            let f = n.as_f64().unwrap_or(0.0);
            Json::Number(JsonNumber {
                as_u64: n.as_u64(),
                as_i64: n.as_i64(),
                f64_bits: f.to_bits(),
                f64_text: format!("{}", f),
            })
        }
        serde_json::Value::String(s) => Json::Str(s.clone()),
        serde_json::Value::Array(a) => Json::Array(a.iter().map(to_json).collect()),
        serde_json::Value::Object(o) => {
            Json::Object(o.iter().map(|(k, v)| (k.clone(), to_json(v))).collect())
        }
    }
}

fn json(text: &str) -> Json {
    to_json(&serde_json::from_str::<serde_json::Value>(text).expect("valid json"))
}

#[test]
fn metadata_reads_the_descriptive_fields() {
    let text = r#"{"config_version": "2", "name": "Sugar 65", "m_author": "someone",
        "audio_file": "./sound.ogg", "definitions": {"KeyA": [[0, 1]]},
        "tags": ["thock", 3, "linear"], "icon": "icon.png", "version": "2.1"}"#;
    let config = json(text);
    let validation = validate_soundpack_config(&ConfigSource::Parsed(json(text)));
    let path = audio_path_to_check("/data", "keyboard/sugar65", &config);
    assert_eq!(path.as_deref(), Some("/data/soundpacks/keyboard/sugar65/sound.ogg"));

    let m = load_soundpack_metadata("/data", "keyboard/sugar65", &config, &validation, true, 1700);
    assert_eq!(m.id, "keyboard/sugar65");
    assert_eq!(m.name, "Sugar 65");
    assert_eq!(m.author.as_deref(), Some("someone"));
    assert_eq!(m.version, "2.1");
    assert_eq!(m.tags, vec!["thock".to_string(), "linear".to_string()]);
    assert_eq!(m.icon.as_deref(), Some("icon.png"));
    assert_eq!(m.description, None);
    assert_eq!(m.folder_path, "keyboard/sugar65");
    assert_eq!(m.last_modified, 1700);
    assert_eq!(m.config_version, Some(2));
    assert!(m.is_valid_v2);
    assert_eq!(m.validation_status, "valid");
    assert_eq!(m.last_error, None);
}

#[test]
fn a_missing_audio_file_is_the_reason_it_stays_silent() {
    let text = r#"{"name": "n", "author": "a", "audio_file": "s.ogg", "definitions": {"KeyA": [[0, 1]]}}"#;
    let config = json(text);
    let validation = validate_soundpack_config(&ConfigSource::Parsed(json(text)));
    let m = load_soundpack_metadata("/data", "keyboard/p", &config, &validation, false, 0);
    assert_eq!(m.last_error.as_deref(), Some("audio file not found: /data/soundpacks/keyboard/p/s.ogg"));
}

#[test]
fn names_and_versions_fall_back() {
    let text = r#"{"definitions": {"KeyA": {"timing": [[0, 1]], "audio_file": "a.wav"}}}"#;
    let config = json(text);
    let validation = validate_soundpack_config(&ConfigSource::Parsed(json(text)));
    let m = load_soundpack_metadata("/data", "keyboard/p", &config, &validation, false, 0);
    assert_eq!(m.name, "keyboard/p");
    assert_eq!(m.version, "1.0.0");
    assert_eq!(m.author, None);
    assert_eq!(m.validation_status, "missing_fields");
    // per-key audio: the missing shared file is no error
    assert_eq!(m.last_error, None);
}

#[test]
fn a_single_style_pack_without_audio_file_is_flagged() {
    let text = r#"{"name": "n", "author": "a", "definitions": {"KeyA": [[0, 1]]}}"#;
    let config = json(text);
    let validation = validate_soundpack_config(&ConfigSource::Parsed(json(text)));
    let m = load_soundpack_metadata("/data", "keyboard/p", &config, &validation, true, 0);
    assert_eq!(m.last_error.as_deref(), Some("config is missing the audio_file field"));
}

#[test]
fn a_pack_for_a_newer_release_says_so() {
    let text = r#"{"config_version": 9, "name": "n", "author": "a", "audio_file": "s.ogg"}"#;
    let config = json(text);
    let validation = validate_soundpack_config(&ConfigSource::Parsed(json(text)));
    let m = load_soundpack_metadata("/data", "keyboard/p", &config, &validation, true, 0);
    assert_eq!(m.validation_status, "requires_newer_app_version");
    assert_eq!(m.last_error.as_deref(), Some("This soundpack requires a newer version of Sorakey"));
    assert_eq!(m.config_version, Some(9));
}
