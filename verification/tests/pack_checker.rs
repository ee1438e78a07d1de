use sorakey::json::{Json, JsonNumber};
use sorakey::pack_checker::{
    read_config_version, validate_config, validate_soundpack_config, ConfigSource,
    SoundpackValidationResult, SoundpackValidationStatus,
};

fn to_json(v: &serde_json::Value) -> Json {
    match v {
        serde_json::Value::Null => Json::Null,
        serde_json::Value::Bool(b) => Json::Bool(*b),
        serde_json::Value::Number(n) => {
            let f = n.as_f64().unwrap_or(0.0);
            Json::Number(JsonNumber {
                as_u64: n.as_u64(),
                as_i64: n.as_i64(),
                f64_bits: f.to_bits(),
                f64_text: format!("{}", f),
            })
        }
        serde_json::Value::String(s) => Json::Str(s.clone()),
        serde_json::Value::Array(a) => Json::Array(a.iter().map(to_json).collect()),
        serde_json::Value::Object(o) => {
            Json::Object(o.iter().map(|(k, v)| (k.clone(), to_json(v))).collect())
        }
    }
}

/// Bundled packs store config_version as a string.
const REAL_PACK_CONFIG: &str = r#"{
        "audio_file": "sound.ogg",
        "config_version": "2",
        "created_at": "2025-06-17T12:23:39.537516300+00:00",
        "definition_method": "single",
        "author": "sorakey",
        "definitions": {
            "AltLeft": { "timing": [[45750.0, 45832.0], [45832.0, 45914.0]] },
            "Escape": { "timing": [[2894.0, 3007.0], [3007.0, 3120.0]] }
        },
        "id": "keyboard/sample-pack",
        "name": "Sample Pack",
        "options": { "random_pitch": false, "recommended_volume": 1.0 },
        "icon": "black.jpg",
        "tags": []
    }"#;

fn validate_json(contents: &str) -> SoundpackValidationResult {
    let source = match serde_json::from_str::<serde_json::Value>(contents) {
        Ok(v) => ConfigSource::Parsed(to_json(&v)),
        Err(e) => ConfigSource::InvalidJson(e.to_string()),
    };
    validate_soundpack_config(&source)
}

fn version_of(raw: &str) -> Option<u32> {
    let v: serde_json::Value = serde_json::from_str(raw).expect("valid json");
    read_config_version(&to_json(&v))
}

#[test]
fn config_version_is_read_from_both_number_and_string_forms() {
    assert_eq!(version_of(r#"{"config_version": 2}"#), Some(2));
    assert_eq!(version_of(r#"{"config_version": "2"}"#), Some(2));
    assert_eq!(version_of(r#"{"config_version": 1}"#), Some(1));
    assert_eq!(version_of(r#"{"config_version": "1"}"#), Some(1));
    assert_eq!(version_of(r#"{"config_version": 3}"#), Some(3));
    assert_eq!(version_of(r#"{"config_version": "3"}"#), Some(3));
}

#[test]
fn an_unreadable_config_version_is_treated_as_absent() {
    assert_eq!(version_of(r#"{}"#), None, "absent");
    assert_eq!(version_of(r#"{"config_version": null}"#), None, "null");
    assert_eq!(version_of(r#"{"config_version": "banana"}"#), None, "garbage text");
    assert_eq!(version_of(r#"{"config_version": ""}"#), None, "empty string");
    assert_eq!(version_of(r#"{"config_version": -1}"#), None, "negative");
    assert_eq!(version_of(r#"{"config_version": 2.5}"#), None, "fractional");
}

#[test]
fn a_padded_string_version_is_trimmed_and_an_oversized_one_is_absent() {
    assert_eq!(version_of(r#"{"config_version": " 2 "}"#), Some(2));
    assert_eq!(version_of(r#"{"config_version": "+2"}"#), Some(2));
    assert_eq!(version_of(r#"{"config_version": 4294967296}"#), None);
    assert_eq!(version_of(r#"{"config_version": "4294967296"}"#), None);
}

#[test]
fn a_real_bundled_pack_validates_as_v2() {
    let result = validate_json(REAL_PACK_CONFIG);

    assert_eq!(
        result.status,
        SoundpackValidationStatus::Valid,
        "a shipped pack must validate; got: {}",
        result.message
    );
    assert_eq!(result.config_version, Some(2), "the string \"2\" must be understood as version 2");
    assert!(result.is_valid_v2);
    assert!(!result.can_be_converted, "a valid V2 pack needs no conversion");
    assert_eq!(result.detected_version, None);
    assert_eq!(result.message, "Valid V2 soundpack configuration");
}

#[test]
fn the_defs_spelling_is_accepted_as_an_alias() {
    let result = validate_json(
        r#"{
            "config_version": 2,
            "name": "alias pack",
            "author": "someone",
            "defs": { "Escape": [[0.0, 100.0]] }
        }"#,
    );

    assert_eq!(result.status, SoundpackValidationStatus::Valid, "got: {}", result.message);
}

#[test]
fn a_newer_config_version_asks_the_user_to_update() {
    for raw in ["3", "\"3\"", "99"] {
        let result = validate_json(&format!(
            r#"{{"config_version": {}, "name": "future", "author": "a"}}"#,
            raw
        ));

        assert!(
            matches!(result.status, SoundpackValidationStatus::RequiresNewerAppVersion(_)),
            "config_version {} must report a newer app version, got {:?}",
            raw,
            result.status
        );
        assert_eq!(result.message, "This soundpack requires a newer version of Sorakey");
        assert!(!result.can_be_converted, "a future format cannot be converted by this build");
        assert!(!result.is_valid_v2);
    }
}

#[test]
fn a_newer_version_is_not_mistaken_for_a_convertible_v1_pack() {
    let result = validate_json(
        r#"{
            "config_version": "3",
            "name": "future",
            "defines": { "1": [0, 100] },
            "sound": "sound.ogg"
        }"#,
    );

    assert!(
        matches!(result.status, SoundpackValidationStatus::RequiresNewerAppVersion(_)),
        "got {:?}",
        result.status
    );
    assert!(!result.can_be_converted, "converting a format we cannot read would corrupt it");
}

#[test]
fn a_v1_pack_still_asks_to_be_converted() {
    let result = validate_json(
        r#"{
            "config_version": 1,
            "name": "old pack",
            "defines": { "1": [0, 100] },
            "sound": "sound.ogg"
        }"#,
    );

    assert_eq!(result.status, SoundpackValidationStatus::VersionOneNeedsConversion);
    assert!(result.can_be_converted);
}

#[test]
fn an_unversioned_v1_pack_is_detected_by_structure() {
    let result =
        validate_json(r#"{ "name": "old", "defines": { "1": [0, 100] }, "sound": "sound.ogg" }"#);

    assert_eq!(result.status, SoundpackValidationStatus::VersionOneNeedsConversion);
    assert!(result.can_be_converted);
    assert_eq!(result.message, "Version 1 soundpack detected, needs conversion to V2 format");
}

#[test]
fn a_config_with_no_definitions_reports_the_missing_field() {
    let result = validate_json(r#"{ "name": "empty" }"#);

    match result.status {
        SoundpackValidationStatus::MissingRequiredFields(fields) => {
            assert!(
                fields.iter().any(|f| f.contains("definitions")),
                "the missing field should be named as packs spell it, got {:?}",
                fields
            );
            assert_eq!(fields, vec!["definitions or defines".to_string(), "author".to_string()]);
        }
        other => panic!("expected missing required fields, got {:?}", other),
    }
}

#[test]
fn timing_problems_are_listed_in_order() {
    let result = validate_json(
        r#"{"config_version": 2, "name": "n", "author": "a",
            "definitions": {"A": {"timing": [[5, 1], [0], "x"]}, "B": 3}}"#,
    );
    let expected = "Invalid timing for 'A[0]': start (5) must be before end (1); \
Invalid timing array for 'A[1]': expected [start, end]; \
Invalid timing entry for 'A[2]': expected array; \
Invalid definitions entry for 'B': expected timing array";
    assert_eq!(result.status, SoundpackValidationStatus::InvalidStructure(expected.to_string()));
    assert_eq!(result.message, format!("V2 structure issues: {}", expected));
    assert_eq!(result.config_version, Some(2));
}

#[test]
fn non_numeric_timings_are_refused() {
    let result = validate_json(
        r#"{"config_version": 2, "name": "n", "author": "a", "definitions": {"A": [["0", 1]]}}"#,
    );
    assert_eq!(
        result.status,
        SoundpackValidationStatus::InvalidStructure(
            "Invalid timing for 'A[0]': expected [start, end] as finite numbers".to_string()
        )
    );
}

#[test]
fn a_single_method_pack_needs_its_audio_file() {
    let result = validate_json(
        r#"{"name": "n", "author": "a", "definition_method": "single", "definitions": {"A": [[0, 1]]}}"#,
    );
    assert_eq!(
        result.status,
        SoundpackValidationStatus::InvalidStructure(
            "single-method soundpack is missing the audio_file field".to_string()
        )
    );
    // unversioned but V2-shaped: no version is claimed
    assert_eq!(result.config_version, None);
    let ok = validate_json(
        r#"{"name": "n", "m_author": "a", "definitions": {"A": [[0, 1]]}, "version": "1.2"}"#,
    );
    assert_eq!(ok.status, SoundpackValidationStatus::Valid);
    assert_eq!(ok.config_version, Some(2));
    assert_eq!(ok.detected_version, Some("1.2".to_string()));
}

#[test]
fn empty_definitions_are_refused() {
    let result = validate_json(r#"{"config_version": "2", "name": "n", "author": "a", "definitions": {}}"#);
    assert_eq!(
        result.status,
        SoundpackValidationStatus::InvalidStructure("definitions must not be empty".to_string())
    );
    let missing = validate_json(r#"{"config_version": 2}"#);
    assert_eq!(
        missing.message,
        "Missing required V2 fields: name, author, definitions"
    );
}

#[test]
fn unreadable_and_malformed_files_are_reported() {
    let r = validate_soundpack_config(&ConfigSource::Unreadable("No such file".to_string()));
    assert_eq!(
        r.status,
        SoundpackValidationStatus::InvalidStructure("Cannot read config file: No such file".to_string())
    );
    assert_eq!(r.message, "Failed to read config file: No such file");
    let r = validate_soundpack_config(&ConfigSource::InvalidJson("EOF".to_string()));
    assert_eq!(r.status, SoundpackValidationStatus::InvalidStructure("Invalid JSON: EOF".to_string()));
    assert_eq!(r.message, "Invalid JSON format: EOF");
    let r = validate_json("{");
    assert!(r.message.starts_with("Invalid JSON format: "));
    let v: serde_json::Value = serde_json::from_str(REAL_PACK_CONFIG).unwrap();
    assert!(validate_config(&to_json(&v)).is_valid_v2);
}
