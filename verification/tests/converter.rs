use sorakey::backups::{
    atomic_temp_name, backup_name, corrupt_copy_name, first_free_name, numbered_name,
    sibling_temp_name,
    v1_backup_slot, RESCUE_ATTEMPTS,
};
use sorakey::converter::{
    audio_files_in_order, config_definition_plan, copied_fields, create_iohook_to_web_key_mapping,
    define_order, directory_audio_file, iohook_code_and_press, iohook_key_name, is_multi,
    pick_audio_file, plan_audio, stable_order, v1_conversion, AudioChoice,
};
use sorakey::json::{Json, JsonNumber};
use sorakey::pack_checker::{validate_soundpack_config, ConfigSource};

fn to_json(v: &serde_json::Value) -> Json {
    match v {
        serde_json::Value::Null => Json::Null,
        serde_json::Value::Bool(b) => Json::Bool(*b),
        serde_json::Value::Number(n) => {
            let f = n.as_f64().unwrap_or(0.0);
            Json::Number(JsonNumber {
                as_u64: n.as_u64(),
                as_i64: n.as_i64(),
                f64_bits: f.to_bits(),
                f64_text: format!("{}", f),
            })
        }
        serde_json::Value::String(s) => Json::Str(s.clone()),
        serde_json::Value::Array(a) => Json::Array(a.iter().map(to_json).collect()),
        serde_json::Value::Object(o) => {
            Json::Object(o.iter().map(|(k, v)| (k.clone(), to_json(v))).collect())
        }
    }
}

fn json(text: &str) -> Json {
    to_json(&serde_json::from_str::<serde_json::Value>(text).expect("valid json"))
}

fn defines(config: &Json) -> Vec<(String, Json)> {
    match config {
        Json::Object(o) => match o.iter().find(|(k, _)| k == "defines") {
            Some((_, Json::Object(d))) => d.iter().map(|(k, v)| (k.clone(), clone_json(v))).collect(),
            _ => Vec::new(),
        },
        _ => Vec::new(),
    }
}

fn clone_json(v: &Json) -> Json {
    match v {
        Json::Null => Json::Null,
        Json::Bool(b) => Json::Bool(*b),
        Json::Number(n) => Json::Number(JsonNumber {
            as_u64: n.as_u64,
            as_i64: n.as_i64,
            f64_bits: n.f64_bits,
            f64_text: n.f64_text.clone(),
        }),
        Json::Str(s) => Json::Str(s.clone()),
        Json::Array(a) => Json::Array(a.iter().map(clone_json).collect()),
        Json::Object(o) => Json::Object(o.iter().map(|(k, v)| (k.clone(), clone_json(v))).collect()),
    }
}

#[test]
fn v1_table_matches_the_python_importer_on_the_conflicting_codes() {
    let m = create_iohook_to_web_key_mapping();
    assert_eq!(m[&3597], "ControlRight");
    assert_eq!(m[&3612], "NumpadEnter");
    assert_eq!(m[&3613], "ControlRight");
    assert_eq!(m[&3640], "AltRight");
    assert_eq!(m[&3675], "NumpadDecimal");
    assert_eq!(m[&3676], "Numpad0");
    assert!(!m.contains_key(&3677), "3677 has no Python counterpart");
}

#[test]
fn the_v1_table_seeds_from_the_shared_range() {
    let m = create_iohook_to_web_key_mapping();
    assert_eq!(m[&30], "KeyA");
    assert_eq!(m[&57416], "ArrowUp");
    assert_eq!(m[&65406], "Find");
    assert!(!m.contains_key(&84));
    assert!(!m.contains_key(&0));
    assert_eq!(iohook_key_name(100), Some("F17"));
    // 87 shared codes plus the IOHook-only ones
    assert_eq!(m.len(), 87 + 98);
}

#[test]
fn a_zero_padded_v1_code_is_a_release_not_a_duplicate_press() {
    assert_eq!(iohook_code_and_press("1"), Some((1, true)));
    assert_eq!(iohook_code_and_press("2"), Some((2, true)));
    assert_eq!(iohook_code_and_press("01"), Some((1, false)));
    assert_eq!(iohook_code_and_press("02"), Some((2, false)));

    assert_eq!(iohook_code_and_press("10"), Some((10, true)));
    assert_eq!(iohook_code_and_press("not a number"), None);
}

#[test]
fn iohook_press_and_release_both_survive_conversion() {
    let config = json(
        r#"{
  "id": "custom-sound-pack-77777732",
  "name": "Test Pack",
  "key_define_type": "multi",
  "includes_numpad": false,
  "sound": "sound.wav",
  "defines": { "30": "1.wav", "48": "2.wav", "030": "1.wav", "048": "2.wav" }
}"#,
    );
    let loaded = vec!["1.wav".to_string(), "2.wav".to_string()];
    let plan = config_definition_plan(&config, &loaded);

    for key in ["KeyA", "KeyB"] {
        if let Some(entry) = plan.iter().find(|k| k.key == key) {
            assert_eq!(entry.sources.len(), 2, "{} must carry press and release: {:?}", key, entry);
        }
    }
    assert_eq!(plan.len(), 2);
}

#[test]
fn presses_come_before_releases_then_by_code() {
    let config = json(r#"{"defines": {"030": "c.wav", "48": "b.wav", "30": "a.wav", "x": "z.wav", "2": "a.wav"}}"#);
    let d = defines(&config);
    // serde_json keeps keys sorted: "030", "2", "30", "48", "x"
    let order = define_order(&d, true);
    let keys: Vec<&str> = order.iter().map(|&i| d[i].0.as_str()).collect();
    assert_eq!(keys, vec!["2", "30", "48", "030", "x"]);
    let files = audio_files_in_order(&d);
    assert_eq!(files, vec!["a.wav".to_string(), "b.wav".to_string(), "c.wav".to_string(), "z.wav".to_string()]);
}

#[test]
fn ties_keep_document_order() {
    let order = stable_order(&vec![5, 1, 5, 0, 1]);
    assert_eq!(order, vec![3, 1, 4, 0, 2]);
    assert_eq!(stable_order(&vec![]), Vec::<usize>::new());
}

#[test]
fn empty_and_null_files_are_not_concatenated() {
    let config = json(r#"{"key_define_type": "multi", "defines": {"1": "", "2": "null", "3": "k.wav", "4": 7}}"#);
    match plan_audio(&config) {
        Ok(AudioChoice::Concatenate(files)) => assert_eq!(files, vec!["k.wav".to_string()]),
        other => panic!("expected concatenation, got {:?}", other),
    }
}

#[test]
fn a_single_method_pack_uses_its_sound_field() {
    let config = json(r#"{"sound": "main.ogg", "defines": {"30": [0, 100]}}"#);
    assert!(!is_multi(&config));
    match plan_audio(&config) {
        Ok(AudioChoice::Sound(s)) => assert_eq!(s, "main.ogg"),
        other => panic!("expected the sound file, got {:?}", other),
    }
    let config = json(r#"{"sound": 5}"#);
    match plan_audio(&config) {
        Err(e) => assert_eq!(e, "Invalid sound field in V1 config"),
        other => panic!("expected an error, got {:?}", other),
    }
    let config = json(r#"{"key_define_type": "single"}"#);
    assert!(matches!(plan_audio(&config), Ok(AudioChoice::SearchDirectory)));
}

#[test]
fn the_first_audio_file_in_the_directory_is_taken() {
    let names = vec!["readme.txt".to_string(), "Click.WAV".to_string(), "b.ogg".to_string()];
    assert_eq!(pick_audio_file(&names), Some("Click.WAV".to_string()));
    assert_eq!(pick_audio_file(&vec!["x.flac".to_string()]), Some("x.flac".to_string()));
    let none = vec!["config.json".to_string(), "wav".to_string()];
    assert_eq!(pick_audio_file(&none), None);
    assert_eq!(
        directory_audio_file(&none),
        Err("No audio file found for single method conversion".to_string())
    );
}

#[test]
fn single_method_defines_keep_every_segment_source() {
    let config = json(r#"{"defines": {"30": [10, 50], "030": [60, 40], "48": [1], "99999": [0, 1], "57416": [5, 5]}}"#);
    let plan = config_definition_plan(&config, &Vec::new());
    let view: Vec<(String, Vec<String>)> =
        plan.iter().map(|k| (k.key.clone(), k.sources.clone())).collect();
    assert_eq!(
        view,
        vec![
            ("KeyA".to_string(), vec!["30".to_string(), "030".to_string()]),
            ("ArrowUp".to_string(), vec!["57416".to_string()]),
        ]
    );
}

#[test]
fn unloaded_files_contribute_no_segment() {
    let config = json(r#"{"key_define_type": "multi", "defines": {"30": "a.wav", "48": "b.wav"}}"#);
    let plan = config_definition_plan(&config, &vec!["b.wav".to_string()]);
    assert_eq!(plan.len(), 1);
    assert_eq!(plan[0].key, "KeyB");
    assert_eq!(plan[0].sources, vec!["b.wav".to_string()]);
}

#[test]
fn the_v2_config_carries_the_descriptive_fields() {
    let config = json(r#"{"tags": [], "name": "n", "id": "i", "sound": "s", "icon": "x.png"}"#);
    assert_eq!(
        copied_fields(&config),
        vec!["id".to_string(), "name".to_string(), "icon".to_string(), "tags".to_string()]
    );
}

#[test]
fn only_a_convertible_v1_pack_is_converted() {
    let v1 = validate_soundpack_config(&ConfigSource::Parsed(json(
        r#"{"config_version": 1, "name": "old", "defines": {"1": [0, 100]}, "sound": "s.ogg"}"#,
    )));
    assert_eq!(v1_conversion(&v1), Ok(true));
    let v2 = validate_soundpack_config(&ConfigSource::Parsed(json(
        r#"{"config_version": 2, "name": "n", "author": "a", "definitions": {"KeyA": [[0, 1]]}}"#,
    )));
    assert_eq!(v1_conversion(&v2), Ok(false));
}

#[test]
fn an_existing_audio_file_backup_takes_the_bak_name() {
    assert_eq!(backup_name("/p/concatenated_audio.wav", 0), Some("/p/concatenated_audio.wav.bak".to_string()));
    assert_eq!(backup_name("/p/concatenated_audio.wav", 1), Some("/p/concatenated_audio.wav.bak.1".to_string()));
}

#[test]
fn a_second_backup_does_not_clobber_the_first() {
    let first = backup_name("/p/a.wav", 0).unwrap();
    let second = backup_name("/p/a.wav", 1).unwrap();
    assert_ne!(first, second, "the second backup must take a distinct path");
    assert_eq!(backup_name("/p/a.wav", RESCUE_ATTEMPTS - 1), Some("/p/a.wav.bak.99".to_string()));
    assert_eq!(backup_name("/p/a.wav", RESCUE_ATTEMPTS), None);
}

#[test]
fn a_second_failure_does_not_clobber_the_first_rescue() {
    let first = corrupt_copy_name("/d/config.json", 0).unwrap();
    let second = corrupt_copy_name("/d/config.json", 1).unwrap();
    assert_eq!(first, "/d/config.json.corrupt");
    assert_eq!(second, "/d/config.json.corrupt.1");
    assert_ne!(first, second, "the second rescue must take a distinct path");
}

#[test]
fn v1_backup_path_is_bounded_and_reuses_the_oldest_slot() {
    let cfg = "/d/config.json";
    let (s1, p1) = v1_backup_slot(cfg, &vec![false, false, false]);
    let (s2, p2) = v1_backup_slot(cfg, &vec![true, false, false]);
    let (s3, p3) = v1_backup_slot(cfg, &vec![true, true, false]);
    assert_eq!((s1, s2, s3), (0, 1, 2));
    assert_ne!(p1, p2);
    assert_ne!(p2, p3);
    // set full: the oldest (unnumbered) slot is re-taken; no fourth name
    let (s4, p4) = v1_backup_slot(cfg, &vec![true, true, true]);
    assert_eq!(s4, 0);
    assert_eq!(p4, p1);
    assert_eq!(p1, "/d/config.json.v1.backup");
    assert_eq!(p3, "/d/config.json.v1.backup.2");
}

#[test]
fn temporary_names_sit_beside_their_target() {
    assert_eq!(atomic_temp_name("/d/c.json", 42), "/d/c.json.tmp.42");
    assert_eq!(sibling_temp_name("/d/bar-section", 7, 123, 0), "/d/bar-section.7.123.0.tmp");
    assert_ne!(sibling_temp_name("/t", 7, 123, 0), sibling_temp_name("/t", 7, 123, 1));
    assert_eq!(numbered_name("x", ".y", 3, 4), Some("x.y.3".to_string()));
}

#[test]
fn the_first_free_rescue_name_is_taken() {
    let mut taken = vec![false; RESCUE_ATTEMPTS as usize];
    assert_eq!(first_free_name("a.wav", ".bak", &taken), Some("a.wav.bak".to_string()));
    taken[0] = true;
    taken[1] = true;
    assert_eq!(first_free_name("a.wav", ".bak", &taken), Some("a.wav.bak.2".to_string()));
    let all = vec![true; RESCUE_ATTEMPTS as usize];
    assert_eq!(first_free_name("c.json", ".corrupt", &all), None);
    let mut past_limit = all.clone();
    past_limit.push(false);
    assert_eq!(first_free_name("c.json", ".corrupt", &past_limit), None);
}
