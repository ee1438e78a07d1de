use sorakey::control::{
    bundled_ids, bundled_packs, cli_mode, command_of, deletable_pack, device_known,
    exceeds_request_limit, fallback_pack, first_newline, has_content, lock_path, pack_entry_id,
    pack_id, qualify_soundpack_id, reply_exit_code, requested_bar_section, requested_device,
    requested_mute, socket_path, sort_ids, stored_bar_section, too_many_per_pack_entries,
    unknown_command_error, CliMode, Command, MAX_REQUEST_BYTES,
};
use sorakey::json::{Json, JsonNumber};

fn to_json(v: &serde_json::Value) -> Json {
    match v {
        serde_json::Value::Null => Json::Null,
        serde_json::Value::Bool(b) => Json::Bool(*b),
        serde_json::Value::Number(n) => {
            let f = n.as_f64().unwrap_or(0.0);
            Json::Number(JsonNumber {
                as_u64: n.as_u64(),
                as_i64: n.as_i64(),
                f64_bits: f.to_bits(),
                f64_text: format!("{}", f),
            })
        }
        serde_json::Value::String(s) => Json::Str(s.clone()),
        serde_json::Value::Array(a) => Json::Array(a.iter().map(to_json).collect()),
        serde_json::Value::Object(o) => {
            Json::Object(o.iter().map(|(k, v)| (k.clone(), to_json(v))).collect())
        }
    }
}

fn req(text: &str) -> Json {
    to_json(&serde_json::from_str::<serde_json::Value>(text).expect("valid json"))
}

fn id_req(id: &str) -> Json {
    let mut m = serde_json::Map::new();
    m.insert("id".to_string(), serde_json::Value::String(id.to_string()));
    to_json(&serde_json::Value::Object(m))
}

#[test]
fn delete_preinstalled_pack_is_denied() {
    let stamp: Vec<String> = Vec::new();
    for id in bundled_packs() {
        let resp = deletable_pack(&id_req(&id), &stamp);
        match resp {
            Err(e) => assert!(e.contains("preinstalled"), "preinstalled {id} must be denied, got: {e}"),
            Ok(ok) => panic!("preinstalled {id} must be denied, got: {:?}", ok),
        }
    }
}

#[test]
fn a_pack_the_stamp_names_is_preinstalled_too() {
    let stamp = vec!["keyboard/custom".to_string()];
    assert_eq!(
        deletable_pack(&id_req("custom"), &stamp),
        Err("cannot delete preinstalled pack".to_string())
    );
    assert_eq!(
        deletable_pack(&id_req("custom"), &Vec::new()),
        Ok(("keyboard/custom".to_string(), "custom".to_string()))
    );
}

#[test]
fn delete_refuses_ids_that_could_escape() {
    let stamp: Vec<String> = Vec::new();
    for bad in ["../x", "a\0b", "keyboard/a/b", "keyboard/", "a\\b", "keyboard/.."] {
        assert_eq!(deletable_pack(&id_req(bad), &stamp), Err("invalid id".to_string()), "{:?}", bad);
    }
    assert_eq!(deletable_pack(&req("{}"), &stamp), Err("missing id".to_string()));
    assert_eq!(deletable_pack(&req(r#"{"id": 3}"#), &stamp), Err("missing id".to_string()));
}

#[test]
fn pack_ids_are_qualified_once() {
    assert_eq!(qualify_soundpack_id("sugar65", "keyboard/"), "keyboard/sugar65");
    assert_eq!(qualify_soundpack_id("keyboard/sugar65", "keyboard/"), "keyboard/sugar65");
    assert_eq!(pack_id(&id_req("x")), Ok("keyboard/x".to_string()));
    assert_eq!(pack_id(&id_req("a..b")), Err("invalid id".to_string()));
    assert_eq!(pack_id(&req("{}")), Err("missing id".to_string()));
}

#[test]
fn the_fallback_pack_wraps_around_the_remaining_ones() {
    let ids = vec!["keyboard/a".to_string(), "keyboard/b".to_string(), "keyboard/c".to_string()];
    assert_eq!(fallback_pack(&ids, 0), "keyboard/a");
    assert_eq!(fallback_pack(&ids, 7), "keyboard/b");
    assert_eq!(fallback_pack(&Vec::new(), 7), "");
}

#[test]
fn per_pack_entries_are_capped_for_new_packs_only() {
    assert!(too_many_per_pack_entries(500, false));
    assert!(!too_many_per_pack_entries(500, true));
    assert!(!too_many_per_pack_entries(499, false));
}

#[test]
fn import_leftovers_are_not_listed() {
    assert_eq!(pack_entry_id("keyboard", "sugar65"), Some("keyboard/sugar65".to_string()));
    assert_eq!(pack_entry_id("keyboard", "sugar65.bak.1700000000.42"), None);
}

#[test]
fn packs_are_listed_sorted_with_the_shipped_ones_badged() {
    let found = vec![
        "keyboard/zeta".to_string(),
        "keyboard/sugar65".to_string(),
        "keyboard/alpha".to_string(),
        "keyboard/Beta".to_string(),
    ];
    let sorted = sort_ids(&found);
    assert_eq!(
        sorted,
        vec![
            "keyboard/Beta".to_string(),
            "keyboard/alpha".to_string(),
            "keyboard/sugar65".to_string(),
            "keyboard/zeta".to_string(),
        ]
    );
    let stamp = vec!["keyboard/zeta".to_string()];
    assert_eq!(
        bundled_ids(&sorted, &stamp),
        vec!["keyboard/sugar65".to_string(), "keyboard/zeta".to_string()]
    );
}

#[test]
fn requests_name_their_command() {
    assert_eq!(command_of(&req(r#"{"cmd": "status"}"#)), Command::Status);
    assert_eq!(command_of(&req(r#"{"cmd": "keyboard_pack", "id": "x"}"#)), Command::KeyboardPack);
    assert_eq!(command_of(&req(r#"{"cmd": "export_logs"}"#)), Command::ExportLogs);
    assert_eq!(command_of(&req(r#"{"cmd": "dance"}"#)), Command::Unknown("dance".to_string()));
    assert_eq!(command_of(&req(r#"{}"#)), Command::Unknown(String::new()));
    assert_eq!(unknown_command_error("dance"), "unknown cmd: dance");
}

#[test]
fn mute_defaults_to_muting() {
    assert!(requested_mute(&req("{}")));
    assert!(!requested_mute(&req(r#"{"muted": false}"#)));
    assert!(requested_mute(&req(r#"{"muted": "no"}"#)));
}

#[test]
fn device_requests_are_checked() {
    assert_eq!(requested_device(&req("{}")), Ok(None));
    assert_eq!(requested_device(&req(r#"{"id": null}"#)), Ok(None));
    assert_eq!(requested_device(&req(r#"{"id": ""}"#)), Ok(None));
    assert_eq!(requested_device(&req(r#"{"id": "output_name:1"}"#)), Ok(Some("output_name:1".to_string())));
    assert_eq!(requested_device(&req(r#"{"id": 5}"#)), Err("id must be a string or null".to_string()));
    assert_eq!(requested_device(&id_req(&"x".repeat(257))), Err("invalid id".to_string()));
    assert_eq!(requested_device(&id_req(&"x".repeat(256))), Ok(Some("x".repeat(256))));
    // the limit is in bytes: 129 two-byte characters are too long
    assert_eq!(requested_device(&id_req(&"é".repeat(129))), Err("invalid id".to_string()));
    assert_eq!(requested_device(&id_req("a\0b")), Err("invalid id".to_string()));
    let known = vec!["output_name:1".to_string()];
    assert!(device_known(&"output_name:1".to_string(), &known));
    assert!(device_known(&"output_default".to_string(), &known));
    assert!(!device_known(&"output_name:2".to_string(), &known));
}

#[test]
fn the_bar_section_falls_back_to_right() {
    assert_eq!(stored_bar_section(Some(" left\n")), "left");
    assert_eq!(stored_bar_section(Some("middle")), "right");
    assert_eq!(stored_bar_section(None), "right");
    assert_eq!(requested_bar_section(&req(r#"{"section": "center"}"#)), Ok("center"));
    assert_eq!(requested_bar_section(&req(r#"{"section": "top"}"#)), Err("invalid section".to_string()));
    assert_eq!(requested_bar_section(&req("{}")), Err("missing section".to_string()));
}

#[test]
fn request_framing() {
    assert!(!exceeds_request_limit(0, MAX_REQUEST_BYTES));
    assert!(exceeds_request_limit(1, MAX_REQUEST_BYTES));
    assert!(exceeds_request_limit(70 * 1024, 0));
    assert_eq!(first_newline(b"{\"cmd\":\"status\"}\nrest"), Some(16));
    assert_eq!(first_newline(b"no newline"), None);
    assert!(!has_content(b" \t\r\n"));
    assert!(has_content(b" {"));
}

#[test]
fn the_client_exits_zero_only_on_ok() {
    assert_eq!(reply_exit_code(Some(&req(r#"{"ok": true}"#))), 0);
    assert_eq!(reply_exit_code(Some(&req(r#"{"ok": false, "error": "x"}"#))), 1);
    assert_eq!(reply_exit_code(Some(&req(r#"{"ok": 1}"#))), 1);
    assert_eq!(reply_exit_code(None), 1);
}

#[test]
fn runtime_files_live_in_the_runtime_dir() {
    assert_eq!(socket_path(Some("/run/user/1000"), "/tmp"), "/run/user/1000/sorakey.sock");
    assert_eq!(socket_path(None, "/tmp"), "/tmp/sorakey/sorakey.sock");
    assert_eq!(lock_path(Some("/run/user/1000"), "/tmp"), "/run/user/1000/sorakey.lock");
    assert_eq!(lock_path(None, "/tmp"), "/tmp/sorakey.lock");
}

#[test]
fn the_command_line_selects_a_mode() {
    let args = |v: &[&str]| v.iter().map(|s| s.to_string()).collect::<Vec<String>>();
    assert_eq!(cli_mode(&args(&["sorakey", "ctl", "{\"cmd\":\"status\"}"])), CliMode::Ctl("{\"cmd\":\"status\"}".to_string()));
    assert_eq!(cli_mode(&args(&["sorakey", "ctl"])), CliMode::Ctl("{}".to_string()));
    assert_eq!(
        cli_mode(&args(&["sorakey", "key", "KeyA", "up"])),
        CliMode::Key { code: "KeyA".to_string(), down: false }
    );
    assert_eq!(cli_mode(&args(&["sorakey", "key"])), CliMode::Key { code: String::new(), down: true });
    assert_eq!(cli_mode(&args(&["sorakey"])), CliMode::Daemon);
}
