use sorakey::json::{Json, JsonNumber};
use sorakey::orphan::{
    cleanup_dirs, cleanup_files, runtime_dir, runtime_leftovers, enabled_in, entry_id, entry_present, omarchy_dir, plugin_enabled, record_check, scan_buf, Scan,
    CONFIG_EVENTS, ENABLE_MISS_LIMIT, IN_CLOSE_WRITE, IN_CREATE, IN_DELETE, IN_MOVED_FROM,
    IN_MOVED_TO, IN_Q_OVERFLOW, MISS_LIMIT, REMOVAL_EVENTS, SAFETY_MISS_LIMIT,
};

fn to_json(v: &serde_json::Value) -> Json {
    match v {
        serde_json::Value::Null => Json::Null,
        serde_json::Value::Bool(b) => Json::Bool(*b),
        serde_json::Value::Number(n) => {
            let f = n.as_f64().unwrap_or(0.0);
            Json::Number(JsonNumber {
                as_u64: n.as_u64(),
                as_i64: n.as_i64(),
                f64_bits: f.to_bits(),
                f64_text: format!("{}", f),
            })
        }
        serde_json::Value::String(s) => Json::Str(s.clone()),
        serde_json::Value::Array(a) => Json::Array(a.iter().map(to_json).collect()),
        serde_json::Value::Object(o) => {
            Json::Object(o.iter().map(|(k, v)| (k.clone(), to_json(v))).collect())
        }
    }
}

fn parse(text: &str) -> Option<Json> {
    serde_json::from_str::<serde_json::Value>(text).ok().map(|v| to_json(&v))
}

fn enabled_text(text: &str) -> Option<bool> {
    let parsed = parse(text);
    enabled_in(parsed.as_ref())
}

const ON: &str = r#"{"bar":{"layout":{"left":[],"center":[],"right":[{"id":"io.github.sandeshrai00.sorakey"}]}},"plugins":[]}"#;

fn native_little_endian() -> bool {
    1u32.to_ne_bytes()[0] == 1
}

// struct inotify_event { wd:i32, mask:u32, cookie:u32, len:u32, name[] }
fn ev(mask: u32, name: &[u8]) -> Vec<u8> {
    let mut v = Vec::new();
    v.extend_from_slice(&1i32.to_ne_bytes());
    v.extend_from_slice(&mask.to_ne_bytes());
    v.extend_from_slice(&0u32.to_ne_bytes());
    v.extend_from_slice(&(name.len() as u32).to_ne_bytes());
    v.extend_from_slice(name);
    v
}

fn scan(buf: &[u8], base: &[u8], mask: u32) -> Scan {
    scan_buf(buf, base, mask, native_little_endian())
}

#[test]
fn waits_for_sustained_absence() {
    let is_clean = |m: u32| m >= MISS_LIMIT;
    assert!(!is_clean(0));
    assert!(!is_clean(5));
    assert!(is_clean(6));
    assert!(is_clean(100));
}

#[test]
fn enabled_state_from_shell_json() {
    // bar layout object entry (the normal case)
    assert_eq!(enabled_text(ON), Some(true));
    // bar layout bare-string entry
    assert_eq!(
        enabled_text(r#"{"bar":{"layout":{"right":["io.github.sandeshrai00.sorakey"]}}}"#),
        Some(true)
    );
    // plugins[] entry (service-kind placement)
    assert_eq!(
        enabled_text(r#"{"plugins":[{"id":"io.github.sandeshrai00.sorakey"}]}"#),
        Some(true)
    );
    // referenced nowhere = disabled
    assert_eq!(
        enabled_text(
            r#"{"bar":{"layout":{"left":[],"center":[],"right":[{"id":"omarchy.tray"}]}},"plugins":[]}"#
        ),
        Some(false)
    );
    // empty / minimal config
    assert_eq!(enabled_text("{}"), Some(false));
    assert_eq!(enabled_text(r#"{"bar":{"layout":{"left":[]}}}"#), Some(false));
    // unparseable = unknown, not disabled (caller fails open)
    assert_eq!(enabled_text(""), None);
    assert_eq!(enabled_text("not json"), None);
    assert_eq!(enabled_text(r#"{"plugins":}"#), None);
}

#[test]
fn entry_present_needs_the_plugin_id() {
    let v = parse(ON).unwrap();
    assert!(entry_present(&v));
    // same shape, different id
    let v = parse(r#"{"bar":{"layout":{"right":[{"id":"other.plugin"}]}}}"#).unwrap();
    assert!(!entry_present(&v));
}

#[test]
fn parser_spots_delete_or_move_of_our_entry_only() {
    let base = b"io.github.sandeshrai00.sorakey";
    let mut buf = ev(0x200, b"quickshell.spotify\0");
    buf.extend_from_slice(&ev(0x200, b"io.github.sandeshrai00.sorakey\0"));
    assert_eq!(scan(&buf, base, IN_DELETE | IN_MOVED_FROM), Scan::Removed);

    assert_eq!(
        scan(&ev(0x200, b"quickshell.spotify\0"), base, IN_DELETE | IN_MOVED_FROM),
        Scan::Nothing
    );
    assert_eq!(
        scan(&ev(0x40, b"io.github.sandeshrai00.sorakey\0"), base, IN_DELETE | IN_MOVED_FROM),
        Scan::Removed
    );
    assert_eq!(scan(&ev(0x8000, b"\0"), base, IN_DELETE | IN_MOVED_FROM), Scan::WatchLost);
    assert_eq!(scan(&[], base, IN_DELETE | IN_MOVED_FROM), Scan::Nothing);
}

#[test]
fn parser_spots_shell_json_writes_only() {
    let base = b"shell.json";
    // atomic rename (the shell's write path)
    assert_eq!(scan(&ev(IN_MOVED_TO, base), base, CONFIG_EVENTS), Scan::Removed);
    assert_eq!(scan(&ev(IN_CREATE, base), base, CONFIG_EVENTS), Scan::Removed);
    assert_eq!(scan(&ev(IN_CLOSE_WRITE, base), base, CONFIG_EVENTS), Scan::Removed);
    // other entries in the dir / other masks: ignored
    assert_eq!(scan(&ev(IN_MOVED_TO, b"plugins\0"), base, CONFIG_EVENTS), Scan::Nothing);
    // IN_MODIFY (0x2): a write we deliberately do NOT watch
    assert_eq!(scan(&ev(0x2, base), base, CONFIG_EVENTS), Scan::Nothing);
    assert_eq!(scan(&ev(IN_Q_OVERFLOW, b"\0"), base, CONFIG_EVENTS), Scan::WatchLost);
}

#[test]
fn event_masks_combine_the_named_bits() {
    assert_eq!(CONFIG_EVENTS, IN_CLOSE_WRITE | IN_MOVED_TO | IN_CREATE);
    assert_eq!(REMOVAL_EVENTS, IN_DELETE | IN_MOVED_FROM);
}

#[test]
fn a_truncated_trailing_event_is_left_for_the_next_read() {
    let base = b"shell.json";
    let mut buf = ev(IN_MOVED_TO, b"shell.json");
    buf.truncate(buf.len() - 3);
    assert_eq!(scan(&buf, base, CONFIG_EVENTS), Scan::Nothing);
    // a header alone (no room for the name) is also incomplete
    assert_eq!(scan(&buf[..10], base, CONFIG_EVENTS), Scan::Nothing);
}

#[test]
fn our_event_after_a_lost_watch_is_not_reached() {
    let base = b"shell.json";
    let mut buf = ev(IN_Q_OVERFLOW, b"\0");
    buf.extend_from_slice(&ev(IN_MOVED_TO, base));
    assert_eq!(scan(&buf, base, CONFIG_EVENTS), Scan::WatchLost);
}

#[test]
fn an_empty_name_never_matches() {
    assert_eq!(scan(&ev(IN_DELETE, b"\0"), b"", REMOVAL_EVENTS), Scan::Nothing);
}

#[test]
fn both_byte_orders_are_read() {
    // the same event written big-endian, read as big-endian
    let mut v = Vec::new();
    v.extend_from_slice(&1i32.to_be_bytes());
    v.extend_from_slice(&IN_DELETE.to_be_bytes());
    v.extend_from_slice(&0u32.to_be_bytes());
    v.extend_from_slice(&4u32.to_be_bytes());
    v.extend_from_slice(b"abc\0");
    assert_eq!(scan_buf(&v, b"abc", REMOVAL_EVENTS, false), Scan::Removed);
    let mut w = Vec::new();
    w.extend_from_slice(&1i32.to_le_bytes());
    w.extend_from_slice(&IN_DELETE.to_le_bytes());
    w.extend_from_slice(&0u32.to_le_bytes());
    w.extend_from_slice(&4u32.to_le_bytes());
    w.extend_from_slice(b"abc\0");
    assert_eq!(scan_buf(&w, b"abc", REMOVAL_EVENTS, true), Scan::Removed);
}

#[test]
fn the_watchdog_acts_on_the_limit_th_consecutive_miss() {
    let mut misses = 0;
    for _ in 0..MISS_LIMIT - 1 {
        let (m, act) = record_check(misses, false, MISS_LIMIT);
        assert!(!act);
        misses = m;
    }
    let (m, act) = record_check(misses, false, MISS_LIMIT);
    assert_eq!(m, MISS_LIMIT);
    assert!(act);
}

#[test]
fn a_healthy_check_resets_the_count() {
    let (m, act) = record_check(5, true, MISS_LIMIT);
    assert_eq!(m, 0);
    assert!(!act);
    let (m, act) = record_check(0, false, SAFETY_MISS_LIMIT);
    assert_eq!((m, act), (1, false));
    let (m, act) = record_check(m, false, SAFETY_MISS_LIMIT);
    assert_eq!((m, act), (2, true));
    let (m, act) = record_check(u32::MAX, false, ENABLE_MISS_LIMIT);
    assert_eq!((m, act), (u32::MAX, true));
}

#[test]
fn an_unreadable_shell_config_counts_as_enabled() {
    assert!(plugin_enabled(None));
    let off = parse("{}").unwrap();
    assert!(!plugin_enabled(Some(&off)));
    let on = parse(ON).unwrap();
    assert!(plugin_enabled(Some(&on)));
}

#[test]
fn entry_ids_come_from_strings_or_id_members() {
    assert_eq!(entry_id(&Json::Str("a.b".to_string())).map(|s| s.as_str()), Some("a.b"));
    let obj = parse(r#"{"id":"x.y"}"#).unwrap();
    assert_eq!(entry_id(&obj).map(|s| s.as_str()), Some("x.y"));
    let bad = parse(r#"{"id":3}"#).unwrap();
    assert_eq!(entry_id(&bad), None);
    assert_eq!(entry_id(&Json::Null), None);
}

#[test]
fn the_shell_config_dir_prefers_xdg_config_home() {
    assert_eq!(omarchy_dir(Some("/x/cfg"), Some("/home/u")), "/x/cfg/omarchy");
    assert_eq!(omarchy_dir(Some(""), Some("/home/u")), "/home/u/.config/omarchy");
    assert_eq!(omarchy_dir(None, Some("/home/u")), "/home/u/.config/omarchy");
    assert_eq!(omarchy_dir(None, None), ".config/omarchy");
}

#[test]
fn an_orphan_removes_its_unit_binary_data_and_runtime_files() {
    assert_eq!(
        cleanup_files("/home/u"),
        vec![
            "/home/u/.config/systemd/user/sorakey.service".to_string(),
            "/home/u/.local/bin/sorakey".to_string(),
        ]
    );
    assert_eq!(
        cleanup_dirs("/home/u"),
        vec!["/home/u/.local/share/sorakey".to_string(), "/home/u/.cache/sorakey".to_string()]
    );
    assert_eq!(runtime_dir(Some("/run/user/7"), 1000), "/run/user/7");
    assert_eq!(runtime_dir(None, 1000), "/run/user/1000");
    assert_eq!(
        runtime_leftovers("/run/user/1000", "/home/u"),
        vec![
            "/run/user/1000/sorakey.sock".to_string(),
            "/home/u/.sorakey.sock".to_string(),
            "/run/user/1000/sorakey.lock".to_string(),
            "/home/u/.sorakey.lock".to_string(),
        ]
    );
}
