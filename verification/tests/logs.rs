use sorakey::logs::{
    current_user_name, export_contents, export_header, generation, len, mask_name_in_paths,
    mask_user_paths, push, recent, redact_key_identities, snapshot, LogBuffer, CAPACITY,
    VIEWER_LINES,
};

const TS: &str = "12:34:56.789";

fn our_indices(buf: &LogBuffer, marker: &str) -> Vec<usize> {
    snapshot(buf)
        .iter()
        .filter_map(|line| line.split(marker).nth(1)?.trim().parse().ok())
        .collect()
}

fn captured(contents: &str) -> usize {
    contents
        .lines()
        .find_map(|l| l.split("Lines captured: ").nth(1)?.split(' ').next()?.parse().ok())
        .expect("header must report count")
}

#[test]
fn lines_are_kept_in_order_with_a_timestamp() {
    let mut buf = LogBuffer::new();
    push(&mut buf, "ordertest 0", TS);
    push(&mut buf, "ordertest 1", TS);

    let ours = our_indices(&buf, "ordertest ");
    assert_eq!(ours, vec![0, 1]);
    let first = snapshot(&buf)
        .into_iter()
        .find(|l| l.contains("ordertest 0"))
        .expect("pushed line must be present");
    assert!(first.chars().take(2).all(|c| c.is_ascii_digit()), "{}", first);
    assert_eq!(first, "12:34:56.789 ordertest 0");
}

#[test]
fn the_buffer_rotates_and_never_grows_past_capacity() {
    let mut buf = LogBuffer::new();
    for i in 0..CAPACITY + 50 {
        push(&mut buf, &format!("rotcap {}", i), TS);
    }

    assert_eq!(len(&buf), CAPACITY);
    let ours = our_indices(&buf, "rotcap ");
    assert!(ours.windows(2).all(|w| w[0] < w[1]));
    assert_eq!(*ours.last().unwrap(), CAPACITY + 49);
    assert!(*ours.first().unwrap() >= 50);
}

#[test]
fn recent_returns_the_tail_oldest_first() {
    let mut buf = LogBuffer::new();
    for i in 0..10 {
        push(&mut buf, &format!("tailtest {}", i), TS);
    }

    let tail = recent(&buf, 6);
    let ours: Vec<usize> = tail
        .iter()
        .filter_map(|line| line.split("tailtest ").nth(1)?.trim().parse().ok())
        .collect();
    assert!(ours.len() >= 3, "tail must contain our newest lines: {:?}", tail);
    assert!(ours.windows(2).all(|w| w[0] < w[1]));
    assert_eq!(*ours.last().unwrap(), 9);
    assert_eq!(ours, vec![4, 5, 6, 7, 8, 9]);
}

#[test]
fn recent_asking_for_more_than_exists_returns_everything() {
    let mut buf = LogBuffer::new();
    push(&mut buf, "loneline 0", TS);
    let tail = recent(&buf, VIEWER_LINES);
    assert!(tail.iter().any(|l| l.contains("loneline 0")), "{:?}", tail);
}

#[test]
fn a_multi_line_message_becomes_multiple_entries() {
    let mut buf = LogBuffer::new();
    push(&mut buf, "multiline-alpha\nmultiline-beta", TS);

    let lines = snapshot(&buf);
    let ours: Vec<&String> = lines.iter().filter(|line| line.contains("multiline-")).collect();

    assert_eq!(ours.len(), 2, "{:?}", lines);
    assert!(ours[0].ends_with("multiline-alpha"), "{}", ours[0]);
    assert!(ours[1].ends_with("multiline-beta"), "{}", ours[1]);
}

#[test]
fn carriage_returns_are_trimmed_from_each_part() {
    let mut buf = LogBuffer::new();
    push(&mut buf, "crlf one\r\ncrlf two\r", TS);
    assert_eq!(
        snapshot(&buf),
        vec!["12:34:56.789 crlf one".to_string(), "12:34:56.789 crlf two".to_string()]
    );
}

#[test]
fn every_push_moves_the_generation() {
    let mut buf = LogBuffer::new();
    let before = generation(&buf);
    push(&mut buf, "something", TS);
    assert!(generation(&buf) > before);
}

#[test]
fn always_print_reaches_the_ring_buffer() {
    let mut buf = LogBuffer::new();
    let before = generation(&buf);
    let line = format!("logger test marker {}", 42);
    push(&mut buf, &line, TS);
    assert!(generation(&buf) > before, "a logged line must land in the buffer");

    let recent = recent(&buf, 50).join("\n");
    assert!(recent.contains("logger test marker 42"), "{}", recent);
}

#[test]
fn arguments_are_evaluated_exactly_once() {
    let mut buf = LogBuffer::new();
    let mut calls = 0;
    let mut bump = || {
        calls += 1;
        calls
    };
    let line = format!("evaluated {} time(s)", bump());
    push(&mut buf, &line, TS);
    assert_eq!(calls, 1, "a side-effecting argument must run once");
}

#[test]
fn the_export_carries_the_header_and_every_line() {
    let mut buf = LogBuffer::new();
    let marker = "export-header-line";
    for i in 0..5 {
        push(&mut buf, &format!("{} {}", marker, i), TS);
    }

    let contents = export_contents(&buf, "0.1.9", "linux", "x86_64", "2026-08-04 15:30:45", None);

    assert!(contents.contains("Sorakey log export"), "{}", contents);
    assert!(contents.contains(&format!("App version: {}", "0.1.9")), "{}", contents);
    assert!(contents.contains("linux"), "{}", contents);
    assert!(contents.contains("Verbose logging: off"), "{}", contents);

    let reported = contents
        .lines()
        .find_map(|line| line.strip_prefix("Lines captured: "))
        .and_then(|rest| rest.split_whitespace().next())
        .and_then(|count| count.parse::<usize>().ok())
        .unwrap_or_else(|| panic!("{}", contents));
    assert!(reported >= 5);

    for i in 0..5 {
        assert!(contents.contains(&format!("{} {}", marker, i)), "missing {} {}", marker, i);
    }
}

#[test]
fn the_header_is_exactly_the_documented_layout() {
    let mut buf = LogBuffer::new();
    push(&mut buf, "a", TS);
    push(&mut buf, "b", TS);
    let header = export_header(&buf, "1.2.3", "linux", "aarch64", "2026-01-02 03:04:05");
    let expected = format!(
        "Sorakey log export\nApp version: 1.2.3\nOS: linux (aarch64)\nExported at: 2026-01-02 03:04:05\nVerbose logging: off\nLines captured: 2 (buffer holds up to 2000)\n{}\n",
        "-".repeat(60)
    );
    assert_eq!(header, expected);
}

#[test]
fn the_export_hides_the_account_name_in_paths() {
    let mut buf = LogBuffer::new();
    let user = "arocodes";
    push(&mut buf, &format!(r"soundpack_dir: C:\Users\{}\AppData\Local\Sorakey", user), TS);
    push(&mut buf, &format!("config: /home/{}/.config/sorakey/config.json", user), TS);

    let contents = export_contents(&buf, "0.1.9", "linux", "x86_64", "now", Some(user));

    assert!(!contents.contains(user), "{}", contents);
    assert!(contents.contains("[username]"), "{}", contents);
    assert!(contents.contains(r"\AppData\Local\Sorakey"), "{}", contents);
    assert!(contents.contains("/.config/sorakey/config.json"), "{}", contents);
}

#[test]
fn masking_replaces_whole_path_components_only() {
    let masked = mask_name_in_paths(r"C:\Users\ada\ada-theme\adamant.ogg", "ada");

    assert!(masked.contains(r"C:\Users\[username]\"), "{}", masked);
    assert!(masked.contains("adamant.ogg"), "{}", masked);
    assert!(masked.contains("ada-theme"), "{}", masked);
}

#[test]
fn masking_ignores_case_and_covers_both_path_separators() {
    let masked = mask_name_in_paths(r"C:\Users\AroCodes\x and /home/arocodes/y", "arocodes");

    assert!(!masked.to_lowercase().contains("arocodes"), "{}", masked);
    assert_eq!(masked, r"C:\Users\[username]\x and /home/[username]/y");
}

#[test]
fn a_name_at_the_end_of_a_path_is_still_masked() {
    let masked = mask_name_in_paths(r"home dir: C:\Users\arocodes", "arocodes");
    assert_eq!(masked, r"home dir: C:\Users\[username]");
}

#[test]
fn the_export_contains_more_than_the_viewer_shows() {
    let mut buf = LogBuffer::new();
    let total = VIEWER_LINES + 250;
    for i in 0..total {
        push(&mut buf, &format!("event {}", i), TS);
    }

    assert_eq!(recent(&buf, VIEWER_LINES).len(), VIEWER_LINES);

    let contents = export_contents(&buf, "0.1.9", "linux", "x86_64", "now", None);
    assert!(contents.contains("event 0"));
    assert!(contents.contains(&format!("event {}", total - 1)));
    let n = captured(&contents);
    assert!(n >= total, "header said {}", n);
}

#[test]
fn key_identities_never_leave_in_an_export() {
    assert_eq!(
        redact_key_identities("[evdev] Sending key press: KeyQ"),
        "[evdev] Sending key press: [redacted]"
    );
    assert_eq!(redact_key_identities("nothing to hide"), "nothing to hide");
    let mut buf = LogBuffer::new();
    push(&mut buf, "🔍 [evdev] Sending key press: KeyP", TS);
    let contents = export_contents(&buf, "v", "os", "arch", "now", None);
    assert!(!contents.contains("KeyP"), "{}", contents);
    // the live buffer keeps them for local debugging
    assert!(snapshot(&buf)[0].contains("KeyP"));
}

#[test]
fn the_account_name_is_the_first_long_enough_candidate() {
    let values = vec![None, Some("  ab ".to_string()), Some(" carol\t".to_string())];
    assert_eq!(current_user_name(&values), Some("carol".to_string()));
    assert_eq!(current_user_name(&vec![None, Some("x".to_string())]), None);
    assert_eq!(mask_user_paths("/home/carol/x", Some("carol")), "/home/[username]/x");
    assert_eq!(mask_user_paths("/home/carol/x", None), "/home/carol/x");
}

#[test]
fn a_kept_partial_match_does_not_count_as_a_path_start() {
    assert_eq!(mask_name_in_paths("/abab", "ab"), "/abab");
    assert_eq!(mask_name_in_paths("/ab/abab/ab", "ab"), "/[username]/abab/[username]");
    assert_eq!(mask_name_in_paths("xab/ab", "ab"), "xab/[username]");
}
