use sorakey::status::{
    note_default_sink, note_key, opened_device, set_audio_result, set_input_error,
    set_input_keyboards, set_opened_device, set_pack_result, snapshot, Health,
};

#[test]
fn health_snapshot_reports_what_was_set() {
    let mut h = Health::new();
    set_input_keyboards(&mut h, 2);
    set_input_error(&mut h, Some("test error".to_string()));
    set_pack_result(&mut h, false, Some("pack boom".to_string()));
    set_audio_result(&mut h, true, None);
    let s = snapshot(&h, 100);
    assert_eq!(s.input_keyboards, 2);
    assert_eq!(s.input_error.as_deref(), Some("test error"));
    assert_eq!(s.pack_loaded, Some(false));
    assert_eq!(s.pack_error.as_deref(), Some("pack boom"));
    assert!(s.audio_ok);
}

#[test]
fn default_sink_change_fires_exactly_once() {
    let mut h = Health::new();
    note_default_sink(&mut h, Some("test-sink-gamma-base".to_string()));
    assert!(!note_default_sink(&mut h, Some("test-sink-gamma-base".to_string())));
    assert!(note_default_sink(&mut h, Some("test-sink-gamma-next".to_string())));
    assert!(!note_default_sink(&mut h, Some("test-sink-gamma-next".to_string())));
    assert!(note_default_sink(&mut h, None));
    assert!(!note_default_sink(&mut h, None));
}

#[test]
fn opened_device_round_trips() {
    let mut h = Health::new();
    set_opened_device(&mut h, None);
    assert_eq!(opened_device(&h), Some(None));
    set_opened_device(&mut h, Some("test-device".to_string()));
    assert_eq!(opened_device(&h), Some(Some("test-device".to_string())));
}

#[test]
fn a_fresh_record_knows_nothing_yet() {
    let h = Health::new();
    let s = snapshot(&h, 1000);
    assert_eq!(s.input_keyboards, 0);
    assert_eq!(s.last_key_age_s, None);
    assert_eq!(s.pack_loaded, None);
    assert!(!s.audio_ok);
    assert_eq!(opened_device(&h), None);
}

#[test]
fn the_first_sighting_of_a_sink_only_seeds() {
    let mut h = Health::new();
    assert!(!note_default_sink(&mut h, Some("a".to_string())));
    assert!(note_default_sink(&mut h, Some("b".to_string())));
}

#[test]
fn key_age_counts_from_the_last_key() {
    let mut h = Health::new();
    note_key(&mut h, 50);
    assert_eq!(snapshot(&h, 53).last_key_age_s, Some(3));
    // a clock that went backwards reads as zero, not as a huge age
    assert_eq!(snapshot(&h, 40).last_key_age_s, Some(0));
    set_pack_result(&mut h, true, None);
    assert_eq!(snapshot(&h, 53).pack_loaded, Some(true));
}
