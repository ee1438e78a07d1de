use sorakey::concat::{Concatenation, DEFAULT_CHANNELS, DEFAULT_SAMPLE_RATE};
use sorakey::decode::{
    audio_file_size_check, preallocation, segment_bounds, stream_format, MAX_AUDIO_FILE_BYTES,
    MAX_SAMPLES,
};
use sorakey::pack_audio::{dead_files, pack_audio_plan, pack_load_result};

#[test]
fn the_first_file_sets_the_format_and_odd_clips_are_converted() {
    let mut c = Concatenation::new();
    assert_eq!((c.sample_rate, c.channels), (DEFAULT_SAMPLE_RATE, DEFAULT_CHANNELS));
    assert!(!c.adopt_format(0, 1, 44_100));
    assert_eq!((c.sample_rate, c.channels), (44_100, 1));
    c.append("letters.wav".to_string(), 4410);
    assert!(c.adopt_format(1, 1, 22_050));
    // the 22050 Hz clip is resampled to 4410 samples before it is appended
    c.append("delete.wav".to_string(), 4410);
    assert_eq!((c.sample_rate, c.channels), (44_100, 1));
    assert_eq!(c.total, 8820);
    let delete = &c.clips[1];
    assert_eq!((delete.file.as_str(), delete.offset, delete.len), ("delete.wav", 4410, 4410));
    assert_eq!(c.finish(), Ok(()));
}

#[test]
fn a_missing_first_file_leaves_the_default_format() {
    let mut c = Concatenation::new();
    // file 0 was missing: file 1 does not set the format
    assert!(c.adopt_format(1, 1, 48_000));
    assert_eq!((c.sample_rate, c.channels), (44_100, 2));
}

#[test]
fn nothing_loaded_is_an_error() {
    let c = Concatenation::new();
    assert_eq!(c.finish(), Err("No audio samples were loaded".to_string()));
}

#[test]
fn a_header_without_format_gets_the_fallback() {
    assert_eq!(stream_format(None, None), (44_100, 2));
    assert_eq!(stream_format(Some(48_000), Some(0)), (48_000, 2));
    assert_eq!(stream_format(Some(22_050), Some(1)), (22_050, 1));
}

#[test]
fn preallocation_is_capped() {
    assert_eq!(preallocation(None, 2), 0);
    assert_eq!(preallocation(Some(1000), 2), 2000);
    assert_eq!(preallocation(Some(usize::MAX), 2), MAX_SAMPLES);
    assert_eq!(MAX_SAMPLES, 15 * 60 * 48_000 * 2);
}

#[test]
fn empty_and_huge_files_are_not_decoded() {
    assert_eq!(audio_file_size_check(0, "/a.ogg"), Err("Audio file is empty: /a.ogg".to_string()));
    assert_eq!(audio_file_size_check(10, "/a.ogg"), Ok(()));
    assert_eq!(MAX_AUDIO_FILE_BYTES, 100 * 1024 * 1024);
    assert_eq!(
        audio_file_size_check(MAX_AUDIO_FILE_BYTES + 1, "/a.ogg"),
        Err("Audio file too large (104857601 bytes, cap 104857600 bytes): /a.ogg".to_string())
    );
}

#[test]
fn segments_are_clipped_to_the_buffer() {
    assert_eq!(segment_bounds(10, 20, 100), Some((10, 20)));
    assert_eq!(segment_bounds(90, 200, 100), Some((90, 100)));
    assert_eq!(segment_bounds(100, 200, 100), None);
    assert_eq!(segment_bounds(20, 20, 100), None);
}

fn key(name: &str, own: Option<&str>) -> (String, Option<String>) {
    (name.to_string(), own.map(|f| f.to_string()))
}

#[test]
fn single_method_keys_all_play_the_shared_file() {
    let shared = "sound.ogg".to_string();
    let keys = vec![key("KeyA", None), key("KeyB", Some("ignored.wav"))];
    let plan = pack_audio_plan(false, Some(&shared), &keys).unwrap();
    assert_eq!(
        plan,
        vec![
            ("KeyA".to_string(), "sound.ogg".to_string()),
            ("KeyB".to_string(), "sound.ogg".to_string()),
        ]
    );
}

#[test]
fn single_method_without_audio_file_is_refused() {
    let keys = vec![key("KeyA", None)];
    assert_eq!(
        pack_audio_plan(false, None, &keys),
        Err("No audio_file field in soundpack config".to_string())
    );
}

#[test]
fn multi_method_keys_play_their_own_files_and_keys_without_one_stay_silent() {
    let keys = vec![key("KeyA", Some("a.wav")), key("KeyB", None), key("Space", Some("space.wav"))];
    let plan = pack_audio_plan(true, None, &keys).unwrap();
    assert_eq!(
        plan,
        vec![
            ("KeyA".to_string(), "a.wav".to_string()),
            ("Space".to_string(), "space.wav".to_string()),
        ]
    );
}

#[test]
fn dead_files_are_named_once_in_sorted_order() {
    let failed = vec![
        "z.wav".to_string(),
        "b.wav".to_string(),
        "z.wav".to_string(),
        "a.wav".to_string(),
        "b.wav".to_string(),
    ];
    assert_eq!(dead_files(&failed), vec!["a.wav".to_string(), "b.wav".to_string(), "z.wav".to_string()]);
    assert!(dead_files(&Vec::new()).is_empty());
}

#[test]
fn a_failed_shared_file_fails_a_single_method_pack() {
    let outcomes = vec![Err("Sound file not found: x".to_string()), Err("second".to_string())];
    assert_eq!(pack_load_result("keyboard/x", false, &outcomes), Err("Sound file not found: x".to_string()));
}

#[test]
fn a_multi_method_pack_plays_what_loaded() {
    let outcomes = vec![Err("bad".to_string()), Ok(()), Err("worse".to_string())];
    assert_eq!(pack_load_result("keyboard/x", true, &outcomes), Ok(()));
    let none = vec![Err("bad".to_string())];
    assert_eq!(
        pack_load_result("keyboard/x", true, &none),
        Err("No audio files could be loaded for soundpack 'keyboard/x'".to_string())
    );
    assert_eq!(
        pack_load_result("keyboard/x", false, &Vec::new()),
        Err("No audio files could be loaded for soundpack 'keyboard/x'".to_string())
    );
}
