use sorakey::control::get_soundpacks_dir_absolute;
use sorakey::folders::soundpacks::{
    bundled_pack_ids, clean_relative, config_json, contained_dir, contained_file,
    get_builtin_soundpacks_dir, soundpack_dir,
};
use sorakey::folders::{consent_stamp, get_writable_data_dir};

#[test]
fn the_layout_under_the_data_root() {
    assert_eq!(get_writable_data_dir("/d"), "/d/data");
    assert_eq!(get_builtin_soundpacks_dir("/d"), "/d/soundpacks");
    assert_eq!(get_soundpacks_dir_absolute("/d"), "/d/soundpacks");
    assert_eq!(soundpack_dir("/d", "keyboard/sugar65"), "/d/soundpacks/keyboard/sugar65");
    assert_eq!(config_json("/d", "keyboard/sugar65"), "/d/soundpacks/keyboard/sugar65/config.json");
    assert!(consent_stamp("/d").starts_with("/d"));
}

#[test]
fn a_pack_id_cannot_leave_the_soundpacks_root() {
    let dir = soundpack_dir("/d", "keyboard/../../etc");
    assert!(dir.starts_with("/d/soundpacks/"), "{}", dir);
    let dir = soundpack_dir("/d", "/etc/passwd");
    assert!(dir.starts_with("/d/soundpacks/"), "{}", dir);
}

#[test]
fn symlink_escapes_are_refused() {
    assert_eq!(contained_dir(Some("/d/soundpacks"), Some("/d/soundpacks/keyboard/a")), Some("/d/soundpacks/keyboard/a".to_string()));
    assert_eq!(contained_dir(Some("/d/soundpacks"), Some("/etc")), None);
    assert_eq!(contained_dir(None, Some("/d/soundpacks/keyboard/a")), None);
    assert_eq!(clean_relative("./sound.ogg"), Some("sound.ogg".to_string()));
    assert_eq!(clean_relative("../x"), None);
    assert_eq!(contained_file("sound.ogg", Some("/p"), Some("/p/sound.ogg")), Some("/p/sound.ogg".to_string()));
    assert_eq!(contained_file("sound.ogg", Some("/p"), Some("/q/sound.ogg")), None);
}

#[test]
fn the_build_stamp_names_preinstalled_packs() {
    let ids = bundled_pack_ids("sugar65\n  aula-f75 \n../evil\nnested/dir\n\n-flag\n");
    assert_eq!(ids, vec!["keyboard/sugar65".to_string(), "keyboard/aula-f75".to_string()]);
}
