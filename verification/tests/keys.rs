use std::collections::HashMap;

use sorakey::keyboard::{
    handle_key_event, is_keyboard_device, map_evdev_keycode, report_first_scan,
    report_supervisor_scan, DeviceMods, KeySignal, SharedMods,
};
use sorakey::keys::w3c_name;
use sorakey::status::Health;

#[test]
fn no_code_is_mapped_twice() {
    let mut seen: HashMap<&str, u16> = HashMap::new();
    let mut codes: HashMap<u16, &str> = HashMap::new();
    for code in 0..=u16::MAX {
        if let Some(name) = w3c_name(code) {
            if let Some(first) = codes.insert(code, name) {
                panic!("code {} mapped to both {} and {}", code, first, name);
            }
            if let Some(other) = seen.insert(name, code) {
                panic!("name {} used by both {} and {}", name, other, code);
            }
        }
    }
    assert_eq!(codes.len(), 87);
}

#[test]
fn shared_range_matches_linux_input_codes() {
    assert_eq!(w3c_name(1), Some("Escape"));
    assert_eq!(w3c_name(30), Some("KeyA"));
    assert_eq!(w3c_name(57), Some("Space"));
    assert_eq!(w3c_name(88), Some("F12"));
    assert_eq!(w3c_name(0), None);
    assert_eq!(w3c_name(89), None);
}

#[test]
fn shared_range_agrees_with_evdev_codes() {
    assert_eq!(w3c_name(evdev::KeyCode::KEY_ESC.0), Some("Escape"));
    assert_eq!(w3c_name(evdev::KeyCode::KEY_A.0), Some("KeyA"));
    assert_eq!(w3c_name(evdev::KeyCode::KEY_SPACE.0), Some("Space"));
    assert_eq!(w3c_name(evdev::KeyCode::KEY_F12.0), Some("F12"));
    assert_eq!(w3c_name(84), None);
}

#[test]
fn extended_evdev_codes_have_their_own_names() {
    assert_eq!(map_evdev_keycode(evdev::KeyCode::KEY_RIGHTCTRL.0), "ControlRight");
    assert_eq!(map_evdev_keycode(evdev::KeyCode::KEY_RIGHTALT.0), "AltRight");
    assert_eq!(map_evdev_keycode(evdev::KeyCode::KEY_LEFTMETA.0), "MetaLeft");
    assert_eq!(map_evdev_keycode(evdev::KeyCode::KEY_UP.0), "ArrowUp");
    assert_eq!(map_evdev_keycode(evdev::KeyCode::KEY_PAGEDOWN.0), "PageDown");
    assert_eq!(map_evdev_keycode(evdev::KeyCode::KEY_A.0), "KeyA");
    assert_eq!(map_evdev_keycode(evdev::KeyCode::KEY_POWER.0), "");
}

#[test]
fn a_device_with_an_anchor_key_is_a_keyboard() {
    let keys = vec![evdev::KeyCode::KEY_VOLUMEUP.0, evdev::KeyCode::KEY_A.0];
    assert!(is_keyboard_device(Some(&keys), Some("Some Device")));
    let numpad = vec![evdev::KeyCode::KEY_KP7.0];
    assert!(is_keyboard_device(Some(&numpad), None));
}

#[test]
fn media_only_devices_need_a_keyboardish_name() {
    let keys = vec![evdev::KeyCode::KEY_POWER.0, evdev::KeyCode::KEY_VOLUMEUP.0];
    assert!(!is_keyboard_device(Some(&keys), Some("Power Button")));
    assert!(is_keyboard_device(Some(&keys), Some("Custom MACROPAD v2")));
    assert!(is_keyboard_device(Some(&keys), Some("USB KBD")));
    assert!(!is_keyboard_device(Some(&keys), None));
    // no key capability at all: never a keyboard, whatever the name
    assert!(!is_keyboard_device(None, Some("Keyboard")));
}

fn press(local: &mut DeviceMods, shared: &mut SharedMods, code: u16, value: i32) -> KeySignal {
    handle_key_event(local, shared, code, value)
}

#[test]
fn presses_repeats_and_releases_send_the_key_name() {
    let mut d = DeviceMods::new();
    let mut s = SharedMods::new();
    assert_eq!(press(&mut d, &mut s, 30, 1), KeySignal::Keyboard("KeyA".to_string()));
    assert_eq!(press(&mut d, &mut s, 30, 2), KeySignal::Keyboard("KeyA".to_string()));
    assert_eq!(press(&mut d, &mut s, 30, 0), KeySignal::Keyboard("UP:KeyA".to_string()));
    assert_eq!(press(&mut d, &mut s, 30, 7), KeySignal::Nothing);
    assert_eq!(press(&mut d, &mut s, evdev::KeyCode::KEY_POWER.0, 1), KeySignal::Nothing);
}

#[test]
fn ctrl_alt_m_toggles_sound_instead_of_clicking() {
    let mut d = DeviceMods::new();
    let mut s = SharedMods::new();
    press(&mut d, &mut s, 29, 1);
    press(&mut d, &mut s, 56, 1);
    assert_eq!(s, SharedMods { ctrl_held: 1, alt_held: 1 });
    assert_eq!(press(&mut d, &mut s, 50, 1), KeySignal::Hotkey("TOGGLE_SOUND".to_string()));
    // autorepeat of a held M does not toggle again
    assert_eq!(press(&mut d, &mut s, 50, 2), KeySignal::Keyboard("KeyM".to_string()));
    press(&mut d, &mut s, 29, 0);
    press(&mut d, &mut s, 56, 0);
    assert_eq!(s, SharedMods { ctrl_held: 0, alt_held: 0 });
    assert_eq!(press(&mut d, &mut s, 50, 1), KeySignal::Keyboard("KeyM".to_string()));
}

#[test]
fn a_chord_split_over_two_keyboards_still_fires() {
    let mut kb1 = DeviceMods::new();
    let mut kb2 = DeviceMods::new();
    let mut s = SharedMods::new();
    press(&mut kb1, &mut s, 97, 1); // right Ctrl on one keyboard
    press(&mut kb2, &mut s, 100, 1); // right Alt on the other
    assert_eq!(press(&mut kb2, &mut s, 50, 1), KeySignal::Hotkey("TOGGLE_SOUND".to_string()));
    // both keyboards holding Ctrl release cleanly
    press(&mut kb2, &mut s, 29, 1);
    assert_eq!(s.ctrl_held, 2);
    press(&mut kb1, &mut s, 97, 0);
    press(&mut kb2, &mut s, 29, 0);
    assert_eq!(s.ctrl_held, 0);
    // a release on a keyboard that never pressed changes nothing
    press(&mut kb1, &mut s, 56, 0);
    assert_eq!(s.alt_held, 1);
}

#[test]
fn listener_health_explains_a_silent_start() {
    let mut h = Health::new();
    assert!(!report_first_scan(&mut h, 0, 0));
    assert_eq!(
        h.input_error.as_deref(),
        Some("no_input_devices: cannot open /dev/input/event*")
    );
    assert!(!report_first_scan(&mut h, 7, 0));
    assert_eq!(
        h.input_error.as_deref(),
        Some("no_keyboards: saw 7 input device(s) but none usable")
    );
    assert!(report_first_scan(&mut h, 7, 2));
    assert_eq!(h.input_keyboards, 2);
    assert_eq!(h.input_error, None);
    report_supervisor_scan(&mut h, 0);
    assert_eq!(h.input_error.as_deref(), Some("no_keyboards: all keyboards disconnected"));
    report_supervisor_scan(&mut h, 1);
    assert_eq!((h.input_keyboards, h.input_error.clone()), (1, None));
}
