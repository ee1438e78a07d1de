use sorakey::speakers::{
    device_id_from_name, find_device, is_legacy_index_device_id, output_devices, routes_to_default,
};
use sorakey::settings::migrate_loaded;

#[test]
fn device_id_is_stable_for_a_given_name() {
    assert_eq!(
        device_id_from_name("output", "Speakers (Realtek High Definition Audio)"),
        device_id_from_name("output", "Speakers (Realtek High Definition Audio)")
    );
    assert_eq!(device_id_from_name("output", "Headphones"), "output_name:0b3a976597860826");
}

#[test]
fn device_id_differs_by_name_and_by_direction() {
    assert_ne!(
        device_id_from_name("output", "Headphones"),
        device_id_from_name("output", "Speakers")
    );
    assert_ne!(
        device_id_from_name("output", "Headset"),
        device_id_from_name("input", "Headset")
    );
}

#[test]
fn legacy_index_ids_are_recognised() {
    assert!(is_legacy_index_device_id("output_0"));
    assert!(is_legacy_index_device_id("input_12"));

    assert!(!is_legacy_index_device_id(&device_id_from_name("output", "Headphones")));
    assert!(!is_legacy_index_device_id("default"));
    assert!(!is_legacy_index_device_id("output_default"));
}

#[test]
fn an_index_based_device_id_is_recognised_as_legacy_and_droppable() {
    assert!(is_legacy_index_device_id("output_2"));
    assert!(is_legacy_index_device_id("output_0"));

    // stable IDs survive
    assert!(!is_legacy_index_device_id("output_name:0b3a976597860826"));
    assert!(!is_legacy_index_device_id("output_default"));
}

#[test]
fn loading_drops_a_legacy_device_and_follows_the_system_autostart() {
    let (dev, auto, changed) = migrate_loaded(Some("output_3".to_string()), false, None);
    assert_eq!(dev, None);
    assert!(!auto);
    assert!(changed);

    let stable = device_id_from_name("output", "Headphones");
    let (dev, auto, changed) = migrate_loaded(Some(stable.clone()), true, Some(true));
    assert_eq!(dev, Some(stable));
    assert!(auto);
    assert!(!changed);

    let (dev, auto, changed) = migrate_loaded(None, true, Some(false));
    assert_eq!(dev, None);
    assert!(!auto);
    assert!(changed);
}

#[test]
fn the_picker_lists_named_devices_and_marks_the_default() {
    let names = vec![
        Some("Speakers".to_string()),
        None,
        Some("dmix:CARD=0".to_string()),
        Some("Headphones".to_string()),
    ];
    let devices = output_devices(&names, &Some("Headphones".to_string()));
    let listed: Vec<(String, String, bool)> = devices
        .iter()
        .map(|d| (d.id.clone(), d.name.clone(), d.is_default))
        .collect();
    assert_eq!(
        listed,
        vec![
            (device_id_from_name("output", "Speakers"), "Speakers".to_string(), false),
            (device_id_from_name("output", "Headphones"), "Headphones".to_string(), true),
        ]
    );
}

#[test]
fn a_stored_id_finds_its_device_again() {
    let names = vec![None, Some("Speakers".to_string()), Some("Headphones".to_string())];
    let id = device_id_from_name("output", "Headphones");
    assert_eq!(find_device(&names, &id), Some(2));
    assert_eq!(find_device(&names, "output_name:0000000000000000"), None);
}

#[test]
fn default_and_legacy_ids_route_to_the_system_default() {
    assert!(routes_to_default("output_default"));
    assert!(routes_to_default("output_4"));
    assert!(!routes_to_default(&device_id_from_name("output", "Speakers")));
}
