use wuim::probe::esp32::{esp32_part_name, identity_from_reading, Esp32Error, Esp32Reading};
use wuim::probe::identity::esp_variant;

#[test]
fn the_common_esp32_is_named_the_way_esptool_names_it() {
    let word3 = 1 << 9;
    assert_eq!(esp32_part_name(word3, 3), "ESP32-D0WD-V3");
    assert_eq!(esp32_part_name(word3, 1), "ESP32-D0WD");
    assert_eq!(esp_variant(esp32_part_name(word3, 3)), "esp32-d0wd-v3");
}

#[test]
fn the_single_core_bit_picks_the_s_parts() {
    assert_eq!(esp32_part_name(1 << 9 | 1, 3), "ESP32-S0WD");
    assert_eq!(esp32_part_name(1, 3), "ESP32-S0WDQ6");
}

#[test]
fn the_package_code_is_assembled_from_two_places() {
    assert_eq!(esp32_part_name(5 << 9, 3), "ESP32-PICO-V3");
    assert_eq!(esp32_part_name(5 << 9, 1), "ESP32-PICO-D4");
    assert_eq!(esp32_part_name(1 << 2, 3), "ESP32");
}

#[test]
fn an_unnamed_package_falls_back_to_the_series() {
    assert_eq!(esp32_part_name(3 << 9, 3), "ESP32");
    assert_eq!(esp_variant(esp32_part_name(3 << 9, 3)), "esp32");
}

fn reading(chip: &str, mac: Option<&str>, package_word: Option<u32>) -> Esp32Reading {
    Esp32Reading {
        chip: chip.to_owned(),
        mac_address: mac.map(|m| m.to_owned()),
        revision: Some((0, 2)),
        crystal: "40 MHz".to_owned(),
        flash_size: "8MB".to_owned(),
        features: vec!["WiFi".to_owned(), "BLE".to_owned()],
        package_word,
    }
}

#[test]
fn a_reading_identifies_the_board_by_its_mac() {
    let id = identity_from_reading(&reading("esp32s3", Some("34:85:18:8F:6D:7C"), None), "COM7").unwrap();
    assert_eq!(id.family, "esp32");
    assert_eq!(id.identity_key, "esp32-s3-3485188f6d7c");
    assert_eq!(id.device_id, "34:85:18:8F:6D:7C");
    assert_eq!(id.device_type, "esp32-s3");
    assert_eq!(id.hardware_revision.as_deref(), Some("v0.2"));
    assert_eq!(id.id_source, "target-mac");
    let details: Vec<(&str, &str)> = id.details.iter().map(|(k, v)| (k.as_str(), v.as_str())).collect();
    assert_eq!(
        details,
        vec![("crystal", "40 MHz"), ("features", "WiFi, BLE"), ("flash_size", "8MB"), ("probed_via", "COM7")]
    );
}

#[test]
fn the_original_esp32_is_named_by_its_package() {
    let id = identity_from_reading(&reading("esp32", Some("AA:BB:CC:DD:EE:FF"), Some(1 << 9)), "COM3").unwrap();
    assert_eq!(id.device_type, "esp32-d0wd");
    assert_eq!(id.identity_key, "esp32-d0wd-aabbccddeeff");
}

#[test]
fn a_reading_without_a_mac_identifies_nothing() {
    assert_eq!(identity_from_reading(&reading("esp32s3", None, None), "COM7").unwrap_err(), Esp32Error::NoMac);
    assert!(matches!(
        identity_from_reading(&reading("esp32s3", Some("12:34"), None), "COM7"),
        Err(Esp32Error::Key { .. })
    ));
}
