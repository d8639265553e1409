use wuim::probe::ch32::{build_identity, select_probe, Ch32Chip, SelectError, PID_LINK_ARM, PID_LINK_RISCV, VID_WCH};

fn chip(uuid: [u8; 8]) -> Ch32Chip {
    Ch32Chip { flash_bytes: 128 * 1024, uuid }
}

fn detail<'a>(details: &'a [(String, String)], name: &str) -> &'a str {
    details.iter().find(|(k, _)| k == name).map(|(_, v)| v.as_str()).expect("detail present")
}

#[test]
fn the_uuid_becomes_the_identity() {
    let identity = build_identity(
        "ch32",
        "LinkE 2.12",
        0x3050_0601,
        &chip([0x1f, 0xf9, 0xab, 0xcd, 0x88, 0x0e, 0xbc, 0x48]),
    )
    .unwrap();
    assert_eq!(identity.device_id, "1ff9abcd880ebc48");
    assert!(identity.identity_key.ends_with("-1ff9abcd880ebc48"), "{}", identity.identity_key);
    assert_eq!(detail(&identity.details, "flash"), "128 KiB");
}

#[test]
fn an_unknown_chip_id_still_yields_a_usable_key() {
    let identity = build_identity("ch32", "LinkE 2.12", 0xdead_beef, &chip([1, 2, 3, 4, 5, 6, 7, 8])).unwrap();
    assert_eq!(identity.device_id, "0102030405060708");
    assert!(identity.identity_key.contains("deadbeef"));
}

#[test]
fn the_silicon_revision_comes_from_the_nibble_the_database_ignores() {
    let identity = build_identity("ch32", "LinkE 2.12", 0x3050_0528, &chip([9; 8])).unwrap();
    assert_eq!(identity.hardware_revision.as_deref(), Some("rev 2"));
    assert_eq!(identity.device_type, "ch32v305rbt6");
}

#[test]
fn a_ch32v006_resolves_to_its_sku() {
    let identity = build_identity(
        "ch32",
        "LinkE 2.12",
        0x0060_0620,
        &chip([0x1f, 0xf9, 0xab, 0xcd, 0x88, 0x0e, 0xbc, 0x48]),
    )
    .unwrap();
    assert_eq!(identity.device_type, "ch32v006k8u6");
    assert_eq!(identity.hardware_revision.as_deref(), Some("rev 2"));
    assert_eq!(identity.identity_key, "ch32v006k8u6-1ff9abcd880ebc48");
}

#[test]
fn the_details_name_the_chip_id_and_the_probe() {
    let identity = build_identity("ch32", "LinkE 2.12", 0xdead_beef, &chip([1, 2, 3, 4, 5, 6, 7, 8])).unwrap();
    assert_eq!(identity.device_type, "ch32-deadbeef");
    assert_eq!(identity.identity_key, "ch32-deadbeef-0102030405060708");
    assert_eq!(detail(&identity.details, "chip_id"), "0xdeadbeef");
    assert_eq!(detail(&identity.details, "probe"), "LinkE 2.12");
    assert_eq!(identity.hardware_revision.as_deref(), Some("rev 14"));
    assert_eq!(identity.id_source, "target-cpu-id");
}

#[test]
fn the_probe_is_picked_by_serial_when_there_is_one() {
    let devices = vec![
        (VID_WCH, PID_LINK_RISCV, Some("AAA".to_owned())),
        (VID_WCH, PID_LINK_ARM, Some("BBB".to_owned())),
        (VID_WCH, PID_LINK_RISCV, Some("BBB".to_owned())),
        (0x303a, 0x1001, None),
    ];
    assert_eq!(select_probe(&devices, Some("BBB")), Ok(2));
    assert_eq!(select_probe(&devices, Some("CCC")), Err(SelectError::NoSuchSerial("CCC".to_owned())));
    assert_eq!(select_probe(&devices, None), Err(SelectError::Several(2)));
}

#[test]
fn without_a_serial_only_a_lone_probe_is_picked() {
    let one = vec![(0x303a, 0x1001, None), (VID_WCH, PID_LINK_RISCV, None)];
    assert_eq!(select_probe(&one, None), Ok(1));
    let none = vec![(VID_WCH, PID_LINK_ARM, None)];
    assert_eq!(select_probe(&none, None), Err(SelectError::NoneConnected));
}
