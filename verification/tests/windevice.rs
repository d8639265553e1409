use wuim::instance_id::InstanceId;
use wuim::windevice::{
    container_id_from_guid, container_label, from_utf16_bytes, property_string, revision_from_hardware_id, split_multi_sz,
    strip_com_suffix,
    units_from_le_bytes, ContainerId, WinUsbDevice,
};

fn node(instance_id: &str, friendly: Option<&str>, paths: &[&str]) -> WinUsbDevice {
    WinUsbDevice {
        instance_id: InstanceId::parse(instance_id),
        device_desc: Some("USB Serial".to_owned()),
        friendly_name: friendly.map(|f| f.to_owned()),
        bus_reported_device_desc: None,
        manufacturer: None,
        service: Some("winusb".to_owned()),
        container_id: None,
        location_paths: paths.iter().map(|p| p.to_string()).collect(),
        parent_instance_id: None,
        address: None,
        com_port: None,
        revision: None,
        driver_version: None,
        problem_code: None,
    }
}

#[test]
fn multi_sz_splits_on_nul() {
    let units: Vec<u16> = "a\0bb\0\0".encode_utf16().collect();
    assert_eq!(split_multi_sz(&units), vec!["a", "bb"]);
}

#[test]
fn strips_a_trailing_com_number() {
    assert_eq!(strip_com_suffix("USB-SERIAL CH340 (COM7)"), "USB-SERIAL CH340");
    assert_eq!(strip_com_suffix("USB-SERIAL CH340 (COM32)"), "USB-SERIAL CH340");
}

#[test]
fn leaves_names_without_a_com_number_alone() {
    assert_eq!(strip_com_suffix("USB Serial"), "USB Serial");
    assert_eq!(strip_com_suffix("Arduino Uno"), "Arduino Uno");
    assert_eq!(strip_com_suffix("Widget (COMPACT)"), "Widget (COMPACT)");
    assert_eq!(strip_com_suffix("Widget (COM)"), "Widget (COM)");
    assert_eq!(strip_com_suffix("Hub (COM3) downstream"), "Hub (COM3) downstream");
}

#[test]
fn container_id_version_5_is_stable() {
    let v5 = ContainerId { uuid: "24309343-175d-5c84-a14b-bb9cc186c126".into(), version: 5 };
    let v1 = ContainerId { uuid: "6aa62d84-4e6a-11f1-b04a-c0a5e85bd89d".into(), version: 1 };
    assert!(v5.is_stable());
    assert!(!v1.is_stable());
}

#[test]
fn a_guid_value_reads_as_its_uuid_and_version() {
    // The GUID {24309343-175D-5C84-A14B-BB9CC186C126} as it sits in memory.
    let bytes: [u8; 16] = [
        0x43, 0x93, 0x30, 0x24, 0x5d, 0x17, 0x84, 0x5c, 0xa1, 0x4b, 0xbb, 0x9c, 0xc1, 0x86, 0xc1,
        0x26,
    ];
    let id = container_id_from_guid(&bytes).unwrap();
    assert_eq!(id.uuid, "24309343-175d-5c84-a14b-bb9cc186c126");
    assert_eq!(id.version, 5);
    assert!(container_id_from_guid(&bytes[..15]).is_none());
    let mut null = [0u8; 16];
    for b in null.iter_mut().skip(8) {
        *b = 0xff;
    }
    assert!(container_id_from_guid(&null).is_none());
}

#[test]
fn string_properties_are_decoded_and_trimmed() {
    let bytes: Vec<u8> = " COM7 \0".encode_utf16().flat_map(|u| u.to_le_bytes()).collect();
    assert_eq!(units_from_le_bytes(&[0x41, 0x00, 0x42]), vec![0x41]);
    assert_eq!(from_utf16_bytes(&bytes), " COM7 ");
    assert_eq!(property_string(&bytes).as_deref(), Some("COM7"));
    let blank: Vec<u8> = "  \0".encode_utf16().flat_map(|u| u.to_le_bytes()).collect();
    assert_eq!(property_string(&blank), None);
}

#[test]
fn a_location_path_becomes_a_port_chain() {
    let d = node(
        "USB\\VID_1A86&PID_7523\\8&1&0&3",
        None,
        &["PCIROOT(0)#PCI(1400)#USBROOT(0)#USB(1)#USB(3)#USB(3)", "ACPI(_SB_)"],
    );
    assert_eq!(d.port_chain().as_deref(), Some("1-3-3"));
    assert_eq!(d.first_location_path().as_deref(), Some("PCIROOT(0)#PCI(1400)#USBROOT(0)#USB(1)#USB(3)#USB(3)"));
    assert_eq!(node("USB\\X", None, &[]).port_chain(), None);
    assert_eq!(node("USB\\X", None, &["PCIROOT(0)#PCI(1400)"]).port_chain(), None);
}

#[test]
fn the_friendly_name_is_shown_without_its_com_number() {
    let d = node("USB\\VID_1A86&PID_7523\\8&1&0&3", Some("USB-SERIAL CH340 (COM7)"), &[]);
    assert_eq!(d.display_name(), "USB-SERIAL CH340");
    assert_eq!(node("USB\\VID_1A86&PID_7523\\8&1&0&3", None, &[]).display_name(), "USB Serial");
    assert!(d.is_winusb());
    assert!(!d.is_hub_like());
    assert!(node("USB\\ROOT_HUB30\\4&1&0&0", None, &[]).is_hub_like());
}

#[test]
fn the_revision_is_read_from_the_hardware_id() {
    assert_eq!(revision_from_hardware_id(r"USB\VID_1A86&PID_7523&REV_0264").as_deref(), Some("2.64"));
    assert_eq!(revision_from_hardware_id(r"USB\VID_303A&PID_1001&REV_0101").as_deref(), Some("1.01"));
    assert_eq!(revision_from_hardware_id(r"USB\VID_2341&PID_0069&REV_1000").as_deref(), Some("10.00"));
    assert_eq!(revision_from_hardware_id(r"USB\VID_1A86&PID_7523"), None);
    assert_eq!(revision_from_hardware_id(r"USB\VID_1A86&PID_7523&REV_02"), None);
    assert_eq!(revision_from_hardware_id(r"USB\VID_1A86&PID_7523&REV_02X4"), None);
}

#[test]
fn a_container_label_says_whether_it_names_the_device_or_the_port() {
    let device = ContainerId { uuid: "6b29fc40-ca47-1067-b31d-00dd010662da".to_string(), version: 5 };
    let port = ContainerId { uuid: "00000000-0000-1000-8000-00dd010662da".to_string(), version: 1 };
    assert_eq!(container_label(Some(&device)), "6b29fc40-ca47-1067-b31d-00dd010662da (v5, device)");
    assert_eq!(container_label(Some(&port)), "00000000-0000-1000-8000-00dd010662da (v1, port)");
    assert_eq!(container_label(None), "-");
}

#[test]
fn a_surrogate_pair_decodes_and_a_lone_surrogate_becomes_a_replacement() {
    // U+1F600 as a pair, then a lone high surrogate before 'A', then a lone low one.
    let bytes: Vec<u8> = vec![0x3D, 0xD8, 0x00, 0xDE, 0x00, 0xD8, 0x41, 0x00, 0x00, 0xDC];
    assert_eq!(from_utf16_bytes(&bytes), "\u{1F600}\u{FFFD}A\u{FFFD}");
    assert_eq!(split_multi_sz(&[0xD83D, 0xDE00, 0, 0x42, 0, 0]), vec!["\u{1F600}".to_owned(), "B".to_owned()]);
}
