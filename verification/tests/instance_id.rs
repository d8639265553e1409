use wuim::instance_id::{InstanceId, UnitId};

#[test]
fn ch340_without_serial_is_port_generated() {
    let id = InstanceId::parse(r"USB\VID_1A86&PID_7523\8&7CC2A31&0&1");
    assert_eq!(id.vid_pid(), Some((0x1a86, 0x7523)));
    assert_eq!(id.unit, UnitId::PortGenerated("8&7CC2A31&0&1".into()));
    assert!(id.unit.serial().is_none());
}

#[test]
fn ch343_with_serial_is_serial() {
    let id = InstanceId::parse(r"USB\VID_1A86&PID_55D3\5B5F090816");
    assert_eq!(id.unit.serial(), Some("5B5F090816"));
    assert_eq!(id.vid_pid_string().as_deref(), Some("1a86:55d3"));
}

#[test]
fn esp32s3_mac_with_colons_is_serial() {
    let id = InstanceId::parse(r"USB\VID_303A&PID_1001\70:04:1D:DA:86:F0");
    assert_eq!(id.unit.serial(), Some("70:04:1D:DA:86:F0"));
}

#[test]
fn root_hub_has_no_vid_pid() {
    let id = InstanceId::parse(r"USB\ROOT_HUB30\4&1D2E4F8A&0&0");
    assert_eq!(id.vid_pid(), None);
    assert!(!id.unit.has_serial());
}

#[test]
fn attached_stub_keeps_the_unit_id() {
    let id = InstanceId::parse(r"USB\Vid_80EE&Pid_CAFE\5B5F090816");
    assert_eq!(id.vid_pid(), Some((0x80ee, 0xcafe)));
    assert_eq!(id.unit.serial(), Some("5B5F090816"));
}

#[test]
fn matching_ignores_case() {
    let id = InstanceId::parse(r"USB\VID_1A86&PID_7523\8&7CC2A31&0&1");
    assert!(id.matches(r"usb\vid_1a86&pid_7523\8&7cc2a31&0&1"));
}

#[test]
fn the_enumerator_and_raw_text_are_kept() {
    let id = InstanceId::parse(r"USB\VID_1A86&PID_7523\8&7CC2A31&0&1");
    assert_eq!(id.enumerator, "USB");
    assert_eq!(id.raw, r"USB\VID_1A86&PID_7523\8&7CC2A31&0&1");
    assert!(!id.matches(r"USB\VID_1A86&PID_7523\8&7CC2A31&0&2"));
}

#[test]
fn classifying_a_unit_id_looks_for_an_ampersand() {
    assert_eq!(UnitId::classify("ABC"), UnitId::Serial("ABC".into()));
    assert_eq!(UnitId::classify("A&B"), UnitId::PortGenerated("A&B".into()));
    assert_eq!(UnitId::classify("A&B").as_str(), "A&B");
}
