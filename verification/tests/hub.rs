use wuim::hub::{port_from_connection, status_name};

#[test]
fn connection_statuses_are_named() {
    assert_eq!(status_name(0), "NoDeviceConnected");
    assert_eq!(status_name(1), "DeviceConnected");
    assert_eq!(status_name(4), "DeviceCausedOvercurrent");
    assert_eq!(status_name(99), "unknown");
}

#[test]
fn every_documented_status_has_its_own_name() {
    assert_eq!(status_name(2), "DeviceFailedEnumeration");
    assert_eq!(status_name(10), "DeviceReset");
    assert_eq!(status_name(11), "unknown");
}

#[test]
fn a_connected_port_names_what_is_on_it() {
    let port = port_from_connection(3, 1, 0x1a86, 0x7523);
    assert_eq!(port.port, 3);
    assert!(port.connected);
    assert_eq!(port.status_name, "DeviceConnected");
    assert_eq!(port.vid_pid.as_deref(), Some("1a86:7523"));
}

#[test]
fn an_empty_or_failed_port_names_nothing() {
    let empty = port_from_connection(1, 0, 0x1a86, 0x7523);
    assert!(!empty.connected);
    assert_eq!(empty.vid_pid, None);
    let tripped = port_from_connection(2, 4, 0x1a86, 0x7523);
    assert!(!tripped.connected);
    assert_eq!(tripped.status_name, "DeviceCausedOvercurrent");
    assert_eq!(tripped.vid_pid, None);
}
