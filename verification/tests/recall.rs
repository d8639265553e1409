use wuim::instance_id::InstanceId;
use wuim::recall::{recall, Confidence, Hints, Recalled, StoredDevice};
use wuim::snapshot::{DeviceRow, Snapshot};
use wuim::usbipd::UsbipdDevice;
use wuim::windevice::WinUsbDevice;

const CH340: (u16, u16) = (0x1a86, 0x7523);
const PORT_A: &str = "PCIROOT(0)#PCI(1400)#USBROOT(0)#USB(1)#USB(1)";
const PORT_B: &str = "PCIROOT(0)#PCI(1400)#USBROOT(0)#USB(1)#USB(3)";

fn stored(key: &str, serial: Option<&str>, location: Option<&str>) -> StoredDevice {
    StoredDevice {
        identity_key: key.to_owned(),
        device_type: "esp32-s3".into(),
        device_id: key.rsplit('-').next().unwrap().to_owned(),
        hardware_revision: None,
        usb_serial: serial.map(str::to_owned),
        vid: CH340.0,
        pid: CH340.1,
        hints: Hints { last_location_path: location.map(str::to_owned) },
    }
}

fn row(instance_id: &str, location: &str) -> DeviceRow {
    let entry = UsbipdDevice {
        bus_id: Some("1-1".to_owned()),
        client_ip_address: None,
        description: "test".to_owned(),
        instance_id: instance_id.to_owned(),
        is_forced: false,
        persisted_guid: None,
        stub_instance_id: None,
    };
    let windows = WinUsbDevice {
        instance_id: InstanceId::parse(instance_id),
        device_desc: None,
        friendly_name: None,
        bus_reported_device_desc: None,
        manufacturer: None,
        service: None,
        container_id: None,
        location_paths: vec![location.to_owned()],
        parent_instance_id: None,
        address: None,
        com_port: None,
        revision: None,
        driver_version: None,
        problem_code: None,
    };
    let mut snapshot = Snapshot::join(vec![windows], vec![entry]);
    snapshot.devices.pop().unwrap()
}

fn lookup<'a, 'b>(found: &'b [(String, Recalled<'a>)], instance_id: &str) -> &'b Recalled<'a> {
    found.iter().find(|(k, _)| k == instance_id).map(|(_, v)| v).expect("recalled")
}

#[test]
fn a_serial_match_is_confirmed() {
    let mut device = stored("esp32-s3-aaaaaaaaaaaa", Some("5B5F090816"), None);
    device.pid = 0x55d3;
    let store = vec![device];

    let rows = vec![row(r"USB\VID_1A86&PID_55D3\5B5F090816", PORT_A)];
    let found = recall(&store, &rows);
    let hit = lookup(&found, r"USB\VID_1A86&PID_55D3\5B5F090816");
    assert_eq!(hit.confidence, Confidence::Confirmed);
    assert_eq!(hit.device.identity_key, "esp32-s3-aaaaaaaaaaaa");
}

#[test]
fn a_port_match_with_no_competition_is_probable() {
    let store = vec![stored("esp32-s3-111111111111", None, Some(PORT_A))];
    let rows = vec![row(r"USB\VID_1A86&PID_7523\8&A&0&1", PORT_A)];
    let found = recall(&store, &rows);
    assert_eq!(lookup(&found, r"USB\VID_1A86&PID_7523\8&A&0&1").confidence, Confidence::Probable);
}

#[test]
fn a_device_moved_to_another_port_is_not_recalled() {
    let store = vec![stored("esp32-s3-111111111111", None, Some(PORT_A))];
    let rows = vec![row(r"USB\VID_1A86&PID_7523\8&A&0&1", PORT_B)];
    assert!(recall(&store, &rows).is_empty());
}

#[test]
fn two_stored_devices_on_one_port_are_ambiguous() {
    let store = vec![
        stored("esp32-s3-111111111111", None, Some(PORT_A)),
        stored("esp32-s3-222222222222", None, Some(PORT_A)),
    ];
    let rows = vec![row(r"USB\VID_1A86&PID_7523\8&A&0&1", PORT_A)];
    let found = recall(&store, &rows);
    assert_eq!(lookup(&found, r"USB\VID_1A86&PID_7523\8&A&0&1").confidence, Confidence::Ambiguous);
}

#[test]
fn each_port_recalls_its_own_board() {
    let store = vec![
        stored("esp32-s3-111111111111", None, Some(PORT_A)),
        stored("esp32-s3-222222222222", None, Some(PORT_B)),
    ];
    let rows = vec![
        row(r"USB\VID_1A86&PID_7523\8&A&0&1", PORT_A),
        row(r"USB\VID_1A86&PID_7523\8&A&0&3", PORT_B),
    ];
    let found = recall(&store, &rows);
    assert_eq!(lookup(&found, r"USB\VID_1A86&PID_7523\8&A&0&1").device.identity_key, "esp32-s3-111111111111");
    assert_eq!(lookup(&found, r"USB\VID_1A86&PID_7523\8&A&0&3").device.identity_key, "esp32-s3-222222222222");
}

#[test]
fn nothing_is_recalled_from_an_empty_store() {
    let rows = vec![row(r"USB\VID_1A86&PID_7523\8&A&0&1", PORT_A)];
    assert!(recall(&[], &rows).is_empty());
}

#[test]
fn two_connected_devices_claiming_one_record_are_both_ambiguous() {
    let store = vec![stored("esp32-s3-111111111111", None, Some(PORT_A))];
    let rows = vec![
        row(r"USB\VID_1A86&PID_7523\8&A&0&1", PORT_A),
        row(r"USB\VID_1A86&PID_7523\8&A&0&2", PORT_A),
    ];
    let found = recall(&store, &rows);
    assert_eq!(found.len(), 2);
    assert!(found.iter().all(|(_, r)| r.confidence == Confidence::Ambiguous));
}
