use wuim::instance_id::InstanceId;
use wuim::snapshot::{bus_id_order, IdentityBasis, Snapshot};
use wuim::usbipd::UsbipdDevice;

fn usbipd_entry(instance_id: &str, bus_id: Option<&str>, stub: Option<&str>) -> UsbipdDevice {
    UsbipdDevice {
        bus_id: bus_id.map(|b| b.to_owned()),
        client_ip_address: None,
        description: "test".to_owned(),
        instance_id: instance_id.to_owned(),
        is_forced: false,
        persisted_guid: None,
        stub_instance_id: stub.map(|s| s.to_owned()),
    }
}

#[test]
fn serial_devices_do_not_need_a_probe() {
    let id = InstanceId::parse(r"USB\VID_1A86&PID_55D3\5B5F090816");
    let basis = IdentityBasis::from_instance_id(&id);
    assert_eq!(basis, IdentityBasis::UsbSerial("5B5F090816".into()));
    assert!(!basis.needs_probe());
}

#[test]
fn serialless_devices_need_a_probe() {
    let id = InstanceId::parse(r"USB\VID_1A86&PID_7523\8&7CC2A31&0&1");
    assert_eq!(IdentityBasis::from_instance_id(&id), IdentityBasis::PortOnly);
    assert!(IdentityBasis::from_instance_id(&id).needs_probe());
}

#[test]
fn join_matches_case_insensitively() {
    let entry = usbipd_entry(r"USB\VID_1A86&PID_7523\8&7CC2A31&0&1", Some("16-1"), None);
    let snapshot = Snapshot::join(Vec::new(), vec![entry]);
    assert_eq!(snapshot.devices.len(), 1);
    assert_eq!(snapshot.devices[0].bus_id(), Some("16-1"));
    assert!(snapshot.devices[0].windows.is_none());
}

#[test]
fn ambiguous_groups_need_two_or_more_serialless_devices() {
    let one = usbipd_entry(r"USB\VID_1A86&PID_7523\8&7CC2A31&0&1", Some("16-1"), None);
    let two = usbipd_entry(r"USB\VID_1A86&PID_7523\8&7CC2A31&0&2", Some("16-2"), None);
    let lone = usbipd_entry(r"USB\VID_1A86&PID_55D3\5B5F090816", Some("16-3"), None);

    let single = Snapshot::join(Vec::new(), vec![one.clone(), lone.clone()]);
    assert!(single.ambiguous_groups().is_empty());

    let pair = Snapshot::join(Vec::new(), vec![one, two, lone]);
    let groups = pair.ambiguous_groups();
    assert_eq!(groups.len(), 1);
    assert_eq!(groups[0].0, "1a86:7523");
    assert_eq!(groups[0].1.len(), 2);
}

#[test]
fn bus_ids_sort_numerically() {
    assert!(bus_id_order(Some("8-2")) < bus_id_order(Some("8-10")));
    assert!(bus_id_order(Some("2-7")) < bus_id_order(Some("8-1")));
    assert!(bus_id_order(Some("9-4")) < bus_id_order(None));
    assert_eq!(bus_id_order(Some("odd")), bus_id_order(None));
}

#[test]
fn rows_sort_by_bus_id_not_by_name() {
    let later = usbipd_entry(r"USB\VID_1A86&PID_7523\8&A&0&1", Some("8-3"), None);
    let earlier = usbipd_entry(r"USB\VID_1A86&PID_7523\8&A&0&2", Some("8-1"), None);
    let snapshot = Snapshot::join(Vec::new(), vec![later, earlier]);
    assert_eq!(snapshot.devices[0].bus_id(), Some("8-1"));
    assert_eq!(snapshot.devices[1].bus_id(), Some("8-3"));
}

#[test]
fn disconnected_devices_sort_last() {
    let absent = usbipd_entry(r"USB\VID_1A86&PID_7523\8&7CC2A31&0&1", None, None);
    let present = usbipd_entry(r"USB\VID_1A86&PID_55D3\5B5F090816", Some("16-3"), None);
    let snapshot = Snapshot::join(Vec::new(), vec![absent, present]);
    assert!(snapshot.devices[0].bus_id().is_some());
    assert!(snapshot.devices[1].bus_id().is_none());
}

#[test]
fn a_bus_id_orders_by_hub_then_port() {
    assert_eq!(bus_id_order(Some("8-10")), (8, 10));
    assert_eq!(bus_id_order(Some("12")), (12, u32::MAX));
    assert_eq!(bus_id_order(None), (u32::MAX, u32::MAX));
}

#[test]
fn only_connected_rows_are_listed_as_connected() {
    let absent = usbipd_entry(r"USB\VID_1A86&PID_7523\8&7CC2A31&0&1", None, None);
    let present = usbipd_entry(r"USB\VID_1A86&PID_55D3\5B5F090816", Some("16-3"), None);
    let snapshot = Snapshot::join(Vec::new(), vec![absent, present]);
    let connected = snapshot.connected();
    assert_eq!(connected.len(), 1);
    assert_eq!(connected[0].bus_id(), Some("16-3"));
}
