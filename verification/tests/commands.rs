use wuim::commands::{
    connected_ids, device_views, find, hub_port_count, hub_switch_outcome, identity_for, names_seen, probe_target,
    settings_effects, OpenTarget, ProbeRefusal, SettingsEffects, PROJECT_HOME,
};
use wuim::probe::TargetIdentity;
use wuim::session::Session;
use wuim::store::{Settings, Store};
use wuim::usb_ids::UsbIds;
use wuim::view::SettingsView;
use wuim::hub::port_from_connection;
use wuim::instance_id::InstanceId;
use wuim::probe::Probe;
use wuim::snapshot::{HubNode, Snapshot};
use wuim::usbipd::UsbipdDevice;
use wuim::windevice::WinUsbDevice;

fn entry(raw: &str, bus_id: Option<&str>, client: Option<&str>) -> UsbipdDevice {
    UsbipdDevice {
        bus_id: bus_id.map(|b| b.to_owned()),
        client_ip_address: client.map(|c| c.to_owned()),
        description: "cached".to_owned(),
        instance_id: raw.to_owned(),
        is_forced: false,
        persisted_guid: None,
        stub_instance_id: None,
    }
}

fn node(raw: &str, com_port: Option<&str>) -> WinUsbDevice {
    WinUsbDevice {
        instance_id: InstanceId::parse(raw),
        device_desc: None,
        friendly_name: Some("USB-SERIAL CH340 (COM5)".to_owned()),
        bus_reported_device_desc: None,
        manufacturer: None,
        service: None,
        container_id: None,
        location_paths: Vec::new(),
        parent_instance_id: None,
        address: None,
        com_port: com_port.map(|c| c.to_owned()),
        revision: None,
        driver_version: None,
        problem_code: None,
    }
}

const PLAIN: &str = r"USB\VID_1A86&PID_7523\8&A&0&1";
const HELD: &str = r"USB\VID_1A86&PID_55D3\5B5F090816";

fn snapshot() -> Snapshot {
    Snapshot::join(
        vec![node(PLAIN, Some("COM5"))],
        vec![entry(PLAIN, Some("1-1"), None), entry(HELD, Some("1-2"), Some("172.22.176.1"))],
    )
}

#[test]
fn web_targets_resolve_to_fixed_addresses() {
    assert_eq!(OpenTarget::ProjectHome.url(), Some(PROJECT_HOME));
    assert_eq!(OpenTarget::LogFolder.url(), None);
    assert!(OpenTarget::UsbipdReleases.url().unwrap().starts_with("https://"));
}

#[test]
fn a_request_finds_its_row_ignoring_case() {
    let s = snapshot();
    assert!(find(&s, &PLAIN.to_lowercase()).is_some());
    assert!(find(&s, r"USB\NOPE").is_none());
}

#[test]
fn a_probe_is_refused_for_what_it_cannot_reach() {
    let s = snapshot();
    assert_eq!(probe_target(&s, r"USB\NOPE", "esp32").unwrap_err(), ProbeRefusal::Gone(r"USB\NOPE".to_owned()));
    assert_eq!(probe_target(&s, HELD, "esp32").unwrap_err(), ProbeRefusal::Attached);
    assert_eq!(probe_target(&s, PLAIN, "stm32").unwrap_err(), ProbeRefusal::NoSuchProbe("stm32".to_owned()));
    assert!(matches!(probe_target(&s, PLAIN, "ch32"), Err(ProbeRefusal::NotApplicable { .. })));
    let (row, probe) = probe_target(&s, PLAIN, "esp32").unwrap();
    assert_eq!(row.instance_id.raw, PLAIN);
    assert_eq!(probe, Probe::Esp32);
    assert_eq!(ProbeRefusal::NoSuchProbe("x".to_owned()).message(), "no probe named x");
}

#[test]
fn only_rows_with_a_windows_node_give_a_name() {
    let s = snapshot();
    let names = names_seen(&s);
    assert_eq!(names, vec![(PLAIN.to_owned(), "USB-SERIAL CH340".to_owned())]);
    let ids = connected_ids(&s);
    assert_eq!(ids.len(), 2);
}

#[test]
fn a_probed_identity_wins_over_the_descriptors() {
    let s = snapshot();
    let row = find(&s, PLAIN).unwrap();
    assert!(identity_for(row, None).is_none());
}

#[test]
fn a_hub_is_found_by_instance_id_ignoring_case() {
    let hub = HubNode {
        instance_id: r"USB\VID_1A86&PID_8094\5&1".to_owned(),
        name: "hub".to_owned(),
        location_path: None,
        parent_instance_id: None,
        address: None,
        vid_pid: None,
        manufacturer: None,
        driver_version: None,
        ports: vec![port_from_connection(1, 0, 0, 0), port_from_connection(2, 0, 0, 0)],
    };
    assert_eq!(hub_port_count(&[hub.clone()], r"usb\vid_1a86&pid_8094\5&1"), Some(2));
    assert_eq!(hub_port_count(&[hub], r"USB\OTHER"), None);
}

#[test]
fn every_refusing_port_is_reported() {
    assert_eq!(hub_switch_outcome(&[]), Ok(()));
    assert_eq!(
        hub_switch_outcome(&[(2, "no".to_owned()), (4, "busy".to_owned())]),
        Err("some ports refused \u{2014} 2: no; 4: busy".to_owned())
    );
}

#[test]
fn saving_settings_touches_only_what_changed() {
    let stored = Settings::default();
    let mut sent = SettingsView::from_settings(&stored);
    assert_eq!(settings_effects(&stored, &sent, false), SettingsEffects { forget_listed: false, startup: None });
    sent.vhfilter_path = "C:\\tools\\vhfilter.exe".to_owned();
    sent.start_with_windows = true;
    assert_eq!(settings_effects(&stored, &sent, false), SettingsEffects { forget_listed: true, startup: Some(true) });
    assert_eq!(settings_effects(&stored, &sent, true).startup, None);
    sent.start_with_windows = false;
    assert_eq!(settings_effects(&stored, &sent, true).startup, Some(false));
}

#[test]
fn a_descriptor_named_board_is_shown_without_a_probe() {
    let raw = r"USB\VID_2341&PID_0069\34B7DA65B1C8";
    let s = Snapshot::join(vec![node(raw, None)], vec![entry(raw, Some("3-1"), None)]);
    let row = find(&s, raw).unwrap();
    let shown = identity_for(row, None).unwrap();
    assert_eq!(shown.identity_key, "arduino-uno-r4-minima-34b7da65b1c8");
    assert_eq!(shown.id_source.as_deref(), Some("usb-serial"));
}

#[test]
fn one_pass_of_the_list_remembers_names_and_drops_the_unplugged() {
    let s = snapshot();
    let mut session = Session::new(Store::default(), true);
    let found = TargetIdentity {
        family: "esp32".to_owned(),
        identity_key: "esp32-s3-3485188f6d7c".to_owned(),
        device_id: "34:85:18:8F:6D:7C".to_owned(),
        device_type: "esp32-s3".to_owned(),
        hardware_revision: None,
        id_source: "target-mac",
        details: Vec::new(),
    };
    session.remember_identity(PLAIN.to_owned(), found.clone(), "t".to_owned());
    session.remember_identity(r"USB\GONE".to_owned(), found, "t".to_owned());
    let (views, changed) = device_views(&s, &mut session, &UsbIds::new());
    assert!(changed);
    assert_eq!(views.len(), s.devices.len());
    assert!(session.identity(r"USB\GONE").is_none());
    let shown = views.iter().find(|v| v.instance_id == PLAIN).unwrap();
    assert_eq!(shown.identity.as_ref().map(|i| i.identity_key.as_str()), Some("esp32-s3-3485188f6d7c"));
    assert_eq!(session.last_seen(PLAIN).unwrap().name.as_deref(), Some("USB-SERIAL CH340"));
    let (_, again) = device_views(&s, &mut session, &UsbIds::new());
    assert!(!again);
}

#[test]
fn the_run_entry_decides_whether_startup_shows_as_on() {
    let mut store = Store::default();
    store.settings.start_with_windows = true;
    store.remember_name("USB\\a", "CH340");
    let session = Session::new(store, false);
    let shown = wuim::commands::stored_settings(&session, false, "devices.json".to_owned(), "wuim.log".to_owned());
    assert!(!shown.settings.start_with_windows);
    assert!(!shown.writable);
    assert_eq!(shown.remembered, 1);
    assert_eq!(shown.path, "devices.json");
    assert_eq!(shown.log_path, "wuim.log");
}
