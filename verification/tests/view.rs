use wuim::autoattach::{Rule, RuleKind};
use wuim::instance_id::InstanceId;
use wuim::ppps::SwitchRecord;
use wuim::hub::port_from_connection;
use wuim::snapshot::{DeviceRow, HubNode, IdentityBasis};
use wuim::store::Settings;
use wuim::usb_ids::UsbIds;
use wuim::usbipd::UsbipdDevice;
use wuim::ppps::FoundHow;
use wuim::tray::on_off;
use wuim::view::{
    actions, auto_attach, hub_view, port_view, probe_options, topology_view, worth_showing_identity,
    worth_showing_name, DeviceView, Identity, LastKnown, SettingsView,
};

fn identity(key: &str) -> Identity {
    Identity {
        identity_key: key.to_owned(),
        device_type: "esp32-s3".to_owned(),
        device_id: key.to_owned(),
        hardware_revision: None,
        id_source: Some("target-mac".to_owned()),
    }
}

#[test]
fn a_remembered_name_is_shown_only_when_it_differs() {
    assert_eq!(worth_showing_name(Some("USB-SERIAL CH340".to_owned()), "USB-SERIAL CH340"), None);
    assert_eq!(
        worth_showing_name(Some("USB-SERIAL CH340".to_owned()), "USB Input Device"),
        Some("USB-SERIAL CH340".to_owned())
    );
    assert_eq!(worth_showing_name(None, "USB Input Device"), None);
}

#[test]
fn a_remembered_identity_gives_way_to_a_confirmed_one() {
    let known = identity("esp32-s3-3485188f6d7c");
    let older = identity("esp32-s3-d83bda42d640");

    assert!(worth_showing_identity(Some(older.clone()), Some(&known)).is_none());
    assert_eq!(
        worth_showing_identity(Some(older.clone()), None).map(|i| i.identity_key),
        Some(older.identity_key)
    );
    assert!(worth_showing_identity(None, None).is_none());
}

#[test]
fn settings_come_back_from_what_the_frontend_sends() {
    let view = SettingsView {
        auto_identify: false,
        auto_exclude: vec!["1a86:7523".to_owned()],
        confirm_before_identify: false,
        start_with_windows: true,
        auto_attach: true,
        auto_attach_rules: vec![
            Rule::new(RuleKind::VidPid, "1a86:7523"),
            Rule::new(RuleKind::VidPid, "1A86:7523"),
        ],
        vhfilter_path: String::new(),
        told_about_tray: true,
    };
    let settings: Settings = view.into_settings();

    assert!(!settings.auto_identify);
    assert_eq!(settings.auto_exclude, vec!["1a86:7523".to_string()]);
    assert!(!settings.confirm_before_identify);
    assert!(settings.start_with_windows);
    assert!(settings.auto_attach);
    assert!(settings.told_about_tray);
    assert_eq!(settings.auto_attach_rules.len(), 1);
}

#[test]
fn settings_go_out_as_they_are_stored() {
    let mut settings = Settings::default();
    settings.auto_exclude = vec!["303a:1001".to_owned()];
    settings.auto_attach_rules = vec![Rule::new(RuleKind::Serial, "ABC")];
    let view = SettingsView::from_settings(&settings);
    assert!(view.auto_identify);
    assert_eq!(view.auto_exclude, vec!["303a:1001".to_owned()]);
    assert_eq!(view.auto_attach_rules, vec![Rule::new(RuleKind::Serial, "ABC")]);
}

fn row(raw: &str, usbipd: Option<UsbipdDevice>) -> DeviceRow {
    let id = InstanceId::parse(raw);
    let basis = IdentityBasis::from_instance_id(&id);
    DeviceRow { instance_id: id, name: "test".to_owned(), windows: None, usbipd, stub: None, identity_basis: basis }
}

fn entry(raw: &str, bus_id: Option<&str>, guid: Option<&str>, client: Option<&str>) -> UsbipdDevice {
    UsbipdDevice {
        bus_id: bus_id.map(|b| b.to_owned()),
        client_ip_address: client.map(|c| c.to_owned()),
        description: "test".to_owned(),
        instance_id: raw.to_owned(),
        is_forced: false,
        persisted_guid: guid.map(|g| g.to_owned()),
        stub_instance_id: None,
    }
}

#[test]
fn only_the_operations_that_make_sense_are_offered() {
    let raw = "USB\\VID_1A86&PID_55D3\\5B5F090816";
    let not_shared = actions(&row(raw, Some(entry(raw, Some("3-1"), None, None))));
    assert!(not_shared.bind && !not_shared.unbind && !not_shared.attach && !not_shared.detach);
    let shared = actions(&row(raw, Some(entry(raw, Some("3-1"), Some("g"), None))));
    assert!(!shared.bind && shared.unbind && shared.attach && !shared.detach);
    let attached = actions(&row(raw, Some(entry(raw, Some("3-1"), Some("g"), Some("172.22.176.1")))));
    assert!(!attached.bind && !attached.unbind && !attached.attach && attached.detach);
    let absent = actions(&row(raw, Some(entry(raw, None, Some("g"), None))));
    assert!(!absent.bind && absent.unbind && !absent.attach && !absent.detach);
}

#[test]
fn a_device_offers_its_names_most_specific_first() {
    let raw = "USB\\VID_1A86&PID_55D3\\5B5F090816";
    let r = row(raw, Some(entry(raw, Some("3-1"), None, None)));
    let rules = vec![Rule::new(RuleKind::BusId, "3-1"), Rule::new(RuleKind::Serial, "5b5f090816")];
    let found = identity("ch32v-abc");
    let auto = auto_attach(&r, Some(&found), &rules);
    let kinds: Vec<RuleKind> = auto.candidates.iter().map(|c| c.kind).collect();
    assert_eq!(kinds, vec![RuleKind::Identity, RuleKind::Serial, RuleKind::VidPid, RuleKind::BusId]);
    assert_eq!(auto.candidates[2].value, "1a86:55d3");
    assert_eq!(auto.matched, Some(RuleKind::Serial));
}

#[test]
fn without_a_device_node_no_probe_is_available() {
    let raw = "USB\\VID_1A86&PID_55D3\\5B5F090816";
    let attached = probe_options(&row(raw, Some(entry(raw, Some("3-1"), Some("g"), Some("1.2.3.4")))));
    assert_eq!(attached.len(), 2);
    assert!(attached.iter().all(|o| !o.available && o.reason == Some("probe.blocked.attached")));
    let absent = probe_options(&row(raw, None));
    assert!(absent.iter().all(|o| !o.available && o.reason == Some("probe.blocked.not_connected")));
}

#[test]
fn a_port_shows_what_was_asked_of_it() {
    let mut record = SwitchRecord::new();
    record.record("USB\\HUB", 2, false);
    let hub = HubNode {
        instance_id: "USB\\HUB".to_owned(),
        name: "Generic USB Hub".to_owned(),
        location_path: None,
        parent_instance_id: None,
        address: Some(4),
        vid_pid: None,
        manufacturer: None,
        driver_version: None,
        ports: vec![port_from_connection(1, 1, 0x1a86, 0x7523), port_from_connection(2, 0, 0, 0)],
    };
    let one = port_view(&hub.ports[1], "usb\\hub", &record);
    assert_eq!(one.switched, None);
    let view = hub_view(&hub, &["usb\\hub".to_owned()], &record, &UsbIds::new());
    assert!(view.ppps);
    assert_eq!(view.ports.len(), 2);
    assert_eq!(view.ports[0].switched, None);
    assert_eq!(view.ports[1].switched, Some("off"));
    assert_eq!(view.ports[0].status, "DeviceConnected");
    assert_eq!(view.vendor, None);
}

#[test]
fn a_row_is_shown_with_its_vendor_and_what_was_remembered() {
    let raw = "USB\\VID_1A86&PID_7523\\8&A&0&1";
    let r = row(raw, Some(entry(raw, Some("3-1"), Some("g"), None)));
    let ids = UsbIds::parse("1a86  QinHeng Electronics\n\t7523  CH340 serial converter\n");
    let last = LastKnown {
        name: Some("USB-SERIAL CH340".to_owned()),
        identity: Some(identity("esp32-s3-3485188f6d7c")),
        identified_at: Some("yesterday".to_owned()),
    };
    let rules = vec![Rule::new(RuleKind::VidPid, "1A86:7523")];
    let view = DeviceView::from_row(&r, &ids, None, last, &rules);
    assert_eq!(view.instance_id, raw);
    assert_eq!(view.vid_pid.as_deref(), Some("1a86:7523"));
    assert_eq!(view.vendor.as_deref(), Some("QinHeng Electronics"));
    assert_eq!(view.usb_product.as_deref(), Some("CH340 serial converter"));
    assert_eq!(view.bus_id.as_deref(), Some("3-1"));
    assert_eq!(view.state, "shared");
    assert!(view.needs_probe);
    assert_eq!(view.auto_attach.matched, Some(RuleKind::VidPid));
    assert!(view.identity.is_none());
    assert_eq!(view.last_identity.map(|i| i.identity_key).as_deref(), Some("esp32-s3-3485188f6d7c"));
    assert_eq!(view.last_identified_at.as_deref(), Some("yesterday"));
}

#[test]
fn the_topology_says_where_vhfilter_was_found() {
    let hub = HubNode {
        instance_id: "USB\\VID_1A86&PID_8094\\5&1".to_owned(),
        name: "hub".to_owned(),
        location_path: None,
        parent_instance_id: None,
        address: None,
        vid_pid: Some("1a86:8094".to_owned()),
        manufacturer: None,
        driver_version: None,
        ports: vec![port_from_connection(1, 0, 0, 0)],
    };
    let ids = UsbIds::parse("1a86  QinHeng Electronics\n");
    let record = SwitchRecord::new();
    let view = topology_view(
        &[hub],
        &[],
        &record,
        &ids,
        Some(("C:\\tools\\vhfilter.exe".to_owned(), FoundHow::Searched)),
        vec!["C:\\tools".to_owned()],
    );
    assert_eq!(view.hubs.len(), 1);
    assert!(!view.hubs[0].ppps);
    assert_eq!(view.hubs[0].vendor.as_deref(), Some("QinHeng Electronics"));
    assert_eq!(view.vhfilter.as_deref(), Some("C:\\tools\\vhfilter.exe"));
    assert_eq!(view.vhfilter_how, Some("searched"));
    assert_eq!(view.vhfilter_search_path, vec!["C:\\tools".to_owned()]);
    let none = topology_view(&[], &[], &record, &ids, None, Vec::new());
    assert!(none.vhfilter.is_none() && none.vhfilter_how.is_none());
}

#[test]
fn the_tray_log_says_on_or_off() {
    assert_eq!(on_off(true), "on");
    assert_eq!(on_off(false), "off");
}
