use wuim::instance_id::InstanceId;
use wuim::probe::notes;
use wuim::probe::{applicable, probes, Applicability, Probe, Recognition, TargetProbe};
use wuim::windevice::WinUsbDevice;

#[test]
fn specific_probes_come_before_the_fallbacks() {
    let mut seen_fallback = false;
    for probe in probes() {
        match probe.recognition() {
            Recognition::Fallback => seen_fallback = true,
            Recognition::ByIdentifier => assert!(
                !seen_fallback,
                "{} recognises by identifier but is listed after a fallback",
                probe.family()
            ),
        }
    }
}

fn device(raw: &str, com_port: Option<&str>, service: Option<&str>) -> WinUsbDevice {
    WinUsbDevice {
        instance_id: InstanceId::parse(raw),
        device_desc: None,
        friendly_name: None,
        bus_reported_device_desc: None,
        manufacturer: None,
        service: service.map(|s| s.to_owned()),
        container_id: None,
        location_paths: Vec::new(),
        parent_instance_id: None,
        address: None,
        com_port: com_port.map(|c| c.to_owned()),
        revision: None,
        driver_version: None,
        problem_code: None,
    }
}

fn verdict_of(raw: &str, family: &str) -> Applicability {
    applicable(&device(raw, Some("COM9"), None))
        .into_iter()
        .find(|(probe, _)| probe.family() == family)
        .map(|(_, verdict)| verdict)
        .expect("probe listed")
}

#[test]
fn a_known_rp2040_pair_keeps_the_serial_fallback_away() {
    for raw in [r"USB\VID_1B4F&PID_0026\E660583883734B2F", r"USB\VID_2E8A&PID_000A\E660583883734B2F"] {
        assert_eq!(verdict_of(raw, "esp32"), Applicability::NotApplicable(notes::known_family()), "{raw}");
    }
}

#[test]
fn a_stock_bridge_is_still_offered_to_the_serial_fallback() {
    let raw = r"USB\VID_1A86&PID_7523\5&2B9E3E4B&0&3";
    assert_eq!(verdict_of(raw, "esp32"), Applicability::Supported);
}

#[test]
fn every_probe_is_asked_in_the_order_it_ships() {
    assert_eq!(probes(), vec![Probe::Ch32, Probe::Esp32]);
    let verdicts = applicable(&device(r"USB\VID_1A86&PID_7523\5&2B9E3E4B&0&3", Some("COM9"), None));
    let families: Vec<&str> = verdicts.iter().map(|(p, _)| p.family()).collect();
    assert_eq!(families, vec!["ch32", "esp32"]);
}

#[test]
fn a_board_without_a_com_port_is_not_the_serial_probes_business() {
    let verdicts = applicable(&device(r"USB\VID_1A86&PID_7523\5&2B9E3E4B&0&3", None, None));
    let esp = verdicts.iter().find(|(p, _)| p.family() == "esp32").unwrap().1;
    assert!(!esp.is_supported());
    assert_eq!(esp.note().unwrap().code, "probe.blocked.no_com_port");
}

#[test]
fn a_wch_link_is_claimed_away_from_the_serial_fallback() {
    let verdicts = applicable(&device(r"USB\VID_1A86&PID_8010\ABCDEF", Some("COM4"), Some("WinUSB")));
    let ch32 = verdicts.iter().find(|(p, _)| p.family() == "ch32").unwrap().1;
    let esp = verdicts.iter().find(|(p, _)| p.family() == "esp32").unwrap().1;
    assert_eq!(ch32, Applicability::Supported);
    assert_eq!(esp, Applicability::NotApplicable(notes::claimed_by_another()));
}
