use wuim::cli::{
    declined_only, find_target, is_yes, parse_args, ArgError, CliCommand, ListOptions, ProbeOptions, TargetError,
};
use wuim::instance_id::InstanceId;
use wuim::snapshot::Snapshot;
use wuim::usbipd::UsbipdDevice;
use wuim::windevice::WinUsbDevice;

fn args(words: &[&str]) -> Vec<String> {
    words.iter().map(|w| w.to_string()).collect()
}

const NONE: ListOptions = ListOptions { all: false, nodes: false, json: false };

#[test]
fn no_arguments_lists_what_is_connected() {
    assert_eq!(parse_args(&[]), Ok(CliCommand::List(NONE)));
    assert_eq!(parse_args(&args(&["list"])), Ok(CliCommand::List(NONE)));
}

#[test]
fn bare_flags_mean_list() {
    assert_eq!(
        parse_args(&args(&["--json", "-a"])),
        Ok(CliCommand::List(ListOptions { all: true, nodes: false, json: true }))
    );
    assert_eq!(
        parse_args(&args(&["list", "--nodes"])),
        Ok(CliCommand::List(ListOptions { all: false, nodes: true, json: false }))
    );
}

#[test]
fn help_anywhere_wins() {
    assert_eq!(parse_args(&args(&["probe", "COM3", "-h"])), Ok(CliCommand::Help));
    assert_eq!(parse_args(&args(&["help"])), Ok(CliCommand::Help));
}

#[test]
fn what_is_not_understood_is_named() {
    assert_eq!(parse_args(&args(&["list", "--bogus", "--also"])), Err(ArgError::UnknownArgument("--bogus".into())));
    assert_eq!(parse_args(&args(&["flash"])), Err(ArgError::UnknownCommand("flash".into())));
    assert_eq!(parse_args(&args(&["probe", "COM3", "--force"])), Err(ArgError::UnknownArgument("--force".into())));
}

#[test]
fn a_probe_names_its_target_and_may_skip_the_question() {
    assert_eq!(
        parse_args(&args(&["probe", "COM32", "--yes"])),
        Ok(CliCommand::Probe(ProbeOptions { target: Some("COM32".into()), assume_yes: true }))
    );
    assert_eq!(
        parse_args(&args(&["probe", "8-1", "8-2"])),
        Ok(CliCommand::Probe(ProbeOptions { target: Some("8-2".into()), assume_yes: false }))
    );
    assert_eq!(parse_args(&args(&["probe"])), Ok(CliCommand::Probe(ProbeOptions { target: None, assume_yes: false })));
}

fn node(raw: &str, com: &str) -> WinUsbDevice {
    WinUsbDevice {
        instance_id: InstanceId::parse(raw),
        device_desc: None,
        friendly_name: None,
        bus_reported_device_desc: None,
        manufacturer: None,
        service: None,
        container_id: None,
        location_paths: Vec::new(),
        parent_instance_id: None,
        address: None,
        com_port: Some(com.to_owned()),
        revision: None,
        driver_version: None,
        problem_code: None,
    }
}

fn entry(raw: &str, bus_id: &str) -> UsbipdDevice {
    UsbipdDevice {
        bus_id: Some(bus_id.to_owned()),
        client_ip_address: None,
        description: "d".to_owned(),
        instance_id: raw.to_owned(),
        is_forced: false,
        persisted_guid: None,
        stub_instance_id: None,
    }
}

#[test]
fn a_target_is_a_com_port_or_a_bus_id() {
    let a = r"USB\VID_1A86&PID_7523\8&A&0&1";
    let b = r"USB\VID_1A86&PID_7523\8&A&0&2";
    let s = Snapshot::join(vec![node(a, "COM5"), node(b, "COM5")], vec![entry(a, "8-1"), entry(b, "8-2")]);
    let i = find_target(&s, "8-2").unwrap();
    assert_eq!(s.devices[i].instance_id.raw, b);
    assert_eq!(find_target(&s, "com5"), Err(TargetError::Several(2)));
    assert_eq!(find_target(&s, "COM9"), Err(TargetError::NoMatch));
}

#[test]
fn only_a_clear_yes_runs_a_probe() {
    assert!(is_yes("y\n"));
    assert!(is_yes(" yes "));
    assert!(is_yes("Y"));
    assert!(!is_yes(""));
    assert!(!is_yes("YES"));
    assert!(!is_yes("n"));
    assert!(declined_only(0, 2));
    assert!(!declined_only(1, 2));
    assert!(!declined_only(0, 0));
}
