use wuim::usbipd::{
    checked_bus_id, finish_captured, finish_elevated, locate, prepare, sibling, usb_ids_given, usb_ids_path, usbipd_exe, Operation, RunError, SharingState, UsbipdDevice,
    DEFAULT_INSTALL_PATH,
};

fn device(
    bus_id: Option<&str>,
    client: Option<&str>,
    description: &str,
    instance_id: &str,
    guid: Option<&str>,
    stub: Option<&str>,
) -> UsbipdDevice {
    UsbipdDevice {
        bus_id: bus_id.map(|b| b.to_owned()),
        client_ip_address: client.map(|c| c.to_owned()),
        description: description.to_owned(),
        instance_id: instance_id.to_owned(),
        is_forced: false,
        persisted_guid: guid.map(|g| g.to_owned()),
        stub_instance_id: stub.map(|s| s.to_owned()),
    }
}

/// The three entries of a real machine's `usbipd state`, as values.
fn sample() -> Vec<UsbipdDevice> {
    vec![
        device(
            Some("8-4"),
            None,
            "Microsoft USB IntelliMouse Optical",
            "USB\\VID_045E&PID_0039\\7&19033BE6&0&4",
            None,
            None,
        ),
        device(
            None,
            None,
            "USB-SERIAL CH340 (COM8)",
            "USB\\VID_1A86&PID_7523\\7&19033BE6&0&2",
            Some("05d75b37-ae96-4b2a-9d0d-5cded25f52eb"),
            None,
        ),
        device(
            Some("16-1"),
            Some("172.22.176.1"),
            "USB-Enhanced-SERIAL CH343 (COM19)",
            "USB\\VID_1A86&PID_55D3\\58FA041019",
            Some("a4cc7bfb-f9c5-4211-b4c0-f84aaa11109a"),
            Some("USB\\Vid_80EE&Pid_CAFE\\58FA041019"),
        ),
    ]
}

#[test]
fn classifies_sharing_state() {
    let devices = sample();
    assert_eq!(devices[0].sharing_state(), SharingState::NotShared);
    assert_eq!(devices[1].sharing_state(), SharingState::Absent);
    assert_eq!(devices[2].sharing_state(), SharingState::Attached);
}

#[test]
fn a_bound_connected_device_is_shared() {
    let d = device(Some("3-1"), None, "x", "USB\\X", Some("guid"), None);
    assert_eq!(d.sharing_state(), SharingState::Shared);
    assert_eq!(d.sharing_state().label(), "shared");
    assert!(d.is_connected() && d.is_shared() && !d.is_attached());
}

#[test]
fn only_bind_and_unbind_need_admin() {
    assert!(Operation::Bind.needs_admin());
    assert!(Operation::Unbind.needs_admin());
    assert!(!Operation::Attach.needs_admin());
    assert!(!Operation::Detach.needs_admin());
}

#[test]
fn attach_names_a_client_to_hand_the_device_to() {
    assert_eq!(Operation::Attach.extra_args(), &["--wsl"]);
    assert!(Operation::Detach.extra_args().is_empty());
    assert!(Operation::Bind.extra_args().is_empty());
}

#[test]
fn accepts_real_bus_ids() {
    assert_eq!(checked_bus_id("10-1").unwrap(), "10-1");
    assert_eq!(checked_bus_id("2-10").unwrap(), "2-10");
}

#[test]
fn rejects_anything_that_is_not_a_bus_id() {
    for bad in ["", "10", "10-", "-1", "10-1 && calc", "a-1", "10-1-2"] {
        assert!(checked_bus_id(bad).is_err(), "accepted {bad:?}");
    }
}

#[test]
fn an_operation_reads_the_bus_id_from_the_state_just_read() {
    let devices = sample();
    let attach = prepare(
        Operation::Attach,
        "usb\\vid_045e&pid_0039\\7&19033be6&0&4",
        &devices,
        "usbipd",
    )
    .unwrap();
    assert_eq!(attach.bus_id, "8-4");
    assert_eq!(attach.arguments, "attach --busid 8-4 --wsl");
    assert_eq!(attach.command_line, "usbipd attach --busid 8-4 --wsl");
    assert!(!attach.elevated);
    let bind = prepare(Operation::Bind, "USB\\VID_1A86&PID_55D3\\58FA041019", &devices, "u").unwrap();
    assert_eq!(bind.arguments, "bind --busid 16-1");
    assert!(bind.elevated);
}

#[test]
fn an_operation_on_an_absent_or_unknown_device_is_refused() {
    let devices = sample();
    assert_eq!(
        prepare(Operation::Attach, "USB\\VID_1A86&PID_7523\\7&19033BE6&0&2", &devices, "u").unwrap_err(),
        RunError::NotConnected("USB-SERIAL CH340 (COM8)".to_owned())
    );
    assert_eq!(
        prepare(Operation::Detach, "USB\\NOPE", &devices, "u").unwrap_err(),
        RunError::Unknown("USB\\NOPE".to_owned())
    );
    let odd = vec![device(Some("1-1 & calc"), None, "d", "USB\\ODD", None, None)];
    assert_eq!(
        prepare(Operation::Bind, "USB\\ODD", &odd, "u").unwrap_err(),
        RunError::UnusableBusId("1-1 & calc".to_owned())
    );
}

#[test]
fn usb_ids_sits_beside_the_installed_executable() {
    assert_eq!(sibling(DEFAULT_INSTALL_PATH, "usb.ids").as_deref(), Some(r"C:\Program Files\usbipd-win\usb.ids"));
    assert_eq!(sibling("usbipd.exe", "usb.ids"), None);
    // Nothing is installed where these tests run.
    assert_eq!(usb_ids_path(), None);
    assert_eq!(locate(), "usbipd.exe");
}

#[test]
fn the_installed_copy_is_preferred_to_the_path() {
    assert_eq!(usbipd_exe(true), r"C:\Program Files\usbipd-win\usbipd.exe");
    assert_eq!(usbipd_exe(false), "usbipd.exe");
}

#[test]
fn usb_ids_is_used_only_when_it_is_there() {
    assert_eq!(usb_ids_given(true).as_deref(), Some(r"C:\Program Files\usbipd-win\usb.ids"));
    assert_eq!(usb_ids_given(false), None);
}

#[test]
fn an_elevated_run_is_judged_by_its_exit_code() {
    let devices = sample();
    let bind = prepare(Operation::Bind, "USB\\VID_1A86&PID_55D3\\58FA041019", &devices, "u").unwrap();
    let done = finish_elevated(&bind, 0).unwrap();
    assert_eq!(done.command_line, "u bind --busid 16-1");
    assert!(done.elevated);
    assert_eq!((done.stdout.as_str(), done.stderr.as_str()), ("", ""));
    assert_eq!(finish_elevated(&bind, 5).unwrap_err(), "`u bind --busid 16-1` (elevated) exited with 5");
}

#[test]
fn a_captured_run_trims_its_output_and_reports_a_failure() {
    let devices = sample();
    let bind = prepare(Operation::Bind, "USB\\VID_1A86&PID_55D3\\58FA041019", &devices, "u").unwrap();
    let done = finish_captured(&bind, true, " attached \n", "\n").unwrap();
    assert_eq!(done.stdout, "attached");
    assert_eq!(done.stderr, "");
    assert!(!done.elevated);
    assert_eq!(
        finish_captured(&bind, false, "out", "  usbipd: error: no such device \n").unwrap_err(),
        "`u bind --busid 16-1` failed: usbipd: error: no such device"
    );
    assert_eq!(finish_captured(&bind, false, " only stdout ", " ").unwrap_err(), "`u bind --busid 16-1` failed: only stdout");
}
