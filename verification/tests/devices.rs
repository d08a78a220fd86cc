use edge_modem::cdc_wdm::{
    frame_rest, io_error, is_gone, is_indication, read_error, settles, POLL_ERR, POLL_HUP,
    POLL_IN, POLL_NVAL, NO_SUCH_ADDRESS, NO_SUCH_DEVICE, SHUT_DOWN,
};
use edge_modem::session::SessionError;
use edge_modem::tty::{
    at_control_ports, at_port_candidates, at_port_for_qmi, usb_device_of_at, TtyEntry,
};
use edge_modem::usb::{
    after_deauthorize, after_look, after_reauthorize, begin_recovery, sysfs_device,
    usb_device_of_qmi, usb_devnum, usb_identity, usbfs_node, RecoveryMove, UsbError, UsbRecovery,
};
use edge_modem::wwan::{raw_ip_path, tear_down};

const USB: &str = "/sys/devices/pci0000:00/0000:00:14.0/usb2/2-4";

fn entry(name: &str, interface: &str, driver: Option<&str>) -> TtyEntry {
    TtyEntry {
        name: name.into(),
        resolved: Some(format!("{USB}/2-4.2/2-4.2:{interface}/{name}")),
        vendor: Some("2C7C\n".into()),
        product: Some("0125\n".into()),
        label: Some("\n".into()),
        interface_driver: driver.map(str::to_string),
        nearest_driver: Some("usb".into()),
    }
}

#[test]
fn candidates_are_read_out_of_sysfs_and_sorted() {
    let platform = TtyEntry {
        name: "ttyHS0".into(),
        resolved: Some("/sys/devices/platform/serial".into()),
        vendor: Some("ignored".into()),
        product: None,
        label: Some("ignored".into()),
        interface_driver: None,
        nearest_driver: Some("msm_serial_hs".into()),
    };
    let mut gone = entry("ttyUSB9", "1.0", None);
    gone.resolved = None;
    let entries = vec![
        entry("ttyUSB3", "1.3", Some("option")),
        entry("ttyUSB2", "1.2", Some("option")),
        platform,
        entry("console", "1.2", Some("option")),
        gone,
    ];
    let candidates = at_port_candidates(&entries, "/dev");
    let paths: Vec<&str> = candidates.iter().map(|c| c.path.as_str()).collect();
    assert_eq!(paths, ["/dev/ttyHS0", "/dev/ttyUSB2", "/dev/ttyUSB3"]);
    assert_eq!(candidates[0].usb_device, None);
    assert_eq!(candidates[0].vendor_id, None);
    assert_eq!(candidates[0].interface_label, None);
    assert_eq!(candidates[0].driver.as_deref(), Some("msm_serial_hs"));
    assert_eq!(candidates[1].usb_device.as_deref(), Some("2-4.2"));
    assert_eq!(candidates[1].interface.as_deref(), Some("1.2"));
    assert_eq!(candidates[1].vendor_id.as_deref(), Some("2c7c"));
    assert_eq!(candidates[1].product_id.as_deref(), Some("0125"));
    assert_eq!(candidates[1].interface_label, None);
    assert_eq!(candidates[1].driver.as_deref(), Some("option"));
    assert_eq!(at_control_ports(&entries, "/dev"), ["/dev/ttyHS0", "/dev/ttyUSB2"]);
}

#[test]
fn a_qmi_node_and_its_at_port_share_a_usb_device() {
    let entries = vec![entry("ttyUSB2", "1.2", Some("option"))];
    let node = format!("{USB}/2-4.2/2-4.2:1.4");
    assert_eq!(
        at_port_for_qmi(&entries, "/dev", &node),
        Some("/dev/ttyUSB2".to_string())
    );
    assert_eq!(at_port_for_qmi(&entries, "/dev", &format!("{USB}/2-4.1/2-4.1:1.4")), None);
    assert_eq!(at_port_for_qmi(&entries, "/dev", "/sys/devices/platform"), None);
    assert_eq!(usb_device_of_at(&node), Some("2-4.2".to_string()));
    assert_eq!(usb_device_of_qmi("/sys/bus/usb/4-3/4-3:1.4"), Some("4-3".to_string()));
}

#[test]
fn a_root_keeps_its_own_slash() {
    let entries = vec![entry("ttyUSB2", "1.2", Some("option"))];
    for root in ["/dev", "/dev/"] {
        assert_eq!(at_port_candidates(&entries, root)[0].path, "/dev/ttyUSB2");
    }
    assert_eq!(at_port_candidates(&entries, "")[0].path, "ttyUSB2");
}

#[test]
fn sysfs_names_a_device_by_its_position() {
    assert_eq!(sysfs_device("4-3"), "/sys/bus/usb/devices/4-3");
    assert_eq!(sysfs_device("/tmp/4-3"), "/tmp/4-3");
    assert_eq!(sysfs_device(""), "/sys/bus/usb/devices/");
    assert_eq!(usbfs_node(Some(4), Some(12)), Some("/dev/bus/usb/004/012".to_string()));
    assert_eq!(usbfs_node(Some(4), None), None);
    assert_eq!(usb_devnum(Some("12\n")), Some(12));
    assert_eq!(usb_devnum(Some("twelve")), None);
    assert_eq!(usb_identity(Some("2c7c"), None), None);
}

#[test]
fn a_recovery_goes_down_and_comes_back() {
    let identity = usb_identity(Some("2c7c"), Some("0125"));
    assert_eq!(begin_recovery("4-3", &identity), RecoveryMove::Deauthorize);
    assert_eq!(after_deauthorize(true), RecoveryMove::Reauthorize { after_ms: 1_500 });
    assert_eq!(after_reauthorize("4-3", 1, None), RecoveryMove::Look { after_ms: 0 });
    assert_eq!(after_look("4-3", false, 0), RecoveryMove::Look { after_ms: 250 });
    assert_eq!(
        after_look("4-3", true, 250),
        RecoveryMove::Done(UsbRecovery::Reauthorized)
    );
}

#[test]
fn a_device_that_is_down_is_tried_five_times() {
    for attempt in 1..5 {
        assert_eq!(
            after_reauthorize("4-3", attempt, Some("busy")),
            RecoveryMove::Reauthorize { after_ms: 400 }
        );
    }
    assert_eq!(
        after_reauthorize("4-3", 5, Some("busy")),
        RecoveryMove::Failed(UsbError::Ioctl("USB device 4-3 stayed de-authorised: busy".into()))
    );
    assert_eq!(
        after_look("4-3", false, 20_000),
        RecoveryMove::Failed(UsbError::DidNotReturn { device: "4-3".into(), waited_ms: 20_000 })
    );
    assert_eq!(after_deauthorize(false), RecoveryMove::ResetPort);
}

#[test]
fn usb_errors_say_what_happened() {
    assert_eq!(UsbError::UnknownDevice("9-9".into()).to_string(), "no USB device at 9-9");
    assert_eq!(
        UsbError::Open { path: "/dev/x".into(), reason: "denied".into() }.to_string(),
        "open /dev/x: denied"
    );
    assert_eq!(
        UsbError::Unsupported.to_string(),
        "USB recovery is only supported on Linux"
    );
}

#[test]
fn poll_bits_and_errno_are_those_of_the_platform() {
    assert_eq!(POLL_IN, libc::POLLIN);
    assert_eq!(POLL_ERR, libc::POLLERR);
    assert_eq!(POLL_HUP, libc::POLLHUP);
    assert_eq!(POLL_NVAL, libc::POLLNVAL);
    assert_eq!(NO_SUCH_DEVICE, libc::ENODEV);
    assert_eq!(NO_SUCH_ADDRESS, libc::ENXIO);
    assert_eq!(SHUT_DOWN, libc::ESHUTDOWN);
    assert!(is_gone(Some(libc::ESHUTDOWN), false));
    assert!(is_gone(None, true));
    assert!(!is_gone(None, false));
}

#[test]
fn an_indication_does_not_settle_a_request() {
    let request = [0x01, 0x0c, 0, 0, 0x05, 0x01, 0x00, 0x01, 0x00, 0x31, 0x00, 0x00, 0x00];
    let mut indication = [0x01, 0x0c, 0, 0x80, 0x05, 0x01, 0x04, 0x01, 0x00, 0x31, 0, 0, 0];
    assert!(is_indication(&indication));
    assert!(!settles(&request, &indication));
    indication[6] = 0x02;
    assert!(!is_indication(&indication));
    assert!(settles(&request, &indication));
    indication[7] = 0x02;
    assert!(!settles(&request, &indication));
}

#[test]
fn a_frame_says_how_much_follows() {
    assert_eq!(frame_rest([0x01, 0x0c, 0x00]), Ok(10));
    assert!(frame_rest([0x02, 0x0c, 0x00]).is_err());
    let lost = io_error("/dev/cdc-wdm0", "write", "No such device", true, false);
    assert_eq!(
        lost,
        SessionError::Disconnected { device: "/dev/cdc-wdm0".into(), awaiting_response: false }
    );
    assert!(matches!(
        read_error("/dev/cdc-wdm0", "header", "bad", false),
        SessionError::Transport(_)
    ));
}

#[test]
fn a_torn_down_link_is_named_by_its_interface() {
    assert_eq!(raw_ip_path("/sys", "wwan0"), "/sys/class/net/wwan0/qmi/raw_ip");
    let steps = tear_down("wwan3", None);
    assert!(steps.iter().all(|step| step.program == "ip"));
    assert!(!steps.iter().any(|step| step.args.contains(&"rule".to_string())));
}
