use edge_modem::usb::{
    RecoveryMove, UsbError, UsbIdentity, UsbRecovery, begin_recovery, has_interfaces,
    usb_device_of_qmi, usb_devnum, usb_identity, usbfs_node,
};

#[test]
fn missing_device_is_reported_with_its_path() {
    let error = UsbError::NotFound("/dev/cdc-wdm9".into());
    assert_eq!(error.to_string(), "no USB device behind /dev/cdc-wdm9");
}

#[test]
fn unknown_qmi_node_has_no_usb_device() {
    assert_eq!(usb_device_of_qmi("/dev/cdc-wdm-does-not-exist"), None);
}

#[test]
fn usbfs_node_is_absent_for_an_unknown_device() {
    assert_eq!(usbfs_node(None, None), None);
}

#[test]
fn an_absent_device_has_no_identity() {
    assert_eq!(usb_identity(None, None), None);
    assert_eq!(usb_devnum(None), None);
}

#[test]
fn identity_is_read_from_the_device_directory() {
    // Trailing newlines are how sysfs actually answers.
    let identity = usb_identity(Some("2c7c\n"), Some("0125\n"));
    assert_eq!(
        identity,
        Some(UsbIdentity {
            vendor: "2c7c".into(),
            product: "0125".into(),
        })
    );
    assert_eq!(identity.expect("identity").to_string(), "2c7c:0125");
}

/// A de-authorised device keeps its directory and loses its interfaces,
/// which is the difference the return wait is watching for.
#[test]
fn interfaces_are_what_says_a_device_came_back() {
    let mut names = vec!["idVendor".to_string()];
    assert!(!has_interfaces(&names, "4-3"));
    names.push("4-3:1.0".to_string());
    assert!(has_interfaces(&names, "4-3"));
}

/// The colon is load-bearing. A device directory also holds the devices
/// plugged in below it — `4-3.1` sits inside `4-3` — and those keep their
/// directories while `4-3` itself is de-authorised. Matching on the bare
/// name would read a downstream device as proof that this one came back.
#[test]
fn a_downstream_device_is_not_an_interface() {
    let mut names = vec!["4-3.1".to_string()];
    assert!(!has_interfaces(&names, "4-3"));
    names.push("4-3:1.0".to_string());
    assert!(has_interfaces(&names, "4-3"));
}

#[test]
fn recovery_tiers_spell_themselves_for_the_receipt() {
    assert_eq!(UsbRecovery::Reauthorized.wire(), "reauthorize");
    assert_eq!(UsbRecovery::PortReset.wire(), "port_reset");
}

#[test]
fn a_device_that_never_came_back_says_so() {
    let error = UsbError::DidNotReturn {
        device: "4-3".into(),
        waited_ms: 20_000,
    };
    assert_eq!(
        error.to_string(),
        "USB device 4-3 was de-authorised and had not come back after 20s"
    );
}

#[test]
fn recovering_a_position_with_nothing_on_it_is_refused() {
    match begin_recovery("99-99", &None) {
        RecoveryMove::Failed(UsbError::UnknownDevice(device)) => assert_eq!(device, "99-99"),
        other => panic!("expected UnknownDevice, got {other:?}"),
    }
}
