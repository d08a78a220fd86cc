use edge_modem::at::{
    AtExchange, AtPortCandidate, AtPortKind, AtProbePolicy, candidate_from_parts, first_bare_digits,
    response_lines, select_control_ports, terminal_code, usb_interface_parts,
};

fn serial_candidate(
    name: &str,
    kind: AtPortKind,
    usb_device: Option<&str>,
    interface: Option<&str>,
    label: Option<&str>,
    driver: Option<&str>,
) -> AtPortCandidate {
    candidate_from_parts(
        format!("/dev/{name}"),
        kind,
        usb_device.map(str::to_string),
        interface.map(str::to_string),
        label.map(str::to_string),
        driver.map(str::to_string),
        Some("2c7c".into()),
        Some("0125".into()),
    )
}

#[test]
fn usb_interface_parser_ignores_pci_colons() {
    assert_eq!(usb_interface_parts("2-4.2:1.2"), Some(("2-4.2".to_string(), "1.2".to_string())));
    assert_eq!(usb_interface_parts("4-1:2.2"), Some(("4-1".to_string(), "2.2".to_string())));
    assert_eq!(usb_interface_parts("0000:00:16.0"), None);
    assert_eq!(usb_interface_parts("platform:serial"), None);
}

#[test]
fn a_different_usb_configuration_keeps_the_control_port_automatic() {
    let candidate = serial_candidate(
        "ttyUSB8",
        AtPortKind::Usb,
        Some("2-4.2"),
        Some("2.2"),
        None,
        Some("option"),
    );
    assert_eq!(candidate.policy, AtProbePolicy::Automatic);
    assert_eq!(candidate.vendor_id.as_deref(), Some("2c7c"));
    assert_eq!(candidate.product_id.as_deref(), Some("0125"));
    assert_eq!(select_control_ports(&vec![candidate]), vec![String::from("/dev/ttyUSB8")]);
}

#[test]
fn cdc_acm_needs_an_explicit_modem_label_before_polling() {
    let at_port = serial_candidate(
        "ttyACM0",
        AtPortKind::Acm,
        Some("1-3"),
        Some("1.0"),
        Some("USB AT Port"),
        Some("cdc_acm"),
    );
    let generic_serial = serial_candidate(
        "ttyACM1",
        AtPortKind::Acm,
        Some("1-4"),
        Some("1.0"),
        Some("Debug Console"),
        Some("cdc_acm"),
    );
    assert_eq!(at_port.policy, AtProbePolicy::Automatic);
    assert_eq!(generic_serial.policy, AtProbePolicy::Manual);
    assert_eq!(
        select_control_ports(&vec![at_port, generic_serial]),
        vec![String::from("/dev/ttyACM0")]
    );
}

#[test]
fn high_speed_serial_requires_a_modem_driver_or_explicit_label() {
    let modem = serial_candidate(
        "ttyHS0",
        AtPortKind::HighSpeed,
        None,
        None,
        None,
        Some("msm_serial_hs"),
    );
    let unknown = serial_candidate(
        "ttyHS1",
        AtPortKind::HighSpeed,
        None,
        None,
        None,
        Some("serial"),
    );
    assert_eq!(modem.policy, AtProbePolicy::Automatic);
    assert_eq!(unknown.policy, AtProbePolicy::Manual);
    assert_eq!(
        select_control_ports(&vec![modem, unknown]),
        vec![String::from("/dev/ttyHS0")]
    );
}

#[test]
fn one_physical_modem_gets_one_preferred_control_port() {
    let declared_control = serial_candidate(
        "ttyUSB10",
        AtPortKind::Usb,
        Some("2-4.2"),
        Some("1.1"),
        Some("USB AT Port"),
        Some("option"),
    );
    let standard = serial_candidate(
        "ttyUSB8",
        AtPortKind::Usb,
        Some("2-4.2"),
        Some("1.2"),
        None,
        Some("option"),
    );
    let ppp = serial_candidate(
        "ttyUSB9",
        AtPortKind::Usb,
        Some("2-4.2"),
        Some("1.3"),
        None,
        Some("option"),
    );
    assert_eq!(standard.policy, AtProbePolicy::Automatic);
    assert_eq!(ppp.policy, AtProbePolicy::Manual);
    assert_eq!(
        select_control_ports(&vec![ppp, declared_control, standard]),
        vec![String::from("/dev/ttyUSB10")]
    );
}

#[test]
fn only_known_serial_naming_conventions_become_candidates() {
    assert_eq!(AtPortKind::from_tty_name("ttyUSB12"), Some(AtPortKind::Usb));
    assert_eq!(AtPortKind::from_tty_name("ttyACM0"), Some(AtPortKind::Acm));
    assert_eq!(AtPortKind::from_tty_name("ttyHS1"), Some(AtPortKind::HighSpeed));
    assert_eq!(AtPortKind::from_tty_name("ttyS0"), None);
    assert_eq!(AtPortKind::from_tty_name("ttyUSBdebug"), None);
}

#[test]
fn ok_terminates_a_response() {
    assert_eq!(terminal_code("AT\r\r\nOK\r\n").as_deref(), Some("OK"));
}

#[test]
fn partial_response_has_no_terminator() {
    assert_eq!(terminal_code("AT+CSQ\r\r\n+CSQ: 24,99\r\n"), None);
}

#[test]
fn cme_error_terminates_a_response() {
    assert_eq!(
        terminal_code("AT+CPIN?\r\r\n+CME ERROR: 10\r\n").as_deref(),
        Some("+CME ERROR: 10")
    );
}

#[test]
fn busy_terminates_a_dial() {
    assert_eq!(
        terminal_code("ATD10086;\r\r\nBUSY\r\n").as_deref(),
        Some("BUSY")
    );
}

#[test]
fn no_answer_terminates_a_dial() {
    assert_eq!(
        terminal_code("ATD10086;\r\r\nNO ANSWER\r\n").as_deref(),
        Some("NO ANSWER")
    );
}

#[test]
fn no_dialtone_terminates_a_dial() {
    assert_eq!(
        terminal_code("ATD10086;\r\r\nNO DIALTONE\r\n").as_deref(),
        Some("NO DIALTONE")
    );
}

#[test]
fn no_carrier_and_aborted_still_terminate() {
    assert_eq!(
        terminal_code("ATD10086;\r\r\nNO CARRIER\r\n").as_deref(),
        Some("NO CARRIER")
    );
    assert_eq!(
        terminal_code("AT+COPS=?\r\r\nABORTED\r\n").as_deref(),
        Some("ABORTED")
    );
}

#[test]
fn an_unsolicited_ring_leaves_the_read_waiting() {
    // A call arriving while another command is in flight must not end that
    // command: its own result code has not been sent yet, so this input
    // takes the same path as any partial response.
    assert_eq!(terminal_code("AT+CSQ\r\r\nRING\r\n"), None);
}

#[test]
fn a_call_progress_word_inside_a_line_leaves_the_read_waiting() {
    // Matching is on the whole line. Text that merely contains the words —
    // here a network's USSD reply — is response body, not a terminator.
    assert_eq!(
        terminal_code("AT+CUSD=1\r\r\n+CUSD: 0,\"NO ANSWER FROM 10086\",15\r\n"),
        None
    );
}

#[test]
fn each_call_progress_code_reaches_the_caller_as_itself() {
    for code in ["NO CARRIER", "BUSY", "NO ANSWER", "NO DIALTONE"] {
        let exchange = AtExchange {
            command: "ATD10086;".to_string(),
            lines: Vec::new(),
            terminator: code.to_string(),
            elapsed_ms: 1,
        };
        assert!(!exchange.succeeded(), "{code} is not a success");
        assert_eq!(exchange.call_progress(), Some(code));
    }
}

#[test]
fn a_rejection_is_not_call_progress() {
    let exchange = AtExchange {
        command: "AT+CPIN?".to_string(),
        lines: Vec::new(),
        terminator: "+CME ERROR: 10".to_string(),
        elapsed_ms: 1,
    };
    assert_eq!(exchange.call_progress(), None);
    let ok = AtExchange {
        command: "AT".to_string(),
        lines: Vec::new(),
        terminator: "OK".to_string(),
        elapsed_ms: 1,
    };
    assert_eq!(ok.call_progress(), None);
}

#[test]
fn a_failed_dial_keeps_its_code_out_of_the_body() {
    let buffer = "ATD10086;\r\r\nNO ANSWER\r\n";
    assert_eq!(
        response_lines(buffer, "ATD10086;", "NO ANSWER"),
        Vec::<String>::new()
    );
}

#[test]
fn echo_and_terminator_are_stripped() {
    let buffer = "AT+CSQ\r\r\n+CSQ: 24,99\r\n\r\nOK\r\n";
    assert_eq!(
        response_lines(buffer, "AT+CSQ", "OK"),
        vec!["+CSQ: 24,99".to_string()]
    );
}

#[test]
fn multi_line_response_keeps_order() {
    let buffer = "AT+COPS=?\r\r\n+COPS: (2,\"A\"),(1,\"B\")\r\n+COPS: (0-4)\r\n\r\nOK\r\n";
    assert_eq!(
        response_lines(buffer, "AT+COPS=?", "OK"),
        vec![
            "+COPS: (2,\"A\"),(1,\"B\")".to_string(),
            "+COPS: (0-4)".to_string(),
        ]
    );
}

#[test]
fn transcript_reassembles_the_exchange() {
    let exchange = AtExchange {
        command: "AT+CSQ".into(),
        lines: vec!["+CSQ: 24,99".into()],
        terminator: "OK".into(),
        elapsed_ms: 12,
    };
    assert_eq!(exchange.transcript(), "+CSQ: 24,99\nOK");
    assert!(exchange.succeeded());
}

#[test]
fn rejection_is_not_success() {
    let exchange = AtExchange {
        command: "AT+CPIN?".into(),
        lines: Vec::new(),
        terminator: "+CME ERROR: 10".into(),
        elapsed_ms: 4,
    };
    assert!(!exchange.succeeded());
    assert_eq!(exchange.transcript(), "+CME ERROR: 10");
}

#[test]
fn bare_digits_skip_a_command_echo() {
    let lines = vec!["AT+CGSN".to_string(), "867018069509705".to_string()];
    assert_eq!(
        first_bare_digits(&lines),
        Some("867018069509705".to_string())
    );
}

#[test]
fn bare_digits_ignore_blank_lines_and_prefixed_answers() {
    let lines = vec![String::new(), "+CME ERROR: 10".to_string()];
    assert_eq!(first_bare_digits(&lines), None);
}

/// The data interface is never picked by itself, whatever it calls itself.
#[test]
fn the_data_port_is_not_picked_for_its_label() {
    for label in ["Modem", "USB AT Port"] {
        let standard = serial_candidate(
            "ttyUSB8",
            AtPortKind::Usb,
            Some("2-4.2"),
            Some("1.2"),
            None,
            Some("option"),
        );
        let data = serial_candidate(
            "ttyUSB9",
            AtPortKind::Usb,
            Some("2-4.2"),
            Some("1.3"),
            Some(label),
            Some("option"),
        );
        assert_eq!(data.policy, AtProbePolicy::Manual);
        assert_eq!(
            select_control_ports(&vec![data, standard]),
            vec![String::from("/dev/ttyUSB8")]
        );
    }
}
