use edge_modem::at::{control_port_of_device, find_report, AtError, AtExchange, AtReader};
use edge_modem::at_inbox::{delete_command, list, list_command, LIST_ALL};
use edge_modem::at_sms::{accept_mode, accept_send, prepare_sms, AtSendOutcome, AtSmsError};
use edge_modem::pdu::{encode_submit, PduError};
use edge_modem::report::{batch_command, parse_prefixed, record, ModemReport, BATCH_COMMANDS};
use edge_modem::ussd::{cancel, decode, parse_reply, UssdStage};

fn exchange(command: &str, lines: &[&str], terminator: &str) -> AtExchange {
    AtExchange {
        command: command.into(),
        lines: lines.iter().map(|line| line.to_string()).collect(),
        terminator: terminator.into(),
        elapsed_ms: 5,
    }
}

#[test]
fn a_reader_waits_for_the_result_code() {
    let mut reader = AtReader::new("AT+CSQ");
    assert_eq!(reader.line(), "AT+CSQ\r");
    assert_eq!(reader.feed(b"AT+CSQ\r\r\n+CSQ: 24", 1), None);
    let done = reader.feed(b",99\r\n\r\nOK\r\n", 3).expect("exchange");
    assert_eq!(done.command, "AT+CSQ");
    assert_eq!(done.lines, ["+CSQ: 24,99"]);
    assert_eq!(done.terminator, "OK");
    assert_eq!(done.elapsed_ms, 3);
    assert_eq!(reader.overdue(9_999, 10_000), None);
    assert_eq!(
        reader.overdue(10_000, 10_000),
        Some(AtError::Timeout { command: "AT+CSQ".into(), elapsed_ms: 10_000 })
    );
}

#[test]
fn at_errors_name_their_command() {
    assert_eq!(
        AtError::Timeout { command: "ATI".into(), elapsed_ms: 12 }.to_string(),
        "ATI did not terminate within 12ms"
    );
    assert_eq!(
        AtError::Rejected { command: "ATI".into(), response: "ERROR".into() }.to_string(),
        "ATI rejected: ERROR"
    );
    assert_eq!(AtError::Io("broken".into()).to_string(), "broken");
}

#[test]
fn a_report_is_found_by_its_prefix() {
    let prefixes = vec!["+CUSD:".to_string()];
    assert_eq!(find_report("RING\r\n+CUSD: 0,\"x\",15\r\n", &prefixes).as_deref(), Some("+CUSD: 0,\"x\",15"));
    assert_eq!(find_report("RING\r\n", &prefixes), None);
    assert_eq!(control_port_of_device(&Vec::new(), "2-4"), None);
}

#[test]
fn a_submission_names_the_octets_behind_the_service_centre() {
    let prepared = prepare_sms("12345", "Hi", 0x07).expect("prepared");
    assert_eq!(prepared.command, "AT+CMGS=12");
    assert_eq!(prepared.payload, "0021070581214 3F5000002C834".replace(' ', ""));
    assert_eq!(
        prepare_sms("", "Hi", 0).map(|_| ()),
        Err(AtSmsError::Encode(PduError::EmptyDestination))
    );
    assert_eq!(accept_mode(exchange("AT+CMGF=0", &[], "OK")), Ok(()));
    assert_eq!(
        accept_mode(exchange("AT+CMGF=0", &[], "ERROR")),
        Err(AtSmsError::Refused { terminator: "ERROR".into() })
    );
    assert_eq!(
        accept_send(exchange("AT+CMGS=12", &["+CMGS: 42"], "OK")),
        Ok(AtSendOutcome { reference: Some(42) })
    );
    assert_eq!(
        accept_send(exchange("AT+CMGS=12", &[], "+CMS ERROR: 304")),
        Err(AtSmsError::Refused { terminator: "+CMS ERROR: 304".into() })
    );
}

#[test]
fn each_bad_submission_is_named() {
    assert_eq!(encode_submit("abc", "Hi", 0), Err(PduError::InvalidDestination));
    assert_eq!(encode_submit("12345", "", 0), Err(PduError::EmptyBody));
    assert_eq!(
        encode_submit("12345", &"a".repeat(161), 0),
        Err(PduError::TooLong { encoding: "gsm7", limit: 160 })
    );
    assert_eq!(
        encode_submit("12345", &"\u{4f60}".repeat(71), 0),
        Err(PduError::TooLong { encoding: "ucs2", limit: 70 })
    );
    assert!(encode_submit("12345", &"a".repeat(160), 0).is_ok());
    assert!(encode_submit("12345", &"\u{4f60}".repeat(70), 0).is_ok());
}

#[test]
fn a_listing_follows_the_mode() {
    assert_eq!(list_command(&exchange("AT+CMGF=0", &[], "OK")), Some(LIST_ALL));
    assert_eq!(list_command(&exchange("AT+CMGF=0", &[], "ERROR")), None);
    let listing = exchange("AT+CMGL=4", &["+CMGL: 7,0,,20", "0791"], "OK");
    let messages = list(&listing);
    assert_eq!(messages.len(), 1);
    assert_eq!(messages[0].index, 7);
    assert_eq!(messages[0].pdu, [0x07, 0x91]);
    assert!(list(&exchange("AT+CMGL=4", &["+CMGL: 7,0,,20", "0791"], "ERROR")).is_empty());
    assert_eq!(delete_command(7), "AT+CMGD=7");
}

#[test]
fn a_refused_report_command_leaves_the_rest() {
    let mut report = ModemReport::default();
    record(&mut report, "AT+CSQ", &exchange("AT+CSQ", &["+CSQ: 20,99"], "OK"));
    record(&mut report, "AT+CNUM", &exchange("AT+CNUM", &[], "ERROR"));
    assert_eq!(report.signal.map(|signal| signal.rssi_index), Some(20));
    assert_eq!(report.msisdn, None);
    assert_eq!(report.refused, ["AT+CNUM"]);
    let commands: Vec<&str> = (0..BATCH_COMMANDS).map(batch_command).collect();
    assert!(commands.contains(&"AT+CSQ"));
    let mut distinct = commands.clone();
    distinct.sort();
    distinct.dedup();
    assert_eq!(distinct.len(), BATCH_COMMANDS);
    assert_eq!(
        parse_prefixed(&["Revision: R06".to_string()], "Revision:").as_deref(),
        Some("R06")
    );
}

#[test]
fn every_ussd_stage_has_a_name() {
    for code in 0..=6u8 {
        let stage = UssdStage::from_code(code);
        assert!(!stage.as_str().is_empty());
    }
    assert_eq!(UssdStage::from_code(0), UssdStage::Complete);
    assert_eq!(UssdStage::from_code(9), UssdStage::Other(9));
    assert_eq!(cancel(), "AT+CUSD=2");
    assert_eq!(decode("4F59", Some(72)), "\u{4f59}");
    assert_eq!(decode("4F5", Some(72)), "4F5");
    assert_eq!(parse_reply("+CUSD: x"), None);
}
