use edge_modem::ussd::{UssdStage, parse_reply, request};

#[test]
fn request_uses_reporting_mode() {
    assert_eq!(request("*100#"), "AT+CUSD=1,\"*100#\",15");
}

/// A quote in the code would close the argument early and leave the rest to
/// be read as further parameters.
#[test]
fn request_strips_quotes_from_the_code() {
    assert_eq!(request("*1\"00#"), "AT+CUSD=1,\"*100#\",15");
}

#[test]
fn plain_reply_is_read_as_text() {
    let reply = parse_reply("+CUSD: 0,\"Balance 12.30 CNY\",15").expect("reply");
    assert_eq!(reply.stage, UssdStage::Complete);
    assert_eq!(reply.text, "Balance 12.30 CNY");
    assert!(!reply.stage.expects_reply());
}

#[test]
fn a_menu_reply_expects_a_follow_up() {
    let reply = parse_reply("+CUSD: 1,\"1 Balance 2 Plan\",15").expect("reply");
    assert_eq!(reply.stage, UssdStage::NeedsReply);
    assert!(reply.stage.expects_reply());
}

/// A UCS2 answer arrives as hex; printing it raw shows digits, not text.
#[test]
fn ucs2_reply_is_decoded() {
    let reply = parse_reply("+CUSD: 0,\"4F59989D\",72").expect("reply");
    assert_eq!(reply.text, "余额");
}

/// A balance really is digits. Decoding it as UCS2 would turn a correct
/// answer into nonsense.
#[test]
fn a_numeric_answer_is_left_alone() {
    let reply = parse_reply("+CUSD: 0,\"12345678\",15").expect("reply");
    assert_eq!(reply.text, "12345678");
}

#[test]
fn a_comma_inside_the_answer_stays_together() {
    let reply = parse_reply("+CUSD: 0,\"Balance: 1,234\",15").expect("reply");
    assert_eq!(reply.text, "Balance: 1,234");
}

#[test]
fn a_reply_without_text_still_parses() {
    let reply = parse_reply("+CUSD: 2").expect("reply");
    assert_eq!(reply.stage, UssdStage::Terminated);
    assert_eq!(reply.text, "");
}

/// Captured from a live module: the network never answered a code that is
/// not valid for the roaming card, and after its own wait the module
/// reported status 5 with the request echoed back. Naming that "other" and
/// showing the echo presents a clear answer as garbage.
#[test]
fn a_network_timeout_is_named_and_carries_no_text() {
    let reply = parse_reply("+CUSD: 5,\"*b@\u{1}3\",15").expect("reply");
    assert_eq!(reply.stage, UssdStage::NetworkTimeout);
    assert_eq!(reply.stage.as_str(), "network_timeout");
    assert_eq!(reply.text, "");
    assert!(!reply.stage.carries_answer());
}

#[test]
fn an_unsupported_operation_is_named() {
    let reply = parse_reply("+CUSD: 4").expect("reply");
    assert_eq!(reply.stage, UssdStage::NotSupported);
}

#[test]
fn a_non_cusd_line_is_not_a_reply() {
    assert_eq!(parse_reply("+CSQ: 24,99"), None);
}
