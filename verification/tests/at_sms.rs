use edge_modem::at_sms::parse_cmgs_reference;
use edge_modem::pdu::encode_submit;

fn lines(values: &[&str]) -> Vec<String> {
    values.iter().map(|value| (*value).to_owned()).collect()
}

#[test]
fn the_modules_own_reference_is_read_back() {
    assert_eq!(parse_cmgs_reference(&lines(&["+CMGS: 42"])), Some(42));
    assert_eq!(parse_cmgs_reference(&lines(&["+CMGS:  7 "])), Some(7));
}

/// A submission with no reference reported is still a submission, but a
/// later delivery report cannot be tied to it -- so this is `None` rather
/// than a zero that would collide with a real reference of zero.
#[test]
fn an_absent_reference_is_none_rather_than_zero() {
    assert_eq!(parse_cmgs_reference(&lines(&["OK"])), None);
    assert_eq!(parse_cmgs_reference(&[]), None);
}

/// The length sent to the module is the TPDU, not the whole PDU. Getting
/// this wrong is answered with `+CMS ERROR: 304` and nothing else.
#[test]
fn the_length_excludes_the_service_centre_byte() {
    let pdu = encode_submit("+8613800138000", "hi", 1).expect("encode");
    assert_eq!(pdu[0], 0x00, "a zero service-centre byte means use the card's");
    assert_eq!(pdu.len() - 1, pdu.len().saturating_sub(1));
    assert!(pdu.len() > 1);
}
