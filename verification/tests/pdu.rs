use edge_modem::pdu::{PduError, encode_submit};

#[test]
fn ascii_submit_uses_gsm7_and_default_smsc() {
    let pdu = encode_submit("12345", "Hi", 0x00).expect("pdu");
    assert_eq!(
        pdu,
        [
            0x00, 0x21, 0x00, 0x05, 0x81, 0x21, 0x43, 0xf5, 0x00, 0x00, 0x02, 0xc8, 0x34
        ]
    );
}

// The bit that asks the network for a delivery receipt. Named in its own
// test because the byte-exact case above would still pass with it cleared
// if someone updated the expected array to match the code.
#[test]
fn submit_requests_a_status_report() {
    let pdu = encode_submit("12345", "Hi", 0x00).expect("pdu");
    assert_eq!(pdu[1] & 0x20, 0x20, "TP-SRR must be set");
    assert_eq!(pdu[1] & 0x03, 0x01, "TP-MTI must still say SUBMIT");
}

// TP-MR is what a status report quotes back. A send that ignored the
// caller's reference would make every report point at the same message.
#[test]
fn the_caller_chooses_the_message_reference() {
    let pdu = encode_submit("12345", "Hi", 0x9c).expect("pdu");
    assert_eq!(pdu[2], 0x9c);
}

#[test]
fn plus_prefix_is_international() {
    let pdu = encode_submit("+8613800138000", "Hi", 0x00).expect("pdu");
    assert_eq!(pdu[4], 0x91);
    assert_eq!(pdu[3], 13);
}

#[test]
fn chinese_body_is_ucs2() {
    // [0] SMSC [1] first octet [2] MR [3] digits [4] TOA [5..8] address [8] PID [9] DCS
    // [10] UDL [11..] data
    let pdu = encode_submit("10086", "你好", 0x00).expect("pdu");
    assert_eq!(pdu[0], 0x00);
    assert_eq!(pdu[8], 0x00, "PID");
    assert_eq!(pdu[9], 0x08, "DCS must be UCS-2");
    assert_eq!(pdu[10], 4, "UDL counts octets");
    assert_eq!(&pdu[11..], &[0x4f, 0x60, 0x59, 0x7d]);
}

#[test]
fn empty_destination_is_rejected() {
    assert_eq!(
        encode_submit(" ", "Hi", 0x00),
        Err(PduError::EmptyDestination)
    );
}

// A character outside the basic plane is two units, and reads back as one.
#[test]
fn a_surrogate_pair_is_sent_whole() {
    let pdu = encode_submit("10086", "é😀", 0x00).expect("pdu");
    assert_eq!(pdu[9], 0x08);
    assert_eq!(pdu[10], 6);
    assert_eq!(&pdu[11..], &[0x00, 0xe9, 0xd8, 0x3d, 0xde, 0x00]);
    let units: Vec<u16> =
        pdu[11..].chunks(2).map(|pair| u16::from_be_bytes([pair[0], pair[1]])).collect();
    assert_eq!(String::from_utf16(&units).expect("text"), "é😀");
}
