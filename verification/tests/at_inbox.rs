use edge_modem::at_inbox::parse_listing;

fn lines(values: &[&str]) -> Vec<String> {
    values.iter().map(|value| (*value).to_owned()).collect()
}

/// The shape a module answers with in PDU mode, holding a carrier's balance
/// reply: a numeric status, no alpha field, and the length.
#[test]
fn the_pdu_mode_listing_this_bench_produces_is_read() {
    let parsed = parse_listing(&lines(&[
        "+CMGL: 0,1,,98",
        "09A164000339341002F00405A10100F1000862809271533223525C0A656C",
    ]));
    assert_eq!(parsed.len(), 1);
    assert_eq!(parsed[0].index, 0);
    assert_eq!(parsed[0].status, "1");
    assert!(parsed[0].is_received(), "1 is REC READ, which arrived");
    assert_eq!(parsed[0].pdu[0], 0x09);
}

/// Numeric statuses 2 and 3 are this module's own outgoing messages.
#[test]
fn a_numeric_stored_status_is_not_a_delivery() {
    let parsed = parse_listing(&lines(&["+CMGL: 4,3,,20", "0001000B915121551532F4"]));
    assert_eq!(parsed.len(), 1);
    assert!(!parsed[0].is_received(), "3 is STO SENT");
    assert!(parse_listing(&lines(&["+CMGL: 5,0,,20", "0001000B915121551532F4"]))[0]
        .is_received(), "0 is REC UNREAD");
}

/// The text-mode spelling still reads, for a listing taken by hand.
#[test]
fn a_header_and_its_pdu_are_read_as_one_message() {
    let parsed = parse_listing(&lines(&[
        "+CMGL: 0,\"REC UNREAD\",\"10001\",,\"26/08/29,17:35:23+32\"",
        "0891683108200105F0240D91683108200105F000082608921553238004F60D",
    ]));
    assert_eq!(parsed.len(), 1);
    assert_eq!(parsed[0].index, 0);
    assert_eq!(parsed[0].status, "REC UNREAD");
    assert!(parsed[0].is_received());
    assert_eq!(parsed[0].pdu[0], 0x08);
}

/// A store holding messages this module sent must not have them decoded as
/// arrivals and carried upstream.
#[test]
fn a_sent_message_is_not_a_received_one() {
    let parsed = parse_listing(&lines(&[
        "+CMGL: 3,\"STO SENT\",\"10001\",,",
        "0001000B915121551532F400000431D98C56",
    ]));
    assert_eq!(parsed.len(), 1);
    assert!(!parsed[0].is_received(), "a sent message did not arrive");
}

/// A header with no PDU after it is dropped. Keeping it would pair a real
/// index with no content, and the index is what a delete addresses.
#[test]
fn a_header_without_a_pdu_is_dropped() {
    assert!(parse_listing(&lines(&["+CMGL: 1,\"REC READ\",,,"])).is_empty());
    assert!(parse_listing(&lines(&[
        "+CMGL: 1,\"REC READ\",,,",
        "not hex",
    ]))
    .is_empty());
}

#[test]
fn several_messages_are_read_in_order() {
    let parsed = parse_listing(&lines(&[
        "+CMGL: 0,\"REC UNREAD\",,,",
        "07911234",
        "+CMGL: 1,\"REC READ\",,,",
        "07915678",
    ]));
    assert_eq!(parsed.len(), 2);
    assert_eq!(parsed[0].index, 0);
    assert_eq!(parsed[1].index, 1);
    assert_eq!(parsed[1].status, "REC READ");
}

/// An odd-length hex string is a truncated read, not a message.
#[test]
fn a_truncated_pdu_is_not_half_a_message() {
    assert!(parse_listing(&lines(&["+CMGL: 0,\"REC UNREAD\",,,", "0791123"])).is_empty());
}

/// A sign is no digit.
#[test]
fn a_pdu_is_made_of_digits() {
    assert!(parse_listing(&lines(&["+CMGL: 0,\"REC UNREAD\",,,", "07+1"])).is_empty());
    assert_eq!(
        parse_listing(&lines(&["+CMGL: 0,\"REC UNREAD\",,,", "07fF"]))[0].pdu,
        [0x07, 0xff]
    );
}
