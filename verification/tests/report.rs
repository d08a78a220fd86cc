use edge_modem::report::{
    ModemReport, Registration, apply, parse_bare_digits, parse_cnum, parse_cops, parse_cops_scan,
    parse_creg, parse_csca, parse_csq, parse_iccid,
};

fn lines(values: &[&str]) -> Vec<String> {
    values.iter().map(|value| value.to_string()).collect()
}

#[test]
fn csq_converts_to_dbm() {
    let signal = parse_csq(&lines(&["+CSQ: 24,99"])).expect("signal");
    assert_eq!(signal.rssi_index, 24);
    assert_eq!(signal.dbm, Some(-65));
}

/// 99 is the "I do not know" marker. Treating it as an index would report
/// the best possible signal for a module that has none.
#[test]
fn csq_unknown_index_has_no_dbm() {
    let signal = parse_csq(&lines(&["+CSQ: 99,99"])).expect("signal");
    assert_eq!(signal.rssi_index, 99);
    assert_eq!(signal.dbm, None);
}

#[test]
fn creg_reads_state_not_urc_mode() {
    // The leading 0 is the URC setting; 5 is the registration state.
    assert_eq!(
        parse_creg(&lines(&["+CREG: 0,5"]), "+CREG:"),
        Some(Registration::Roaming)
    );
    assert_eq!(
        parse_creg(&lines(&["+CEREG: 2,1,\"1A2B\",\"01234567\",7"]), "+CEREG:"),
        Some(Registration::Home)
    );
}

#[test]
fn roaming_and_home_are_attached_but_searching_is_not() {
    assert!(Registration::Roaming.attached());
    assert!(Registration::Home.attached());
    assert!(!Registration::Searching.attached());
    assert!(!Registration::Denied.attached());
}

#[test]
fn cops_reads_operator_and_technology() {
    let parsed = parse_cops(&lines(&["+COPS: 0,0,\"CHN-UNICOM\",7"])).expect("cops");
    assert_eq!(parsed.0, "CHN-UNICOM");
    assert_eq!(parsed.1, Some("LTE"));
}

/// A module that is still searching answers `+COPS: 0` with no operator.
#[test]
fn cops_without_an_operator_is_none() {
    assert_eq!(parse_cops(&lines(&["+COPS: 0"])), None);
}

#[test]
fn cnum_reads_the_number_field() {
    assert_eq!(
        parse_cnum(&lines(&["+CNUM: \"\",\"+8613800138000\",145"])),
        Some("+8613800138000".to_string())
    );
}

/// A SIM with no MSISDN written answers with an empty number rather than
/// refusing, and an empty string is not a phone number.
#[test]
fn cnum_with_an_empty_number_is_none() {
    assert_eq!(parse_cnum(&lines(&["+CNUM: \"\",\"\",145"])), None);
}

#[test]
fn csca_reads_the_centre_address() {
    assert_eq!(
        parse_csca(&lines(&["+CSCA: \"+85290240715\",145"])),
        Some("+85290240715".to_string())
    );
}

#[test]
fn qccid_strips_the_prefix() {
    assert_eq!(
        parse_iccid(&lines(&["+QCCID: 89852351225042214201"])),
        Some("89852351225042214201".to_string())
    );
}

/// The AT and QMI paths must agree on one card's number. A 19-digit ICCID
/// is padded to 20 with `F` on the card.
#[test]
fn qccid_drops_the_padding_nibble() {
    assert_eq!(
        parse_iccid(&lines(&["+QCCID: 8985200014632179571F"])),
        Some("8985200014632179571".to_string())
    );
}

#[test]
fn qccid_rejects_a_non_numeric_value() {
    assert_eq!(parse_iccid(&lines(&["+QCCID: FFFF"])), None);
}

#[test]
fn cimi_takes_the_digit_line() {
    assert_eq!(
        parse_bare_digits(&lines(&["454006395021420"])),
        Some("454006395021420".to_string())
    );
}

#[test]
fn apply_fills_the_matching_field_only() {
    let mut report = ModemReport::default();
    apply(&mut report, "AT+CSQ", &lines(&["+CSQ: 20,99"]));
    assert_eq!(report.signal.map(|s| s.dbm), Some(Some(-73)));
    assert_eq!(report.operator, None);
    assert!(report.refused.is_empty());
}

#[test]
fn scan_reads_each_network() {
    let found = parse_cops_scan(&lines(&[
        "+COPS: (2,\"CHN-UNICOM\",\"UNICOM\",\"46001\",7),(1,\"CHINA MOBILE\",\"CMCC\",\"46000\",0),,(0-4),(0-2)",
    ]));
    assert_eq!(found.len(), 2);
    assert_eq!(found[0].numeric, "46001");
    assert_eq!(found[0].status_label(), "current");
    assert_eq!(found[0].access_technology, Some("LTE"));
    assert_eq!(found[1].long_name, "CHINA MOBILE");
    assert_eq!(found[1].access_technology, Some("GSM"));
}

/// The trailing `(0-4),(0-2)` groups are supported modes, not networks.
#[test]
fn scan_ignores_the_capability_groups() {
    let found = parse_cops_scan(&lines(&[
        "+COPS: (1,\"A\",\"A\",\"46001\",7),,(0-4),(0-2)",
    ]));
    assert_eq!(found.len(), 1);
    assert_eq!(found[0].numeric, "46001");
}

/// A comma inside an operator name must not split the entry.
#[test]
fn scan_keeps_a_quoted_comma_together() {
    let found = parse_cops_scan(&lines(&[
        "+COPS: (1,\"Telecom, Ltd\",\"TL\",\"46011\",7)",
    ]));
    assert_eq!(found.len(), 1);
    assert_eq!(found[0].long_name, "Telecom, Ltd");
}

#[test]
fn scan_of_an_empty_response_is_empty() {
    assert!(parse_cops_scan(&lines(&["+COPS: "])).is_empty());
}
