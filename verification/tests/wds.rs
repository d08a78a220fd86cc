use edge_modem::wds::{
    AuthPreference, CALL_END_REASON, GET_CURRENT_SETTINGS, IPV4_ADDRESS, IPV4_GATEWAY, Ipv4Settings,
    PACKET_DATA_HANDLE, PacketDataHandle, REQ_AUTH_PREFERENCE, REQ_PASSWORD, REQ_USERNAME,
    START_NETWORK_INTERFACE, WdsError, parse_call_end_reason, parse_current_settings, parse_start,
    start_request,
};
use edge_modem::wire::{
    ClientAssignment, ClientId, QmiResponse, ServiceId, Tlv, TransactionId, encode_tlvs,
};


const CLIENT: u8 = 7;

fn assignment() -> ClientAssignment {
    ClientAssignment::new(ServiceId::wds(), ClientId::allocated(CLIENT).expect("client"))
        .expect("assignment")
}

fn transaction() -> TransactionId {
    TransactionId::new(1)
}

/// A QMUX response frame, built the way the wire tests build one, so the
/// parsers are read against bytes rather than against a struct this file
/// also constructed.
fn response_for(service: u8, message_id: u16, tlvs: &[Tlv]) -> QmiResponse {
    let mut all = vec![Tlv::new(0x02, vec![0, 0, 0, 0]).expect("result ok")];
    all.extend_from_slice(tlvs);
    let payload = encode_tlvs(&all).expect("tlvs");
    let qmux_length = 5 + 7 + payload.len();
    let mut frame = Vec::with_capacity(qmux_length + 1);
    frame.push(0x01);
    frame.extend_from_slice(&(qmux_length as u16).to_le_bytes());
    frame.push(0x80);
    frame.push(service);
    frame.push(CLIENT);
    frame.push(0x02);
    frame.extend_from_slice(&1u16.to_le_bytes());
    frame.extend_from_slice(&message_id.to_le_bytes());
    frame.extend_from_slice(&(payload.len() as u16).to_le_bytes());
    frame.extend_from_slice(&payload);
    QmiResponse::decode(&frame).expect("decode")
}

fn response(message_id: u16, tlvs: &[Tlv]) -> QmiResponse {
    response_for(ServiceId::wds().as_u8(), message_id, tlvs)
}

/// A credential that was never given must not be sent as an empty one.
/// Some firmware reads an empty username TLV as "authenticate with
/// nothing" rather than as "no username", which fails a session that would
/// have come up unauthenticated.
#[test]
fn absent_credentials_are_absent_rather_than_empty() {
    let request =
        start_request(assignment(), transaction(), "cmnet", None, None, AuthPreference::Unauthenticated)
            .expect("request");
    let payload = request.payload();
    assert!(!payload.contains(&REQ_USERNAME), "an empty username was sent");
    assert!(!payload.contains(&REQ_PASSWORD), "an empty password was sent");
    assert!(
        !payload.contains(&REQ_AUTH_PREFERENCE),
        "an auth preference was sent for a session that asked for none"
    );
}

#[test]
fn a_named_credential_travels_with_its_method() {
    let request = start_request(
        assignment(),
        transaction(),
        "cmnet",
        Some("user"),
        Some("pass"),
        AuthPreference::Chap,
    )
    .expect("request");
    let payload = request.payload();
    assert!(payload.windows(4).any(|window| window == b"user"));
    assert!(payload.windows(4).any(|window| window == b"pass"));
    assert!(payload.contains(&AuthPreference::Chap.bits()));
}

/// The empty-string case is the same as the absent one. A form that
/// submits a blank box must not turn into an empty credential on the wire.
#[test]
fn an_empty_string_credential_is_treated_as_absent() {
    let request = start_request(
        assignment(),
        transaction(),
        "cmnet",
        Some(""),
        Some(""),
        AuthPreference::Unauthenticated,
    )
    .expect("request");
    assert!(!request.payload().contains(&REQ_USERNAME));
}

#[test]
fn a_started_session_yields_its_handle() {
    let handle = Tlv::new(PACKET_DATA_HANDLE, 0x1234_5678u32.to_le_bytes().to_vec())
        .expect("tlv");
    let parsed = parse_start(&response(START_NETWORK_INTERFACE, &[handle])).expect("handle");
    assert_eq!(parsed, PacketDataHandle::new(0x1234_5678));
}

/// A session can come up with an address and no DNS. Reading that as a
/// failure would refuse a link that works, so every field is optional and
/// the caller decides which absence it can live with.
#[test]
fn settings_are_read_field_by_field_and_absence_is_not_failure() {
    let address = Tlv::new(IPV4_ADDRESS, 0x0a00_0002u32.to_le_bytes().to_vec()).expect("tlv");
    let gateway = Tlv::new(IPV4_GATEWAY, 0x0a00_0001u32.to_le_bytes().to_vec()).expect("tlv");
    let parsed = parse_current_settings(&response(GET_CURRENT_SETTINGS, &[address, gateway]))
        .expect("settings");
    assert_eq!(parsed.address, Some(0x0a00_0002));
    assert_eq!(parsed.gateway, Some(0x0a00_0001));
    assert_eq!(parsed.dns_primary, None, "absent DNS is absent, not an error");
    assert_eq!(parsed.mtu, None);
}

#[test]
fn a_netmask_becomes_a_prefix_length() {
    let settings = Ipv4Settings {
        netmask: Some(0xffff_ff00),
        ..Ipv4Settings::default()
    };
    assert_eq!(settings.prefix_length(), Some(24));
    let all = Ipv4Settings {
        netmask: Some(0xffff_ffff),
        ..Ipv4Settings::default()
    };
    assert_eq!(all.prefix_length(), Some(32));
}

/// A mask with a hole in it is not a netmask. Turning it into a prefix
/// length would invent one and put a wrong route on the interface, so it
/// reads as absent and the caller falls back to something it chose.
#[test]
fn a_discontiguous_mask_has_no_prefix_length() {
    let settings = Ipv4Settings {
        netmask: Some(0xff00_ff00),
        ..Ipv4Settings::default()
    };
    assert_eq!(settings.prefix_length(), None);
}

#[test]
fn a_truncated_handle_is_reported_rather_than_read_short() {
    let handle = Tlv::new(PACKET_DATA_HANDLE, vec![1, 2]).expect("tlv");
    assert!(matches!(
        parse_start(&response(START_NETWORK_INTERFACE, &[handle])),
        Err(WdsError::Truncated { .. })
    ));
}

/// The refusal reason is what an operator acts on: the result code says
/// "call failed" and this says which of forty reasons it was.
#[test]
fn a_call_end_reason_is_read_when_the_modem_gives_one() {
    let reason = Tlv::new(CALL_END_REASON, 29u16.to_le_bytes().to_vec()).expect("tlv");
    assert_eq!(
        parse_call_end_reason(&response(START_NETWORK_INTERFACE, &[reason])),
        Some(29)
    );
    assert_eq!(
        parse_call_end_reason(&response(START_NETWORK_INTERFACE, &[])),
        None
    );
}

/// A response from another service must not be read as ours: the TLV
/// numbers overlap between QMI services, so a NAS frame parsed here would
/// produce plausible nonsense rather than an error.
#[test]
fn a_response_from_another_service_is_refused() {
    let foreign = response_for(ServiceId::nas().as_u8(), START_NETWORK_INTERFACE, &[]);
    assert!(matches!(
        parse_start(&foreign),
        Err(WdsError::UnexpectedService { .. })
    ));
}
