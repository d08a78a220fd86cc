use edge_modem::dms::{self, DmsError, OperatingMode};
use edge_modem::nas::{self, NasError, NasRegistrationState};
use edge_modem::result::{QmiResult, ResultError};
use edge_modem::uim::{self, ApduResponse, UimError};
use edge_modem::wire::{
    encode_tlvs, ClientAssignment, ClientId, MessageId, QmiResponse, ServiceId, Tlv,
    TlvLookupError, TransactionId,
};
use edge_modem::wms::{
    self, ListedMessage, MessageMode, MessageTag, RawMessage, StorageType, WmsError,
};

fn tlv(kind: u8, value: &[u8]) -> Tlv {
    Tlv::new(kind, value.to_vec()).expect("tlv")
}

/// A response that reports success, with these TLVs behind the result code.
fn answer(service: ServiceId, message: u16, tlvs: &[Tlv]) -> QmiResponse {
    let mut all = vec![tlv(0x02, &[0, 0, 0, 0])];
    all.extend(tlvs.iter().map(|item| tlv(item.kind, &item.value)));
    raw_answer(service, message, &all)
}

fn raw_answer(service: ServiceId, message: u16, tlvs: &[Tlv]) -> QmiResponse {
    let payload = encode_tlvs(tlvs).expect("tlvs");
    let mut frame = vec![0x01];
    frame.extend_from_slice(&((5 + 7 + payload.len()) as u16).to_le_bytes());
    frame.extend_from_slice(&[0x80, service.as_u8(), 7, 0x02, 1, 0]);
    frame.extend_from_slice(&message.to_le_bytes());
    frame.extend_from_slice(&(payload.len() as u16).to_le_bytes());
    frame.extend_from_slice(&payload);
    QmiResponse::decode(&frame).expect("response")
}

fn assignment(service: ServiceId) -> ClientAssignment {
    ClientAssignment::new(service, ClientId::allocated(7).expect("client")).expect("assignment")
}

#[test]
fn a_result_code_is_read_and_checked() {
    let good = QmiResult::from_tlvs(&[tlv(0x02, &[0, 0, 0, 0])]).expect("result");
    assert!(good.is_success());
    assert_eq!(good.check(), Ok(()));
    let refused = QmiResult::from_tlvs(&[tlv(0x02, &[1, 0, 0x30, 0])]).expect("result");
    assert_eq!(refused.check(), Err(ResultError::ModemRejected { result: 1, error: 0x30 }));
    let odd = QmiResult::from_tlvs(&[tlv(0x02, &[0, 0, 3, 0])]).expect("result");
    assert_eq!(odd.check(), Err(ResultError::SuccessWithErrorCode { error: 3 }));
    assert_eq!(
        QmiResult::from_tlvs(&[tlv(0x02, &[0])]),
        Err(ResultError::Malformed { actual: 1 })
    );
    assert_eq!(
        QmiResult::from_tlvs(&[]),
        Err(ResultError::Lookup(TlvLookupError::Missing { kind: 0x02 }))
    );
}

#[test]
fn serial_numbers_are_texts_under_their_own_kinds() {
    let response = answer(
        ServiceId::dms(),
        dms::GET_DEVICE_SERIAL_NUMBERS,
        &[tlv(0x11, b"867018069509705"), tlv(0x12, b"A1000")],
    );
    let serials = dms::parse_serial_numbers(&response).expect("serials");
    assert_eq!(serials.imei.as_deref(), Some("867018069509705"));
    assert_eq!(serials.esn, None);
    assert_eq!(serials.meid.as_deref(), Some("A1000"));
    let broken =
        answer(ServiceId::dms(), dms::GET_DEVICE_SERIAL_NUMBERS, &[tlv(0x11, &[0xff, 0xfe])]);
    assert_eq!(
        dms::parse_serial_numbers(&broken).map(|_| ()),
        Err(DmsError::InvalidUtf8 { kind: 0x11 })
    );
}

#[test]
fn a_dms_answer_is_held_to_its_question() {
    let other = answer(ServiceId::nas(), dms::GET_MODEL_ID, &[]);
    assert_eq!(
        dms::parse_model(&other),
        Err(DmsError::UnexpectedService { actual: ServiceId::nas() })
    );
    let other = answer(ServiceId::dms(), dms::GET_MANUFACTURER, &[]);
    assert_eq!(
        dms::parse_model(&other),
        Err(DmsError::UnexpectedMessage {
            expected: MessageId::new(dms::GET_MODEL_ID),
            actual: MessageId::new(dms::GET_MANUFACTURER)
        })
    );
    let named = answer(ServiceId::dms(), dms::GET_MODEL_ID, &[tlv(0x01, b"EC20F")]);
    assert_eq!(dms::parse_model(&named), Ok("EC20F".to_string()));
    let empty = answer(ServiceId::dms(), dms::GET_MODEL_ID, &[]);
    assert_eq!(
        dms::parse_model(&empty),
        Err(DmsError::Lookup(TlvLookupError::Missing { kind: 0x01 }))
    );
    let refused =
        raw_answer(ServiceId::dms(), dms::GET_MODEL_ID, &[tlv(0x02, &[1, 0, 25, 0])]);
    assert_eq!(
        dms::parse_model(&refused),
        Err(DmsError::Result(ResultError::ModemRejected { result: 1, error: 25 }))
    );
}

#[test]
fn an_operating_mode_is_one_byte() {
    let response = answer(ServiceId::dms(), dms::GET_OPERATING_MODE, &[tlv(0x01, &[0x00])]);
    assert_eq!(dms::parse_operating_mode(&response), Ok(OperatingMode::Online));
    let response = answer(ServiceId::dms(), dms::GET_OPERATING_MODE, &[tlv(0x01, &[0x42])]);
    assert_eq!(dms::parse_operating_mode(&response), Ok(OperatingMode::Unknown(0x42)));
    let response = answer(ServiceId::dms(), dms::GET_OPERATING_MODE, &[tlv(0x01, &[0, 0])]);
    assert_eq!(
        dms::parse_operating_mode(&response),
        Err(DmsError::MalformedOperatingMode { actual: 2 })
    );
    let request = dms::set_operating_mode_request(
        assignment(ServiceId::dms()),
        TransactionId::new(1),
        OperatingMode::LowPower,
    )
    .expect("request");
    assert_eq!(request.payload(), [0x01, 0x01, 0x00, 0x01]);
    for value in 0..=255u8 {
        assert_eq!(OperatingMode::from_wire(value).as_u8(), value);
    }
}

#[test]
fn a_serving_system_is_read_with_its_network() {
    let response = answer(
        ServiceId::nas(),
        nas::GET_SERVING_SYSTEM,
        &[tlv(0x01, &[1, 1, 1, 2, 1, 8]), tlv(0x12, &[0xcc, 0x01, 0x01, 0x00, 0x00])],
    );
    let serving = nas::parse_serving_system(&response).expect("serving");
    assert_eq!(serving.registration_state, NasRegistrationState::Registered);
    assert!(serving.registration_state.is_registered());
    assert!(serving.ps_attached);
    assert_eq!(serving.radio_interface, Some(8));
    assert_eq!(serving.mcc, Some(460));
    assert_eq!(serving.mnc, Some(1));
    let short = answer(ServiceId::nas(), nas::GET_SERVING_SYSTEM, &[tlv(0x01, &[1, 1])]);
    assert!(matches!(
        nas::parse_serving_system(&short),
        Err(NasError::TruncatedServingSystem { actual: 2 })
    ));
}

#[test]
fn no_cell_is_not_a_cell() {
    let response = answer(ServiceId::nas(), nas::GET_CELL_LOCATION_INFO, &[]);
    assert_eq!(nas::parse_cell_location(&response).map(|_| ()), Err(NasError::NoCellLocation));
}

#[test]
fn listed_messages_keep_the_store_they_were_listed_in() {
    let mut value = vec![2, 0, 0, 0];
    value.extend_from_slice(&[5, 0, 0, 0, 0]);
    value.extend_from_slice(&[9, 0, 0, 0, 2]);
    let response = answer(ServiceId::wms(), wms::LIST_MESSAGES, &[tlv(0x01, &value)]);
    let listed = wms::parse_list_messages(&response, StorageType::Nv).expect("listed");
    assert_eq!(
        listed,
        vec![
            ListedMessage { index: 5, tag: MessageTag::MtRead, storage: StorageType::Nv },
            ListedMessage { index: 9, tag: MessageTag::MoSent, storage: StorageType::Nv },
        ]
    );
    assert_eq!(wms::retain_mobile_terminated(&listed), vec![listed[0]]);
    let short = answer(ServiceId::wms(), wms::LIST_MESSAGES, &[tlv(0x01, &value[..10])]);
    assert!(matches!(
        wms::parse_list_messages(&short, StorageType::Nv),
        Err(WmsError::TruncatedList { .. })
    ));
}

#[test]
fn a_raw_message_is_read_whole() {
    let response = answer(
        ServiceId::wms(),
        wms::RAW_READ,
        &[tlv(0x01, &[0x01, 0x06, 0x03, 0x00, 0xaa, 0xbb, 0xcc])],
    );
    assert_eq!(
        wms::parse_raw_read(&response),
        Ok(RawMessage {
            tag: Some(MessageTag::MtUnread),
            format: 0x06,
            pdu: vec![0xaa, 0xbb, 0xcc]
        })
    );
    let untagged =
        answer(ServiceId::wms(), wms::RAW_READ, &[tlv(0x01, &[0x06, 0x02, 0x00, 0xaa, 0xbb])]);
    assert_eq!(
        wms::parse_raw_read(&untagged),
        Ok(RawMessage { tag: None, format: 0x06, pdu: vec![0xaa, 0xbb] })
    );
    let short = answer(ServiceId::wms(), wms::RAW_READ, &[tlv(0x01, &[0x01, 0x06])]);
    assert_eq!(
        wms::parse_raw_read(&short),
        Err(WmsError::TruncatedRawMessage { actual: 2 })
    );
}

#[test]
fn a_raw_send_carries_its_format_and_length() {
    let request = wms::raw_send_request(
        assignment(ServiceId::wms()),
        TransactionId::new(1),
        0x06,
        &[0x00, 0x21, 0x01],
    )
    .expect("request");
    assert_eq!(request.payload(), [0x01, 0x06, 0x00, 0x06, 0x03, 0x00, 0x00, 0x21, 0x01]);
    let response = answer(ServiceId::wms(), wms::RAW_SEND, &[tlv(0x01, &[0x34, 0x12])]);
    assert_eq!(wms::parse_raw_send(&response), Ok(Some(0x1234)));
    let response = answer(ServiceId::wms(), wms::RAW_SEND, &[]);
    assert_eq!(wms::parse_raw_send(&response), Ok(None));
    let delete = wms::delete_by_index_request(
        assignment(ServiceId::wms()),
        TransactionId::new(1),
        StorageType::Uim,
        7,
        MessageMode::Gw,
    )
    .expect("request");
    assert_eq!(delete.message_id(), MessageId::new(wms::DELETE));
}

#[test]
fn an_apdu_answer_ends_in_its_status_words() {
    let response = answer(
        ServiceId::uim(),
        uim::SEND_APDU,
        &[tlv(0x10, &[0x04, 0x00, 0xde, 0xad, 0x61, 0x10])],
    );
    let apdu = uim::parse_send_apdu(&response).expect("apdu");
    assert_eq!(apdu, ApduResponse { data: vec![0xde, 0xad], sw1: 0x61, sw2: 0x10 });
    assert!(!apdu.is_success());
    assert!(apdu.needs_get_response());
    assert_eq!(apdu.get_response_apdu(), Some([0x00, 0xc0, 0x00, 0x00, 0x10]));
}

#[test]
fn an_iccid_is_swapped_digits_without_padding() {
    assert_eq!(
        uim::decode_iccid(&[0x98, 0x58, 0x02, 0x00, 0x41, 0x36, 0x12, 0x97, 0x75, 0xf1]),
        Ok("8985200014632179571".to_string())
    );
    assert_eq!(uim::decode_iccid(&[0xff, 0xff]), Err(UimError::EmptyIccid));
    let response =
        answer(ServiceId::uim(), uim::READ_TRANSPARENT, &[tlv(0x11, &[0x02, 0x00, 0x98, 0x58])]);
    assert_eq!(uim::parse_read_transparent(&response), Ok(vec![0x98, 0x58]));
    let short =
        answer(ServiceId::uim(), uim::READ_TRANSPARENT, &[tlv(0x11, &[0x05, 0x00, 0x98])]);
    assert!(matches!(
        uim::parse_read_transparent(&short),
        Err(UimError::TruncatedReadResult { .. })
    ));
}

#[test]
fn an_eid_wants_its_tag_and_its_length() {
    let good = ApduResponse {
        data: [&[0x5a, 0x10][..], &[0x89; 16][..]].concat(),
        sw1: 0x90,
        sw2: 0x00,
    };
    assert_eq!(uim::parse_eid(&good), Ok("89".repeat(16)));
    let refused = ApduResponse { data: Vec::new(), sw1: 0x6a, sw2: 0x82 };
    assert_eq!(uim::parse_eid(&refused), Err(UimError::ApduFailed { sw1: 0x6a, sw2: 0x82 }));
}
