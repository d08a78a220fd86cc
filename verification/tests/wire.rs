use edge_modem::wire::{
    decode_tlvs, encode_tlvs, unique_tlv, validate_transaction, AllocationError,
    ClientAllocationRequest, ClientAssignment, ClientId, ClientRegistry, ClientRegistryError,
    CorrelationError, MessageId, PendingTransactions, QmiRequest, QmiResponse, ServiceId, Tlv,
    TlvLookupError, TransactionId, TransactionKey, WireError,
};

fn tlv(kind: u8, value: &[u8]) -> Tlv {
    Tlv::new(kind, value.to_vec()).expect("tlv")
}

/// A service response frame: QMUX header, then the SDU.
fn service_frame(service: u8, client: u8, transaction: u16, message: u16, payload: &[u8]) -> Vec<u8> {
    let length = 5 + 7 + payload.len();
    let mut frame = vec![0x01];
    frame.extend_from_slice(&(length as u16).to_le_bytes());
    frame.extend_from_slice(&[0x80, service, client, 0x02]);
    frame.extend_from_slice(&transaction.to_le_bytes());
    frame.extend_from_slice(&message.to_le_bytes());
    frame.extend_from_slice(&(payload.len() as u16).to_le_bytes());
    frame.extend_from_slice(payload);
    frame
}

fn control_frame(transaction: u8, message: u16, payload: &[u8]) -> Vec<u8> {
    let length = 5 + 6 + payload.len();
    let mut frame = vec![0x01];
    frame.extend_from_slice(&(length as u16).to_le_bytes());
    frame.extend_from_slice(&[0x80, 0x00, 0x00, 0x01, transaction]);
    frame.extend_from_slice(&message.to_le_bytes());
    frame.extend_from_slice(&(payload.len() as u16).to_le_bytes());
    frame.extend_from_slice(payload);
    frame
}

fn client(value: u8) -> ClientId {
    ClientId::allocated(value).expect("client")
}

#[test]
fn tlvs_are_kind_length_value() {
    let encoded = encode_tlvs(&[tlv(0x01, &[0x02]), tlv(0x10, b"abc")]).expect("encode");
    assert_eq!(encoded, [0x01, 0x01, 0x00, 0x02, 0x10, 0x03, 0x00, b'a', b'b', b'c']);
    let decoded = decode_tlvs(&encoded).expect("decode");
    assert_eq!(decoded, vec![tlv(0x01, &[0x02]), tlv(0x10, b"abc")]);
    assert_eq!(encode_tlvs(&decoded).expect("encode"), encoded);
}

#[test]
fn a_truncated_tlv_is_refused() {
    assert_eq!(decode_tlvs(&[0x01, 0x01]), Err(WireError::TruncatedTlvHeader { actual: 2 }));
    assert_eq!(
        decode_tlvs(&[0x01, 0x04, 0x00, 0xaa]),
        Err(WireError::TruncatedTlvValue { kind: 0x01, declared: 4, actual: 1 })
    );
    assert_eq!(decode_tlvs(&[]), Ok(Vec::new()));
}

#[test]
fn a_tlv_value_past_the_wire_limit_is_refused() {
    assert_eq!(
        Tlv::new(0x07, vec![0; 65_536]),
        Err(WireError::TlvValueTooLarge { kind: 0x07, actual: 65_536 })
    );
    assert!(Tlv::new(0x07, vec![0; 65_535]).is_ok());
}

#[test]
fn a_tlv_is_looked_up_by_its_kind_once() {
    let tlvs = vec![tlv(0x01, &[1]), tlv(0x02, &[2]), tlv(0x02, &[3])];
    assert_eq!(unique_tlv(&tlvs, 0x01).expect("one").value, [1]);
    assert_eq!(unique_tlv(&tlvs, 0x02), Err(TlvLookupError::Duplicate { kind: 0x02 }));
    assert_eq!(unique_tlv(&tlvs, 0x03), Err(TlvLookupError::Missing { kind: 0x03 }));
}

#[test]
fn a_service_request_is_framed() {
    let request = QmiRequest::from_tlvs(
        ServiceId::dms(),
        client(3),
        TransactionId::new(0x0102),
        MessageId::new(0x0025),
        &[],
    )
    .expect("request");
    assert_eq!(
        request.encode(),
        [0x01, 0x0c, 0x00, 0x00, 0x02, 0x03, 0x00, 0x02, 0x01, 0x25, 0x00, 0x00, 0x00]
    );
}

#[test]
fn a_control_request_numbers_its_transaction_in_one_byte() {
    let request = QmiRequest::from_tlvs(
        ServiceId::control(),
        ClientId::control(),
        TransactionId::new(1),
        MessageId::new(0x0027),
        &[],
    )
    .expect("request");
    assert_eq!(
        request.encode(),
        [0x01, 0x0b, 0x00, 0x00, 0x00, 0x00, 0x00, 0x01, 0x27, 0x00, 0x00, 0x00]
    );
    assert_eq!(
        validate_transaction(ServiceId::control(), TransactionId::new(256)),
        Err(WireError::ControlTransactionOutOfRange { transaction: TransactionId::new(256) })
    );
    assert_eq!(validate_transaction(ServiceId::dms(), TransactionId::new(256)), Ok(()));
}

#[test]
fn an_address_has_to_fit_its_service() {
    assert_eq!(ClientId::allocated(0), Err(WireError::ZeroClientId));
    assert_eq!(
        QmiRequest::from_tlvs(
            ServiceId::control(),
            client(4),
            TransactionId::new(1),
            MessageId::new(1),
            &[],
        )
        .map(|_| ()),
        Err(WireError::ControlServiceRequiresControlClient { actual: client(4) })
    );
    assert_eq!(
        QmiRequest::from_tlvs(
            ServiceId::nas(),
            ClientId::control(),
            TransactionId::new(1),
            MessageId::new(1),
            &[],
        )
        .map(|_| ()),
        Err(WireError::ServiceRequiresAllocatedClient { service: ServiceId::nas() })
    );
    assert_eq!(
        ClientAssignment::new(ServiceId::control(), ClientId::control()),
        Err(WireError::ControlServiceCannotHaveAssignment)
    );
}

#[test]
fn a_payload_past_the_frame_is_refused() {
    let refused = QmiRequest::new(
        ServiceId::wms(),
        client(1),
        TransactionId::new(1),
        MessageId::new(0x20),
        vec![0; 65_535],
    )
    .map(|_| ());
    match refused {
        Err(WireError::PayloadTooLarge { service, actual, maximum }) => {
            assert_eq!(service, ServiceId::wms());
            assert_eq!(actual, 65_535);
            assert!(maximum < 65_535);
            assert!(QmiRequest::new(
                ServiceId::wms(),
                client(1),
                TransactionId::new(1),
                MessageId::new(0x20),
                vec![0; maximum],
            )
            .is_ok());
        }
        other => panic!("expected PayloadTooLarge, got {other:?}"),
    }
}

#[test]
fn a_response_is_read_back_field_by_field() {
    let payload = encode_tlvs(&[tlv(0x02, &[0, 0, 0, 0])]).expect("tlvs");
    let frame = service_frame(0x03, 9, 0x1234, 0x0024, &payload);
    let response = QmiResponse::decode(&frame).expect("response");
    assert_eq!(response.service(), ServiceId::nas());
    assert_eq!(response.client_id(), client(9));
    assert_eq!(response.transaction(), TransactionId::new(0x1234));
    assert_eq!(response.message_id(), MessageId::new(0x0024));
    assert_eq!(response.payload(), payload.as_slice());
    assert_eq!(response.tlvs().expect("tlvs"), vec![tlv(0x02, &[0, 0, 0, 0])]);
}

#[test]
fn a_frame_that_is_no_response_is_refused() {
    let good = service_frame(0x03, 9, 1, 0x24, &[]);
    assert_eq!(
        QmiResponse::decode(&good[..4]).map(|_| ()),
        Err(WireError::FrameTooShort { actual: 4, minimum: 6 })
    );
    let mut frame = good.clone();
    frame[0] = 0x02;
    assert_eq!(
        QmiResponse::decode(&frame).map(|_| ()),
        Err(WireError::InvalidInterfaceType { actual: 0x02 })
    );
    let mut frame = good.clone();
    frame.push(0);
    assert_eq!(
        QmiResponse::decode(&frame).map(|_| ()),
        Err(WireError::QmuxLengthMismatch { declared: good.len(), actual: good.len() + 1 })
    );
    let mut frame = good.clone();
    frame[3] = 0x00;
    assert_eq!(
        QmiResponse::decode(&frame).map(|_| ()),
        Err(WireError::UnexpectedQmuxControlFlag { actual: 0x00, expected: 0x80 })
    );
    let mut frame = good.clone();
    frame[6] = 0x04;
    assert_eq!(
        QmiResponse::decode(&frame).map(|_| ()),
        Err(WireError::UnexpectedMessageKind {
            service: ServiceId::nas(),
            actual: 0x04,
            expected: 0x02
        })
    );
    let mut frame = good.clone();
    frame[11] = 0x01;
    assert_eq!(
        QmiResponse::decode(&frame).map(|_| ()),
        Err(WireError::PayloadLengthMismatch { declared: 1, actual: 0 })
    );
}

#[test]
fn wire_errors_say_what_is_wrong() {
    assert_eq!(
        WireError::FrameTooShort { actual: 4, minimum: 6 }.to_string(),
        "QMUX frame is 4 bytes, need at least 6"
    );
    assert_eq!(
        WireError::InvalidInterfaceType { actual: 0x2 }.to_string(),
        "invalid QMUX interface type 0x02"
    );
    assert_eq!(
        WireError::TruncatedTlvValue { kind: 0x1f, declared: 4, actual: 1 }.to_string(),
        "TLV 0x1f declares 4 bytes, only 1 remain"
    );
    assert_eq!(
        WireError::EncodedPayloadTooLarge.to_string(),
        "encoded QMI payload exceeds addressable memory"
    );
}

#[test]
fn a_pending_request_is_resolved_once() {
    let request = QmiRequest::from_tlvs(
        ServiceId::dms(),
        client(3),
        TransactionId::new(7),
        MessageId::new(0x0025),
        &[],
    )
    .expect("request");
    let mut pending = PendingTransactions::default();
    assert!(pending.is_empty());
    let key = pending.register(&request).expect("register");
    assert_eq!(pending.len(), 1);
    assert_eq!(pending.register(&request), Err(CorrelationError::DuplicateTransaction(key)));
    let response = QmiResponse::decode(&service_frame(0x02, 3, 7, 0x25, &[])).expect("response");
    let matched = pending.resolve(&response).expect("match");
    assert_eq!(matched.key, key);
    assert_eq!(matched.message_id, MessageId::new(0x0025));
    assert_eq!(pending.resolve(&response), Err(CorrelationError::UnmatchedResponse(key)));
    assert_eq!(pending.len(), 0);
}

#[test]
fn another_message_under_the_same_transaction_is_not_the_answer() {
    let request = QmiRequest::from_tlvs(
        ServiceId::dms(),
        client(3),
        TransactionId::new(7),
        MessageId::new(0x0025),
        &[],
    )
    .expect("request");
    let mut pending = PendingTransactions::default();
    let key = pending.register(&request).expect("register");
    let response = QmiResponse::decode(&service_frame(0x02, 3, 7, 0x26, &[])).expect("response");
    assert_eq!(
        pending.resolve(&response),
        Err(CorrelationError::MessageMismatch {
            key,
            expected: MessageId::new(0x25),
            actual: MessageId::new(0x26)
        })
    );
    assert_eq!(pending.discard(key), Some(MessageId::new(0x25)));
    assert_eq!(pending.discard(key), None);
    let other = TransactionKey {
        service: ServiceId::nas(),
        client_id: client(3),
        transaction: TransactionId::new(7),
    };
    assert_eq!(pending.discard(other), None);
}

fn allocation() -> ClientAllocationRequest {
    ClientAllocationRequest::new(ServiceId::wds(), TransactionId::new(5)).expect("allocation")
}

fn allocation_answer(tlvs: &[Tlv]) -> QmiResponse {
    let payload = encode_tlvs(tlvs).expect("tlvs");
    QmiResponse::decode(&control_frame(5, 0x0022, &payload)).expect("response")
}

#[test]
fn a_client_is_allocated_for_the_service_that_was_asked_for() {
    let request = allocation().to_qmi_request().expect("request");
    assert_eq!(request.payload(), [0x01, 0x01, 0x00, 0x01]);
    let response = allocation_answer(&[tlv(0x02, &[0, 0, 0, 0]), tlv(0x01, &[0x01, 0x0c])]);
    let assignment = allocation().accept(&response).expect("assignment");
    assert_eq!(assignment.service(), ServiceId::wds());
    assert_eq!(assignment.client_id(), client(0x0c));
    let release = assignment.release_request(TransactionId::new(6)).expect("release");
    assert_eq!(release.message_id(), MessageId::new(0x0023));
    assert_eq!(release.payload(), [0x01, 0x02, 0x00, 0x01, 0x0c]);
}

#[test]
fn each_bad_allocation_answer_is_named() {
    let ok = [0, 0, 0, 0];
    assert_eq!(
        ClientAllocationRequest::new(ServiceId::control(), TransactionId::new(1)).map(|_| ()),
        Err(AllocationError::ControlServiceCannotBeAllocated)
    );
    assert_eq!(
        allocation().accept(&allocation_answer(&[tlv(0x01, &[1, 2])])),
        Err(AllocationError::MissingTlv { kind: 0x02 })
    );
    assert_eq!(
        allocation().accept(&allocation_answer(&[tlv(0x02, &ok), tlv(0x02, &ok)])),
        Err(AllocationError::DuplicateTlv { kind: 0x02 })
    );
    assert_eq!(
        allocation().accept(&allocation_answer(&[tlv(0x02, &[0, 0])])),
        Err(AllocationError::MalformedResultCode { actual: 2 })
    );
    assert_eq!(
        allocation().accept(&allocation_answer(&[tlv(0x02, &[1, 0, 5, 0])])),
        Err(AllocationError::ModemRejected { result: 1, error: 5 })
    );
    assert_eq!(
        allocation().accept(&allocation_answer(&[tlv(0x02, &[0, 0, 5, 0])])),
        Err(AllocationError::SuccessWithErrorCode { error: 5 })
    );
    assert_eq!(
        allocation().accept(&allocation_answer(&[tlv(0x02, &ok), tlv(0x01, &[1])])),
        Err(AllocationError::MalformedAllocation { actual: 1 })
    );
    assert_eq!(
        allocation().accept(&allocation_answer(&[tlv(0x02, &ok), tlv(0x01, &[3, 1])])),
        Err(AllocationError::ServiceMismatch {
            expected: ServiceId::wds(),
            actual: ServiceId::nas()
        })
    );
    assert_eq!(
        allocation().accept(&allocation_answer(&[tlv(0x02, &ok), tlv(0x01, &[1, 0])])),
        Err(AllocationError::Wire(WireError::ZeroClientId))
    );
    let other = QmiResponse::decode(&control_frame(6, 0x0022, &[])).expect("response");
    assert_eq!(
        allocation().accept(&other),
        Err(AllocationError::UnexpectedResponse {
            expected_transaction: TransactionId::new(5),
            actual_service: ServiceId::control(),
            actual_client: ClientId::control(),
            actual_transaction: TransactionId::new(6),
            actual_message: MessageId::new(0x22)
        })
    );
}

#[test]
fn a_registry_holds_one_client_per_service() {
    let mut registry = ClientRegistry::default();
    let assignment = ClientAssignment::new(ServiceId::uim(), client(2)).expect("assignment");
    assert_eq!(registry.client_for(ServiceId::uim()), None);
    assert_eq!(registry.install(assignment), Ok(()));
    assert_eq!(
        registry.install(assignment),
        Err(ClientRegistryError::AlreadyAssigned { service: ServiceId::uim() })
    );
    assert_eq!(registry.client_for(ServiceId::uim()), Some(client(2)));
    assert_eq!(registry.len(), 1);
    assert_eq!(registry.release(ServiceId::uim()), Some(assignment));
    assert_eq!(registry.release(ServiceId::uim()), None);
    assert!(registry.is_empty());
}
