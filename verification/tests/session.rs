use std::cell::RefCell;
use std::rc::Rc;

use edge_modem::dms::OperatingMode;
use edge_modem::probe::{is_control_node, probe, verdict};
use edge_modem::session::{LinkModel, QmiClient, QmiTransport, SessionError, SyncRequest};
use edge_modem::uim::ApduResponse;
use edge_modem::wire::{
    encode_tlvs, AllocationError, ClientId, CorrelationError, MessageId, QmiResponse, ServiceId, Tlv,
    TlvLookupError, TransactionId, WireError,
};
use edge_modem::wms::{MessageMode, MessageTag, StorageType};
use edge_modem::{ModemPort, PortError, TransportKind};

/// What a module was asked: service, message, payload.
type Asked = Rc<RefCell<Vec<(u8, u16, Vec<u8>)>>>;

/// A module in memory. It allocates clients and synchronises by itself, and
/// answers everything else by `reply`.
struct Module<F> {
    asked: Asked,
    reply: F,
}

fn tlv(kind: u8, value: &[u8]) -> Tlv {
    Tlv::new(kind, value.to_vec()).expect("tlv")
}

/// A response frame to a request, carrying these TLVs.
fn respond(request: &[u8], tlvs: &[Tlv]) -> Vec<u8> {
    let payload = encode_tlvs(tlvs).expect("tlvs");
    let service = request[4];
    let control = service == 0;
    let header = if control { 6 } else { 7 };
    let mut frame = vec![0x01];
    frame.extend_from_slice(&((5 + header + payload.len()) as u16).to_le_bytes());
    frame.extend_from_slice(&[0x80, service, request[5]]);
    if control {
        frame.extend_from_slice(&[0x01, request[7], request[8], request[9]]);
    } else {
        frame.extend_from_slice(&[0x02, request[7], request[8], request[9], request[10]]);
    }
    frame.extend_from_slice(&(payload.len() as u16).to_le_bytes());
    frame.extend_from_slice(&payload);
    frame
}

fn success() -> Tlv {
    tlv(0x02, &[0, 0, 0, 0])
}

impl<F: FnMut(u8, u16, &[u8]) -> Result<Vec<Tlv>, SessionError>> QmiTransport for Module<F> {
    /// Contracts speak of it; nothing calls it.
    fn link(&self) -> LinkModel {
        unreachable!()
    }

    fn transact(&mut self, request: &[u8]) -> Result<Vec<u8>, SessionError> {
        let service = request[4];
        let (message, payload) = if service == 0 {
            (u16::from_le_bytes([request[8], request[9]]), &request[12..])
        } else {
            (u16::from_le_bytes([request[9], request[10]]), &request[13..])
        };
        self.asked.borrow_mut().push((service, message, payload.to_vec()));
        match (service, message) {
            (0, 0x27) => Ok(respond(request, &[success()])),
            (0, 0x22) => {
                let wanted = payload[3];
                Ok(respond(request, &[success(), tlv(0x01, &[wanted, wanted + 0x10])]))
            }
            _ => Ok(respond(request, &(self.reply)(service, message, payload)?)),
        }
    }
}

fn module<F: FnMut(u8, u16, &[u8]) -> Result<Vec<Tlv>, SessionError>>(
    reply: F,
) -> (QmiClient<Module<F>>, Asked) {
    let asked: Asked = Rc::default();
    (QmiClient::new(Module { asked: Rc::clone(&asked), reply }), asked)
}

#[test]
fn a_client_is_allocated_once_per_service() {
    let (mut client, asked) = module(|_, message, _| {
        Ok(vec![success(), tlv(0x01, if message == 0x22 { b"EC20" } else { b"Quectel" })])
    });
    assert_eq!(client.client_for(ServiceId::dms()), None);
    assert_eq!(client.get_model(), Ok("EC20".to_string()));
    assert_eq!(client.get_manufacturer(), Ok("Quectel".to_string()));
    assert_eq!(
        client.client_for(ServiceId::dms()),
        Some(ClientId::allocated(0x12).expect("client"))
    );
    let kinds: Vec<(u8, u16)> = asked.borrow().iter().map(|(s, m, _)| (*s, *m)).collect();
    assert_eq!(kinds, vec![(0, 0x22), (2, 0x22), (2, 0x21)]);
}

#[test]
fn a_sync_goes_out_on_the_control_service() {
    let (mut client, asked) = module(|_, _, _| Ok(vec![success()]));
    assert_eq!(client.sync(), Ok(()));
    assert_eq!(asked.borrow().as_slice(), [(0, 0x27, Vec::new())]);
    let request = SyncRequest::new(TransactionId::new(1)).expect("sync").to_qmi_request();
    assert_eq!(request.expect("request").message_id(), MessageId::new(0x27));
    assert!(SyncRequest::new(TransactionId::new(256)).is_err());
}

#[test]
fn a_sync_without_a_result_is_not_done() {
    let bare = vec![0x01, 0x0b, 0, 0x80, 0, 0, 0x01, 0x01, 0x27, 0, 0, 0];
    let mut client = QmiClient::new(Parrot(bare.clone()));
    assert!(matches!(
        client.sync(),
        Err(SessionError::Lookup(TlvLookupError::Missing { .. }))
    ));
    let answer = QmiResponse::decode(&bare).expect("answer");
    assert_eq!(SyncRequest::accept(&answer), Ok(()));
    let other = vec![0x01, 0x0f, 0, 0x80, 0, 0, 0x01, 0x01, 0x27, 0, 4, 0, 0x10, 1, 0, 0];
    let mut client = QmiClient::new(Parrot(other.clone()));
    assert!(matches!(
        client.sync(),
        Err(SessionError::Lookup(TlvLookupError::Missing { .. }))
    ));
    assert!(SyncRequest::accept(&QmiResponse::decode(&other).expect("answer")).is_err());
    let refused = vec![
        0x01, 0x12, 0, 0x80, 0, 0, 0x01, 0x01, 0x27, 0, 7, 0, 0x02, 4, 0, 1, 0, 3, 0,
    ];
    assert!(matches!(
        QmiClient::new(Parrot(refused)).sync(),
        Err(SessionError::Result(_))
    ));
}

#[test]
fn a_lost_transport_is_reported_as_it_is() {
    let (mut client, _) = module(|_, _, _| {
        Err(SessionError::Disconnected {
            device: "/dev/cdc-wdm0".into(),
            awaiting_response: true,
        })
    });
    let error = client.get_operating_mode().expect_err("gone");
    assert!(error.left_the_bus_after_the_request());
    let (mut client, _) = module(|_, _, _| Err(SessionError::transport("stalled")));
    let error = client.get_operating_mode().expect_err("stalled");
    assert_eq!(error, SessionError::Transport("stalled".into()));
    assert!(!error.left_the_bus_after_the_request());
}

/// A transport that answers every request with the same frame.
struct Parrot(Vec<u8>);

impl QmiTransport for Parrot {
    /// Contracts speak of it; nothing calls it.
    fn link(&self) -> LinkModel {
        unreachable!()
    }

    fn transact(&mut self, _request: &[u8]) -> Result<Vec<u8>, SessionError> {
        Ok(self.0.clone())
    }
}

#[test]
fn an_answer_to_another_transaction_is_refused() {
    let mut client =
        QmiClient::new(Parrot(vec![0x01, 0x0b, 0, 0x80, 0, 0, 0x01, 0x63, 0x27, 0, 0, 0]));
    assert!(matches!(
        client.sync(),
        Err(SessionError::Correlation(CorrelationError::UnmatchedResponse(_)))
    ));
    let mut client = QmiClient::new(Parrot(vec![0x01]));
    assert_eq!(
        client.sync(),
        Err(SessionError::Wire(WireError::FrameTooShort { actual: 1, minimum: 6 }))
    );
}

#[test]
fn a_refused_allocation_is_reported() {
    let mut client = QmiClient::new(Parrot(vec![
        0x01, 0x12, 0, 0x80, 0, 0, 0x01, 0x01, 0x22, 0, 7, 0, 0x02, 4, 0, 1, 0, 5, 0,
    ]));
    assert_eq!(
        client.get_model(),
        Err(SessionError::Allocation(AllocationError::ModemRejected { result: 1, error: 5 }))
    );
}

#[test]
fn an_apdu_goes_out_on_its_channel() {
    let (mut client, asked) = module(|service, message, _| {
        assert_eq!((service, message), (0x0b, 0x3b));
        Ok(vec![success(), tlv(0x10, &[0x02, 0x00, 0x90, 0x00])])
    });
    let answer = client.send_apdu(1, 2, &[0x80, 0xe2, 0x91]).expect("apdu");
    assert_eq!(answer, ApduResponse { data: Vec::new(), sw1: 0x90, sw2: 0x00 });
    let payload = asked.borrow()[1].2.clone();
    assert!(payload.windows(5).any(|window| window == [0x03, 0x00, 0x80, 0xe2, 0x91]));
}

#[test]
fn a_file_is_read_by_its_identifier_and_path() {
    let (mut client, asked) = module(|_, _, _| {
        Ok(vec![success(), tlv(0x11, &[0x04, 0x00, 0x00, 0x00, 0x00, 0x02])])
    });
    assert_eq!(client.read_ef_ad(0x6fad, &[0x3f00, 0x7fff]), Ok(vec![0, 0, 0, 2]));
    assert_eq!(client.read_imsi(0x6f07, &[0x3f00, 0x7fff]), Ok(vec![0, 0, 0, 2]));
    let payload = asked.borrow()[1].2.clone();
    let file = [0xad, 0x6f, 0x04, 0x00, 0x3f, 0xff, 0x7f];
    assert!(payload.windows(file.len()).any(|window| window == file));
    let (mut client, _) = module(|_, _, _| {
        Ok(vec![
            success(),
            tlv(0x11, &[0x0a, 0x00, 0x98, 0x58, 0x32, 0x15, 0x22, 0x05, 0x24, 0x12, 0x24, 0x10]),
        ])
    });
    assert_eq!(client.read_iccid(), Ok("89852351225042214201".to_string()));
}

/// A card behind the UIM service: one channel, and an answer per APDU.
fn card(service: u8, message: u16, payload: &[u8], answer: &[u8]) -> Result<Vec<Tlv>, SessionError> {
    assert_eq!(service, 0x0b);
    match message {
        0x42 => Ok(vec![success(), tlv(0x10, &[0x02])]),
        0x3f => Ok(vec![success()]),
        _ => {
            assert_eq!(message, 0x3b, "{payload:?}");
            let mut value = ((answer.len() + 2) as u16).to_le_bytes().to_vec();
            value.extend_from_slice(answer);
            value.extend_from_slice(&[0x90, 0x00]);
            Ok(vec![success(), tlv(0x10, &value)])
        }
    }
}

fn bytes(hex: &str) -> Vec<u8> {
    (0..hex.len())
        .step_by(2)
        .map(|i| u8::from_str_radix(&hex[i..i + 2], 16).expect("hex"))
        .collect()
}

#[test]
fn an_eid_is_read_on_a_channel_that_is_closed_again() {
    let eid = bytes("BF3E125A1089086030202200000026000178339240");
    let (mut client, asked) =
        module(move |service, message, payload| card(service, message, payload, &eid));
    assert_eq!(client.read_eid(1), Ok("89086030202200000026000178339240".to_string()));
    let kinds: Vec<(u8, u16)> = asked.borrow().iter().map(|(s, m, _)| (*s, *m)).collect();
    assert_eq!(kinds, vec![(0, 0x22), (0x0b, 0x42), (0x0b, 0x3b), (0x0b, 0x3f)]);
}

#[test]
fn a_channel_is_closed_after_a_refused_command_too() {
    let refusal = bytes("BF2B0381017F");
    let (mut client, asked) =
        module(move |service, message, payload| card(service, message, payload, &refusal));
    assert!(client.retrieve_esim_notification(1, 3).is_err());
    assert_eq!(asked.borrow().last().map(|(s, m, _)| (*s, *m)), Some((0x0b, 0x3f)));
}

#[test]
fn profiles_are_listed_through_the_card() {
    let list = bytes(
        "BF2D35A033E3315A0A985802004136129775F14F10A0000005591010FFFFFFFF89000012009F7001019104436C\
         75629204436C7562950102"
            .replace(' ', "")
            .as_str(),
    );
    let (mut client, _) =
        module(move |service, message, payload| card(service, message, payload, &list));
    let profiles = client.list_profiles(1).expect("profiles");
    assert_eq!(profiles.len(), 1);
    assert_eq!(profiles[0].iccid, "8985200014632179571");
}

#[test]
fn a_get_response_is_drained_into_one_answer() {
    let mut rounds = 0;
    let (mut client, asked) = module(move |_, message, payload| match message {
        0x42 => Ok(vec![success(), tlv(0x10, &[0x02])]),
        0x3f => Ok(vec![success()]),
        _ => {
            rounds += 1;
            let (data, status): (&[u8], [u8; 2]) = match rounds {
                1 => (&[0xaa, 0xbb], [0x61, 0x02]),
                _ => {
                    assert!(payload.windows(5).any(|w| w == [0x00, 0xc0, 0x00, 0x00, 0x02])
                        || payload.windows(4).any(|w| w == [0xc0, 0x00, 0x00, 0x02]));
                    (&[0xcc, 0xdd], [0x90, 0x00])
                }
            };
            let mut value = ((data.len() + 2) as u16).to_le_bytes().to_vec();
            value.extend_from_slice(data);
            value.extend_from_slice(&status);
            Ok(vec![success(), tlv(0x10, &value)])
        }
    });
    let mut session = client.isdr_session(1).expect("session");
    assert_eq!(session.execute(&[0xbf, 0x3e, 0x00]), Ok(vec![0xaa, 0xbb, 0xcc, 0xdd]));
    assert_eq!(session.slot(), 1);
    assert_eq!(session.channel(), 2);
    assert_eq!(session.close(), Ok(()));
    assert_eq!(asked.borrow().last().map(|(s, m, _)| (*s, *m)), Some((0x0b, 0x3f)));
}

fn listing(entries: &[(u32, u8)]) -> Tlv {
    let mut value = (entries.len() as u32).to_le_bytes().to_vec();
    for (index, tag) in entries {
        value.extend_from_slice(&index.to_le_bytes());
        value.push(*tag);
    }
    tlv(0x01, &value)
}

#[test]
fn a_qmi_client_is_a_modem_port() {
    let (mut client, _) = module(|service, message, _| match (service, message) {
        (0x02, 0x25) => Ok(vec![success(), tlv(0x11, b"867018069509705")]),
        (0x02, 0x23) => Ok(vec![success(), tlv(0x01, b"EC20CEHCLGR06A08M1G")]),
        (0x05, 0x31) => Ok(vec![success(), listing(&[(4, 1)])]),
        (0x05, 0x20) => Ok(vec![success(), tlv(0x01, &[0x09, 0x00])]),
        _ => Err(SessionError::transport("not asked for")),
    });
    assert_eq!(client.transport_kind(), TransportKind::Qmi);
    assert_eq!(client.imei(), Ok("867018069509705".to_string()));
    assert_eq!(client.firmware(), Ok("EC20CEHCLGR06A08M1G".to_string()));
    let listed = ModemPort::list_sms(&mut client).expect("listed");
    // The same index in two stores is two messages.
    assert_eq!(listed.len(), 2);
    assert!(listed.iter().any(|m| m.storage == StorageType::Uim));
    assert!(listed.iter().any(|m| m.storage == StorageType::Nv));
    assert_eq!(client.send_pdu(&[0x00, 0x21]), Ok(()));
}

#[test]
fn a_module_without_an_imei_is_named() {
    let (mut client, _) = module(|_, _, _| Ok(vec![success()]));
    assert_eq!(client.imei(), Err(PortError::MissingImei));
}

#[test]
fn a_probe_reports_everything_a_module_says() {
    let (mut client, _) = module(|service, message, payload| match (service, message) {
        (0x02, 0x25) => Ok(vec![success(), tlv(0x11, b"867018069509705"), tlv(0x10, b"0")]),
        (0x02, 0x23) => Ok(vec![success(), tlv(0x01, b"R06A08")]),
        (0x02, 0x22) => Ok(vec![success(), tlv(0x01, b"EC20F")]),
        (0x02, 0x21) => Ok(vec![tlv(0x02, &[1, 0, 25, 0])]),
        (0x02, 0x2d) => Ok(vec![success(), tlv(0x01, &[0x09])]),
        (0x03, 0x24) => Ok(vec![
            success(),
            tlv(0x01, &[1, 1, 1, 2, 1, 8]),
            tlv(0x12, &[0xcc, 0x01, 0x01, 0x00]),
        ]),
        (0x03, 0x43) => Ok(vec![success()]),
        (0x05, 0x31) => Ok(vec![success(), listing(&[(4, 1), (7, 2)])]),
        _ => card(
            service,
            message,
            payload,
            &bytes("BF3E125A1089086030202200000026000178339240"),
        ),
    });
    let report = probe(&mut client);
    assert_eq!(report.result, Ok(()));
    assert_eq!(
        report.lines,
        vec![
            "  sync=ok",
            "  dms serials=ok",
            "  imei=867018069509705 esn=Some(\"0\") meid=None",
            "  dms revision=ok",
            "  revision=R06A08",
            "  model=EC20F",
            "  manufacturer=ERR QMI request rejected with result 1 error 25",
            "  operating_mode=Unknown(9)",
            "  serving state=Registered ps=true radio=Some(8) mcc=Some(460) mnc=Some(1)",
            "  lte_cell=ERR cell location response has no usable RAT TLV",
            "  wms_list total=2 mt=1 tags=4:MtUnread,7:MoSent",
            "  eid=89086030202200000026000178339240",
        ]
    );
}

#[test]
fn a_probe_ends_where_a_module_will_not_introduce_itself() {
    let (mut client, asked) = module(|_, _, _| Ok(vec![tlv(0x02, &[1, 0, 25, 0])]));
    let report = probe(&mut client);
    assert_eq!(report.lines, vec!["  sync=ok"]);
    assert!(report.result.is_err_and(|text| text.starts_with("dms serials: ")));
    assert_eq!(asked.borrow().len(), 3);
}

#[test]
fn a_run_counts_what_failed() {
    assert!(is_control_node("cdc-wdm0"));
    assert!(!is_control_node("ttyUSB0"));
    assert_eq!(verdict(0), Ok(()));
    assert_eq!(verdict(2), Err("2 device(s) failed".to_string()));
}

#[test]
fn an_operating_mode_is_set_by_its_byte() {
    let (mut client, asked) = module(|_, _, _| Ok(vec![success()]));
    assert_eq!(client.set_operating_mode(OperatingMode::LowPower), Ok(()));
    assert_eq!(asked.borrow()[1], (0x02, 0x2e, vec![0x01, 0x01, 0x00, 0x01]));
}

#[test]
fn messages_are_listed_by_store_tag_and_mode() {
    let (mut client, asked) = module(|_, _, _| Ok(vec![success(), listing(&[])]));
    let listed = client.list_sms(StorageType::Nv, MessageTag::MtUnread, MessageMode::Gw);
    assert_eq!(listed, Ok(Vec::new()));
    let payload = asked.borrow()[1].2.clone();
    assert!(payload.starts_with(&[0x01, 0x01, 0x00, StorageType::Nv.as_u8()]));
}
