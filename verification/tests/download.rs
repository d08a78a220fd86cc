use std::cell::RefCell;
use std::rc::Rc;

use edge_modem::download::{
    Acknowledgement, ActivationCode, BoundPackage, ClientAuthentication, DownloadRequest,
    NextStep,
};
use edge_modem::es9p::{AuthenticationStart, Es9pError};
use edge_modem::session::{LinkModel, QmiClient, QmiTransport, SessionError};
use edge_modem::wire::{encode_tlvs, Tlv};

fn bytes(hex: &str) -> Vec<u8> {
    let hex: String = hex.chars().filter(|c| !c.is_whitespace()).collect();
    (0..hex.len())
        .step_by(2)
        .map(|i| u8::from_str_radix(&hex[i..i + 2], 16).expect("hex"))
        .collect()
}

fn tlv(kind: u8, value: &[u8]) -> Tlv {
    Tlv::new(kind, value.to_vec()).expect("tlv")
}

/// A module with an eUICC in it. It records the ES10 commands it was handed.
struct Chip {
    commands: Rc<RefCell<Vec<Vec<u8>>>>,
    pending: Vec<u8>,
}

const INSTALLED: &str = "BF372B BF2728 8004AABBCCDD \
                         BF2F19 800103 81020780 0C10 736D64702E6578616D706C652E636F6D \
                         A204 A0020500";

const INFO2: &str = "BF227E81030203018203020202830304020084 0D 8101008204000279D083020B89 8505\
                     077F3E1F808603090200870302030088020490A916041481370F5125D0B1D408D4C3B2\
                     32E6D25E795BEBFBAA16041481370F5125D0B1D408D4C3B232E6D25E795BEBFB8B0100\
                     9902064004030100000C0D45442D5A492D55502D30383236";

fn card_answer(command: &[u8]) -> Vec<u8> {
    let key = "11".repeat(20);
    match command {
        [0xbf, 0x3e, ..] => bytes("BF3E125A1089086030202200000026000178339240"),
        [0xbf, 0x22, ..] => bytes(INFO2),
        [0xbf, 0x2d, ..] => bytes("BF2D02A000"),
        [0xbf, 0x28, ..] => bytes("BF2802A000"),
        [0xbf, 0x2e, ..] => bytes(&("BF2E128010".to_string() + &"5A".repeat(16))),
        [0xbf, 0x20, ..] => bytes(&format!("BF2035 8203020202 A9160414{key} AA160414{key}")),
        [0xbf, 0x38, ..] => bytes("BF3806 A004 80020102"),
        [0xbf, 0x21, ..] => bytes("BF2106 A004 80020304"),
        [0xbf, 0x41, ..] => bytes("BF410B A009 8004AABBCCDD 810100"),
        [0xbf, 0x30, ..] => bytes("BF3003 800100"),
        // The last element of the package is the one that is answered.
        [0x86, 0x03, ..] => bytes(INSTALLED),
        _ => Vec::new(),
    }
}

impl QmiTransport for Chip {
    /// Contracts speak of it; nothing calls it.
    fn link(&self) -> LinkModel {
        unreachable!()
    }

    fn transact(&mut self, request: &[u8]) -> Result<Vec<u8>, SessionError> {
        let control = request[4] == 0;
        let message = if control { request[8] } else { request[9] };
        let ok = tlv(0x02, &[0, 0, 0, 0]);
        let tlvs = match (control, message) {
            (true, _) => vec![ok, tlv(0x01, &[request[15], 0x21])],
            (false, 0x42) => vec![ok, tlv(0x10, &[0x02])],
            (false, 0x3f) => vec![ok],
            _ => {
                // STORE DATA: 80 E2 P1 block Lc data, P1 0x91 on the last block.
                let at = request
                    .windows(2)
                    .position(|window| window == [0xe2, 0x91] || window == [0xe2, 0x11])
                    .expect("STORE DATA");
                let length = request[at + 3] as usize;
                self.pending.extend_from_slice(&request[at + 4..at + 4 + length]);
                let mut answer = Vec::new();
                if request[at + 1] == 0x91 {
                    answer = card_answer(&self.pending);
                    self.commands.borrow_mut().push(std::mem::take(&mut self.pending));
                }
                let mut value = ((answer.len() + 2) as u16).to_le_bytes().to_vec();
                value.extend_from_slice(&answer);
                value.extend_from_slice(&[0x90, 0x00]);
                vec![ok, tlv(0x10, &value)]
            }
        };
        let payload = encode_tlvs(&tlvs).expect("tlvs");
        let header = if control { 6 } else { 7 };
        let mut frame = vec![0x01];
        frame.extend_from_slice(&((5 + header + payload.len()) as u16).to_le_bytes());
        frame.extend_from_slice(&[0x80, request[4], request[5]]);
        if control {
            frame.extend_from_slice(&[0x01, request[7], request[8], request[9]]);
        } else {
            frame.extend_from_slice(&[0x02, request[7], request[8], request[9], request[10]]);
        }
        frame.extend_from_slice(&(payload.len() as u16).to_le_bytes());
        frame.extend_from_slice(&payload);
        Ok(frame)
    }
}

fn activation() -> ActivationCode {
    ActivationCode {
        smdp_address: "smdp.example.com".into(),
        matching_id: Some("QQ111-22222".into()),
    }
}

fn start() -> AuthenticationStart {
    AuthenticationStart {
        smdp_address: "smdp.example.com".into(),
        transaction_id: "AABBCCDD".into(),
        transaction_id_raw: "aabbccdd".into(),
        server_signed1: bytes("3003 800100"),
        server_signature1: bytes("5F3701 00"),
        server_certificate: bytes("3003 020100"),
        euicc_ci_pkid_der: bytes("040111"),
        euicc_ci_pkid_to_be_used: "11".repeat(20),
        http_status: 200,
        ..AuthenticationStart::default()
    }
}

fn authentication(rules: &str) -> ClientAuthentication {
    let metadata = format!("5A0A 98882119002200140268 9208 545F4D6F62696C65 950102 {rules}");
    let body = bytes(&metadata);
    let mut profile_metadata = vec![0xbf, 0x25, body.len() as u8];
    profile_metadata.extend_from_slice(&body);
    ClientAuthentication {
        smdp_signed2: bytes("3009 8004 AABBCCDD 010100"),
        smdp_signature2: bytes("5F3701 00"),
        smdp_certificate: bytes("3003 020100"),
        profile_metadata,
        http_status: 200,
        elapsed_ms: 3,
    }
}

/// Two `88` elements and one `86`, behind the mandatory parts.
fn package() -> Vec<u8> {
    bytes("BF361C BF2302AAAA A0048702AAAA A1088802BBBB8802CCCC A3058603DDDDDD")
}

#[test]
fn a_profile_is_installed_and_its_notification_delivered() {
    let commands = Rc::new(RefCell::new(Vec::new()));
    let mut client =
        QmiClient::new(Chip { commands: Rc::clone(&commands), pending: Vec::new() });
    let code = activation();
    let request = DownloadRequest {
        activation_code: &code,
        confirmation_code: None,
        imei: "867018069514820",
    };
    let mut session = client.isdr_session(1).expect("session");
    let mut download = session.begin_download(&request).expect("begin");
    assert_eq!(download.outcome.eid, "89086030202200000026000178339240");
    assert_eq!(download.outcome.euicc_challenge, [0x5a; 16]);
    assert_eq!(download.outcome.before.free_non_volatile_memory, Some(162_256));
    assert!(download.outcome.matching_id_present);
    let authenticated =
        session.introduce_server(&mut download, start(), &request).expect("introduce");
    assert_eq!(authenticated, bytes("BF3806 A004 80020102"));
    let next = session
        .decide_download(&mut download, Ok(authentication("")), &request)
        .expect("decide");
    assert_eq!(next, NextStep::FetchPackage(bytes("BF2106 A004 80020304")));
    assert!(download.outcome.refused_policy_rules.is_empty());
    let bound = BoundPackage { package: package(), http_status: 200, elapsed_ms: 9 };
    session.install_package(&mut download, &bound).expect("install");
    assert!(download.outcome.installed);
    assert_eq!(download.outcome.bpp_bytes, package().len());
    assert_eq!(download.sequence_number, Some(3));
    assert_eq!(download.notification, bytes(INSTALLED));
    let sent: Vec<u8> = commands
        .borrow()
        .iter()
        .rev()
        .take(download.outcome.bpp_segments.len())
        .rev()
        .flatten()
        .copied()
        .collect();
    assert_eq!(sent, package());
    let delivered = Acknowledgement { http_status: 204, elapsed_ms: 2 };
    session.finish_download(&mut download, Ok(delivered)).expect("finish");
    assert!(download.outcome.notification_delivered);
    assert_eq!(download.outcome.notification_removed, Some(0));
    assert!(download.outcome.after.is_some());
    assert_eq!(session.close(), Ok(()));
}

#[test]
fn a_profile_that_could_not_be_removed_is_not_fetched() {
    let commands = Rc::new(RefCell::new(Vec::new()));
    let mut client =
        QmiClient::new(Chip { commands: Rc::clone(&commands), pending: Vec::new() });
    let code = activation();
    let request = DownloadRequest {
        activation_code: &code,
        confirmation_code: None,
        imei: "867018069514820",
    };
    let mut session = client.isdr_session(1).expect("session");
    let mut download = session.begin_download(&request).expect("begin");
    session.introduce_server(&mut download, start(), &request).expect("introduce");
    let next = session
        .decide_download(&mut download, Ok(authentication("99020640")), &request)
        .expect("decide");
    assert_eq!(next, NextStep::GiveBack(bytes("BF410B A009 8004AABBCCDD 810100")));
    assert_eq!(download.outcome.refused_policy_rules, ["ppr1"]);
    assert!(!download.outcome.installed);
    assert!(!commands.borrow().iter().any(|command| command.starts_with(&[0xbf, 0x21])));
    // The session goes back with the reason that forbids the rule.
    assert!(commands
        .borrow()
        .iter()
        .any(|command| command == &bytes("BF4109 8004AABBCCDD 810103")));
    let gone = Err(Es9pError::IoFailed { reason: "reset".into() });
    session.give_back_session(&mut download, gone).expect("give back");
    assert!(download.outcome.cancel_error.is_some());
}

#[test]
fn an_undelivered_notification_stays_on_the_chip() {
    let commands = Rc::new(RefCell::new(Vec::new()));
    let mut client =
        QmiClient::new(Chip { commands: Rc::clone(&commands), pending: Vec::new() });
    let code = activation();
    let request = DownloadRequest {
        activation_code: &code,
        confirmation_code: None,
        imei: "867018069514820",
    };
    let mut session = client.isdr_session(1).expect("session");
    let mut download = session.begin_download(&request).expect("begin");
    session.introduce_server(&mut download, start(), &request).expect("introduce");
    session.decide_download(&mut download, Ok(authentication("")), &request).expect("decide");
    let bound = BoundPackage { package: package(), http_status: 200, elapsed_ms: 9 };
    session.install_package(&mut download, &bound).expect("install");
    let lost = Err(Es9pError::IoFailed { reason: "reset".into() });
    session.finish_download(&mut download, lost).expect("finish");
    assert!(!download.outcome.notification_delivered);
    assert_eq!(download.outcome.notification_removed, None);
    assert!(download.outcome.notification_delivery_error.is_some());
    assert!(!commands.borrow().iter().any(|command| command.starts_with(&[0xbf, 0x30])));
}
