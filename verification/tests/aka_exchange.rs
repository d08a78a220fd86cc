use edge_modem::aka::{
    classify_authenticate, csim_response, decode_hex, hex_upper, parse_csim_answer, selected_aid,
    usim_authenticate, verify_usim_selected, AkaError, AkaOutcome, BasicChannel, BasicModel,
};
use edge_modem::at::AtExchange;
use edge_modem::uim::ApduResponse;
use edge_modem::{authenticate_apdu, csim_command};

/// A card in memory: its answers in order, and what it was sent.
struct Card {
    answers: Vec<ApduResponse>,
    sent: Vec<Vec<u8>>,
}

impl BasicChannel for Card {
    /// Contracts speak of it; nothing calls it.
    fn link(&self) -> BasicModel {
        unreachable!()
    }

    fn transmit(&mut self, apdu: &[u8]) -> Result<ApduResponse, AkaError> {
        self.sent.push(apdu.to_vec());
        if self.answers.is_empty() {
            return Err(AkaError::Transport("silent".into()));
        }
        Ok(self.answers.remove(0))
    }
}

fn answer(hex: &str, sw1: u8, sw2: u8) -> ApduResponse {
    ApduResponse { data: decode_hex(hex).expect("hex"), sw1, sw2 }
}

fn usim() -> ApduResponse {
    answer("621A8202782183027FD08410A0000000871002FFFFFFFF8907090000", 0x90, 0x00)
}

fn card(answers: Vec<ApduResponse>) -> Card {
    Card { answers, sent: Vec::new() }
}

fn lines(values: &[&str]) -> Vec<String> {
    values.iter().map(|value| value.to_string()).collect()
}

#[test]
fn the_usim_is_looked_at_before_it_is_challenged() {
    let mut body = "DB08".to_string() + &"11".repeat(8);
    body += &("10".to_string() + &"22".repeat(16));
    body += &("10".to_string() + &"33".repeat(16));
    body += &("08".to_string() + &"44".repeat(8));
    let mut card = card(vec![usim(), answer(&body, 0x90, 0x00)]);
    let outcome = usim_authenticate(&mut card, &[0xaa; 16], &[0xbb; 16]).expect("outcome");
    assert_eq!(
        outcome,
        AkaOutcome::Success {
            res: vec![0x11; 8],
            ck: vec![0x22; 16],
            ik: vec![0x33; 16],
            kc: Some(vec![0x44; 8]),
        }
    );
    assert_eq!(outcome.label(), "success");
    assert_eq!(card.sent.len(), 2);
    assert_eq!(card.sent[0], [0x00, 0xf2, 0x00, 0x00, 0x00]);
    assert_eq!(card.sent[1], authenticate_apdu(&[0xaa; 16], &[0xbb; 16], true).expect("apdu"));
}

#[test]
fn another_application_is_not_challenged() {
    let mut other = card(vec![answer("62128410A0000005591010FFFFFFFF8900000100", 0x90, 0x00)]);
    let error = usim_authenticate(&mut other, &[0; 16], &[0; 16]).expect_err("not the USIM");
    assert_eq!(error.code(), "not_usim_adf");
    assert_eq!(other.sent.len(), 1);
    let mut refusing = card(vec![answer("", 0x6a, 0x82)]);
    assert_eq!(
        verify_usim_selected(&mut refusing),
        Err(AkaError::StatusRefused { sw1: 0x6a, sw2: 0x82 })
    );
}

#[test]
fn a_short_challenge_is_not_sent() {
    let mut card = card(vec![usim()]);
    assert_eq!(
        usim_authenticate(&mut card, &[0; 15], &[0; 16]),
        Err(AkaError::BadChallengeLength { field: "RAND", actual: 15 })
    );
    assert!(card.sent.is_empty());
    assert!(matches!(
        authenticate_apdu(&[0; 16], &[0; 3], true),
        Err(AkaError::BadChallengeLength { actual: 3, .. })
    ));
}

#[test]
fn a_wrong_length_is_asked_for_again() {
    let auts = "DC0E".to_string() + &"55".repeat(14);
    let mut card = card(vec![
        answer("", 0x6c, 0x1c),
        usim(),
        answer("", 0x61, 0x10),
        answer(&auts, 0x90, 0x00),
    ]);
    let outcome = usim_authenticate(&mut card, &[1; 16], &[2; 16]).expect("outcome");
    assert_eq!(outcome, AkaOutcome::SyncFailure { auts: vec![0x55; 14] });
    assert_eq!(outcome.label(), "sync_failure");
    assert_eq!(card.sent[1], [0x00, 0xf2, 0x00, 0x00, 0x1c]);
    assert_eq!(card.sent[3], [0x00, 0xc0, 0x00, 0x00, 0x10]);
}

#[test]
fn each_authenticate_answer_is_named() {
    assert_eq!(
        classify_authenticate(&answer("", 0x98, 0x62)),
        Ok(AkaOutcome::AuthenticationFailure {
            sw1: 0x98,
            sw2: 0x62,
            detail: "card rejected the challenge: incorrect MAC (SW 9862)",
        })
    );
    assert_eq!(
        classify_authenticate(&answer("AB", 0x69, 0x85)),
        Err(AkaError::UnknownStatusWord { sw1: 0x69, sw2: 0x85, body: "AB".into() })
    );
    assert!(matches!(
        classify_authenticate(&answer("", 0x90, 0x00)),
        Err(AkaError::MalformedResponse { .. })
    ));
    assert!(matches!(
        classify_authenticate(&answer("DC02AABB", 0x90, 0x00)),
        Err(AkaError::MalformedResponse { .. })
    ));
}

#[test]
fn a_csim_answer_ends_in_its_status_words() {
    assert_eq!(
        parse_csim_answer(&lines(&["+CSIM: 8,\"DEAD9000\""])),
        Ok(answer("DEAD", 0x90, 0x00))
    );
    assert!(matches!(
        parse_csim_answer(&lines(&["+CSIM: 2,\"90\""])),
        Err(AkaError::MalformedCsim(_))
    ));
    assert!(matches!(
        parse_csim_answer(&lines(&["+CSIM: 4,\"zzzz\""])),
        Err(AkaError::MalformedCsim(_))
    ));
    assert!(matches!(parse_csim_answer(&lines(&["OK"])), Err(AkaError::MalformedCsim(_))));
    assert_eq!(csim_command(&[0x00, 0xf2]), "AT+CSIM=4,\"00F2\"");
    let refused = AtExchange {
        command: "AT+CSIM=4,\"00F2\"".into(),
        lines: Vec::new(),
        terminator: "+CME ERROR: 13".into(),
        elapsed_ms: 3,
    };
    assert!(matches!(csim_response(&refused), Err(AkaError::Transport(_))));
}

#[test]
fn hex_reads_back_what_it_wrote() {
    let bytes = vec![0x00, 0x7f, 0xab, 0xff];
    assert_eq!(hex_upper(&bytes), "007FABFF");
    assert_eq!(decode_hex("007fABff"), Some(bytes));
    assert_eq!(decode_hex("0"), None);
    assert_eq!(decode_hex("0g"), None);
    assert!(matches!(
        selected_aid(&[]),
        Err(AkaError::NoSelectedApplication { .. })
    ));
}

#[test]
fn plain_and_wrapped_keys_read_the_same() {
    let fields = format!("08{}10{}10{}", "11".repeat(8), "22".repeat(16), "33".repeat(16));
    let keys = Ok(AkaOutcome::Success {
        res: vec![0x11; 8],
        ck: vec![0x22; 16],
        ik: vec![0x33; 16],
        kc: None,
    });
    assert_eq!(classify_authenticate(&answer(&format!("DB{fields}"), 0x90, 0x00)), keys);
    assert_eq!(classify_authenticate(&answer(&format!("DB2B{fields}"), 0x90, 0x00)), keys);
}
