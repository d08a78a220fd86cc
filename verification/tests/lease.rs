use std::sync::Mutex;
use edge_modem::aka::AkaOutcome;
use edge_modem::at::AtExchange;
use edge_modem::lease::{AtLease, LeaseFailure, LeaseModel, ModemPriority, handle_lease_request};

struct RecordingLease {
    answers: Mutex<Vec<String>>,
}

impl AtLease for RecordingLease {
    // Contracts speak of it; nothing calls it.
    fn lease(&self) -> LeaseModel {
        unreachable!()
    }

    fn execute(
        &mut self,
        _imei: Option<&str>,
        command: &str,
        timeout_ms: u64,
        priority: ModemPriority,
    ) -> Result<AtExchange, LeaseFailure> {
        self.answers.lock().expect("answers").push(format!(
            "{command}|{}|{}",
            timeout_ms,
            priority.label()
        ));
        Ok(AtExchange {
            command: command.to_string(),
            lines: vec!["EC20CEHCLGR06A08M1G".into()],
            terminator: "OK".into(),
            elapsed_ms: 7,
        })
    }

    fn authenticate(
        &mut self,
        _imei: Option<&str>,
        _rand16: &[u8],
        _autn16: &[u8],
    ) -> Result<AkaOutcome, LeaseFailure> {
        Ok(AkaOutcome::AuthenticationFailure {
            sw1: 0x98,
            sw2: 0x62,
            detail: "card rejected the challenge: incorrect MAC (SW 9862)",
        })
    }
}

fn lease() -> RecordingLease {
    RecordingLease {
        answers: Mutex::new(Vec::new()),
    }
}

#[test]
fn execute_at_returns_the_transcript() {
    let mut lease = lease();
    let response = handle_lease_request(
        &mut lease,
        "{\"op\":\"execute_at\",\"command\":\"ATI\",\"timeout_ms\":2000}",
    );
    let value: serde_json::Value = serde_json::from_str(&response).expect("json");
    assert_eq!(value["ok"], serde_json::Value::from(true));
    assert_eq!(
        value["response"],
        serde_json::Value::from("EC20CEHCLGR06A08M1G\nOK")
    );
    assert_eq!(
        lease.answers.lock().expect("answers").as_slice(),
        ["ATI|2000|normal".to_string()]
    );
}

#[test]
fn a_lease_client_may_ask_for_aka_priority() {
    let mut lease = lease();
    handle_lease_request(
        &mut lease,
        "{\"op\":\"execute_at\",\"command\":\"AT+CSIM=10,\\\"00F2000000\\\"\",\"priority\":\"aka\"}",
    );
    let recorded = lease.answers.lock().expect("answers")[0].clone();
    assert!(recorded.ends_with("|10000|aka"), "{recorded}");
    assert!(recorded.starts_with("AT+CSIM=10,\"00F2000000\""), "{recorded}");
}

#[test]
fn authenticate_reports_a_named_rejection() {
    let response = handle_lease_request(
        &mut lease(),
        &format!(
            "{{\"op\":\"authenticate\",\"rand\":\"{}\",\"autn\":\"{}\"}}",
            "11".repeat(16),
            "22".repeat(16)
        ),
    );
    let value: serde_json::Value = serde_json::from_str(&response).expect("json");
    assert_eq!(
        value["outcome"],
        serde_json::Value::from("authentication_failure")
    );
    assert_eq!(value["sw"], serde_json::Value::from("9862"));
}

#[test]
fn a_short_rand_is_refused_before_the_module_is_touched() {
    let mut lease = lease();
    let response = handle_lease_request(
        &mut lease,
        "{\"op\":\"authenticate\",\"rand\":\"1122\",\"autn\":\"33\"}",
    );
    let value: serde_json::Value = serde_json::from_str(&response).expect("json");
    assert_eq!(value["ok"], serde_json::Value::from(false));
    assert_eq!(value["error"], serde_json::Value::from("bad_request"));
    assert!(lease.answers.lock().expect("answers").is_empty());
}
