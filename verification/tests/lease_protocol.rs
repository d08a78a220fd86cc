use edge_modem::aka::{AkaError, AkaOutcome};
use edge_modem::at::AtExchange;
use edge_modem::json::JsonItem;
use edge_modem::lease::{
    authenticate_reply, execute_reply, failure_json, handle_lease_request, hex_field,
    lease_socket_path, outcome_json, parse_lease_fields, read_imei, read_lease_request,
    read_priority, read_timeout, refuse_client, serve_request, ArbiterWaiting, AtLease,
    LeaseFailure, LeaseFields, LeaseModel, LeaseRequest, ModemArbiter, ModemPriority,
    DEFAULT_LEASE_SOCKET, MAX_LEASE_TIMEOUT,
};

struct Refusing;

impl AtLease for Refusing {
    // Contracts speak of it; nothing calls it.
    fn lease(&self) -> LeaseModel {
        unreachable!()
    }

    fn execute(
        &mut self,
        _imei: Option<&str>,
        _command: &str,
        _timeout_ms: u64,
        _priority: ModemPriority,
    ) -> Result<AtExchange, LeaseFailure> {
        Err(LeaseFailure::new("no_such_module", "no module with that \"IMEI\""))
    }

    fn authenticate(
        &mut self,
        _imei: Option<&str>,
        _rand16: &[u8],
        _autn16: &[u8],
    ) -> Result<AkaOutcome, LeaseFailure> {
        Err(LeaseFailure::from_aka(&AkaError::StatusRefused { sw1: 0x6a, sw2: 0x82 }))
    }
}

fn json(text: &str) -> serde_json::Value {
    serde_json::from_str(text).expect("json")
}

#[test]
fn a_request_is_read_with_its_defaults() {
    assert_eq!(
        read_lease_request("{\"op\":\"execute_at\",\"command\":\"ATI\",\"imei\":\" 86 \"}"),
        Ok(LeaseRequest::ExecuteAt {
            imei: Some("86".into()),
            command: "ATI".into(),
            timeout_ms: 10_000,
            priority: ModemPriority::Normal,
        })
    );
    assert_eq!(
        read_lease_request(
            "{\"op\":\"execute_at\",\"command\":\"ATI\",\"imei\":\"\",\"timeout_ms\":999999999}"
        ),
        Ok(LeaseRequest::ExecuteAt {
            imei: None,
            command: "ATI".into(),
            timeout_ms: MAX_LEASE_TIMEOUT,
            priority: ModemPriority::Normal,
        })
    );
}

#[test]
fn each_bad_request_is_named() {
    for (line, message) in [
        ("{\"op\":\"execute_at\"}", "execute_at needs a command"),
        (
            "{\"op\":\"execute_at\",\"command\":\"ATI\",\"timeout_ms\":0}",
            "timeout_ms must be a positive integer",
        ),
        (
            "{\"op\":\"execute_at\",\"command\":\"ATI\",\"priority\":\"urgent\"}",
            "unknown priority \"urgent\"",
        ),
        ("{\"op\":\"authenticate\"}", "authenticate needs rand as a hex string"),
        ("{\"op\":\"authenticate\",\"rand\":\"zz\"}", "rand is not hex"),
        ("{\"op\":\"authenticate\",\"rand\":\"1122\"}", "rand must be 16 bytes, got 2"),
        ("{\"op\":\"reboot\"}", "unknown op \"reboot\""),
        ("{}", "missing op"),
    ] {
        let reply = json(&handle_lease_request(&mut Refusing, line));
        assert_eq!(reply["ok"], serde_json::Value::from(false));
        assert_eq!(reply["error"], serde_json::Value::from("bad_request"), "{line}");
        assert_eq!(reply["message"], serde_json::Value::from(message), "{line}");
    }
    let reply = json(&handle_lease_request(&mut Refusing, "not json"));
    assert!(reply["message"].as_str().is_some_and(|text| text.starts_with("not JSON: ")));
}

#[test]
fn a_refusal_reaches_the_client_as_itself() {
    let reply = handle_lease_request(&mut Refusing, "{\"op\":\"execute_at\",\"command\":\"ATI\"}");
    assert_eq!(
        reply,
        "{\"error\":\"no_such_module\",\"message\":\"no module with that \\\"IMEI\\\"\",\"ok\":false}"
    );
    let line = format!(
        "{{\"op\":\"authenticate\",\"rand\":\"{}\",\"autn\":\"{}\"}}",
        "11".repeat(16),
        "22".repeat(16)
    );
    let reply = json(&handle_lease_request(&mut Refusing, &line));
    assert_eq!(reply["error"], serde_json::Value::from("status_refused"));
}

#[test]
fn replies_carry_what_the_module_said() {
    let exchange = AtExchange {
        command: "ATI".into(),
        lines: vec!["EC20".into(), "R06".into()],
        terminator: "OK".into(),
        elapsed_ms: 7,
    };
    assert_eq!(
        execute_reply(&Ok(exchange)),
        "{\"elapsed_ms\":7,\"lines\":[\"EC20\",\"R06\"],\"ok\":true,\"op\":\"execute_at\",\
         \"response\":\"EC20\\nR06\\nOK\",\"succeeded\":true,\"terminator\":\"OK\"}"
    );
    let outcome = AkaOutcome::Success {
        res: vec![0x11; 4],
        ck: vec![0x22; 16],
        ik: vec![0x33; 16],
        kc: None,
    };
    let value = json(&outcome_json(&outcome));
    assert_eq!(value["outcome"], serde_json::Value::from("success"));
    assert_eq!(value["res"], serde_json::Value::from("11111111"));
    assert!(value.get("kc").is_none());
    let synced = json(&authenticate_reply(&Ok(AkaOutcome::SyncFailure { auts: vec![0x44; 14] })));
    assert_eq!(synced["auts"], serde_json::Value::from("44".repeat(14)));
    assert_eq!(
        failure_json("a", "b"),
        "{\"error\":\"a\",\"message\":\"b\",\"ok\":false}"
    );
}

#[test]
fn the_lease_has_a_place_and_a_limit() {
    assert_eq!(lease_socket_path(None), DEFAULT_LEASE_SOCKET);
    assert_eq!(lease_socket_path(Some("/tmp/x.sock")), "/tmp/x.sock");
    assert_eq!(refuse_client(7), None);
    let refusal = json(&refuse_client(8).expect("refusal"));
    assert_eq!(refusal["error"], serde_json::Value::from("too_many_clients"));
}

#[test]
fn a_challenge_overtakes_what_only_waits() {
    let mut arbiter = ModemArbiter::new();
    arbiter.queue(ModemPriority::Normal);
    assert!(arbiter.acquire(ModemPriority::Normal));
    arbiter.queue(ModemPriority::Normal);
    arbiter.queue(ModemPriority::Aka);
    // Held: nobody gets it.
    assert!(!arbiter.acquire(ModemPriority::Normal));
    assert!(!arbiter.acquire(ModemPriority::Aka));
    arbiter.release();
    assert!(!arbiter.acquire(ModemPriority::Normal));
    assert!(arbiter.acquire(ModemPriority::Aka));
    assert_eq!(arbiter.waiting(), ArbiterWaiting { normal: 1, aka: 0, held: true });
    arbiter.release();
    assert!(arbiter.acquire(ModemPriority::Normal));
    arbiter.release();
    assert_eq!(arbiter.waiting(), ModemArbiter::default().waiting());
}

/// A lease that keeps what it was asked.
struct Keeping {
    asked: Vec<LeaseRequest>,
}

impl AtLease for Keeping {
    // Contracts speak of it; nothing calls it.
    fn lease(&self) -> LeaseModel {
        unreachable!()
    }

    fn execute(
        &mut self,
        imei: Option<&str>,
        command: &str,
        timeout_ms: u64,
        priority: ModemPriority,
    ) -> Result<AtExchange, LeaseFailure> {
        self.asked.push(LeaseRequest::ExecuteAt {
            imei: imei.map(str::to_string),
            command: command.to_string(),
            timeout_ms,
            priority,
        });
        Ok(AtExchange {
            command: command.to_string(),
            lines: vec![],
            terminator: "OK".into(),
            elapsed_ms: 1,
        })
    }

    fn authenticate(
        &mut self,
        imei: Option<&str>,
        rand16: &[u8],
        autn16: &[u8],
    ) -> Result<AkaOutcome, LeaseFailure> {
        self.asked.push(LeaseRequest::Authenticate {
            imei: imei.map(str::to_string),
            rand: rand16.to_vec(),
            autn: autn16.to_vec(),
        });
        Ok(AkaOutcome::SyncFailure { auts: vec![0x44; 14] })
    }
}

#[test]
fn a_line_is_served_once_as_it_asks() {
    let mut lease = Keeping { asked: vec![] };
    let line = format!(
        "{{\"op\":\"authenticate\",\"imei\":\"86\",\"rand\":\"{}\",\"autn\":\"{}\"}}",
        "0A".repeat(16),
        "b0".repeat(16)
    );
    let challenge = LeaseRequest::Authenticate {
        imei: Some("86".into()),
        rand: vec![0x0a; 16],
        autn: vec![0xb0; 16],
    };
    let reply = handle_lease_request(&mut lease, &line);
    assert_eq!(lease.asked, [challenge.clone()]);
    assert_eq!(reply, serve_request(&mut lease, &challenge));
    assert_eq!(lease.asked.len(), 2);
    // A refused line asks for nothing.
    for line in ["{", "{}", "{\"op\":\"execute_at\",\"command\":7}"] {
        handle_lease_request(&mut lease, line);
    }
    let short = format!("{{\"op\":\"authenticate\",\"rand\":\"{}\"}}", "0A".repeat(16));
    handle_lease_request(&mut lease, &short);
    assert_eq!(lease.asked.len(), 2);
}

fn fields(op: Option<&str>) -> LeaseFields {
    LeaseFields {
        fault: None,
        op: op.map(str::to_string),
        imei: None,
        command: None,
        timeout_ms: JsonItem::Missing,
        priority: None,
        rand: None,
        autn: None,
    }
}

#[test]
fn the_fields_of_a_line_make_the_request() {
    let mut asked = fields(Some("execute_at"));
    asked.command = Some("ATI".into());
    asked.timeout_ms = JsonItem::Count(2000);
    asked.priority = Some("aka".into());
    assert_eq!(
        parse_lease_fields(&asked),
        Ok(LeaseRequest::ExecuteAt {
            imei: None,
            command: "ATI".into(),
            timeout_ms: 2000,
            priority: ModemPriority::Aka,
        })
    );
    asked.fault = Some("expected value at line 1 column 1".into());
    assert_eq!(
        parse_lease_fields(&asked),
        Err("not JSON: expected value at line 1 column 1".into())
    );
    assert_eq!(parse_lease_fields(&fields(None)), Err("missing op".into()));
    assert_eq!(
        parse_lease_fields(&fields(Some("execute_at"))),
        Err("execute_at needs a command".into())
    );
    let mut asked = fields(Some("authenticate"));
    asked.rand = Some("00".repeat(16));
    assert_eq!(
        parse_lease_fields(&asked),
        Err("authenticate needs autn as a hex string".into())
    );
}

#[test]
fn each_field_has_its_own_reading() {
    let refused = Err("timeout_ms must be a positive integer".to_string());
    assert_eq!(read_timeout(&JsonItem::Missing), Ok(10_000));
    assert_eq!(read_timeout(&JsonItem::Count(1)), Ok(1));
    assert_eq!(read_timeout(&JsonItem::Count(u64::MAX)), Ok(MAX_LEASE_TIMEOUT));
    assert_eq!(read_timeout(&JsonItem::Count(0)), refused);
    assert_eq!(read_timeout(&JsonItem::Text("5".into())), refused);
    assert_eq!(read_priority(&None), Ok(ModemPriority::Normal));
    assert_eq!(read_priority(&Some("aka".into())), Ok(ModemPriority::Aka));
    assert_eq!(read_priority(&Some("AKA".into())), Err("unknown priority \"AKA\"".into()));
    assert_eq!(read_imei(&Some("  ".into())), None);
    assert_eq!(read_imei(&Some(" 86\n".into())), Some("86".into()));
    assert_eq!(hex_field(&Some("0aFF".into()), "rand", 2), Ok(vec![0x0a, 0xff]));
    assert_eq!(hex_field(&Some("0a".into()), "rand", 2), Err("rand must be 2 bytes, got 1".into()));
    assert_eq!(hex_field(&Some("0".into()), "autn", 2), Err("autn is not hex".into()));
    assert_eq!(hex_field(&None, "autn", 2), Err("authenticate needs autn as a hex string".into()));
}

#[test]
fn text_in_a_reply_is_escaped() {
    assert_eq!(
        failure_json("a\"b\\", "\u{8}\u{9}\u{a}\u{c}\u{d}\u{1}\u{1f}/\u{7f}\u{e9}"),
        "{\"error\":\"a\\\"b\\\\\",\"message\":\"\\b\\t\\n\\f\\r\\u0001\\u001f/\u{7f}\u{e9}\",\"ok\":false}"
    );
}

#[test]
fn a_run_of_clients_is_shared_in_order() {
    let mut arbiter = ModemArbiter::new();
    let mut served = vec![];
    for priority in [ModemPriority::Normal, ModemPriority::Aka, ModemPriority::Normal, ModemPriority::Aka] {
        arbiter.queue(priority);
    }
    while arbiter.waiting().normal + arbiter.waiting().aka > 0 {
        for priority in [ModemPriority::Normal, ModemPriority::Aka] {
            if arbiter.acquire(priority) {
                served.push(priority);
                assert!(!arbiter.acquire(ModemPriority::Aka));
                arbiter.release();
                break;
            }
        }
    }
    assert_eq!(
        served,
        [ModemPriority::Aka, ModemPriority::Aka, ModemPriority::Normal, ModemPriority::Normal]
    );
}
