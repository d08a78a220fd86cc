use edge_modem::channels::LogicalChannels;
use edge_modem::discovery::{discover, DeviceEnumerator, DiscoveredModem, FakeEnumerator};
use edge_modem::domain::{Bearer, Plmn, RegistrationEvidence, SendPlan};
use edge_modem::fake::FakeModem;
use edge_modem::inbox::{collect_inbound, delete_inbound, seen_before, Ledger};
use edge_modem::port::{ModemPort, PortError, TransportKind, UnsupportedPort};
use edge_modem::restore::with_restore;
use edge_modem::send::{send_with_plan, SendOutcome};
use edge_modem::wms::{MessageTag, StorageType};

fn found(kind: TransportKind, path: &str) -> DiscoveredModem {
    DiscoveredModem { kind, path: path.into(), net_iface: None }
}

#[test]
fn qmi_is_looked_for_first_and_serial_last() {
    let mut enumerator = FakeEnumerator::default();
    assert!(discover(&enumerator).is_empty());
    enumerator.at = vec![found(TransportKind::At, "/dev/ttyUSB2")];
    assert_eq!(discover(&enumerator), enumerator.at);
    enumerator.mbim = vec![found(TransportKind::Mbim, "/dev/cdc-wdm1")];
    assert_eq!(discover(&enumerator), enumerator.mbim);
    enumerator.qmi = vec![found(TransportKind::Qmi, "/dev/cdc-wdm0")];
    assert_eq!(discover(&enumerator), enumerator.qmi);
}

struct Nothing;

impl DeviceEnumerator for Nothing {
    fn qmi_candidates(&self) -> Vec<DiscoveredModem> {
        Vec::new()
    }

    fn mbim_candidates(&self) -> Vec<DiscoveredModem> {
        Vec::new()
    }

    fn vid_at_candidates(&self) -> Vec<DiscoveredModem> {
        vec![found(TransportKind::At, "/dev/ttyACM0")]
    }
}

#[test]
fn a_host_can_bring_its_own_enumeration() {
    assert_eq!(discover(&Nothing), vec![found(TransportKind::At, "/dev/ttyACM0")]);
}

#[test]
fn only_received_messages_are_collected() {
    let mut modem = FakeModem::new("867018069509705", "R06A08");
    modem.push_sms(1, MessageTag::MtUnread, vec![0x01]);
    modem.push_sms(2, MessageTag::MoSent, vec![0x02]);
    modem.push_sms(3, MessageTag::MtRead, vec![0x03]);
    let pass = collect_inbound(&mut modem).expect("pass");
    assert_eq!(pass.inbound.len(), 2);
    assert_eq!(pass.inbound[0].index, 1);
    assert_eq!(pass.inbound[0].raw.pdu, [0x01]);
    assert_eq!(pass.inbound[1].index, 3);
    assert_eq!(pass.skipped_mo.len(), 1);
    assert_eq!(pass.skipped_mo[0].index, 2);
    assert_eq!(modem.reads(), [1, 3]);
    assert!(modem.deletes().is_empty());
    let mut sent = pass.inbound[0].clone();
    sent.index = 2;
    sent.tag = MessageTag::MoSent;
    delete_inbound(&mut modem, &[sent]).expect("nothing to delete");
    assert!(modem.deletes().is_empty());
    delete_inbound(&mut modem, &pass.inbound).expect("delete");
    assert_eq!(modem.deletes(), [1, 3]);
    assert!(collect_inbound(&mut modem).expect("pass").inbound.is_empty());
}

#[test]
fn a_missing_message_is_reported_by_its_index() {
    let mut modem = FakeModem::new("867018069509705", "R06A08");
    assert_eq!(
        modem.read_sms(StorageType::Uim, 9).map(|_| ()),
        Err(PortError::Session("no SMS at index 9".into()))
    );
    assert_eq!(modem.reads(), [9]);
    assert_eq!(modem.imei(), Ok("867018069509705".to_string()));
    assert_eq!(modem.firmware(), Ok("R06A08".to_string()));
    assert!(modem.radio_on());
    modem.set_radio_on(false);
    assert!(!modem.radio_on());
    modem.evidence = vec![RegistrationEvidence::ServingSystem {
        registered: true,
        plmn: Some(Plmn::new("460".into(), "001".into())),
    }];
    assert_eq!(modem.registration_evidence().expect("evidence"), modem.evidence);
}

#[test]
fn a_ledger_counts_copies() {
    let ledger = Ledger::new().enter("a", 1).enter("b", 2);
    assert_eq!(ledger.copies("a"), 1);
    assert_eq!(ledger.copies("b"), 2);
    assert_eq!(ledger.copies("c"), 0);
    let pass = vec!["a".to_string(), "b".to_string(), "a".to_string(), "b".to_string()];
    assert_eq!(seen_before(&pass, &ledger), vec![true, true, false, true]);
}

fn plan(primary: Option<Bearer>, fallback: Option<Bearer>) -> SendPlan {
    SendPlan { primary, fallback, reason: "unsupported pairing".into() }
}

#[test]
fn a_plan_falls_back_once() {
    let ims = Bearer::Other("ims");
    let mut modem = FakeModem::new("1", "2");
    assert_eq!(
        send_with_plan(&mut modem, &plan(Some(ims), Some(Bearer::Cellular)), &[1]),
        Ok(SendOutcome { used: ims, fallback_used: false })
    );
    modem.fail_on(ims);
    assert_eq!(
        send_with_plan(&mut modem, &plan(Some(ims), Some(Bearer::Cellular)), &[2]),
        Ok(SendOutcome { used: Bearer::Cellular, fallback_used: true })
    );
    assert_eq!(modem.sent(), [(ims, vec![1]), (Bearer::Cellular, vec![2])]);
    assert_eq!(
        send_with_plan(&mut modem, &plan(Some(ims), None), &[3]),
        Err(PortError::Session("ims send failed".into()))
    );
    assert_eq!(
        send_with_plan(&mut modem, &plan(None, None), &[4]),
        Err(PortError::PlanUnavailable("unsupported pairing".into()))
    );
    assert_eq!(modem.sent().len(), 2);
}

#[test]
fn an_unsupported_transport_refuses_by_name() {
    let mut port = UnsupportedPort::mbim();
    assert_eq!(port.transport_kind(), TransportKind::Mbim);
    assert_eq!(port.imei(), Err(PortError::Unsupported(TransportKind::Mbim)));
    assert_eq!(port.send_pdu(&[1]), Err(PortError::Unsupported(TransportKind::Mbim)));
    assert_eq!(UnsupportedPort::at().transport_kind().as_str(), "at");
    assert_eq!(UnsupportedPort::pcsc().transport_kind().as_str(), "pcsc");
}

#[test]
fn what_was_disrupted_is_always_restored() {
    let restored = std::cell::Cell::new(0u64);
    let result = with_restore(
        || Ok(()),
        |budget| {
            restored.set(budget);
            Ok(())
        },
        1500,
        || Err::<(), &str>("body failed"),
    );
    assert_eq!(result, Err("body failed"));
    assert_eq!(restored.get(), 1500);
    assert_eq!(with_restore(|| Ok(()), |_| Ok(()), 1, || Ok::<u8, &str>(7)), Ok(7));
    assert_eq!(
        with_restore(|| Ok(()), |_| Err("not restored"), 1, || Ok::<u8, &str>(7)),
        Err("not restored")
    );
    let touched = std::cell::Cell::new(false);
    let result = with_restore(
        || Err("nothing was disrupted"),
        |_| {
            touched.set(true);
            Ok(())
        },
        1,
        || Ok::<u8, &str>(7),
    );
    assert_eq!(result, Err("nothing was disrupted"));
    assert!(!touched.get());
}

#[test]
fn the_restore_comes_after_the_body() {
    let order = std::cell::RefCell::new(Vec::new());
    let note = |step: &'static str| order.borrow_mut().push(step);
    let result = with_restore(
        || {
            note("disrupt");
            Ok::<(), &str>(())
        },
        |_| {
            note("restore");
            Ok(())
        },
        1,
        || {
            note("body");
            Ok(7)
        },
    );
    assert_eq!(result, Ok(7));
    assert_eq!(*order.borrow(), ["disrupt", "body", "restore"]);
}

#[test]
fn the_esim_channel_is_not_closed_under_the_operation() {
    let mut channels = LogicalChannels::default();
    channels.open(4);
    channels.open(1);
    channels.set_esim(2);
    channels.open(4);
    assert_eq!(channels.esim(), Some(2));
    assert_eq!(channels.release_all_except_esim(), vec![1, 4]);
    assert!(channels.is_open(2));
    assert!(!channels.is_open(1));
    assert!(channels.release_all_except_esim().is_empty());
}
