use edge_modem::dms::OperatingMode;
use edge_modem::restart::{
    parse_cfun, parse_cpin, parse_qinistat, parse_qsimstat, restart_radio, CardEvidence,
    CardState, ModuleRadio, RadioModel, RestartError, CFUN_FULL, CFUN_MINIMUM, CFUN_OFFLINE,
};

/// A module in memory: what `+CFUN:` reads, one value after the other, the last
/// one for good.
struct Radio {
    readings: Vec<Result<Option<u8>, String>>,
    refuse_online: usize,
    card: CardState,
    said: Vec<String>,
}

impl Radio {
    fn new(readings: &[u8]) -> Self {
        Radio {
            readings: readings.iter().map(|value| Ok(Some(*value))).collect(),
            refuse_online: 0,
            card: CardState::Ready,
            said: Vec::new(),
        }
    }
}

impl ModuleRadio for Radio {
    /// Contracts speak of it; nothing calls it.
    fn radio(&self) -> RadioModel {
        unreachable!()
    }

    fn operating_mode(&mut self) -> Result<OperatingMode, String> {
        Ok(OperatingMode::Online)
    }

    fn set_operating_mode(&mut self, mode: OperatingMode) -> Result<(), String> {
        self.said.push(format!("{mode:?}"));
        if mode == OperatingMode::Online && self.refuse_online > 0 {
            self.refuse_online -= 1;
            return Err("error 60".into());
        }
        Ok(())
    }

    fn read_functionality(&mut self) -> Result<Option<u8>, String> {
        if self.readings.len() > 1 {
            self.readings.remove(0)
        } else {
            self.readings[0].clone()
        }
    }

    fn write_functionality(&mut self, value: u8) -> Result<bool, String> {
        self.said.push(format!("CFUN={value}"));
        Ok(true)
    }

    fn read_card_state(&mut self) -> Result<CardState, String> {
        Ok(self.card.clone())
    }

    fn read_card_evidence(&mut self) -> CardEvidence {
        CardEvidence { inserted: Some(true), init_status: Some(3) }
    }

    fn pause(&mut self, _milliseconds: u64) {}
}

fn lines(values: &[&str]) -> Vec<String> {
    values.iter().map(|value| value.to_string()).collect()
}

#[test]
fn a_restart_that_takes_ends_with_a_usable_module() {
    let mut radio = Radio::new(&[CFUN_FULL]);
    let report = restart_radio(&mut radio).expect("restart");
    assert_eq!(report.cfun_before, Some(CFUN_FULL));
    assert_eq!(report.cfun_after, Some(CFUN_FULL));
    assert_eq!(report.mode_after, Some(OperatingMode::Online));
    assert_eq!(report.card_after, Some(CardState::Ready));
    assert_eq!(radio.said, ["LowPower", "Online"]);
    assert_eq!(report.card_evidence, CardEvidence { inserted: Some(true), init_status: Some(3) });
}

#[test]
fn offline_is_never_asked_for_and_a_stranded_module_is_left_alone() {
    let mut radio = Radio::new(&[CFUN_OFFLINE]);
    match restart_radio(&mut radio) {
        Err(RestartError::AlreadyStranded(report)) => {
            assert_eq!(report.cfun_after, Some(CFUN_OFFLINE));
        }
        other => panic!("expected AlreadyStranded, got {other:?}"),
    }
    assert!(radio.said.is_empty());
}

#[test]
fn a_restart_that_cannot_be_checked_is_not_begun() {
    let mut radio = Radio::new(&[CFUN_FULL]);
    radio.readings = vec![Err("no port".into())];
    assert_eq!(
        restart_radio(&mut radio),
        Err(RestartError::Unverifiable { reason: "no port".into() })
    );
    assert!(radio.said.is_empty());
}

#[test]
fn a_module_that_will_not_say_where_its_radio_is_is_not_restarted() {
    let mut radio = Radio::new(&[CFUN_FULL]);
    radio.readings = vec![Ok(None), Ok(Some(CFUN_FULL))];
    assert_eq!(
        restart_radio(&mut radio),
        Err(RestartError::Unverifiable { reason: "no +CFUN line".into() })
    );
    assert!(radio.said.is_empty());
}

#[test]
fn a_refused_mode_change_is_climbed_back_from() {
    let mut radio = Radio::new(&[CFUN_FULL]);
    radio.refuse_online = 1;
    let report = restart_radio(&mut radio).expect("restart");
    assert!(report.steps.iter().any(|step| step == "QMI online refused: error 60"));
    assert!(report.steps.iter().any(|step| step == "QMI online accepted on retry"));
    assert_eq!(radio.said, ["LowPower", "Online", "Online"]);
}

#[test]
fn a_module_that_stays_down_is_not_restored() {
    let mut radio = Radio::new(&[CFUN_FULL, CFUN_MINIMUM]);
    let error = restart_radio(&mut radio).expect_err("not restored");
    assert_eq!(error.code(), "restart_not_restored");
    assert!(!error.radio_restored());
    assert!(matches!(error, RestartError::NotRestored(_)));
    assert!(!radio.said.iter().any(|said| said == "Offline"));
}

#[test]
fn a_module_that_strands_itself_is_named() {
    let mut radio = Radio::new(&[CFUN_FULL, CFUN_OFFLINE]);
    let error = restart_radio(&mut radio).expect_err("stranded");
    assert!(matches!(error, RestartError::Stranded(_)));
    assert_eq!(error.report().and_then(|report| report.cfun_after), Some(CFUN_OFFLINE));
}

#[test]
fn a_card_that_will_not_come_up_is_not_a_success() {
    let mut radio = Radio::new(&[CFUN_FULL]);
    radio.card = CardState::Absent(10);
    let error = restart_radio(&mut radio).expect_err("card");
    assert!(matches!(error, RestartError::CardNotReady(_)));
    assert!(error.radio_restored());
    assert_eq!(radio.said, ["LowPower", "Online"]);
}

#[test]
fn card_answers_are_told_apart() {
    assert_eq!(parse_cpin(&lines(&["+CPIN: READY"]), "OK"), CardState::Ready);
    assert_eq!(
        parse_cpin(&lines(&["+CPIN: SIM PIN"]), "OK"),
        CardState::Locked("SIM PIN".into())
    );
    assert_eq!(parse_cpin(&[], "+CME ERROR: 14"), CardState::Initialising);
    assert_eq!(parse_cpin(&[], "+CME ERROR: 10"), CardState::Absent(10));
    assert_eq!(parse_cpin(&[], "+CME ERROR: 13"), CardState::Absent(13));
    assert_eq!(
        parse_cpin(&[], " +CME ERROR: 4 "),
        CardState::Unknown("+CME ERROR: 4".into())
    );
    assert_eq!(parse_cpin(&[], ""), CardState::Unknown("no answer".into()));
    assert_eq!(parse_cpin(&[], "ERROR"), CardState::Unknown("ERROR".into()));
    assert!(CardState::Initialising.waiting_can_help());
    assert!(CardState::Absent(10).waiting_can_help());
    assert!(CardState::Unknown("ERROR".into()).waiting_can_help());
    assert!(CardState::Ready.waiting_can_help());
    assert!(!CardState::Locked("SIM PIN".into()).waiting_can_help());
}

#[test]
fn radio_readings_are_numbers_after_their_prefix() {
    assert_eq!(parse_cfun(&lines(&["+CFUN: 1"])), Some(1));
    assert_eq!(parse_cfun(&lines(&["OK"])), None);
    assert_eq!(parse_qsimstat(&lines(&["+QSIMSTAT: 0,1"])), Some(true));
    assert_eq!(parse_qsimstat(&lines(&["+QSIMSTAT: 0,0"])), Some(false));
    assert_eq!(parse_qinistat(&lines(&["+QINISTAT: 7"])), Some(7));
}
