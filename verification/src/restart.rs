//! Restarting a module's radio without stranding it.
//!
//! `OperatingMode::Offline` was measured to be a one-way door on these modules:
//! from `+CFUN: 7` every QMI mode change is refused in both directions, and so
//! is every plain `AT+CFUN`. So it is never requested; `+CFUN?` is read before
//! and after, and the two readings decide the result, not the return codes of
//! the mode requests; a refusal is followed by a ladder of cheap rungs that do
//! not reset the module; and a module found already at `+CFUN: 7` is not
//! touched at all.
//!
//! `AT+CFUN=1,1` is the only measured cure for that state, and it is not fired
//! from here. A stranded module is not a dead one: the AT port answers, the
//! card is `READY`, and the eUICC can still be driven. A reset that fails to
//! re-enumerate loses all of that as well.

use crate::dms::OperatingMode;
use crate::text::{
    after_prefix, chars_of, decimal, is_space, joined_by, lower, number_in, owned, parse_number,
    pieces, push_decimal, push_joined, same_ignoring_case, same_text, slices, split, string_of,
    strip_prefix, texts, trim, trimmed,
};
use vstd::prelude::*;

verus! {

/// `+CFUN` values as an EC20 reports them.
///
/// 27.007 defines 0, 1 and 4. 7 is Quectel's own offline mode, and it is what
/// the module shows after QMI has been asked for `OperatingMode::Offline`.
pub const CFUN_MINIMUM: u8 = 0;

/// Full functionality — the only value a finished restart may leave behind.
pub const CFUN_FULL: u8 = 1;

/// Radio off, card still initialised.
pub const CFUN_DISABLE_RF: u8 = 4;

/// The stranded value. Getting in is easy; every documented way out fails.
pub const CFUN_OFFLINE: u8 = 7;

/// Said in every error where the module is, or is left, stranded, so the one
/// dangerous thing an operator may be about to type is described the same way
/// every time.
pub const CFUN_RESET_NOTE: &'static str = "the only measured way out of +CFUN: 7 is AT+CFUN=1,1 over the LAN-only /api/at endpoint; this agent will not issue it by itself, because a stranded module still has a working AT port, a READY card and a reachable eUICC, and a reset that fails to re-enumerate over USB/IP loses those too";

/// How long, in milliseconds, the module is given to act on a mode change
/// before a read-back is believed. `AT+CFUN=1` answers `OK` before the radio
/// is actually up.
pub const SETTLE_STEP_MS: u64 = 1500;

/// How many times the read-back is retried before the module is called stuck.
pub const SETTLE_ATTEMPTS: usize = 8;

/// The gap, in milliseconds, between `AT+CFUN=0` and `AT+CFUN=1` on the last
/// rung: the only interval this pair has ever been measured with.
pub const CFUN_CYCLE_GAP_MS: u64 = 3000;

/// How many times `AT+CPIN?` is read before the card is called "not ready
/// yet". An upper bound on patience, not a prediction of how long the card
/// takes: the success criterion is a state.
pub const CARD_ATTEMPTS: usize = 20;

/// Said whenever a restart ends with the radio up and the card not there.
pub const CARD_RECOVERY_NOTE: &'static str = "on this bench a card in this state has been brought back twice by AT+CFUN=0, a few seconds, then AT+CFUN=1 over the LAN-only /api/at endpoint (about 15s on 867018069514820, 2.3s on 867018069509705, neither left the USB bus); this agent will not issue it by itself, because two successes are an empirical regularity and not an established mechanism, and the failure it treats is not understood";

/// What the card says about itself, as read from `AT+CPIN?`.
///
/// Three separate things come back at three separate times after the radio is
/// told to come up — the radio, then the card, then the network — and this
/// type is about the middle one.
#[allow(inconsistent_fields)]
#[derive(Clone, Debug, PartialEq, Eq)]
pub enum CardState {
    /// `+CPIN: READY`. The card has finished initialising.
    Ready,
    /// `+CME ERROR: 14`, SIM busy. The card is initialising right now; this is
    /// the good intermediate state, and waiting is exactly the right response
    /// to it.
    Initialising,
    /// `+CME ERROR: 10` (not inserted) or `13` (SIM failure). Read literally
    /// this says there is no card, but a card answering 13 has gone
    /// 13 → 14 → `READY` on its own after a functionality cycle, so it is not
    /// treated as final either.
    Absent(u16),
    /// `+CPIN: SIM PIN` and its relatives. Someone has to type something; no
    /// amount of waiting turns this into `READY`, so the wait stops here.
    Locked(String),
    /// Anything else the module said.
    Unknown(String),
}

/// A card state, by what it says.
#[allow(inconsistent_fields)]
pub enum CardModel {
    Ready,
    Initialising,
    Absent(u16),
    Locked(Seq<char>),
    Unknown(Seq<char>),
}

impl View for CardState {
    type V = CardModel;

    open spec fn view(&self) -> CardModel {
        match *self {
            CardState::Ready => CardModel::Ready,
            CardState::Initialising => CardModel::Initialising,
            CardState::Absent(e) => CardModel::Absent(e),
            CardState::Locked(e) => CardModel::Locked(e@),
            CardState::Unknown(e) => CardModel::Unknown(e@),
        }
    }
}

impl CardModel {
    /// What the error says.
    pub open spec fn text(self) -> Seq<char> {
        match self {
            CardModel::Ready => "+CPIN: READY"@,
            CardModel::Initialising => "+CME ERROR: 14 (SIM busy, initialising)"@,
            CardModel::Absent(e) => "+CME ERROR: "@ + decimal(e as nat) + " (no usable card)"@,
            CardModel::Locked(e) => "+CPIN: "@ + e + " (waiting for a code)"@,
            CardModel::Unknown(e) => "unrecognised +CPIN answer: "@ + e,
        }
    }
}

impl CardState {
    pub fn push_to(&self, out: &mut String)
        ensures
            final(out)@ == old(out)@ + self@.text(),
    {
        match self {
            CardState::Ready => {
                out.append("+CPIN: READY");
            },
            CardState::Initialising => {
                out.append("+CME ERROR: 14 (SIM busy, initialising)");
            },
            CardState::Absent(e) => {
                out.append("+CME ERROR: ");
                push_decimal(out, *e as u64);
                out.append(" (no usable card)");
            },
            CardState::Locked(e) => {
                out.append("+CPIN: ");
                out.append(e.as_str());
                out.append(" (waiting for a code)");
            },
            CardState::Unknown(e) => {
                out.append("unrecognised +CPIN answer: ");
                out.append(e.as_str());
            },
        }
        proof {
            assert(out@ =~= old(out)@ + self@.text());
        }
    }

    pub fn to_string(&self) -> (text: String)
        ensures
            text@ == self@.text(),
    {
        let mut text: String = String::new();
        self.push_to(&mut text);
        proof {
            assert(text@ =~= self@.text());
        }
        text
    }
}

impl CardModel {
    /// Whether polling again could plausibly change the answer.
    pub open spec fn may_change(self) -> bool {
        !(self is Locked)
    }
}

impl CardState {
    /// The only state in which the module is usable by anything that touches
    /// the card — AKA, eUICC sessions, IMSI reads, messaging.
    pub fn is_ready(&self) -> (yes: bool)
        ensures
            yes == (self@ is Ready),
    {
        match self {
            CardState::Ready => true,
            _ => false,
        }
    }

    /// Whether polling again could plausibly change the answer.
    ///
    /// `false` only for a card that is waiting on a human. Everything else is
    /// worth re-reading until the bound runs out, including `Unknown`: an
    /// unrecognised answer is a reason to keep looking, not a reason to
    /// conclude.
    pub fn waiting_can_help(&self) -> (yes: bool)
        ensures
            yes == self@.may_change(),
    {
        match self {
            CardState::Locked(_) => false,
            _ => true,
        }
    }

    fn same(&self, other: &CardState) -> (yes: bool)
        ensures
            yes == (self@ == other@),
    {
        match (self, other) {
            (CardState::Ready, CardState::Ready) => true,
            (CardState::Initialising, CardState::Initialising) => true,
            (CardState::Absent(a), CardState::Absent(b)) => *a == *b,
            (CardState::Locked(a), CardState::Locked(b)) => same_text(a.as_str(), b.as_str()),
            (CardState::Unknown(a), CardState::Unknown(b)) => same_text(a.as_str(), b.as_str()),
            _ => false,
        }
    }

    fn copied(&self) -> (copy: CardState)
        ensures
            copy@ == self@,
    {
        match self {
            CardState::Ready => CardState::Ready,
            CardState::Initialising => CardState::Initialising,
            CardState::Absent(code) => CardState::Absent(*code),
            CardState::Locked(text) => CardState::Locked(owned(text.as_str())),
            CardState::Unknown(text) => CardState::Unknown(owned(text.as_str())),
        }
    }
}

/// The Quectel-specific readings taken alongside `AT+CPIN?`.
///
/// Recorded, never decisive. `AT+CPIN?` is the criterion; these two are
/// corroboration for whoever reads the report afterwards.
#[derive(Clone, Copy, Debug, PartialEq, Eq, Structural)]
pub struct CardEvidence {
    /// The second field of `+QSIMSTAT: <urc>,<inserted>`.
    pub inserted: Option<bool>,
    /// `+QINISTAT` as a bitmask: 1 CPIN done, 2 SMS done, 4 phonebook done,
    /// so 7 is everything and 0 is a card that has not started.
    pub init_status: Option<u8>,
}

impl Default for CardEvidence {
    fn default() -> (evidence: Self)
        ensures
            evidence == (CardEvidence { inserted: None, init_status: None }),
    {
        CardEvidence { inserted: None, init_status: None }
    }
}

impl CardEvidence {
    pub open spec fn text(self) -> Seq<char> {
        "+QSIMSTAT "@ + (match self.inserted {
            Some(true) => "inserted"@,
            Some(false) => "no card"@,
            None => "unread"@,
        }) + ", +QINISTAT "@ + (match self.init_status {
            Some(value) => decimal(value as nat),
            None => "unread"@,
        })
    }

    pub fn push_to(&self, out: &mut String)
        ensures
            final(out)@ == old(out)@ + self.text(),
    {
        out.append("+QSIMSTAT ");
        match self.inserted {
            Some(inserted) => {
                if inserted {
                    out.append("inserted");
                } else {
                    out.append("no card");
                }
            },
            None => {
                out.append("unread");
            },
        }
        out.append(", +QINISTAT ");
        match self.init_status {
            Some(value) => {
                push_decimal(out, value as u64);
            },
            None => {
                out.append("unread");
            },
        }
        proof {
            assert(out@ =~= old(out)@ + self.text());
        }
    }

    pub fn to_string(&self) -> (text: String)
        ensures
            text@ == self.text(),
    {
        let mut text: String = String::new();
        self.push_to(&mut text);
        proof {
            assert(text@ =~= self.text());
        }
        text
    }
}

// ---------------------------------------------------------------------------
// Reading AT answers
// ---------------------------------------------------------------------------

/// What follows a prefix on a line, the space in front of it skipped.
pub open spec fn answer_on(line: Seq<char>, prefix: Seq<char>) -> Option<Seq<char>> {
    after_prefix(trimmed(line), prefix)
}

/// The card state that the first `+CPIN:` line gives.
pub open spec fn cpin_in(lines: Seq<Seq<char>>) -> Option<CardModel>
    decreases lines.len(),
{
    if lines.len() == 0 {
        None
    } else {
        match answer_on(lines[0], "+CPIN:"@) {
            Some(rest) => Some(
                if lower(trimmed(rest)) == lower("READY"@) {
                    CardModel::Ready
                } else {
                    CardModel::Locked(trimmed(rest))
                },
            ),
            None => cpin_in(lines.skip(1)),
        }
    }
}

/// The card state that a terminator gives where no line does.
pub open spec fn cpin_end(terminator: Seq<char>) -> CardModel {
    let end = trimmed(terminator);
    let code = match after_prefix(end, "+CME ERROR:"@) {
        Some(rest) => number_in(trimmed(rest), 0xffff),
        None => None,
    };
    if code == Some(14nat) {
        CardModel::Initialising
    } else if code == Some(10nat) || code == Some(13nat) {
        CardModel::Absent(code->0 as u16)
    } else if end.len() == 0 {
        CardModel::Unknown("no answer"@)
    } else {
        CardModel::Unknown(end)
    }
}

/// What an `AT+CPIN?` exchange says of the card.
pub open spec fn card_in(lines: Seq<Seq<char>>, terminator: Seq<char>) -> CardModel {
    match cpin_in(lines) {
        Some(state) => state,
        None => cpin_end(terminator),
    }
}

/// Read an `AT+CPIN?` exchange the way the module actually answers it.
///
/// Both halves matter: a ready card answers on a `+CPIN:` line and terminates
/// `OK`, while a card that is missing or busy produces **no lines at all** and
/// puts everything in the terminator.
pub fn parse_cpin(lines: &[String], terminator: &str) -> (state: CardState)
    ensures
        state@ == card_in(texts(lines@), terminator@),
{
    let ghost all = texts(lines@);
    let mut i: usize = 0;
    proof {
        assert(all.skip(0) =~= all);
    }
    while i < lines.len()
        invariant
            i <= lines@.len(),
            all == texts(lines@),
            cpin_in(all.skip(i as int)) == cpin_in(all),
        decreases lines@.len() - i,
    {
        proof {
            assert(all.skip(i as int).skip(1) =~= all.skip(i + 1));
            assert(all.skip(i as int)[0] == lines@[i as int]@);
        }
        let chars: Vec<char> = chars_of(lines[i].as_str());
        if let Some(rest) = strip_prefix(trim(&chars), "+CPIN:") {
            let value: String = string_of(trim(rest));
            if same_ignoring_case(value.as_str(), "READY") {
                return CardState::Ready;
            }
            return CardState::Locked(value);
        }
        i = i + 1;
    }
    let chars: Vec<char> = chars_of(terminator);
    let end: &[char] = trim(&chars);
    if let Some(rest) = strip_prefix(end, "+CME ERROR:") {
        if let Some(code) = parse_number(trim(rest), 0xffff) {
            if code == 14 {
                return CardState::Initialising;
            }
            if code == 10 || code == 13 {
                return CardState::Absent(code as u16);
            }
        }
    }
    if end.len() == 0 {
        CardState::Unknown(owned("no answer"))
    } else {
        CardState::Unknown(string_of(end))
    }
}

/// The insertion flag on a line: its second field.
pub open spec fn qsimstat_on(line: Seq<char>) -> Option<bool> {
    match answer_on(line, "+QSIMSTAT:"@) {
        None => None,
        Some(rest) => if pieces(rest, ',').len() > 1 {
            Some(trimmed(pieces(rest, ',')[1]) == "1"@)
        } else {
            None
        },
    }
}

/// The insertion flag that the first `+QSIMSTAT:` line with one gives.
pub open spec fn qsimstat_in(lines: Seq<Seq<char>>) -> Option<bool>
    decreases lines.len(),
{
    if lines.len() == 0 {
        None
    } else {
        match qsimstat_on(lines[0]) {
            Some(value) => Some(value),
            None => qsimstat_in(lines.skip(1)),
        }
    }
}

/// The insertion flag out of `+QSIMSTAT: <urc>,<inserted>`.
pub fn parse_qsimstat(lines: &[String]) -> (value: Option<bool>)
    ensures
        value == qsimstat_in(texts(lines@)),
{
    let ghost all = texts(lines@);
    let mut i: usize = 0;
    proof {
        assert(all.skip(0) =~= all);
    }
    while i < lines.len()
        invariant
            i <= lines@.len(),
            all == texts(lines@),
            qsimstat_in(all.skip(i as int)) == qsimstat_in(all),
        decreases lines@.len() - i,
    {
        proof {
            assert(all.skip(i as int).skip(1) =~= all.skip(i + 1));
            assert(all.skip(i as int)[0] == lines@[i as int]@);
        }
        let chars: Vec<char> = chars_of(lines[i].as_str());
        if let Some(rest) = strip_prefix(trim(&chars), "+QSIMSTAT:") {
            let parts: Vec<&[char]> = split(rest, ',');
            proof {
                assert(slices(parts@)[0] == parts@[0]@);
                if parts@.len() > 1 {
                    assert(slices(parts@)[1] == parts@[1]@);
                }
            }
            if parts.len() > 1 {
                let flag: String = string_of(trim(parts[1]));
                return Some(same_text(flag.as_str(), "1"));
            }
        }
        i = i + 1;
    }
    None
}

/// The bitmask on a line.
pub open spec fn qinistat_on(line: Seq<char>) -> Option<u8> {
    match answer_on(line, "+QINISTAT:"@) {
        None => None,
        Some(rest) => {
            match number_in(trimmed(pieces(rest, ',')[0]), 255) {
                Some(n) => Some(n as u8),
                None => None,
            }
        },
    }
}

/// The bitmask that the first `+QINISTAT:` line with one gives.
pub open spec fn qinistat_in(lines: Seq<Seq<char>>) -> Option<u8>
    decreases lines.len(),
{
    if lines.len() == 0 {
        None
    } else {
        match qinistat_on(lines[0]) {
            Some(value) => Some(value),
            None => qinistat_in(lines.skip(1)),
        }
    }
}

/// The bitmask out of `+QINISTAT: <mask>`.
pub fn parse_qinistat(lines: &[String]) -> (value: Option<u8>)
    ensures
        value == qinistat_in(texts(lines@)),
{
    let ghost all = texts(lines@);
    let mut i: usize = 0;
    proof {
        assert(all.skip(0) =~= all);
    }
    while i < lines.len()
        invariant
            i <= lines@.len(),
            all == texts(lines@),
            qinistat_in(all.skip(i as int)) == qinistat_in(all),
        decreases lines@.len() - i,
    {
        proof {
            assert(all.skip(i as int).skip(1) =~= all.skip(i + 1));
            assert(all.skip(i as int)[0] == lines@[i as int]@);
        }
        let chars: Vec<char> = chars_of(lines[i].as_str());
        if let Some(rest) = strip_prefix(trim(&chars), "+QINISTAT:") {
            let parts: Vec<&[char]> = split(rest, ',');
            proof {
                assert(slices(parts@)[0] == parts@[0]@);
                if parts@.len() > 1 {
                    assert(slices(parts@)[1] == parts@[1]@);
                }
            }
            if let Some(value) = parse_number(trim(parts[0]), 255) {
                return Some(value as u8);
            }
        }
        i = i + 1;
    }
    None
}

/// The functionality on a line.
pub open spec fn cfun_on(line: Seq<char>) -> Option<u8> {
    match answer_on(line, "+CFUN:"@) {
        None => None,
        Some(rest) => {
            match number_in(trimmed(pieces(rest, ',')[0]), 255) {
                Some(n) => Some(n as u8),
                None => None,
            }
        },
    }
}

/// The value that the first `+CFUN:` line with one gives.
pub open spec fn cfun_in(lines: Seq<Seq<char>>) -> Option<u8>
    decreases lines.len(),
{
    if lines.len() == 0 {
        None
    } else {
        match cfun_on(lines[0]) {
            Some(value) => Some(value),
            None => cfun_in(lines.skip(1)),
        }
    }
}

/// Read a `+CFUN:` value out of the lines of an `AT+CFUN?` exchange.
///
/// Tolerant of the second parameter some firmware appends and of leading
/// whitespace, because the answer is only ever compared against a small set of
/// known values.
pub fn parse_cfun(lines: &[String]) -> (value: Option<u8>)
    ensures
        value == cfun_in(texts(lines@)),
{
    let ghost all = texts(lines@);
    let mut i: usize = 0;
    proof {
        assert(all.skip(0) =~= all);
    }
    while i < lines.len()
        invariant
            i <= lines@.len(),
            all == texts(lines@),
            cfun_in(all.skip(i as int)) == cfun_in(all),
        decreases lines@.len() - i,
    {
        proof {
            assert(all.skip(i as int).skip(1) =~= all.skip(i + 1));
            assert(all.skip(i as int)[0] == lines@[i as int]@);
        }
        let chars: Vec<char> = chars_of(lines[i].as_str());
        if let Some(rest) = strip_prefix(trim(&chars), "+CFUN:") {
            let parts: Vec<&[char]> = split(rest, ',');
            proof {
                assert(slices(parts@)[0] == parts@[0]@);
                if parts@.len() > 1 {
                    assert(slices(parts@)[1] == parts@[1]@);
                }
            }
            if let Some(value) = parse_number(trim(parts[0]), 255) {
                return Some(value as u8);
            }
        }
        i = i + 1;
    }
    None
}

// ---------------------------------------------------------------------------
// The module
// ---------------------------------------------------------------------------

/// One thing that a module is asked.
#[derive(Clone, Copy, Debug, PartialEq, Eq, Structural)]
pub enum RadioCommand {
    ReadMode,
    SetMode(OperatingMode),
    ReadFunctionality,
    WriteFunctionality(u8),
    ReadCard,
    ReadEvidence,
    Pause(u64),
}

/// A module, seen over the whole restart: the answers it has still to give, of
/// each kind the next one first, and what it was asked, the last thing last.
pub struct RadioModel {
    pub modes: spec_fn(nat) -> Result<OperatingMode, Seq<char>>,
    pub mode_answers: spec_fn(nat) -> Result<(), Seq<char>>,
    pub functionalities: spec_fn(nat) -> Result<Option<u8>, Seq<char>>,
    pub functionality_answers: spec_fn(nat) -> Result<bool, Seq<char>>,
    pub cards: spec_fn(nat) -> Result<CardModel, Seq<char>>,
    pub evidence: spec_fn(nat) -> CardEvidence,
    pub asked: Seq<RadioCommand>,
}

/// The mode is read.
pub open spec fn mode_read(radio: RadioModel) -> (Result<OperatingMode, Seq<char>>, RadioModel) {
    (
        (radio.modes)(0),
        RadioModel {
            modes: |n: nat| (radio.modes)(n + 1),
            asked: radio.asked.push(RadioCommand::ReadMode),
            ..radio
        },
    )
}

/// A mode is asked for.
pub open spec fn mode_set(radio: RadioModel, mode: OperatingMode) -> (Result<(), Seq<char>>, RadioModel) {
    (
        (radio.mode_answers)(0),
        RadioModel {
            mode_answers: |n: nat| (radio.mode_answers)(n + 1),
            asked: radio.asked.push(RadioCommand::SetMode(mode)),
            ..radio
        },
    )
}

/// The functionality is read.
pub open spec fn functionality_read(radio: RadioModel) -> (Result<Option<u8>, Seq<char>>, RadioModel) {
    (
        (radio.functionalities)(0),
        RadioModel {
            functionalities: |n: nat| (radio.functionalities)(n + 1),
            asked: radio.asked.push(RadioCommand::ReadFunctionality),
            ..radio
        },
    )
}

/// A functionality is asked for.
pub open spec fn functionality_written(radio: RadioModel, value: u8) -> (Result<bool, Seq<char>>, RadioModel) {
    (
        (radio.functionality_answers)(0),
        RadioModel {
            functionality_answers: |n: nat| (radio.functionality_answers)(n + 1),
            asked: radio.asked.push(RadioCommand::WriteFunctionality(value)),
            ..radio
        },
    )
}

/// The card is read.
pub open spec fn card_read(radio: RadioModel) -> (Result<CardModel, Seq<char>>, RadioModel) {
    (
        (radio.cards)(0),
        RadioModel {
            cards: |n: nat| (radio.cards)(n + 1),
            asked: radio.asked.push(RadioCommand::ReadCard),
            ..radio
        },
    )
}

/// The corroborating readings are taken.
pub open spec fn evidence_read(radio: RadioModel) -> (CardEvidence, RadioModel) {
    (
        (radio.evidence)(0),
        RadioModel {
            evidence: |n: nat| (radio.evidence)(n + 1),
            asked: radio.asked.push(RadioCommand::ReadEvidence),
            ..radio
        },
    )
}

/// The module is given time.
pub open spec fn paused(radio: RadioModel, milliseconds: u64) -> RadioModel {
    RadioModel { asked: radio.asked.push(RadioCommand::Pause(milliseconds)), ..radio }
}

/// An answer that stands for itself, or why there is none.
pub open spec fn plainly<A>(answer: Result<A, String>) -> Result<A, Seq<char>> {
    match answer {
        Ok(value) => Ok(value),
        Err(reason) => Err(reason@),
    }
}

/// A card reading, by what it says.
pub open spec fn card_reading(answer: Result<CardState, String>) -> Result<CardModel, Seq<char>> {
    match answer {
        Ok(state) => Ok(state@),
        Err(reason) => Err(reason@),
    }
}

/// The two control paths a radio restart needs on one module.
///
/// QMI and AT reach the same firmware over different USB interfaces of the
/// same stick, and a restart has to interleave them: the mode change is a QMI
/// request and the only trustworthy read-back is an AT one. Both sit behind
/// this trait so that the ladder above them can be exercised without hardware.
pub trait ModuleRadio {
    spec fn radio(&self) -> RadioModel;

    /// `QMI_DMS_GET_OPERATING_MODE`.
    fn operating_mode(&mut self) -> (answer: Result<OperatingMode, String>)
        ensures
            (plainly(answer), final(self).radio()) == mode_read(old(self).radio()),
    ;

    /// `QMI_DMS_SET_OPERATING_MODE`.
    fn set_operating_mode(&mut self, mode: OperatingMode) -> (answer: Result<(), String>)
        ensures
            (plainly(answer), final(self).radio()) == mode_set(old(self).radio(), mode),
    ;

    /// `AT+CFUN?`. `Ok(None)` means the module answered without a `+CFUN:`
    /// line; `Err` means the port itself could not be used.
    fn read_functionality(&mut self) -> (answer: Result<Option<u8>, String>)
        ensures
            (plainly(answer), final(self).radio()) == functionality_read(old(self).radio()),
    ;

    /// `AT+CFUN=<value>`. `Ok(false)` means the module answered with an error
    /// result code, which is still an answer; `Err` is for losing the port.
    fn write_functionality(&mut self, value: u8) -> (answer: Result<bool, String>)
        ensures
            (plainly(answer), final(self).radio()) == functionality_written(
                old(self).radio(),
                value,
            ),
    ;

    /// `AT+CPIN?`.
    ///
    /// Every answer, `+CME ERROR` among them, is a reading and comes back as
    /// `Ok`; `Err` is only for losing the port. That is the opposite of
    /// `read_functionality`, on purpose — there, an error result code means the
    /// module will not say where its radio is and the restart must not proceed;
    /// here, the error codes *are* the interesting states.
    fn read_card_state(&mut self) -> (answer: Result<CardState, String>)
        ensures
            (card_reading(answer), final(self).radio()) == card_read(old(self).radio()),
    ;

    /// `AT+QSIMSTAT?` and `AT+QINISTAT`, for the report only. A module that
    /// cannot be asked them has nothing to say here.
    fn read_card_evidence(&mut self) -> (evidence: CardEvidence)
        ensures
            (evidence, final(self).radio()) == evidence_read(old(self).radio()),
    ;

    /// Wait for the module to act on what it was just told.
    fn pause(&mut self, milliseconds: u64)
        ensures
            final(self).radio() == paused(old(self).radio(), milliseconds),
    ;
}

// ---------------------------------------------------------------------------
// The report
// ---------------------------------------------------------------------------

/// A card state that may be absent.
pub open spec fn opt_card(state: Option<CardState>) -> Option<CardModel> {
    match state {
        Some(s) => Some(s@),
        None => None,
    }
}

/// What a restart did, and where it left the module.
///
/// Carried on success as well as on failure: "it worked" is not a useful
/// receipt for an operation whose whole problem was reporting a success it had
/// not earned.
#[derive(Clone, Debug, PartialEq, Eq)]
pub struct RestartReport {
    pub cfun_before: Option<u8>,
    pub cfun_after: Option<u8>,
    pub mode_after: Option<OperatingMode>,
    /// Where the card was when the wait for it ended. `None` means the radio
    /// never came back, so the card was never reached.
    pub card_after: Option<CardState>,
    /// The corroborating card readings, where they could be taken.
    pub card_evidence: CardEvidence,
    /// Every rung that was attempted, in order.
    pub steps: Vec<String>,
}

/// The report, by what it says.
#[verifier::ext_equal]
pub struct ReportModel {
    pub cfun_before: Option<u8>,
    pub cfun_after: Option<u8>,
    pub mode_after: Option<OperatingMode>,
    pub card_after: Option<CardModel>,
    pub card_evidence: CardEvidence,
    pub steps: Seq<Seq<char>>,
}

impl View for RestartReport {
    type V = ReportModel;

    open spec fn view(&self) -> ReportModel {
        ReportModel {
            cfun_before: self.cfun_before,
            cfun_after: self.cfun_after,
            mode_after: self.mode_after,
            card_after: opt_card(self.card_after),
            card_evidence: self.card_evidence,
            steps: texts(self.steps@),
        }
    }
}

/// Nothing done yet.
pub open spec fn blank_report() -> ReportModel {
    ReportModel {
        cfun_before: None,
        cfun_after: None,
        mode_after: None,
        card_after: None,
        card_evidence: (CardEvidence { inserted: None, init_status: None }),
        steps: Seq::empty(),
    }
}

impl Default for RestartReport {
    fn default() -> (value: Self)
        ensures
            value@ == blank_report(),
    {
        let value = RestartReport {
            cfun_before: None,
            cfun_after: None,
            mode_after: None,
            card_after: None,
            card_evidence: CardEvidence::default(),
            steps: Vec::new(),
        };
        proof {
            assert(value@ =~= blank_report());
        }
        value
    }
}

/// What a functionality is called.
pub open spec fn cfun_text(value: Option<u8>) -> Seq<char> {
    match value {
        Some(v) => if v == CFUN_MINIMUM {
            "+CFUN: 0 (minimum)"@
        } else if v == CFUN_FULL {
            "+CFUN: 1 (full)"@
        } else if v == CFUN_DISABLE_RF {
            "+CFUN: 4 (radio off)"@
        } else if v == CFUN_OFFLINE {
            "+CFUN: 7 (offline, stranded)"@
        } else {
            "+CFUN: "@ + decimal(v as nat)
        },
        None => "no +CFUN line"@,
    }
}

fn push_cfun(out: &mut String, value: Option<u8>)
    ensures
        final(out)@ == old(out)@ + cfun_text(value),
{
    match value {
        Some(v) => {
            if v == CFUN_MINIMUM {
                out.append("+CFUN: 0 (minimum)");
            } else if v == CFUN_FULL {
                out.append("+CFUN: 1 (full)");
            } else if v == CFUN_DISABLE_RF {
                out.append("+CFUN: 4 (radio off)");
            } else if v == CFUN_OFFLINE {
                out.append("+CFUN: 7 (offline, stranded)");
            } else {
                out.append("+CFUN: ");
                push_decimal(out, v as u64);
            }
        },
        None => {
            out.append("no +CFUN line");
        },
    }
    proof {
        assert(out@ =~= old(out)@ + cfun_text(value));
    }
}

/// What a mode is called in a report.
pub open spec fn mode_text(mode: Option<OperatingMode>) -> Seq<char> {
    match mode {
        Some(m) => match m {
            OperatingMode::Online => "Online"@,
            OperatingMode::LowPower => "LowPower"@,
            OperatingMode::FactoryTest => "FactoryTest"@,
            OperatingMode::Offline => "Offline"@,
            OperatingMode::Resetting => "Resetting"@,
            OperatingMode::ShuttingDown => "ShuttingDown"@,
            OperatingMode::PersistentLowPower => "PersistentLowPower"@,
            OperatingMode::ModeOnlyLowPower => "ModeOnlyLowPower"@,
            OperatingMode::Unknown(value) => "Unknown("@ + decimal(value as nat) + ")"@,
        },
        None => "unreadable"@,
    }
}

fn push_mode(out: &mut String, mode: Option<OperatingMode>)
    ensures
        final(out)@ == old(out)@ + mode_text(mode),
{
    match mode {
        Some(m) => match m {
            OperatingMode::Online => {
                out.append("Online");
            },
            OperatingMode::LowPower => {
                out.append("LowPower");
            },
            OperatingMode::FactoryTest => {
                out.append("FactoryTest");
            },
            OperatingMode::Offline => {
                out.append("Offline");
            },
            OperatingMode::Resetting => {
                out.append("Resetting");
            },
            OperatingMode::ShuttingDown => {
                out.append("ShuttingDown");
            },
            OperatingMode::PersistentLowPower => {
                out.append("PersistentLowPower");
            },
            OperatingMode::ModeOnlyLowPower => {
                out.append("ModeOnlyLowPower");
            },
            OperatingMode::Unknown(value) => {
                out.append("Unknown(");
                push_decimal(out, value as u64);
                out.append(")");
            },
        },
        None => {
            out.append("unreadable");
        },
    }
    proof {
        assert(out@ =~= old(out)@ + mode_text(mode));
    }
}

impl ReportModel {
    pub open spec fn text(self) -> Seq<char> {
        "before "@ + cfun_text(self.cfun_before) + ", after "@ + cfun_text(self.cfun_after)
            + ", QMI "@ + mode_text(self.mode_after) + ", card "@ + (match self.card_after {
            Some(state) => state.text(),
            None => "not reached"@,
        }) + " ("@ + self.card_evidence.text() + "); tried: "@ + (if self.steps.len() == 0 {
            "nothing"@
        } else {
            joined_by(self.steps, " | "@)
        })
    }
}

impl RestartReport {
    pub fn push_to(&self, out: &mut String)
        ensures
            final(out)@ == old(out)@ + self@.text(),
    {
        out.append("before ");
        push_cfun(out, self.cfun_before);
        out.append(", after ");
        push_cfun(out, self.cfun_after);
        out.append(", QMI ");
        push_mode(out, self.mode_after);
        out.append(", card ");
        match &self.card_after {
            Some(state) => {
                state.push_to(out);
            },
            None => {
                out.append("not reached");
            },
        }
        out.append(" (");
        self.card_evidence.push_to(out);
        out.append("); tried: ");
        if self.steps.len() == 0 {
            out.append("nothing");
        } else {
            push_joined(out, &self.steps, " | ");
        }
        proof {
            assert(out@ =~= old(out)@ + self@.text());
        }
    }

    pub fn to_string(&self) -> (text: String)
        ensures
            text@ == self@.text(),
    {
        let mut text: String = String::new();
        self.push_to(&mut text);
        proof {
            assert(text@ =~= self@.text());
        }
        text
    }
}

/// Why a restart did not finish cleanly.
#[allow(inconsistent_fields)]
#[derive(Clone, Debug, PartialEq, Eq)]
pub enum RestartError {
    /// `AT+CFUN?` could not be read, so nothing was done to the radio.
    Unverifiable { reason: String },
    /// A control port stopped answering. `step` says what was in flight,
    /// because "we never started" and "we are half way" are different states
    /// for the next operator to inherit.
    Port { step: String, reason: String, report: RestartReport },
    /// The module was already at `+CFUN: 7` when the restart was asked for.
    /// Nothing was sent to it.
    AlreadyStranded(RestartReport),
    /// The module went down and would not come back, and every non-resetting
    /// rung has been tried.
    Stranded(RestartReport),
    /// The module answered, but not where it was asked to be — QMI and
    /// `+CFUN?` disagreeing about where that is among the cases.
    NotRestored(RestartReport),
    /// The radio came back and the card did not. **This is not a failed
    /// restart** — see `radio_restored`.
    CardNotReady(RestartReport),
}

/// What an error says.
#[allow(inconsistent_fields)]
pub enum RestartFault {
    Unverifiable { reason: Seq<char> },
    Port { step: Seq<char>, reason: Seq<char>, report: ReportModel },
    AlreadyStranded(ReportModel),
    Stranded(ReportModel),
    NotRestored(ReportModel),
    CardNotReady(ReportModel),
}

impl View for RestartError {
    type V = RestartFault;

    open spec fn view(&self) -> RestartFault {
        match *self {
            RestartError::Unverifiable { reason } => RestartFault::Unverifiable { reason: reason@ },
            RestartError::Port { step, reason, report } => RestartFault::Port {
                step: step@,
                reason: reason@,
                report: report@,
            },
            RestartError::AlreadyStranded(e) => RestartFault::AlreadyStranded(e@),
            RestartError::Stranded(e) => RestartFault::Stranded(e@),
            RestartError::NotRestored(e) => RestartFault::NotRestored(e@),
            RestartError::CardNotReady(e) => RestartFault::CardNotReady(e@),
        }
    }
}

impl RestartFault {
    /// What the error says.
    pub open spec fn text(self) -> Seq<char> {
        match self {
            RestartFault::Unverifiable { reason } => "refusing to restart: AT+CFUN? could not be read ("@
                + reason + "), so there would be no way to tell whether the radio came back"@,
            RestartFault::Port { step, reason, report } => "restart lost the module at "@ + step
                + ": "@ + reason + "; "@ + report.text(),
            RestartFault::AlreadyStranded(e) => "this module is already stranded offline and a restart cannot help it: every QMI mode change from here was measured to be refused with error 60 ("@
                + e.text() + "); "@ + CFUN_RESET_NOTE@,
            RestartFault::Stranded(e) => "the module did not come back online ("@ + e.text()
                + "); "@ + CFUN_RESET_NOTE@,
            RestartFault::NotRestored(e) => "restart did not leave the module online ("@
                + e.text()
                + "); the radio is down but not stranded, so bringing it up with the radio control or asking for another restart is the next thing to try"@,
            RestartFault::CardNotReady(e) => "the radio came back but the card did not: AT+CPIN? never reached READY ("@
                + e.text()
                + "); the module is online and answering, so this is not a failed restart and asking for another one is not the fix — "@
                + CARD_RECOVERY_NOTE@,
        }
    }
}

impl RestartError {
    pub fn push_to(&self, out: &mut String)
        ensures
            final(out)@ == old(out)@ + self@.text(),
    {
        match self {
            RestartError::Unverifiable { reason } => {
                out.append("refusing to restart: AT+CFUN? could not be read (");
                out.append(reason.as_str());
                out.append("), so there would be no way to tell whether the radio came back");
            },
            RestartError::Port { step, reason, report } => {
                out.append("restart lost the module at ");
                out.append(step.as_str());
                out.append(": ");
                out.append(reason.as_str());
                out.append("; ");
                report.push_to(out);
            },
            RestartError::AlreadyStranded(e) => {
                out.append(
                    "this module is already stranded offline and a restart cannot help it: every QMI mode change from here was measured to be refused with error 60 (",
                );
                e.push_to(out);
                out.append("); ");
                out.append(CFUN_RESET_NOTE);
            },
            RestartError::Stranded(e) => {
                out.append("the module did not come back online (");
                e.push_to(out);
                out.append("); ");
                out.append(CFUN_RESET_NOTE);
            },
            RestartError::NotRestored(e) => {
                out.append("restart did not leave the module online (");
                e.push_to(out);
                out.append(
                    "); the radio is down but not stranded, so bringing it up with the radio control or asking for another restart is the next thing to try",
                );
            },
            RestartError::CardNotReady(e) => {
                out.append(
                    "the radio came back but the card did not: AT+CPIN? never reached READY (",
                );
                e.push_to(out);
                out.append(
                    "); the module is online and answering, so this is not a failed restart and asking for another one is not the fix — ",
                );
                out.append(CARD_RECOVERY_NOTE);
            },
        }
        proof {
            assert(out@ =~= old(out)@ + self@.text());
        }
    }

    pub fn to_string(&self) -> (text: String)
        ensures
            text@ == self@.text(),
    {
        let mut text: String = String::new();
        self.push_to(&mut text);
        proof {
            assert(text@ =~= self@.text());
        }
        text
    }
}

impl RestartError {
    /// The report, where there is one. For a caller that wants to log what was
    /// tried even though the call failed.
    pub fn report(&self) -> (report: Option<&RestartReport>)
        ensures
            match self@ {
                RestartFault::Unverifiable { .. } => report is None,
                RestartFault::Port { report: r, .. } => report is Some && report->0@ == r,
                RestartFault::AlreadyStranded(r) => report is Some && report->0@ == r,
                RestartFault::Stranded(r) => report is Some && report->0@ == r,
                RestartFault::NotRestored(r) => report is Some && report->0@ == r,
                RestartFault::CardNotReady(r) => report is Some && report->0@ == r,
            },
    {
        match self {
            RestartError::Unverifiable { .. } => None,
            RestartError::Port { report, .. } => Some(report),
            RestartError::AlreadyStranded(report) => Some(report),
            RestartError::Stranded(report) => Some(report),
            RestartError::NotRestored(report) => Some(report),
            RestartError::CardNotReady(report) => Some(report),
        }
    }

    /// Whether the radio is up despite this not being an `Ok`: the restart
    /// worked, the radio is online, and the card on it is not usable. That is
    /// not an argument for restarting again.
    pub fn radio_restored(&self) -> (yes: bool)
        ensures
            yes == (self@ is CardNotReady),
    {
        match self {
            RestartError::CardNotReady(_) => true,
            _ => false,
        }
    }

    /// A short, stable code for the command result, so the console can tell
    /// these apart without parsing prose.
    pub fn code(&self) -> (code: &'static str)
        ensures
            code == self@.code_of(),
    {
        match self {
            RestartError::Unverifiable { .. } => "restart_unverifiable",
            RestartError::Port { .. } => "restart_port_lost",
            RestartError::AlreadyStranded(_) => "modem_already_stranded",
            RestartError::Stranded(_) => "modem_stranded_offline",
            RestartError::NotRestored(_) => "restart_not_restored",
            RestartError::CardNotReady(_) => "restart_card_not_ready",
        }
    }
}

impl RestartFault {
    pub open spec fn code_of(self) -> &'static str {
        match self {
            RestartFault::Unverifiable { .. } => "restart_unverifiable",
            RestartFault::Port { .. } => "restart_port_lost",
            RestartFault::AlreadyStranded(_) => "modem_already_stranded",
            RestartFault::Stranded(_) => "modem_stranded_offline",
            RestartFault::NotRestored(_) => "restart_not_restored",
            RestartFault::CardNotReady(_) => "restart_card_not_ready",
        }
    }
}

// ---------------------------------------------------------------------------
// The ladder
// ---------------------------------------------------------------------------

/// A report with one more step.
pub open spec fn noted(report: ReportModel, step: Seq<char>) -> ReportModel {
    ReportModel { steps: report.steps.push(step), ..report }
}

fn note(report: &mut RestartReport, step: String)
    ensures
        final(report)@ == noted(old(report)@, step@),
{
    let ghost before = texts(report.steps@);
    report.steps.push(step);
    proof {
        assert(texts(report.steps@) =~= before.push(step@));
        assert(report@ =~= noted(old(report)@, step@));
    }
}

fn note_with(report: &mut RestartReport, what: &str, detail: &str)
    ensures
        final(report)@ == noted(old(report)@, what@ + detail@),
{
    let mut step: String = owned(what);
    step.append(detail);
    note(report, step);
}

fn note_cfun(report: &mut RestartReport, what: &str, value: Option<u8>)
    ensures
        final(report)@ == noted(old(report)@, what@ + cfun_text(value)),
{
    let mut step: String = owned(what);
    push_cfun(&mut step, value);
    note(report, step);
}

/// Waiting for `+CFUN: 1`, at most `left` readings of it: whether it came, the
/// module after it, and the report.
pub open spec fn full_awaited(radio: RadioModel, report: ReportModel, left: nat) -> (
    bool,
    RadioModel,
    ReportModel,
)
    decreases left,
{
    if left == 0 {
        (false, radio, report)
    } else {
        let (reading, after) = functionality_read(radio);
        match reading {
            Err(reason) => (false, after, noted(report, "AT+CFUN? unreadable: "@ + reason)),
            Ok(value) => if value == Some(CFUN_FULL) {
                (true, after, report)
            } else if left == 1 {
                (false, after, report)
            } else {
                full_awaited(paused(after, SETTLE_STEP_MS), report, (left - 1) as nat)
            },
        }
    }
}

/// The first rung: QMI is asked again.
pub open spec fn first_rung(radio: RadioModel, report: ReportModel) -> (
    bool,
    RadioModel,
    ReportModel,
) {
    let (answer, after) = mode_set(paused(radio, SETTLE_STEP_MS), OperatingMode::Online);
    match answer {
        Ok(_) => full_awaited(
            after,
            noted(report, "QMI online accepted on retry"@),
            SETTLE_ATTEMPTS as nat,
        ),
        Err(reason) => (false, after, noted(report, "QMI online refused again: "@ + reason)),
    }
}

/// The last rung: `AT+CFUN=0`, the measured gap, `AT+CFUN=1`.
pub open spec fn last_rung(radio: RadioModel, report: ReportModel) -> (RadioModel, ReportModel) {
    let (down, after) = functionality_written(radio, CFUN_MINIMUM);
    match down {
        Err(reason) => (after, noted(report, "AT+CFUN=0 unusable: "@ + reason)),
        Ok(false) => (after, noted(report, "AT+CFUN=0 rejected"@)),
        Ok(true) => {
            let report = noted(report, "AT+CFUN=0 accepted"@);
            let (up, last) = functionality_written(
                paused(after, CFUN_CYCLE_GAP_MS),
                CFUN_FULL,
            );
            match up {
                Err(reason) => (
                    last,
                    noted(report, "AT+CFUN=1 unusable after AT+CFUN=0: "@ + reason),
                ),
                Ok(false) => (last, noted(report, "AT+CFUN=1 rejected after AT+CFUN=0"@)),
                Ok(true) => {
                    let (_, end, report) = full_awaited(
                        last,
                        noted(report, "AT+CFUN=1 accepted after AT+CFUN=0"@),
                        SETTLE_ATTEMPTS as nat,
                    );
                    (end, report)
                },
            }
        },
    }
}

/// Everything that is tried to bring a module back without resetting it.
pub open spec fn climbed(radio: RadioModel, report: ReportModel) -> (RadioModel, ReportModel) {
    let (back, r1, report) = first_rung(radio, report);
    if back {
        (r1, report)
    } else {
        let (answer, r2) = functionality_written(r1, CFUN_FULL);
        match answer {
            Err(reason) => (r2, noted(report, "AT+CFUN=1 unusable: "@ + reason)),
            Ok(false) => last_rung(r2, noted(report, "AT+CFUN=1 rejected"@)),
            Ok(true) => {
                let (back, r3, report) = full_awaited(
                    r2,
                    noted(report, "AT+CFUN=1 accepted"@),
                    SETTLE_ATTEMPTS as nat,
                );
                if back {
                    (r3, report)
                } else {
                    last_rung(r3, report)
                }
            },
        }
    }
}

/// Waiting for a card that is ready or waits on a human, at most `left`
/// readings of it. Only changes are noted.
pub open spec fn card_awaited(
    radio: RadioModel,
    report: ReportModel,
    last: Option<CardModel>,
    left: nat,
) -> (Result<CardModel, Seq<char>>, RadioModel, ReportModel)
    decreases left,
{
    let (reading, after) = card_read(radio);
    match reading {
        Err(reason) => (Err(reason), after, report),
        Ok(state) => {
            let report = if last == Some(state) {
                report
            } else {
                noted(report, "card "@ + state.text())
            };
            if state is Ready || !state.may_change() || left <= 1 {
                (Ok(state), after, report)
            } else {
                card_awaited(
                    paused(after, SETTLE_STEP_MS),
                    report,
                    Some(state),
                    (left - 1) as nat,
                )
            }
        },
    }
}

/// The radio taken down and brought up again: the module after it, or what
/// went wrong at the first step.
pub open spec fn cycled(radio: RadioModel, report: ReportModel) -> (
    Result<ReportModel, RestartFault>,
    RadioModel,
) {
    let (down, r1) = mode_set(radio, OperatingMode::LowPower);
    match down {
        Err(reason) => {
            let (reading, r2) = functionality_read(r1);
            let report = ReportModel {
                cfun_after: match reading {
                    Ok(value) => value,
                    Err(_) => None,
                },
                ..noted(report, "QMI low power refused: "@ + reason)
            };
            (Err(RestartFault::Port { step: "low_power"@, reason, report }), r2)
        },
        Ok(_) => {
            let report = noted(report, "QMI low power accepted"@);
            let (up, r2) = mode_set(r1, OperatingMode::Online);
            match up {
                Err(reason) => {
                    let (r3, report) = climbed(
                        r2,
                        noted(report, "QMI online refused: "@ + reason),
                    );
                    (Ok(report), r3)
                },
                Ok(_) => {
                    let (back, r3, report) = full_awaited(
                        r2,
                        noted(report, "QMI online accepted"@),
                        SETTLE_ATTEMPTS as nat,
                    );
                    if back {
                        (Ok(report), r3)
                    } else {
                        let (r4, report) = climbed(r3, report);
                        (Ok(report), r4)
                    }
                },
            }
        },
    }
}

/// The two readings that decide whether the radio is back. Both have to agree:
/// `+CFUN: 1` while QMI still reports anything else is the shape of a success
/// that is not one.
pub open spec fn read_back(radio: RadioModel, report: ReportModel) -> (
    Result<ReportModel, RestartFault>,
    RadioModel,
) {
    let (reading, r1) = functionality_read(radio);
    match reading {
        Err(reason) => (Err(RestartFault::Port { step: "read_back"@, reason, report }), r1),
        Ok(after) => {
            let report = ReportModel { cfun_after: after, ..report };
            let (mode, r2) = mode_read(r1);
            let report = match mode {
                Ok(m) => ReportModel { mode_after: Some(m), ..report },
                Err(reason) => noted(report, "QMI mode unreadable: "@ + reason),
            };
            let report = noted(report, "after "@ + cfun_text(after));
            if after == Some(CFUN_OFFLINE) {
                (Err(RestartFault::Stranded(report)), r2)
            } else if after != Some(CFUN_FULL) || report.mode_after != Some(
                OperatingMode::Online,
            ) {
                (Err(RestartFault::NotRestored(report)), r2)
            } else {
                (Ok(report), r2)
            }
        },
    }
}

/// Whether the card on a module whose radio is back is usable. Nothing is sent
/// to the module here but readings.
pub open spec fn card_checked(radio: RadioModel, report: ReportModel) -> (
    Result<ReportModel, RestartFault>,
    RadioModel,
) {
    let (state, r1, report) = card_awaited(radio, report, None, CARD_ATTEMPTS as nat);
    match state {
        Err(reason) => (
            Err(RestartFault::Port { step: "card_read_back"@, reason, report }),
            r1,
        ),
        Ok(card) => {
            let (evidence, r2) = evidence_read(r1);
            let report = ReportModel {
                card_evidence: evidence,
                card_after: Some(card),
                ..report
            };
            if card is Ready {
                (Ok(report), r2)
            } else {
                (Err(RestartFault::CardNotReady(report)), r2)
            }
        },
    }
}

/// What restarting a module's radio comes to.
pub open spec fn restarted(radio: RadioModel) -> (Result<ReportModel, RestartFault>, RadioModel) {
    let (reading, r1) = functionality_read(radio);
    match reading {
        Err(reason) => (Err(RestartFault::Unverifiable { reason }), r1),
        Ok(None) => (Err(RestartFault::Unverifiable { reason: cfun_text(None) }), r1),
        Ok(before) => {
            let report = noted(
                ReportModel { cfun_before: before, ..blank_report() },
                "before "@ + cfun_text(before),
            );
            if before == Some(CFUN_OFFLINE) {
                (
                    Err(
                        RestartFault::AlreadyStranded(
                            noted(
                                ReportModel { cfun_after: before, ..report },
                                "already offline, QMI left alone"@,
                            ),
                        ),
                    ),
                    r1,
                )
            } else {
                let (cycle, r2) = cycled(r1, report);
                match cycle {
                    Err(e) => (Err(e), r2),
                    Ok(report) => {
                        let (back, r3) = read_back(r2, report);
                        match back {
                            Err(e) => (Err(e), r3),
                            Ok(report) => card_checked(r3, report),
                        }
                    },
                }
            }
        },
    }
}

/// Poll `AT+CFUN?` until it reads full functionality, or give up.
///
/// Returns `false` for an unreadable port as well as for a module that stayed
/// down: both mean the caller may not treat the radio as back.
fn wait_for_full<R: ModuleRadio>(radio: &mut R, report: &mut RestartReport) -> (back: bool)
    ensures
        (back, final(radio).radio(), final(report)@) == full_awaited(
            old(radio).radio(),
            old(report)@,
            SETTLE_ATTEMPTS as nat,
        ),
{
    let ghost wanted = full_awaited(radio.radio(), report@, SETTLE_ATTEMPTS as nat);
    let mut left: usize = SETTLE_ATTEMPTS;
    loop
        invariant
            1 <= left <= SETTLE_ATTEMPTS,
            wanted == full_awaited(old(radio).radio(), old(report)@, SETTLE_ATTEMPTS as nat),
            full_awaited(radio.radio(), report@, left as nat) == wanted,
        decreases left,
    {
        match radio.read_functionality() {
            Ok(value) => {
                if let Some(v) = value {
                    if v == CFUN_FULL {
                        return true;
                    }
                }
            },
            Err(reason) => {
                note_with(report, "AT+CFUN? unreadable: ", reason.as_str());
                return false;
            },
        }
        if left == 1 {
            return false;
        }
        radio.pause(SETTLE_STEP_MS);
        left = left - 1;
    }
}

fn climb_first<R: ModuleRadio>(radio: &mut R, report: &mut RestartReport) -> (back: bool)
    ensures
        (
            back,
            final(radio).radio(),
            final(report)@,
        ) == first_rung(old(radio).radio(), old(report)@),
{
    radio.pause(SETTLE_STEP_MS);
    match radio.set_operating_mode(OperatingMode::Online) {
        Ok(_) => {
            note(report, owned("QMI online accepted on retry"));
            wait_for_full(radio, report)
        },
        Err(reason) => {
            note_with(report, "QMI online refused again: ", reason.as_str());
            false
        },
    }
}

fn climb_last<R: ModuleRadio>(radio: &mut R, report: &mut RestartReport)
    ensures
        (final(radio).radio(), final(report)@) == last_rung(old(radio).radio(), old(report)@),
{
    match radio.write_functionality(CFUN_MINIMUM) {
        Ok(accepted) => {
            if !accepted {
                note(report, owned("AT+CFUN=0 rejected"));
                return;
            }
            note(report, owned("AT+CFUN=0 accepted"));
        },
        Err(reason) => {
            note_with(report, "AT+CFUN=0 unusable: ", reason.as_str());
            return;
        },
    }
    radio.pause(CFUN_CYCLE_GAP_MS);
    match radio.write_functionality(CFUN_FULL) {
        Ok(accepted) => {
            if accepted {
                note(report, owned("AT+CFUN=1 accepted after AT+CFUN=0"));
                wait_for_full(radio, report);
            } else {
                note(report, owned("AT+CFUN=1 rejected after AT+CFUN=0"));
            }
        },
        Err(reason) => {
            note_with(report, "AT+CFUN=1 unusable after AT+CFUN=0: ", reason.as_str());
        },
    }
}

/// Everything that can be tried to bring a module back **without resetting
/// it**: QMI once more, because a mode change refused while the firmware was
/// still acting on the previous one is the cheapest explanation there is; then
/// the plain `AT+CFUN=1`; then `AT+CFUN=0` and `AT+CFUN=1`, the last cheap
/// thing. It stops one rung short of the thing that is known to work.
fn climb_back<R: ModuleRadio>(radio: &mut R, report: &mut RestartReport)
    ensures
        (final(radio).radio(), final(report)@) == climbed(old(radio).radio(), old(report)@),
{
    if climb_first(radio, report) {
        return;
    }
    match radio.write_functionality(CFUN_FULL) {
        Ok(accepted) => {
            if accepted {
                note(report, owned("AT+CFUN=1 accepted"));
                if wait_for_full(radio, report) {
                    return;
                }
            } else {
                note(report, owned("AT+CFUN=1 rejected"));
            }
        },
        Err(reason) => {
            note_with(report, "AT+CFUN=1 unusable: ", reason.as_str());
            return;
        },
    }
    climb_last(radio, report);
}

/// Poll `AT+CPIN?` until the card is initialised, or until patience runs out.
///
/// The stopping condition is a **state**, never a duration: the same
/// functionality cycle reached `READY` in about 15s on one stick and in 2.3s
/// on another.
fn wait_for_card<R: ModuleRadio>(radio: &mut R, report: &mut RestartReport) -> (state: Result<
    CardState,
    String,
>)
    ensures
        (card_reading(state), final(radio).radio(), final(report)@) == card_awaited(
            old(radio).radio(),
            old(report)@,
            None,
            CARD_ATTEMPTS as nat,
        ),
{
    let ghost wanted = card_awaited(radio.radio(), report@, None, CARD_ATTEMPTS as nat);
    let mut last: Option<CardState> = None;
    let mut left: usize = CARD_ATTEMPTS;
    loop
        invariant
            1 <= left <= CARD_ATTEMPTS,
            wanted == card_awaited(
                old(radio).radio(),
                old(report)@,
                None,
                CARD_ATTEMPTS as nat,
            ),
            card_awaited(radio.radio(), report@, opt_card(last), left as nat) == wanted,
        decreases left,
    {
        let state: CardState = match radio.read_card_state() {
            Ok(state) => state,
            Err(reason) => return Err(reason),
        };
        let known: bool = match &last {
            Some(before) => before.same(&state),
            None => false,
        };
        if !known {
            let mut step: String = owned("card ");
            state.push_to(&mut step);
            note(report, step);
        }
        if state.is_ready() || !state.waiting_can_help() || left == 1 {
            return Ok(state);
        }
        last = Some(state);
        radio.pause(SETTLE_STEP_MS);
        left = left - 1;
    }
}

/// A report or why there is none.
pub open spec fn outcome_of(outcome: Result<RestartReport, RestartError>) -> Result<
    ReportModel,
    RestartFault,
> {
    match outcome {
        Ok(report) => Ok(report@),
        Err(e) => Err(e@),
    }
}

fn cycle_radio<R: ModuleRadio>(radio: &mut R, report: RestartReport) -> (outcome: Result<
    RestartReport,
    RestartError,
>)
    ensures
        (outcome_of(outcome), final(radio).radio()) == cycled(old(radio).radio(), report@),
{
    let mut report: RestartReport = report;
    match radio.set_operating_mode(OperatingMode::LowPower) {
        Ok(_) => {},
        Err(reason) => {
            note_with(&mut report, "QMI low power refused: ", reason.as_str());
            let ghost noted_report = report@;
            report.cfun_after = match radio.read_functionality() {
                Ok(value) => value,
                Err(_) => None,
            };
            proof {
                assert(report@ =~= (ReportModel {
                    cfun_after: report.cfun_after,
                    ..noted_report
                }));
            }
            return Err(RestartError::Port { step: owned("low_power"), reason, report });
        },
    }
    note(&mut report, owned("QMI low power accepted"));
    match radio.set_operating_mode(OperatingMode::Online) {
        Ok(_) => {
            note(&mut report, owned("QMI online accepted"));
            if wait_for_full(radio, &mut report) {
                return Ok(report);
            }
        },
        Err(reason) => {
            note_with(&mut report, "QMI online refused: ", reason.as_str());
        },
    }
    climb_back(radio, &mut report);
    Ok(report)
}

fn check_radio<R: ModuleRadio>(radio: &mut R, report: RestartReport) -> (outcome: Result<
    RestartReport,
    RestartError,
>)
    ensures
        (outcome_of(outcome), final(radio).radio()) == read_back(old(radio).radio(), report@),
{
    let mut report: RestartReport = report;
    let after: Option<u8> = match radio.read_functionality() {
        Ok(value) => value,
        Err(reason) => return Err(
            RestartError::Port { step: owned("read_back"), reason, report },
        ),
    };
    let ghost given = report@;
    report.cfun_after = after;
    proof {
        assert(report@ =~= (ReportModel { cfun_after: after, ..given }));
    }
    let ghost read = report@;
    match radio.operating_mode() {
        Ok(mode) => {
            report.mode_after = Some(mode);
            proof {
                assert(report@ =~= (ReportModel { mode_after: Some(mode), ..read }));
            }
        },
        Err(reason) => {
            note_with(&mut report, "QMI mode unreadable: ", reason.as_str());
        },
    }
    note_cfun(&mut report, "after ", after);
    let functionality: u8 = match after {
        Some(value) => value,
        None => return Err(RestartError::NotRestored(report)),
    };
    if functionality == CFUN_OFFLINE {
        return Err(RestartError::Stranded(report));
    }
    if functionality != CFUN_FULL {
        return Err(RestartError::NotRestored(report));
    }
    match report.mode_after {
        Some(mode) => {
            if mode != OperatingMode::Online {
                return Err(RestartError::NotRestored(report));
            }
        },
        None => return Err(RestartError::NotRestored(report)),
    }
    Ok(report)
}

fn check_card<R: ModuleRadio>(radio: &mut R, report: RestartReport) -> (outcome: Result<
    RestartReport,
    RestartError,
>)
    ensures
        (outcome_of(outcome), final(radio).radio()) == card_checked(old(radio).radio(), report@),
{
    let mut report: RestartReport = report;
    let card: CardState = match wait_for_card(radio, &mut report) {
        Ok(state) => state,
        Err(reason) => return Err(
            RestartError::Port { step: owned("card_read_back"), reason, report },
        ),
    };
    let ghost awaited = report@;
    report.card_evidence = radio.read_card_evidence();
    report.card_after = Some(card.copied());
    proof {
        assert(report@ =~= (ReportModel {
            card_evidence: report.card_evidence,
            card_after: Some(card@),
            ..awaited
        }));
    }
    if card.is_ready() {
        Ok(report)
    } else {
        Err(RestartError::CardNotReady(report))
    }
}

/// Take one module's radio down and bring it back, or say why it is not back.
///
/// The contract is the point: this returns `Ok` only when the module has been
/// read to be online again by two independent means **and** the card on it has
/// been read to be initialised. Everything else is an error naming the state
/// the module is actually in.
///
/// Coming back is three events, not one: the radio, the card, the network.
/// This guarantees the **first two**. It deliberately does **not** wait for
/// registration, the only one of the three that depends on something outside
/// this box: a module sitting where its operator has no coverage never
/// registers, and it is still a perfectly working module.
pub fn restart_radio<R: ModuleRadio>(radio: &mut R) -> (outcome: Result<
    RestartReport,
    RestartError,
>)
    ensures
        (outcome_of(outcome), final(radio).radio()) == restarted(old(radio).radio()),
{
    let before: Option<u8> = match radio.read_functionality() {
        Ok(before) => before,
        Err(reason) => return Err(RestartError::Unverifiable { reason }),
    };
    if before.is_none() {
        let mut reason: String = String::new();
        push_cfun(&mut reason, before);
        proof {
            assert(reason@ =~= cfun_text(None));
        }
        return Err(RestartError::Unverifiable { reason });
    }
    let mut report: RestartReport = RestartReport::default();
    report.cfun_before = before;
    proof {
        assert(report@ =~= (ReportModel { cfun_before: before, ..blank_report() }));
    }
    note_cfun(&mut report, "before ", before);
    let stranded: bool = match before {
        Some(value) => value == CFUN_OFFLINE,
        None => false,
    };
    if stranded {
        let ghost read = report@;
        report.cfun_after = before;
        proof {
            assert(report@ =~= (ReportModel { cfun_after: before, ..read }));
        }
        note(&mut report, owned("already offline, QMI left alone"));
        return Err(RestartError::AlreadyStranded(report));
    }
    let report: RestartReport = match cycle_radio(radio, report) {
        Ok(report) => report,
        Err(e) => return Err(e),
    };
    let report: RestartReport = match check_radio(radio, report) {
        Ok(report) => report,
        Err(e) => return Err(e),
    };
    check_card(radio, report)
}

// ---------------------------------------------------------------------------
// Laws
// ---------------------------------------------------------------------------

/// Whether a command is one that a restart may give: `Offline` and the modes
/// that re-enumerate are not, and of `AT+CFUN` only 0 and 1 are.
pub open spec fn harmless(command: RadioCommand) -> bool {
    match command {
        RadioCommand::SetMode(mode) => mode == OperatingMode::LowPower || mode
            == OperatingMode::Online,
        RadioCommand::WriteFunctionality(value) => value == CFUN_MINIMUM || value == CFUN_FULL,
        _ => true,
    }
}

/// Whether a command only reads, or waits.
pub open spec fn only_reads(command: RadioCommand) -> bool {
    !(command is SetMode) && !(command is WriteFunctionality)
}

/// One module's log is the front of the other's, and everything behind it is
/// harmless.
pub open spec fn harmlessly_later(before: RadioModel, after: RadioModel) -> bool {
    &&& before.asked.len() <= after.asked.len()
    &&& forall|i: int| 0 <= i < before.asked.len() ==> after.asked[i] == before.asked[i]
    &&& forall|i: int|
        before.asked.len() <= i < after.asked.len() ==> harmless(#[trigger] after.asked[i])
}

/// As `harmlessly_later`, with nothing but readings.
pub open spec fn quietly_later(before: RadioModel, after: RadioModel) -> bool {
    &&& before.asked.len() <= after.asked.len()
    &&& forall|i: int| 0 <= i < before.asked.len() ==> after.asked[i] == before.asked[i]
    &&& forall|i: int|
        before.asked.len() <= i < after.asked.len() ==> only_reads(#[trigger] after.asked[i])
}

proof fn lemma_full_awaited(radio: RadioModel, report: ReportModel, left: nat)
    ensures
        quietly_later(radio, full_awaited(radio, report, left).1),
        full_awaited(radio, report, left).2.cfun_before == report.cfun_before,
    decreases left,
{
    if left > 1 {
        let after = functionality_read(radio).1;
        lemma_full_awaited(paused(after, SETTLE_STEP_MS), report, (left - 1) as nat);
    }
}

proof fn lemma_card_awaited(
    radio: RadioModel,
    report: ReportModel,
    last: Option<CardModel>,
    left: nat,
)
    ensures
        ({
            let (state, after, told) = card_awaited(radio, report, last, left);
            &&& quietly_later(radio, after)
            &&& told.cfun_before == report.cfun_before
            &&& told.cfun_after == report.cfun_after
            &&& told.mode_after == report.mode_after
        }),
    decreases left,
{
    let (reading, after) = card_read(radio);
    if let Ok(state) = reading {
        if !(state is Ready) && state.may_change() && left > 1 {
            let told = if last == Some(state) {
                report
            } else {
                noted(report, "card "@ + state.text())
            };
            lemma_card_awaited(
                paused(after, SETTLE_STEP_MS),
                told,
                Some(state),
                (left - 1) as nat,
            );
        }
    }
}

proof fn lemma_last_rung(radio: RadioModel, report: ReportModel)
    ensures
        harmlessly_later(radio, last_rung(radio, report).0),
{
    let (down, after) = functionality_written(radio, CFUN_MINIMUM);
    let gap = paused(after, CFUN_CYCLE_GAP_MS);
    let (up, last) = functionality_written(gap, CFUN_FULL);
    let told = noted(
        noted(report, "AT+CFUN=0 accepted"@),
        "AT+CFUN=1 accepted after AT+CFUN=0"@,
    );
    lemma_full_awaited(last, told, SETTLE_ATTEMPTS as nat);
}

proof fn lemma_climbed(radio: RadioModel, report: ReportModel)
    ensures
        harmlessly_later(radio, climbed(radio, report).0),
{
    let rest = paused(radio, SETTLE_STEP_MS);
    let (again, r0) = mode_set(rest, OperatingMode::Online);
    lemma_full_awaited(
        r0,
        noted(report, "QMI online accepted on retry"@),
        SETTLE_ATTEMPTS as nat,
    );
    let (back, r1, told) = first_rung(radio, report);
    assert(harmlessly_later(radio, r1));
    let (answer, r2) = functionality_written(r1, CFUN_FULL);
    assert(harmlessly_later(radio, r2));
    lemma_full_awaited(r2, noted(told, "AT+CFUN=1 accepted"@), SETTLE_ATTEMPTS as nat);
    let (up, r3, told3) = full_awaited(
        r2,
        noted(told, "AT+CFUN=1 accepted"@),
        SETTLE_ATTEMPTS as nat,
    );
    assert(harmlessly_later(radio, r3));
    lemma_last_rung(r2, noted(told, "AT+CFUN=1 rejected"@));
    lemma_last_rung(r3, told3);
}

proof fn lemma_cycled(radio: RadioModel, report: ReportModel)
    ensures
        harmlessly_later(radio, cycled(radio, report).1),
{
    let (down, r1) = mode_set(radio, OperatingMode::LowPower);
    if let Ok(_) = down {
        let lowered = noted(report, "QMI low power accepted"@);
        let (up, r2) = mode_set(r1, OperatingMode::Online);
        assert(harmlessly_later(radio, r2));
        match up {
            Err(reason) => {
                lemma_climbed(r2, noted(lowered, "QMI online refused: "@ + reason));
            },
            Ok(_) => {
                let told = noted(lowered, "QMI online accepted"@);
                lemma_full_awaited(r2, told, SETTLE_ATTEMPTS as nat);
                let (back, r3, told3) = full_awaited(r2, told, SETTLE_ATTEMPTS as nat);
                assert(harmlessly_later(radio, r3));
                lemma_climbed(r3, told3);
            },
        }
    }
}

/// `Offline` is never requested, nor any mode but low power and online, and
/// `AT+CFUN` is never given any value but 0 and 1, whatever the module answers.
pub proof fn law_offline_is_never_requested(radio: RadioModel)
    ensures
        ({
            let asked = restarted(radio).1.asked;
            &&& radio.asked.len() <= asked.len()
            &&& forall|i: int|
                radio.asked.len() <= i < asked.len() ==> harmless(#[trigger] asked[i])
                    && asked[i] != RadioCommand::SetMode(OperatingMode::Offline)
        }),
{
    let (reading, r1) = functionality_read(radio);
    if let Ok(before) = reading {
        let report = noted(
            ReportModel { cfun_before: before, ..blank_report() },
            "before "@ + cfun_text(before),
        );
        if before is Some && before != Some(CFUN_OFFLINE) {
            lemma_cycled(r1, report);
            let (cycle, r2) = cycled(r1, report);
            assert(harmlessly_later(radio, r2));
            if let Ok(told) = cycle {
                let (back, r3) = read_back(r2, told);
                assert(harmlessly_later(radio, r3));
                if let Ok(told3) = back {
                    lemma_card_awaited(r3, told3, None, CARD_ATTEMPTS as nat);
                }
            }
        }
    }
}

/// A module found stranded is not touched: its functionality was read, nothing
/// else was asked of it, and the restart says so.
pub proof fn law_a_stranded_module_is_left_alone(radio: RadioModel)
    requires
        (radio.functionalities)(0) == Ok::<Option<u8>, Seq<char>>(Some(CFUN_OFFLINE)),
    ensures
        restarted(radio).0 matches Err(RestartFault::AlreadyStranded(_)),
        restarted(radio).1.asked == radio.asked.push(RadioCommand::ReadFunctionality),
{
}

/// A restart that cannot be checked is not begun: where the functionality
/// cannot be read, or the module answers without saying it, nothing else is asked
/// of the module.
pub proof fn law_an_unverifiable_restart_is_not_begun(radio: RadioModel)
    requires
        (radio.functionalities)(0) is Err || (radio.functionalities)(0) == Ok::<
            Option<u8>,
            Seq<char>,
        >(None),
    ensures
        restarted(radio).0 matches Err(RestartFault::Unverifiable { .. }),
        restarted(radio).1.asked == radio.asked.push(RadioCommand::ReadFunctionality),
{
}

/// A restart succeeds only where the module was read to be online by both
/// means and its card was read to be ready. Where the radio came back and the
/// card did not, the two readings of the radio still agree.
pub proof fn law_success_means_usable(radio: RadioModel)
    ensures
        match restarted(radio).0 {
            Ok(report) => report.cfun_after == Some(CFUN_FULL) && report.mode_after == Some(
                OperatingMode::Online,
            ) && report.card_after == Some(CardModel::Ready),
            Err(RestartFault::CardNotReady(report)) => report.cfun_after == Some(CFUN_FULL)
                && report.mode_after == Some(OperatingMode::Online) && report.card_after
                != Some(CardModel::Ready),
            _ => true,
        },
{
    let (reading, r1) = functionality_read(radio);
    if let Ok(before) = reading {
        let report = noted(
            ReportModel { cfun_before: before, ..blank_report() },
            "before "@ + cfun_text(before),
        );
        let (cycle, r2) = cycled(r1, report);
        if let Ok(told) = cycle {
            let (back, r3) = read_back(r2, told);
            if let Ok(told3) = back {
                lemma_card_awaited(r3, told3, None, CARD_ATTEMPTS as nat);
            }
        }
    }
}

/// Once the radio is back, nothing is sent to the module but readings: an
/// unexplained remedy is not fired at a card that will not initialise.
pub proof fn law_the_card_is_only_read(radio: RadioModel, report: ReportModel)
    ensures
        quietly_later(radio, card_checked(radio, report).1),
{
    lemma_card_awaited(radio, report, None, CARD_ATTEMPTS as nat);
}

proof fn lemma_cycle_order(radio: RadioModel, report: ReportModel)
    ensures
        ({
            let asked = cycled(radio, report).1.asked;
            let n = radio.asked.len() as int;
            &&& asked.len() >= n + 2
            &&& asked[n] == RadioCommand::SetMode(OperatingMode::LowPower)
            &&& (radio.mode_answers)(0) is Ok ==> asked[n + 1] == RadioCommand::SetMode(
                OperatingMode::Online,
            )
            &&& (radio.mode_answers)(0) is Err ==> asked == radio.asked.push(
                RadioCommand::SetMode(OperatingMode::LowPower),
            ).push(RadioCommand::ReadFunctionality) && cycled(radio, report).0 is Err
        }),
{
    let (down, r1) = mode_set(radio, OperatingMode::LowPower);
    if let Ok(_) = down {
        let lowered = noted(report, "QMI low power accepted"@);
        let (up, r2) = mode_set(r1, OperatingMode::Online);
        match up {
            Err(reason) => {
                lemma_climbed(r2, noted(lowered, "QMI online refused: "@ + reason));
            },
            Ok(_) => {
                let told = noted(lowered, "QMI online accepted"@);
                lemma_full_awaited(r2, told, SETTLE_ATTEMPTS as nat);
                let (back, r3, told3) = full_awaited(r2, told, SETTLE_ATTEMPTS as nat);
                lemma_climbed(r3, told3);
            },
        }
    }
}

/// A restart reads the module first, then takes its radio down to low power,
/// and brings it online only once low power was accepted. A module that refused
/// low power is read once more, asked nothing else, and not restarted.
pub proof fn law_a_radio_goes_down_before_it_comes_up(radio: RadioModel)
    requires
        (radio.functionalities)(0) matches Ok(Some(value)) && value != 7,
    ensures
        ({
            let asked = restarted(radio).1.asked;
            let n = radio.asked.len() as int;
            &&& asked.len() >= n + 3
            &&& asked[n] == RadioCommand::ReadFunctionality
            &&& asked[n + 1] == RadioCommand::SetMode(OperatingMode::LowPower)
            &&& (radio.mode_answers)(0) is Ok ==> asked[n + 2] == RadioCommand::SetMode(
                OperatingMode::Online,
            )
            &&& (radio.mode_answers)(0) is Err ==> asked.len() == n + 3 && asked[n + 2]
                == RadioCommand::ReadFunctionality && restarted(radio).0 is Err
        }),
{
    let (reading, r1) = functionality_read(radio);
    let before = reading->Ok_0;
    let report = noted(
        ReportModel { cfun_before: before, ..blank_report() },
        "before "@ + cfun_text(before),
    );
    lemma_cycle_order(r1, report);
    lemma_cycled(r1, report);
    let (cycle, r2) = cycled(r1, report);
    assert((r1.mode_answers)(0) == (radio.mode_answers)(0));
    if let Ok(told) = cycle {
        let (back, r3) = read_back(r2, told);
        assert(quietly_later(r2, r3));
        if let Ok(told3) = back {
            lemma_card_awaited(r3, told3, None, CARD_ATTEMPTS as nat);
            assert(quietly_later(r2, restarted(radio).1));
        } else {
            assert(restarted(radio).1 == r3);
        }
    } else {
        assert(restarted(radio).1 == r2);
    }
}

/// A module that does what it is told is restarted, by as few steps as there
/// are: read, down, up, read until it is back, read by both means, and the card
/// read; and the report says what was read.
pub proof fn law_a_willing_module_is_restarted(radio: RadioModel, value: u8)
    requires
        value != 7,
        (radio.functionalities)(0) == Ok::<Option<u8>, Seq<char>>(Some(value)),
        (radio.functionalities)(1) == Ok::<Option<u8>, Seq<char>>(Some(1)),
        (radio.functionalities)(2) == Ok::<Option<u8>, Seq<char>>(Some(1)),
        (radio.mode_answers)(0) is Ok,
        (radio.mode_answers)(1) is Ok,
        (radio.modes)(0) == Ok::<OperatingMode, Seq<char>>(OperatingMode::Online),
        (radio.cards)(0) == Ok::<CardModel, Seq<char>>(CardModel::Ready),
    ensures
        restarted(radio).0 matches Ok(report) && {
            &&& report.cfun_before == Some(value)
            &&& report.cfun_after == Some(1u8)
            &&& report.mode_after == Some(OperatingMode::Online)
            &&& report.card_after == Some(CardModel::Ready)
            &&& report.card_evidence == (radio.evidence)(0)
        },
        restarted(radio).1.asked == radio.asked + seq![
            RadioCommand::ReadFunctionality,
            RadioCommand::SetMode(OperatingMode::LowPower),
            RadioCommand::SetMode(OperatingMode::Online),
            RadioCommand::ReadFunctionality,
            RadioCommand::ReadFunctionality,
            RadioCommand::ReadMode,
            RadioCommand::ReadCard,
            RadioCommand::ReadEvidence,
        ],
{
    let (reading, r1) = functionality_read(radio);
    let report = noted(
        ReportModel { cfun_before: Some(value), ..blank_report() },
        "before "@ + cfun_text(Some(value)),
    );
    let (_, d1) = mode_set(r1, OperatingMode::LowPower);
    let (_, d2) = mode_set(d1, OperatingMode::Online);
    let told = noted(noted(report, "QMI low power accepted"@), "QMI online accepted"@);
    assert(full_awaited(d2, told, SETTLE_ATTEMPTS as nat) == (
        true,
        functionality_read(d2).1,
        told,
    ));
    let r2 = functionality_read(d2).1;
    assert(cycled(r1, report) == (Ok::<ReportModel, RestartFault>(told), r2));
    let (back, r3) = read_back(r2, told);
    assert(back is Ok);
    assert(restarted(radio).1.asked =~= radio.asked + seq![
        RadioCommand::ReadFunctionality,
        RadioCommand::SetMode(OperatingMode::LowPower),
        RadioCommand::SetMode(OperatingMode::Online),
        RadioCommand::ReadFunctionality,
        RadioCommand::ReadFunctionality,
        RadioCommand::ReadMode,
        RadioCommand::ReadCard,
        RadioCommand::ReadEvidence,
    ]);
}

/// The last thing that is tried is minimum functionality, three seconds, and
/// full functionality, in that order; the second is not asked for where the
/// first was not accepted.
pub proof fn law_the_last_rung_goes_down_waits_and_comes_up(radio: RadioModel, report: ReportModel)
    ensures
        ({
            let asked = last_rung(radio, report).0.asked;
            let n = radio.asked.len() as int;
            &&& asked.len() > n
            &&& asked[n] == RadioCommand::WriteFunctionality(0)
            &&& (radio.functionality_answers)(0) != Ok::<bool, Seq<char>>(true) ==> asked.len() == n
                + 1
            &&& (radio.functionality_answers)(0) == Ok::<bool, Seq<char>>(true) ==> asked.len() >= n
                + 3 && asked[n + 1] == RadioCommand::Pause(3000) && asked[n + 2]
                == RadioCommand::WriteFunctionality(1)
        }),
{
    let (down, after) = functionality_written(radio, CFUN_MINIMUM);
    if down == Ok::<bool, Seq<char>>(true) {
        let told = noted(report, "AT+CFUN=0 accepted"@);
        let (up, last) = functionality_written(paused(after, CFUN_CYCLE_GAP_MS), CFUN_FULL);
        lemma_full_awaited(
            last,
            noted(told, "AT+CFUN=1 accepted after AT+CFUN=0"@),
            SETTLE_ATTEMPTS as nat,
        );
    }
}

/// A radio is waited for until it is first read to be full: it is back exactly
/// where one of the readings says so, with nothing before it but readings that
/// say something else.
pub proof fn law_a_radio_is_back_where_it_reads_full(
    radio: RadioModel,
    report: ReportModel,
    left: nat,
)
    ensures
        full_awaited(radio, report, left).0 <==> exists|k: nat| #[trigger]
            reads_full_at(radio, k, left),
    decreases left,
{
    if left > 0 {
        let (reading, after) = functionality_read(radio);
        let later = paused(after, SETTLE_STEP_MS);
        if reading == Ok::<Option<u8>, Seq<char>>(Some(1)) {
            assert(reads_full_at(radio, 0, left));
        } else if reading is Ok && left > 1 {
            law_a_radio_is_back_where_it_reads_full(later, report, (left - 1) as nat);
            if exists|k: nat| #[trigger] reads_full_at(later, k, (left - 1) as nat) {
                let k = choose|k: nat| #[trigger] reads_full_at(later, k, (left - 1) as nat);
                assert forall|j: nat| j < k + 1 implies not_yet(#[trigger] (radio.functionalities)(
                    j,
                )) by {
                    if j > 0 {
                        assert((later.functionalities)((j - 1) as nat) == (radio.functionalities)(
                            j,
                        ));
                    }
                }
                assert((later.functionalities)(k) == (radio.functionalities)(k + 1));
                assert(reads_full_at(radio, k + 1, left));
            }
            if exists|k: nat| #[trigger] reads_full_at(radio, k, left) {
                let k = choose|k: nat| #[trigger] reads_full_at(radio, k, left);
                assert(k > 0);
                let m = (k - 1) as nat;
                assert forall|j: nat| j < m implies not_yet(#[trigger] (later.functionalities)(
                    j,
                )) by {
                    assert((later.functionalities)(j) == (radio.functionalities)(j + 1));
                }
                assert((later.functionalities)(m) == (radio.functionalities)(k));
                assert(reads_full_at(later, m, (left - 1) as nat));
            }
        } else if exists|k: nat| #[trigger] reads_full_at(radio, k, left) {
            let k = choose|k: nat| #[trigger] reads_full_at(radio, k, left);
            if k > 0 {
                assert(not_yet((radio.functionalities)(0)));
            }
        }
    }
}

/// A reading that says something, and not that the module is full.
pub open spec fn not_yet(reading: Result<Option<u8>, Seq<char>>) -> bool {
    reading is Ok && reading->Ok_0 != Some(1u8)
}

/// The reading `k` of the first `left` is the first that says the module is
/// full.
pub open spec fn reads_full_at(radio: RadioModel, k: nat, left: nat) -> bool {
    &&& k < left
    &&& (radio.functionalities)(k) == Ok::<Option<u8>, Seq<char>>(Some(1u8))
    &&& forall|j: nat| j < k ==> not_yet(#[trigger] (radio.functionalities)(j))
}

/// A refused radio is given a moment and asked to come online once more.
pub proof fn law_a_refused_radio_is_asked_again(radio: RadioModel, report: ReportModel)
    ensures
        ({
            let asked = first_rung(radio, report).1.asked;
            let n = radio.asked.len() as int;
            &&& asked.len() >= n + 2
            &&& asked[n] == RadioCommand::Pause(1500)
            &&& asked[n + 1] == RadioCommand::SetMode(OperatingMode::Online)
            &&& (radio.mode_answers)(0) is Err ==> asked.len() == n + 2 && !first_rung(
                radio,
                report,
            ).0
        }),
{
    let (answer, after) = mode_set(paused(radio, SETTLE_STEP_MS), OperatingMode::Online);
    lemma_full_awaited(
        after,
        noted(report, "QMI online accepted on retry"@),
        SETTLE_ATTEMPTS as nat,
    );
}

/// A card that is ready, and one that waits for somebody, is read once; any
/// other is read until it is either or the readings run out, and what comes
/// back is the last reading.
pub proof fn law_a_card_is_read_until_it_settles(
    radio: RadioModel,
    report: ReportModel,
    last: Option<CardModel>,
    left: nat,
)
    requires
        left >= 1,
    ensures
        ({
            let (read, after, _) = card_awaited(radio, report, last, left);
            let first = (radio.cards)(0);
            &&& after.asked.len() <= radio.asked.len() + 2 * left - 1
            &&& after.asked.last() == RadioCommand::ReadCard
            &&& first matches Ok(CardModel::Ready) ==> read == first && after.asked
                == radio.asked.push(RadioCommand::ReadCard)
            &&& first matches Ok(CardModel::Locked(_)) ==> read == first && after.asked
                == radio.asked.push(RadioCommand::ReadCard)
            &&& first is Err ==> read == first && after.asked == radio.asked.push(
                RadioCommand::ReadCard,
            )
            &&& read matches Ok(state) ==> state is Ready || state is Locked || after.asked.len()
                == radio.asked.len() + 2 * left - 1
        }),
    decreases left,
{
    let (reading, after) = card_read(radio);
    if let Ok(state) = reading {
        if !(state is Ready) && state.may_change() && left > 1 {
            let told = if last == Some(state) {
                report
            } else {
                noted(report, "card "@ + state.text())
            };
            law_a_card_is_read_until_it_settles(
                paused(after, SETTLE_STEP_MS),
                told,
                Some(state),
                (left - 1) as nat,
            );
        }
    }
}

/// A card says that it is ready, in whatever case, or what it waits for.
pub proof fn law_a_card_says_what_it_waits_for(text: Seq<char>, rest: Seq<Seq<char>>)
    requires
        text.len() > 0,
        !is_space(text[0]),
        !is_space(text.last()),
    ensures
        cpin_in(seq!["+CPIN:"@ + text] + rest) == Some(
            if lower(text) == lower("READY"@) {
                CardModel::Ready
            } else {
                CardModel::Locked(text)
            },
        ),
{
    reveal_strlit("+CPIN:");
    let line = "+CPIN:"@ + text;
    let lines = seq![line] + rest;
    assert(lines[0] == line);
    assert(line[0] == '+' && line.last() == text.last());
    assert(line.take(6) =~= "+CPIN:"@);
    assert(line.skip(6) =~= text);
}

/// Each way for a restart to fail has its own code.
pub proof fn law_each_failed_restart_has_its_code(fault: RestartFault)
    ensures
        fault.code_of()@ == match fault {
            RestartFault::Unverifiable { .. } => "restart_unverifiable"@,
            RestartFault::Port { .. } => "restart_port_lost"@,
            RestartFault::AlreadyStranded(_) => "modem_already_stranded"@,
            RestartFault::Stranded(_) => "modem_stranded_offline"@,
            RestartFault::NotRestored(_) => "restart_not_restored"@,
            RestartFault::CardNotReady(_) => "restart_card_not_ready"@,
        },
{
}

} // verus!
