//! Structured health report for one modem, collected over the AT port.
//!
//! Every field here answers a question an operator asks while diagnosing a
//! module: is there signal, did it register, on whose network, with which
//! subscriber identity, and is there an SMS centre to send through. QMI can
//! answer some of them, but not the vendor ones, and issuing a single AT batch
//! keeps the whole snapshot consistent in time.
//!
//! Each parser takes the response lines exactly as the module produced them.

use crate::at::{digits_line, ended_ok, first_bare_digits, AtExchange, ExchangeModel};
use crate::text::{
    after_prefix, all_digits, chars_of, digit, is_digit, number_in, opt_text, owned, parse_u8,
    pieces, quoted_fields, same_text, slices, split, split_fields, string_of, strip_char,
    strip_prefix, stripped, texts, trim, trimmed,
};
use vstd::prelude::*;

verus! {

/// Registration state shared by `+CREG` (circuit switched) and `+CEREG`
/// (packet switched). The numbering is 3GPP 27.007.
#[derive(Clone, Copy, Debug, PartialEq, Eq, Structural)]
pub enum Registration {
    NotRegistered,
    Home,
    Searching,
    Denied,
    Unknown,
    Roaming,
}

impl Registration {
    pub open spec fn of_code(code: u8) -> Registration {
        if code == 1 {
            Registration::Home
        } else if code == 2 {
            Registration::Searching
        } else if code == 3 {
            Registration::Denied
        } else if code == 5 {
            Registration::Roaming
        } else if code == 0 {
            Registration::NotRegistered
        } else {
            Registration::Unknown
        }
    }

    pub fn from_code(code: u8) -> (state: Self)
        ensures
            state == Registration::of_code(code),
    {
        if code == 1 {
            Registration::Home
        } else if code == 2 {
            Registration::Searching
        } else if code == 3 {
            Registration::Denied
        } else if code == 5 {
            Registration::Roaming
        } else if code == 0 {
            Registration::NotRegistered
        } else {
            Registration::Unknown
        }
    }

    /// Whether the module can actually use this domain.
    pub fn attached(self) -> (yes: bool)
        ensures
            yes == (self == Registration::Home || self == Registration::Roaming),
    {
        matches!(self, Registration::Home | Registration::Roaming)
    }

    pub open spec fn name(self) -> &'static str {
        match self {
            Registration::NotRegistered => "not_registered",
            Registration::Home => "home",
            Registration::Searching => "searching",
            Registration::Denied => "denied",
            Registration::Unknown => "unknown",
            Registration::Roaming => "roaming",
        }
    }

    pub fn as_str(self) -> (name: &'static str)
        ensures
            name == self.name(),
    {
        match self {
            Registration::NotRegistered => "not_registered",
            Registration::Home => "home",
            Registration::Searching => "searching",
            Registration::Denied => "denied",
            Registration::Unknown => "unknown",
            Registration::Roaming => "roaming",
        }
    }
}

/// Signal quality from `+CSQ`.
#[derive(Clone, Copy, Debug, PartialEq, Eq, Structural)]
pub struct Signal {
    /// Raw 0-31 index. 99 means the module does not know.
    pub rssi_index: u8,
    /// Converted to dBm, absent when the index is the unknown marker.
    pub dbm: Option<i16>,
}

/// One modem's answers to the read-only diagnostic batch.
#[derive(Clone, Debug, PartialEq, Eq)]
pub struct ModemReport {
    pub signal: Option<Signal>,
    pub cs_registration: Option<Registration>,
    pub ps_registration: Option<Registration>,
    pub operator: Option<String>,
    pub access_technology: Option<&'static str>,
    pub imsi: Option<String>,
    pub iccid: Option<String>,
    pub msisdn: Option<String>,
    pub firmware: Option<String>,
    pub sms_centre: Option<String>,
    /// Commands that did not answer `OK`, so a blank field can be told apart
    /// from a field the module refused to report.
    pub refused: Vec<String>,
}

/// A report, by what its texts say.
#[verifier::ext_equal]
pub struct ReportModel {
    pub signal: Option<Signal>,
    pub cs_registration: Option<Registration>,
    pub ps_registration: Option<Registration>,
    pub operator: Option<Seq<char>>,
    pub access_technology: Option<&'static str>,
    pub imsi: Option<Seq<char>>,
    pub iccid: Option<Seq<char>>,
    pub msisdn: Option<Seq<char>>,
    pub firmware: Option<Seq<char>>,
    pub sms_centre: Option<Seq<char>>,
    pub refused: Seq<Seq<char>>,
}

impl View for ModemReport {
    type V = ReportModel;

    open spec fn view(&self) -> ReportModel {
        ReportModel {
            signal: self.signal,
            cs_registration: self.cs_registration,
            ps_registration: self.ps_registration,
            operator: opt_text(self.operator),
            access_technology: self.access_technology,
            imsi: opt_text(self.imsi),
            iccid: opt_text(self.iccid),
            msisdn: opt_text(self.msisdn),
            firmware: opt_text(self.firmware),
            sms_centre: opt_text(self.sms_centre),
            refused: texts(self.refused@),
        }
    }
}

/// A report with nothing in it.
pub open spec fn blank_report() -> ReportModel {
    ReportModel {
        signal: None,
        cs_registration: None,
        ps_registration: None,
        operator: None,
        access_technology: None,
        imsi: None,
        iccid: None,
        msisdn: None,
        firmware: None,
        sms_centre: None,
        refused: Seq::empty(),
    }
}

impl Default for ModemReport {
    fn default() -> (value: Self)
        ensures
            value@ == blank_report(),
    {
        let value = ModemReport {
            signal: None,
            cs_registration: None,
            ps_registration: None,
            operator: None,
            access_technology: None,
            imsi: None,
            iccid: None,
            msisdn: None,
            firmware: None,
            sms_centre: None,
            refused: Vec::new(),
        };
        proof {
            assert(value@ =~= blank_report());
        }
        value
    }
}

// ---------------------------------------------------------------------------
// Lines and fields
// ---------------------------------------------------------------------------

/// What follows a prefix on the first line that has it, without the space
/// around it.
pub open spec fn value_after(lines: Seq<Seq<char>>, prefix: Seq<char>) -> Option<Seq<char>>
    decreases lines.len(),
{
    if lines.len() == 0 {
        None
    } else {
        match after_prefix(trimmed(lines[0]), prefix) {
            Some(rest) => Some(trimmed(rest)),
            None => value_after(lines.skip(1), prefix),
        }
    }
}

fn field_after(lines: &[String], prefix: &str) -> (value: Option<Vec<char>>)
    ensures
        match value {
            Some(v) => value_after(texts(lines@), prefix@) == Some(v@),
            None => value_after(texts(lines@), prefix@) is None,
        },
{
    let ghost all = texts(lines@);
    let mut i: usize = 0;
    proof {
        assert(all.skip(0) =~= all);
    }
    while i < lines.len()
        invariant
            i <= lines@.len(),
            all == texts(lines@),
            value_after(all.skip(i as int), prefix@) == value_after(all, prefix@),
        decreases lines@.len() - i,
    {
        proof {
            assert(all.skip(i as int)[0] == lines@[i as int]@);
            assert(all.skip(i as int).skip(1) =~= all.skip(i + 1));
        }
        let chars: Vec<char> = chars_of(lines[i].as_str());
        if let Some(rest) = strip_prefix(trim(&chars), prefix) {
            let value: String = string_of(trim(rest));
            return Some(chars_of(value.as_str()));
        }
        i = i + 1;
    }
    None
}

/// A field that commas set off, without the space around it.
pub open spec fn comma_field(value: Seq<char>, i: int) -> Option<Seq<char>> {
    if i < pieces(value, ',').len() {
        Some(trimmed(pieces(value, ',')[i]))
    } else {
        None
    }
}

fn find_field(value: &[char], i: usize) -> (field: Option<Vec<char>>)
    ensures
        match field {
            Some(f) => comma_field(value@, i as int) == Some(f@),
            None => comma_field(value@, i as int) is None,
        },
{
    let parts: Vec<&[char]> = split(value, ',');
    if i < parts.len() {
        proof {
            assert(slices(parts@)[i as int] == parts@[i as int]@);
        }
        let text: String = string_of(trim(parts[i]));
        Some(chars_of(text.as_str()))
    } else {
        None
    }
}

/// A small number in a field.
pub open spec fn number_field(value: Seq<char>, i: int) -> Option<u8> {
    match comma_field(value, i) {
        None => None,
        Some(field) => match number_in(field, 255) {
            Some(n) => Some(n as u8),
            None => None,
        },
    }
}

fn find_number(value: &[char], i: usize) -> (number: Option<u8>)
    ensures
        number == number_field(value@, i as int),
{
    match find_field(value, i) {
        Some(field) => parse_u8(&field),
        None => None,
    }
}

/// A text in a field, without the quotes around it; none where it is empty.
pub open spec fn text_field(value: Seq<char>, i: int) -> Option<Seq<char>> {
    match comma_field(value, i) {
        None => None,
        Some(field) => if stripped(field, '"').len() == 0 {
            None
        } else {
            Some(stripped(field, '"'))
        },
    }
}

fn find_text(value: &[char], i: usize) -> (text: Option<String>)
    ensures
        opt_text(text) == text_field(value@, i as int),
{
    match find_field(value, i) {
        None => None,
        Some(field) => {
            let text: &[char] = strip_char(&field, '"');
            if text.len() == 0 {
                None
            } else {
                Some(string_of(text))
            }
        },
    }
}

// ---------------------------------------------------------------------------
// Parsers
// ---------------------------------------------------------------------------

/// A signal: 0 maps to -113 dBm and each step is 2 dB; 99 is "unknown".
pub open spec fn signal_of(index: u8) -> Signal {
    Signal {
        rssi_index: index,
        dbm: if index == 99 {
            None
        } else {
            Some((-113 + 2 * index) as i16)
        },
    }
}

/// A signal, out of an answer.
pub open spec fn signal_in(lines: Seq<Seq<char>>) -> Option<Signal> {
    match value_after(lines, "+CSQ:"@) {
        None => None,
        Some(value) => match number_field(value, 0) {
            Some(index) => Some(signal_of(index)),
            None => None,
        },
    }
}

/// `+CSQ: 24,99` — index 99 is "unknown", not "excellent".
pub fn parse_csq(lines: &[String]) -> (signal: Option<Signal>)
    ensures
        signal == signal_in(texts(lines@)),
{
    let value: Vec<char> = match field_after(lines, "+CSQ:") {
        Some(value) => value,
        None => return None,
    };
    let index: u8 = match find_number(&value, 0) {
        Some(index) => index,
        None => return None,
    };
    let dbm: Option<i16> = if index == 99 {
        None
    } else {
        Some(-113 + 2 * (index as i16))
    };
    Some(Signal { rssi_index: index, dbm })
}

/// A registration, out of an answer.
pub open spec fn registration_in(lines: Seq<Seq<char>>, prefix: Seq<char>) -> Option<
    Registration,
> {
    match value_after(lines, prefix) {
        None => None,
        Some(value) => match number_field(value, 1) {
            Some(code) => Some(Registration::of_code(code)),
            None => None,
        },
    }
}

/// `+CREG: <n>,<stat>[,...]` — the first field is the URC setting, not state.
pub fn parse_creg(lines: &[String], prefix: &str) -> (state: Option<Registration>)
    ensures
        state == registration_in(texts(lines@), prefix@),
{
    match field_after(lines, prefix) {
        None => None,
        Some(value) => match find_number(&value, 1) {
            Some(code) => Some(Registration::from_code(code)),
            None => None,
        },
    }
}

/// 3GPP 27.007 access technology codes.
pub open spec fn technology(code: u8) -> &'static str {
    if code == 0 {
        "GSM"
    } else if code == 1 {
        "GSM Compact"
    } else if code == 2 {
        "UTRAN"
    } else if code == 3 {
        "GSM/EGPRS"
    } else if code == 4 {
        "UTRAN/HSDPA"
    } else if code == 5 {
        "UTRAN/HSUPA"
    } else if code == 6 {
        "UTRAN/HSDPA+HSUPA"
    } else if code == 7 {
        "LTE"
    } else if code == 8 {
        "EC-GSM-IoT"
    } else if code == 9 {
        "LTE-M"
    } else if code == 10 {
        "NB-IoT"
    } else if code == 11 || code == 12 {
        "NR"
    } else {
        "unknown"
    }
}

/// 3GPP 27.007 access technology codes.
fn access_technology(code: u8) -> (name: &'static str)
    ensures
        name == technology(code),
{
    if code == 0 {
        "GSM"
    } else if code == 1 {
        "GSM Compact"
    } else if code == 2 {
        "UTRAN"
    } else if code == 3 {
        "GSM/EGPRS"
    } else if code == 4 {
        "UTRAN/HSDPA"
    } else if code == 5 {
        "UTRAN/HSUPA"
    } else if code == 6 {
        "UTRAN/HSDPA+HSUPA"
    } else if code == 7 {
        "LTE"
    } else if code == 8 {
        "EC-GSM-IoT"
    } else if code == 9 {
        "LTE-M"
    } else if code == 10 {
        "NB-IoT"
    } else if code == 11 || code == 12 {
        "NR"
    } else {
        "unknown"
    }
}

/// The technology that a small number names, if there is one.
pub open spec fn opt_technology(code: Option<u8>) -> Option<&'static str> {
    match code {
        Some(c) => Some(technology(c)),
        None => None,
    }
}

/// An operator and a technology, out of an answer. Fewer than three fields mean
/// that the module reported no operator, which is what `+COPS: 0` looks like
/// while it is still searching.
pub open spec fn operator_in(lines: Seq<Seq<char>>) -> Option<
    (Seq<char>, Option<&'static str>),
> {
    match value_after(lines, "+COPS:"@) {
        None => None,
        Some(value) => match text_field(value, 2) {
            None => None,
            Some(operator) => Some((operator, opt_technology(number_field(value, 3)))),
        },
    }
}

/// `+COPS: 0,0,"CHN-UNICOM",7`
pub fn parse_cops(lines: &[String]) -> (operator: Option<(String, Option<&'static str>)>)
    ensures
        match operator {
            Some((name, technology)) => operator_in(texts(lines@)) == Some((name@, technology)),
            None => operator_in(texts(lines@)) is None,
        },
{
    let value: Vec<char> = match field_after(lines, "+COPS:") {
        Some(value) => value,
        None => return None,
    };
    let operator: String = match find_text(&value, 2) {
        Some(operator) => operator,
        None => return None,
    };
    let technology: Option<&'static str> = match find_number(&value, 3) {
        Some(code) => Some(access_technology(code)),
        None => None,
    };
    Some((operator, technology))
}

/// A text field of an answer.
pub open spec fn answer_field(lines: Seq<Seq<char>>, prefix: Seq<char>, i: int) -> Option<
    Seq<char>,
> {
    match value_after(lines, prefix) {
        None => None,
        Some(value) => text_field(value, i),
    }
}

/// `+CNUM: "","+8613800138000",145`
pub fn parse_cnum(lines: &[String]) -> (number: Option<String>)
    ensures
        opt_text(number) == answer_field(texts(lines@), "+CNUM:"@, 1),
{
    match field_after(lines, "+CNUM:") {
        None => None,
        Some(value) => find_text(&value, 1),
    }
}

/// `+CSCA: "+8613800100500",145`
pub fn parse_csca(lines: &[String]) -> (centre: Option<String>)
    ensures
        opt_text(centre) == answer_field(texts(lines@), "+CSCA:"@, 0),
{
    match field_after(lines, "+CSCA:") {
        None => None,
        Some(value) => find_text(&value, 0),
    }
}

/// A response whose payload is the whole line, such as `AT+CIMI`.
pub fn parse_bare_digits(lines: &[String]) -> (digits: Option<String>)
    ensures
        opt_text(digits) == digits_line(texts(lines@)),
{
    first_bare_digits(lines)
}

/// The text without the padding at its end.
pub open spec fn without_padding(text: Seq<char>) -> Seq<char>
    decreases text.len(),
{
    if text.len() > 0 && (text.last() == 'F' || text.last() == 'f') {
        without_padding(text.drop_last())
    } else {
        text
    }
}

fn strip_padding(text: &[char]) -> (rest: &[char])
    ensures
        rest@ == without_padding(text@),
{
    let mut end: usize = text.len();
    proof {
        assert(text@.take(end as int) =~= text@);
    }
    while end > 0 && (text[end - 1] == 'F' || text[end - 1] == 'f')
        invariant
            end <= text@.len(),
            without_padding(text@.take(end as int)) == without_padding(text@),
        decreases end,
    {
        proof {
            assert(text@.take(end as int).drop_last() =~= text@.take(end - 1));
        }
        end = end - 1;
    }
    proof {
        assert(text@.subrange(0, end as int) =~= text@.take(end as int));
    }
    &text[0..end]
}

/// A prefixed value, without the quotes around it.
pub open spec fn prefixed_in(lines: Seq<Seq<char>>, prefix: Seq<char>) -> Option<Seq<char>> {
    match value_after(lines, prefix) {
        None => None,
        Some(value) => Some(stripped(value, '"')),
    }
}

/// An ICCID, out of an answer.
pub open spec fn card_in(lines: Seq<Seq<char>>) -> Option<Seq<char>> {
    match prefixed_in(lines, "+QCCID:"@) {
        None => None,
        Some(raw) => {
            let number = without_padding(raw);
            if number.len() > 0 && all_digits(number) {
                Some(number)
            } else {
                None
            }
        },
    }
}

fn only_digits(s: &[char]) -> (yes: bool)
    ensures
        yes == all_digits(s@),
{
    let mut i: usize = 0;
    while i < s.len()
        invariant
            i <= s@.len(),
            forall|j: int| 0 <= j < i ==> is_digit(#[trigger] s@[j]),
        decreases s@.len() - i,
    {
        if !digit(s[i]) {
            proof {
                assert(!is_digit(s@[i as int]));
            }
            return false;
        }
        i = i + 1;
    }
    true
}

/// `+QCCID: 8985200014632179571F`
///
/// A 19-digit ICCID is padded to 20 on the card with a trailing `F`, and
/// `AT+QCCID` reports the padded form. The QMI path decodes `EF_ICCID` and
/// drops that padding, so leaving it here would show one card under two
/// different numbers depending on which path read it.
pub fn parse_iccid(lines: &[String]) -> (iccid: Option<String>)
    ensures
        opt_text(iccid) == card_in(texts(lines@)),
{
    let raw: String = match parse_prefixed(lines, "+QCCID:") {
        Some(raw) => raw,
        None => return None,
    };
    let chars: Vec<char> = chars_of(raw.as_str());
    let number: &[char] = strip_padding(&chars);
    if number.len() > 0 && only_digits(number) {
        Some(string_of(number))
    } else {
        None
    }
}

/// A response of the form `<prefix> <value>`.
pub fn parse_prefixed(lines: &[String], prefix: &str) -> (value: Option<String>)
    ensures
        opt_text(value) == prefixed_in(texts(lines@), prefix@),
{
    match field_after(lines, prefix) {
        None => None,
        Some(value) => Some(string_of(strip_char(&value, '"'))),
    }
}

// ---------------------------------------------------------------------------
// The batch
// ---------------------------------------------------------------------------

/// How many commands the batch has.
pub const BATCH_COMMANDS: usize = 9;

/// The read-only batch. Nothing here changes module state.
pub open spec fn batch_text(i: int) -> &'static str {
    if i == 0 {
        "AT+CSQ"
    } else if i == 1 {
        "AT+CREG?"
    } else if i == 2 {
        "AT+CEREG?"
    } else if i == 3 {
        "AT+COPS?"
    } else if i == 4 {
        "AT+CIMI"
    } else if i == 5 {
        "AT+QCCID"
    } else if i == 6 {
        "AT+CNUM"
    } else if i == 7 {
        "AT+QGMR"
    } else {
        "AT+CSCA?"
    }
}

/// One command of the read-only batch. Nothing here changes module state.
pub fn batch_command(i: usize) -> (command: &'static str)
    requires
        i < BATCH_COMMANDS,
    ensures
        command == batch_text(i as int),
{
    if i == 0 {
        "AT+CSQ"
    } else if i == 1 {
        "AT+CREG?"
    } else if i == 2 {
        "AT+CEREG?"
    } else if i == 3 {
        "AT+COPS?"
    } else if i == 4 {
        "AT+CIMI"
    } else if i == 5 {
        "AT+QCCID"
    } else if i == 6 {
        "AT+CNUM"
    } else if i == 7 {
        "AT+QGMR"
    } else {
        "AT+CSCA?"
    }
}

/// What a first line says.
pub open spec fn first_line(lines: Seq<Seq<char>>) -> Option<Seq<char>> {
    if lines.len() == 0 {
        None
    } else {
        Some(trimmed(lines[0]))
    }
}

/// A report with one answer entered.
pub open spec fn applied(report: ReportModel, command: Seq<char>, lines: Seq<Seq<char>>) -> ReportModel {
    if command == "AT+CSQ"@ {
        ReportModel { signal: signal_in(lines), ..report }
    } else if command == "AT+CREG?"@ {
        ReportModel { cs_registration: registration_in(lines, "+CREG:"@), ..report }
    } else if command == "AT+CEREG?"@ {
        ReportModel { ps_registration: registration_in(lines, "+CEREG:"@), ..report }
    } else if command == "AT+COPS?"@ {
        match operator_in(lines) {
            Some((operator, technology)) => ReportModel {
                operator: Some(operator),
                access_technology: technology,
                ..report
            },
            None => report,
        }
    } else if command == "AT+CIMI"@ {
        ReportModel { imsi: digits_line(lines), ..report }
    } else if command == "AT+QCCID"@ {
        ReportModel { iccid: card_in(lines), ..report }
    } else if command == "AT+CNUM"@ {
        ReportModel { msisdn: answer_field(lines, "+CNUM:"@, 1), ..report }
    } else if command == "AT+QGMR"@ {
        ReportModel { firmware: first_line(lines), ..report }
    } else if command == "AT+CSCA?"@ {
        ReportModel { sms_centre: answer_field(lines, "+CSCA:"@, 0), ..report }
    } else {
        report
    }
}

fn read_first_line(lines: &[String]) -> (line: Option<String>)
    ensures
        opt_text(line) == first_line(texts(lines@)),
{
    if lines.len() == 0 {
        None
    } else {
        proof {
            assert(texts(lines@)[0] == lines@[0]@);
        }
        let chars: Vec<char> = chars_of(lines[0].as_str());
        Some(string_of(trim(&chars)))
    }
}

/// Enter one answer.
pub fn apply(report: &mut ModemReport, command: &str, lines: &[String])
    ensures
        final(report)@ == applied(old(report)@, command@, texts(lines@)),
{
    if same_text(command, "AT+CSQ") {
        report.signal = parse_csq(lines);
    } else if same_text(command, "AT+CREG?") {
        report.cs_registration = parse_creg(lines, "+CREG:");
    } else if same_text(command, "AT+CEREG?") {
        report.ps_registration = parse_creg(lines, "+CEREG:");
    } else if same_text(command, "AT+COPS?") {
        if let Some((operator, technology)) = parse_cops(lines) {
            report.operator = Some(operator);
            report.access_technology = technology;
        }
    } else if same_text(command, "AT+CIMI") {
        report.imsi = parse_bare_digits(lines);
    } else if same_text(command, "AT+QCCID") {
        report.iccid = parse_iccid(lines);
    } else if same_text(command, "AT+CNUM") {
        report.msisdn = parse_cnum(lines);
    } else if same_text(command, "AT+QGMR") {
        report.firmware = read_first_line(lines);
    } else if same_text(command, "AT+CSCA?") {
        report.sms_centre = parse_csca(lines);
    }
}

/// A report with one exchange entered: a command that the module refuses is
/// recorded, and anything else is read.
pub open spec fn recorded(report: ReportModel, command: Seq<char>, exchange: ExchangeModel) -> ReportModel {
    if ended_ok(exchange.terminator) {
        applied(report, command, exchange.lines)
    } else {
        ReportModel { refused: report.refused.push(command), ..report }
    }
}

/// Enter one exchange of the batch.
///
/// A command the module refuses is recorded and the batch continues: one
/// unsupported vendor command must not cost the operator the whole snapshot.
pub fn record(report: &mut ModemReport, command: &str, exchange: &AtExchange)
    ensures
        final(report)@ == recorded(old(report)@, command@, exchange@),
{
    if exchange.succeeded() {
        apply(report, command, &exchange.lines);
    } else {
        report.refused.push(owned(command));
        proof {
            assert(texts(report.refused@) =~= texts(old(report).refused@).push(command@));
        }
    }
}

// ---------------------------------------------------------------------------
// Scanning for operators
// ---------------------------------------------------------------------------

/// One network a `AT+COPS=?` scan found.
#[derive(Clone, Debug, PartialEq, Eq)]
pub struct ScannedOperator {
    /// 0 unknown, 1 available, 2 current, 3 forbidden.
    pub status: u8,
    pub long_name: String,
    pub short_name: String,
    /// MCC+MNC as the module reports it, e.g. `46001`.
    pub numeric: String,
    pub access_technology: Option<&'static str>,
}

/// One network, by what its texts say.
#[verifier::ext_equal]
pub struct ScannedModel {
    pub status: u8,
    pub long_name: Seq<char>,
    pub short_name: Seq<char>,
    pub numeric: Seq<char>,
    pub access_technology: Option<&'static str>,
}

impl View for ScannedOperator {
    type V = ScannedModel;

    open spec fn view(&self) -> ScannedModel {
        ScannedModel {
            status: self.status,
            long_name: self.long_name@,
            short_name: self.short_name@,
            numeric: self.numeric@,
            access_technology: self.access_technology,
        }
    }
}

/// The models of networks.
pub open spec fn scanned_models(list: Seq<ScannedOperator>) -> Seq<ScannedModel> {
    list.map_values(|operator: ScannedOperator| operator@)
}

/// What a status stands for.
pub open spec fn status_name(status: u8) -> &'static str {
    if status == 1 {
        "available"
    } else if status == 2 {
        "current"
    } else if status == 3 {
        "forbidden"
    } else {
        "unknown"
    }
}

impl ScannedOperator {
    pub fn status_label(&self) -> (label: &'static str)
        ensures
            label == status_name(self.status),
    {
        if self.status == 1 {
            "available"
        } else if self.status == 2 {
            "current"
        } else if self.status == 3 {
            "forbidden"
        } else {
            "unknown"
        }
    }
}

/// The groups that parentheses outside quotes set off, one of them begun or
/// not.
pub open spec fn groups_in(s: Seq<char>, group: Option<Seq<char>>, inside: bool) -> Seq<Seq<char>>
    decreases s.len(),
{
    if s.len() == 0 {
        Seq::empty()
    } else if s[0] == '"' {
        groups_in(s.skip(1), added(group, '"'), !inside)
    } else if s[0] == '(' && !inside {
        groups_in(s.skip(1), Some(Seq::empty()), inside)
    } else if s[0] == ')' && !inside {
        match group {
            Some(whole) => seq![whole] + groups_in(s.skip(1), None, inside),
            None => groups_in(s.skip(1), None, inside),
        }
    } else {
        groups_in(s.skip(1), added(group, s[0]), inside)
    }
}

/// A group that was begun, with one character more.
pub open spec fn added(group: Option<Seq<char>>, c: char) -> Option<Seq<char>> {
    match group {
        Some(g) => Some(g.push(c)),
        None => None,
    }
}

/// Split on top-level parentheses, ignoring any inside quoted names.
fn parenthesised_groups(value: &[char]) -> (groups: Vec<String>)
    ensures
        texts(groups@) == groups_in(value@, None, false),
{
    let ghost wanted = groups_in(value@, None, false);
    let mut groups: Vec<String> = Vec::new();
    let mut current: Option<String> = None;
    let mut inside: bool = false;
    let mut i: usize = 0;
    proof {
        assert(value@.skip(0) =~= value@);
        assert(texts(groups@) + groups_in(value@.skip(0), None, false) =~= wanted);
    }
    while i < value.len()
        invariant
            i <= value@.len(),
            texts(groups@) + groups_in(value@.skip(i as int), opt_text(current), inside) == wanted,
        decreases value@.len() - i,
    {
        let c: char = value[i];
        let ghost before = texts(groups@);
        let ghost was = opt_text(current);
        proof {
            assert(value@.skip(i as int)[0] == c);
            assert(value@.skip(i as int).skip(1) =~= value@.skip(i + 1));
        }
        if c == '(' && !inside {
            let fresh: String = String::new();
            proof {
                assert(fresh@ =~= Seq::empty());
            }
            current = Some(fresh);
        } else if c == ')' && !inside {
            if let Some(group) = current {
                let ghost whole = group@;
                groups.push(group);
                proof {
                    assert(texts(groups@) =~= before + seq![whole]);
                    assert(texts(groups@) + groups_in(value@.skip(i + 1), None, inside) =~= before
                        + groups_in(value@.skip(i as int), was, inside));
                }
            }
            current = None;
        } else {
            if c == '"' {
                inside = !inside;
            }
            current = match current {
                Some(mut group) => {
                    group.push(c);
                    Some(group)
                },
                None => None,
            };
        }
        i = i + 1;
    }
    proof {
        assert(texts(groups@) + Seq::<Seq<char>>::empty() =~= texts(groups@));
    }
    groups
}

/// The fields of a group, without quotes and without the space around them.
pub open spec fn group_fields(group: Seq<char>) -> Seq<Seq<char>> {
    quoted_fields(group, Seq::empty(), false, false).map_values(|field: Seq<char>| trimmed(field))
}

/// One network, out of a group. A network entry carries status, long, short and
/// numeric names; the capability groups are a single range like `0-4`.
pub open spec fn network_in(group: Seq<char>) -> Option<ScannedModel> {
    let fields = group_fields(group);
    if fields.len() < 4 {
        None
    } else {
        match number_in(fields[0], 255) {
            None => None,
            Some(status) => if fields[3].len() == 0 || !all_digits(fields[3]) {
                None
            } else {
                Some(
                    ScannedModel {
                        status: status as u8,
                        long_name: fields[1],
                        short_name: fields[2],
                        numeric: fields[3],
                        access_technology: if fields.len() > 4 {
                            match number_in(fields[4], 255) {
                                Some(code) => Some(technology(code as u8)),
                                None => None,
                            }
                        } else {
                            None
                        },
                    },
                )
            },
        }
    }
}

/// The networks that groups hold.
pub open spec fn networks_in(groups: Seq<Seq<char>>) -> Seq<ScannedModel>
    decreases groups.len(),
{
    if groups.len() == 0 {
        Seq::empty()
    } else {
        match network_in(groups.last()) {
            Some(network) => networks_in(groups.drop_last()).push(network),
            None => networks_in(groups.drop_last()),
        }
    }
}

fn trim_fields(fields: &Vec<String>) -> (list: Vec<String>)
    ensures
        texts(list@) == texts(fields@).map_values(|field: Seq<char>| trimmed(field)),
{
    let ghost wanted = texts(fields@).map_values(|field: Seq<char>| trimmed(field));
    let mut list: Vec<String> = Vec::new();
    let mut i: usize = 0;
    while i < fields.len()
        invariant
            i <= fields@.len(),
            list@.len() == i,
            forall|j: int| 0 <= j < i ==> (#[trigger] list@[j])@ == trimmed(fields@[j]@),
        decreases fields@.len() - i,
    {
        let chars: Vec<char> = chars_of(fields[i].as_str());
        list.push(string_of(trim(&chars)));
        i = i + 1;
    }
    proof {
        assert(texts(list@) =~= wanted);
    }
    list
}

fn read_network(group: &str) -> (network: Option<ScannedOperator>)
    ensures
        match network {
            Some(n) => network_in(group@) == Some(n@),
            None => network_in(group@) is None,
        },
{
    let chars: Vec<char> = chars_of(group);
    let fields: Vec<String> = trim_fields(&split_fields(&chars, false));
    let ghost all = texts(fields@);
    if fields.len() < 4 {
        return None;
    }
    proof {
        assert(all == group_fields(group@));
        assert(all[0] == fields@[0]@);
        assert(all[1] == fields@[1]@);
        assert(all[2] == fields@[2]@);
        assert(all[3] == fields@[3]@);
    }
    let first: Vec<char> = chars_of(fields[0].as_str());
    let status: u8 = match parse_u8(&first) {
        Some(status) => status,
        None => return None,
    };
    let numeric: Vec<char> = chars_of(fields[3].as_str());
    if numeric.len() == 0 || !only_digits(&numeric) {
        return None;
    }
    let mut technology_name: Option<&'static str> = None;
    if fields.len() > 4 {
        proof {
            assert(all[4] == fields@[4]@);
        }
        let last: Vec<char> = chars_of(fields[4].as_str());
        technology_name = match parse_u8(&last) {
            Some(code) => Some(access_technology(code)),
            None => None,
        };
    }
    Some(
        ScannedOperator {
            status,
            long_name: owned(fields[1].as_str()),
            short_name: owned(fields[2].as_str()),
            numeric: owned(fields[3].as_str()),
            access_technology: technology_name,
        },
    )
}

/// The networks that a scan found.
pub open spec fn scan_in(lines: Seq<Seq<char>>) -> Seq<ScannedModel> {
    match value_after(lines, "+COPS:"@) {
        None => Seq::empty(),
        Some(value) => networks_in(groups_in(value, None, false)),
    }
}

/// Parse `+COPS: (2,"CHN-UNICOM","UNICOM","46001",7),(1,...),,(0-4),(0-2)`.
///
/// The trailing `(0-4),(0-2)` groups describe the modes the module supports,
/// not networks, and they are separated from the list by an empty field. Taking
/// every parenthesised group would report them as two nameless operators.
pub fn parse_cops_scan(lines: &[String]) -> (operators: Vec<ScannedOperator>)
    ensures
        scanned_models(operators@) == scan_in(texts(lines@)),
{
    let mut operators: Vec<ScannedOperator> = Vec::new();
    proof {
        assert(scanned_models(operators@) =~= Seq::empty());
    }
    let value: Vec<char> = match field_after(lines, "+COPS:") {
        Some(value) => value,
        None => return operators,
    };
    let groups: Vec<String> = parenthesised_groups(&value);
    let ghost all = texts(groups@);
    let mut i: usize = 0;
    proof {
        assert(all.take(0) =~= Seq::empty());
    }
    while i < groups.len()
        invariant
            i <= groups@.len(),
            all == texts(groups@),
            scanned_models(operators@) == networks_in(all.take(i as int)),
        decreases groups@.len() - i,
    {
        proof {
            assert(all.take(i + 1).drop_last() =~= all.take(i as int));
            assert(all.take(i + 1).last() == groups@[i as int]@);
        }
        let ghost before = scanned_models(operators@);
        if let Some(network) = read_network(groups[i].as_str()) {
            let ghost shown = network@;
            operators.push(network);
            proof {
                assert(scanned_models(operators@) =~= before.push(shown));
            }
        }
        i = i + 1;
    }
    proof {
        assert(all.take(i as int) =~= all);
    }
    operators
}

/// Every network that a scan reports has a numeric name, so no capability group
/// passes for one.
pub proof fn law_a_network_has_a_number(groups: Seq<Seq<char>>)
    ensures
        forall|i: int|
            0 <= i < networks_in(groups).len() ==> {
                &&& (#[trigger] networks_in(groups)[i]).numeric.len() > 0
                &&& all_digits(networks_in(groups)[i].numeric)
            },
    decreases groups.len(),
{
    if groups.len() > 0 {
        law_a_network_has_a_number(groups.drop_last());
        let rest = networks_in(groups.drop_last());
        let whole = networks_in(groups);
        assert forall|i: int| 0 <= i < whole.len() implies {
            &&& (#[trigger] whole[i]).numeric.len() > 0
            &&& all_digits(whole[i].numeric)
        } by {
            if i < rest.len() {
                assert(whole[i] == rest[i]);
            }
        }
    }
}

/// A command that the module refuses costs the report nothing but itself.
pub proof fn law_a_refusal_leaves_the_rest(
    report: ReportModel,
    command: Seq<char>,
    exchange: ExchangeModel,
)
    requires
        !ended_ok(exchange.terminator),
    ensures
        recorded(report, command, exchange) == (ReportModel {
            refused: report.refused.push(command),
            ..report
        }),
{
}

} // verus!
