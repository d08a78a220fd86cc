//! Hardware bring-up probe for QMI checks.
//!
//! Asks one module for everything that an operator wants to see first, and puts
//! it into lines. The first three questions have to be answered; the others are
//! reported whatever becomes of them.

use crate::dms::{DeviceRevision, DeviceSerialNumbers, OperatingMode, SerialNumbersModel};
use crate::isdr::{eid_on, within_channel};
use crate::nas::{CellModel, NasRegistrationState, ServingSystem};
use crate::session::{
    cell_location_on, manufacturer_on, messages_listed_on, model_on, operating_mode_on,
    revision_on, serial_numbers_on, serving_system_on, synced_on, ClientModel, QmiClient,
    QmiTransport, SessionError, SessionFault,
};
use crate::text::{
    after_prefix, chars_of, decimal, joined_by, owned, push_decimal, push_joined, quoted,
    quoted_text, strip_prefix, texts,
};
use crate::wms::{
    received_only, retain_mobile_terminated, ListedMessage, MessageMode, MessageTag, StorageType,
};
use vstd::prelude::*;

verus! {

// ---------------------------------------------------------------------------
// How values show
// ---------------------------------------------------------------------------

/// An optional text, as it shows.
pub open spec fn shown_text(text: Option<Seq<char>>) -> Seq<char> {
    match text {
        None => "None"@,
        Some(t) => "Some("@ + quoted(t) + ")"@,
    }
}

fn push_shown_text(out: &mut String, text: &Option<String>)
    ensures
        final(out)@ == old(out)@ + shown_text(crate::text::opt_text(*text)),
{
    match text {
        None => out.append("None"),
        Some(t) => {
            out.append("Some(");
            out.append(quoted_text(t.as_str()).as_str());
            out.append(")");
        },
    }
    proof {
        assert(out@ =~= old(out)@ + shown_text(crate::text::opt_text(*text)));
    }
}

/// An optional number, as it shows.
pub open spec fn shown_number(number: Option<u16>) -> Seq<char> {
    match number {
        None => "None"@,
        Some(n) => "Some("@ + decimal(n as nat) + ")"@,
    }
}

fn push_shown_number(out: &mut String, number: Option<u16>)
    ensures
        final(out)@ == old(out)@ + shown_number(number),
{
    match number {
        None => out.append("None"),
        Some(n) => {
            out.append("Some(");
            push_decimal(out, n as u64);
            out.append(")");
        },
    }
    proof {
        assert(out@ =~= old(out)@ + shown_number(number));
    }
}

/// As `shown_number`, of an octet.
pub open spec fn wide(number: Option<u8>) -> Option<u16> {
    match number {
        None => None,
        Some(n) => Some(n as u16),
    }
}

/// A truth value, as it shows.
pub open spec fn shown_truth(yes: bool) -> Seq<char> {
    if yes {
        "true"@
    } else {
        "false"@
    }
}

fn truth(yes: bool) -> (text: &'static str)
    ensures
        text@ == shown_truth(yes),
{
    if yes {
        "true"
    } else {
        "false"
    }
}

/// An octet that has no name.
pub open spec fn shown_unknown(value: u8) -> Seq<char> {
    "Unknown("@ + decimal(value as nat) + ")"@
}

fn push_unknown(out: &mut String, value: u8)
    ensures
        final(out)@ == old(out)@ + shown_unknown(value),
{
    out.append("Unknown(");
    push_decimal(out, value as u64);
    out.append(")");
    proof {
        assert(out@ =~= old(out)@ + shown_unknown(value));
    }
}

/// An operating mode, as it shows.
pub open spec fn shown_mode(mode: OperatingMode) -> Seq<char> {
    match mode {
        OperatingMode::Online => "Online"@,
        OperatingMode::LowPower => "LowPower"@,
        OperatingMode::FactoryTest => "FactoryTest"@,
        OperatingMode::Offline => "Offline"@,
        OperatingMode::Resetting => "Resetting"@,
        OperatingMode::ShuttingDown => "ShuttingDown"@,
        OperatingMode::PersistentLowPower => "PersistentLowPower"@,
        OperatingMode::ModeOnlyLowPower => "ModeOnlyLowPower"@,
        OperatingMode::Unknown(value) => shown_unknown(value),
    }
}

fn push_mode(out: &mut String, mode: OperatingMode)
    ensures
        final(out)@ == old(out)@ + shown_mode(mode),
{
    match mode {
        OperatingMode::Online => out.append("Online"),
        OperatingMode::LowPower => out.append("LowPower"),
        OperatingMode::FactoryTest => out.append("FactoryTest"),
        OperatingMode::Offline => out.append("Offline"),
        OperatingMode::Resetting => out.append("Resetting"),
        OperatingMode::ShuttingDown => out.append("ShuttingDown"),
        OperatingMode::PersistentLowPower => out.append("PersistentLowPower"),
        OperatingMode::ModeOnlyLowPower => out.append("ModeOnlyLowPower"),
        OperatingMode::Unknown(value) => push_unknown(out, value),
    }
}

/// A registration state, as it shows.
pub open spec fn shown_state(state: NasRegistrationState) -> Seq<char> {
    match state {
        NasRegistrationState::NotRegistered => "NotRegistered"@,
        NasRegistrationState::Registered => "Registered"@,
        NasRegistrationState::Searching => "Searching"@,
        NasRegistrationState::Denied => "Denied"@,
        NasRegistrationState::Unknown(value) => shown_unknown(value),
    }
}

fn push_state(out: &mut String, state: NasRegistrationState)
    ensures
        final(out)@ == old(out)@ + shown_state(state),
{
    match state {
        NasRegistrationState::NotRegistered => out.append("NotRegistered"),
        NasRegistrationState::Registered => out.append("Registered"),
        NasRegistrationState::Searching => out.append("Searching"),
        NasRegistrationState::Denied => out.append("Denied"),
        NasRegistrationState::Unknown(value) => push_unknown(out, value),
    }
}

/// A message tag, as it shows.
pub open spec fn shown_tag(tag: MessageTag) -> Seq<char> {
    match tag {
        MessageTag::MtRead => "MtRead"@,
        MessageTag::MtUnread => "MtUnread"@,
        MessageTag::MoSent => "MoSent"@,
        MessageTag::MoUnsent => "MoUnsent"@,
        MessageTag::Unknown(value) => shown_unknown(value),
    }
}

fn push_tag(out: &mut String, tag: MessageTag)
    ensures
        final(out)@ == old(out)@ + shown_tag(tag),
{
    match tag {
        MessageTag::MtRead => out.append("MtRead"),
        MessageTag::MtUnread => out.append("MtUnread"),
        MessageTag::MoSent => out.append("MoSent"),
        MessageTag::MoUnsent => out.append("MoUnsent"),
        MessageTag::Unknown(value) => push_unknown(out, value),
    }
}

/// A listed message: its index and its tag.
pub open spec fn shown_message(message: ListedMessage) -> Seq<char> {
    decimal(message.index as nat) + ":"@ + shown_tag(message.tag)
}

/// Listed messages, each as it shows.
pub open spec fn shown_messages(list: Seq<ListedMessage>) -> Seq<Seq<char>> {
    list.map_values(|message: ListedMessage| shown_message(message))
}

fn show_messages(list: &Vec<ListedMessage>) -> (shown: Vec<String>)
    ensures
        texts(shown@) == shown_messages(list@),
{
    let mut shown: Vec<String> = Vec::new();
    let mut i: usize = 0;
    while i < list.len()
        invariant
            i <= list@.len(),
            shown@.len() == i,
            forall|j: int| 0 <= j < i ==> (#[trigger] shown@[j])@ == shown_message(list@[j]),
        decreases list@.len() - i,
    {
        let mut text: String = String::new();
        push_decimal(&mut text, list[i].index as u64);
        text.append(":");
        push_tag(&mut text, list[i].tag);
        proof {
            assert(text@ =~= shown_message(list@[i as int]));
        }
        shown.push(text);
        i = i + 1;
    }
    proof {
        assert(texts(shown@) =~= shown_messages(list@));
    }
    shown
}

// ---------------------------------------------------------------------------
// The lines
// ---------------------------------------------------------------------------

/// What a refused question leaves in the report.
pub open spec fn refused_line(name: Seq<char>, fault: SessionFault) -> Seq<char> {
    "  "@ + name + "=ERR "@ + fault.text()
}

fn refused(name: &str, error: &SessionError) -> (line: String)
    ensures
        line@ == refused_line(name@, error@),
{
    let mut line: String = owned("  ");
    line.append(name);
    line.append("=ERR ");
    error.push_to(&mut line);
    line
}

/// What an answered question leaves in the report.
pub open spec fn answered_line(name: Seq<char>, value: Seq<char>) -> Seq<char> {
    "  "@ + name + "="@ + value
}

fn answered(name: &str, value: &str) -> (line: String)
    ensures
        line@ == answered_line(name@, value@),
{
    let mut line: String = owned("  ");
    line.append(name);
    line.append("=");
    line.append(value);
    line
}

/// Who the module says it is.
pub open spec fn serials_line(serials: SerialNumbersModel) -> Seq<char> {
    "  imei="@ + (match serials.imei {
        Some(imei) => imei,
        None => "-"@,
    }) + " esn="@ + shown_text(serials.esn) + " meid="@ + shown_text(serials.meid)
}

fn show_serials(serials: &DeviceSerialNumbers) -> (line: String)
    ensures
        line@ == serials_line(serials@),
{
    let mut line: String = owned("  imei=");
    match &serials.imei {
        Some(imei) => line.append(imei.as_str()),
        None => line.append("-"),
    }
    line.append(" esn=");
    push_shown_text(&mut line, &serials.esn);
    line.append(" meid=");
    push_shown_text(&mut line, &serials.meid);
    proof {
        assert(line@ =~= serials_line(serials@));
    }
    line
}

/// What network the module is on.
pub open spec fn serving_line(serving: ServingSystem) -> Seq<char> {
    "  serving state="@ + shown_state(serving.registration_state) + " ps="@ + shown_truth(
        serving.ps_attached,
    ) + " radio="@ + shown_number(wide(serving.radio_interface)) + " mcc="@ + shown_number(
        serving.mcc,
    ) + " mnc="@ + shown_number(serving.mnc)
}

fn show_serving(serving: &ServingSystem) -> (line: String)
    ensures
        line@ == serving_line(*serving),
{
    let mut line: String = owned("  serving state=");
    push_state(&mut line, serving.registration_state);
    line.append(" ps=");
    line.append(truth(serving.ps_attached));
    line.append(" radio=");
    push_shown_number(
        &mut line,
        match serving.radio_interface {
            Some(radio) => Some(radio as u16),
            None => None,
        },
    );
    line.append(" mcc=");
    push_shown_number(&mut line, serving.mcc);
    line.append(" mnc=");
    push_shown_number(&mut line, serving.mnc);
    proof {
        assert(line@ =~= serving_line(*serving));
    }
    line
}

/// What cell the module is in.
pub open spec fn cell_line(cell: CellModel) -> Seq<char> {
    "  lte_cell mcc="@ + cell.mcc + " mnc="@ + cell.mnc + " tac="@ + decimal(cell.tac as nat)
        + " gci="@ + decimal(cell.global_cell_id as nat) + " earfcn="@ + decimal(
        cell.earfcn as nat,
    ) + " complete="@ + shown_truth(
        cell.mcc.len() != 0 && cell.mnc.len() != 0 && cell.global_cell_id != 0,
    )
}

fn show_cell(cell: &crate::nas::LteCellLocation) -> (line: String)
    ensures
        line@ == cell_line(cell@),
{
    let mut line: String = owned("  lte_cell mcc=");
    line.append(cell.mcc.as_str());
    line.append(" mnc=");
    line.append(cell.mnc.as_str());
    line.append(" tac=");
    push_decimal(&mut line, cell.tac as u64);
    line.append(" gci=");
    push_decimal(&mut line, cell.global_cell_id as u64);
    line.append(" earfcn=");
    push_decimal(&mut line, cell.earfcn as u64);
    line.append(" complete=");
    line.append(truth(cell.is_complete()));
    proof {
        assert(line@ =~= cell_line(cell@));
    }
    line
}

/// What the store holds.
pub open spec fn messages_line(list: Seq<ListedMessage>) -> Seq<char> {
    "  wms_list total="@ + decimal(list.len()) + " mt="@ + decimal(received_only(list).len())
        + " tags="@ + joined_by(shown_messages(list), ","@)
}

fn show_listing(list: &Vec<ListedMessage>) -> (line: String)
    ensures
        line@ == messages_line(list@),
{
    let inbound: Vec<ListedMessage> = retain_mobile_terminated(list);
    let shown: Vec<String> = show_messages(list);
    let mut line: String = owned("  wms_list total=");
    push_decimal(&mut line, list.len() as u64);
    line.append(" mt=");
    push_decimal(&mut line, inbound.len() as u64);
    line.append(" tags=");
    push_joined(&mut line, &shown, ",");
    proof {
        assert(line@ =~= messages_line(list@));
    }
    line
}

// ---------------------------------------------------------------------------
// The questions
// ---------------------------------------------------------------------------

/// What a probe came to: what it says, how it ended, the client after it.
#[verifier::ext_equal]
pub struct ProbeModel {
    pub lines: Seq<Seq<char>>,
    pub result: Result<(), Seq<char>>,
    pub client: ClientModel,
}

/// A probe that goes on.
pub open spec fn goes_on(client: ClientModel, lines: Seq<Seq<char>>) -> ProbeModel {
    ProbeModel { lines, result: Ok(()), client }
}

/// A probe that a question ended.
pub open spec fn ended(
    client: ClientModel,
    lines: Seq<Seq<char>>,
    name: Seq<char>,
    fault: SessionFault,
) -> ProbeModel {
    ProbeModel { lines, result: Err(name + ": "@ + fault.text()), client }
}

/// The questions that have to be answered.
pub open spec fn introduced(client: ClientModel) -> ProbeModel {
    let (synced, first) = synced_on(client);
    match synced {
        Err(e) => ended(first, Seq::empty(), "sync"@, e),
        Ok(_) => {
            let greeted = Seq::<Seq<char>>::empty().push("  sync=ok"@);
            let (serials, second) = serial_numbers_on(first);
            match serials {
                Err(e) => ended(second, greeted, "dms serials"@, e),
                Ok(numbers) => {
                    let named = greeted.push("  dms serials=ok"@).push(serials_line(numbers));
                    let (revision, third) = revision_on(second);
                    match revision {
                        Err(e) => ended(third, named, "dms revision"@, e),
                        Ok(text) => goes_on(
                            third,
                            named.push("  dms revision=ok"@).push("  revision="@ + text),
                        ),
                    }
                },
            }
        },
    }
}

/// A question whose answer is a text.
pub open spec fn asked(
    before: ProbeModel,
    name: Seq<char>,
    answer: (Result<Seq<char>, SessionFault>, ClientModel),
) -> ProbeModel {
    goes_on(
        answer.1,
        before.lines.push(
            match answer.0 {
                Ok(value) => answered_line(name, value),
                Err(e) => refused_line(name, e),
            },
        ),
    )
}

/// The model and the manufacturer.
pub open spec fn described(before: ProbeModel) -> ProbeModel {
    let named = asked(before, "model"@, model_on(before.client));
    asked(named, "manufacturer"@, manufacturer_on(named.client))
}

/// The operating mode.
pub open spec fn mode_shown(before: ProbeModel) -> ProbeModel {
    let (answer, after) = operating_mode_on(before.client);
    goes_on(
        after,
        before.lines.push(
            match answer {
                Ok(mode) => answered_line("operating_mode"@, shown_mode(mode)),
                Err(e) => refused_line("operating_mode"@, e),
            },
        ),
    )
}

/// The network and the cell.
pub open spec fn located(before: ProbeModel) -> ProbeModel {
    let (serving, first) = serving_system_on(before.client);
    let (cell, second) = cell_location_on(first);
    goes_on(
        second,
        before.lines.push(
            match serving {
                Ok(system) => serving_line(system),
                Err(e) => refused_line("serving"@, e),
            },
        ).push(
            match cell {
                Ok(place) => cell_line(place),
                Err(e) => refused_line("lte_cell"@, e),
            },
        ),
    )
}

/// The messages and the EID.
pub open spec fn inspected(before: ProbeModel) -> ProbeModel {
    let (listed, first) = messages_listed_on(
        before.client,
        StorageType::Uim,
        MessageTag::MtUnread,
        MessageMode::Gw,
    );
    asked(
        goes_on(
            first,
            before.lines.push(
                match listed {
                    Ok(list) => messages_line(list),
                    Err(e) => refused_line("wms_list"@, e),
                },
            ),
        ),
        "eid"@,
        within_channel(first, 1, |c: ClientModel, channel: u8| eid_on(c, 1, channel)),
    )
}

/// What a whole probe comes to.
pub open spec fn probed(client: ClientModel) -> ProbeModel {
    let start = introduced(client);
    match start.result {
        Err(_) => start,
        Ok(_) => inspected(located(mode_shown(described(start)))),
    }
}

/// What a probe says and how it ended.
#[derive(Debug, PartialEq, Eq)]
pub struct ProbeReport {
    pub lines: Vec<String>,
    /// What stopped the probe, if anything did.
    pub result: Result<(), String>,
}

impl ProbeReport {
    /// Whether a report, with the client after it, is what a probe came to.
    pub open spec fn tells(&self, client: ClientModel, wanted: ProbeModel) -> bool {
        &&& texts(self.lines@) == wanted.lines
        &&& client == wanted.client
        &&& match (self.result, wanted.result) {
            (Ok(_), Ok(_)) => true,
            (Err(text), Err(w)) => text@ == w,
            _ => false,
        }
    }

    fn add(&mut self, line: String)
        ensures
            texts(final(self).lines@) == texts(old(self).lines@).push(line@),
            final(self).result == old(self).result,
    {
        self.lines.push(line);
        proof {
            assert(texts(self.lines@) =~= texts(old(self).lines@).push(line@));
        }
    }

    fn fail(&mut self, name: &str, error: &SessionError)
        ensures
            final(self).lines == old(self).lines,
            final(self).result matches Err(text) && text@ == name@ + ": "@ + error@.text(),
    {
        let mut text: String = owned(name);
        text.append(": ");
        error.push_to(&mut text);
        self.result = Err(text);
    }

    fn ask(&mut self, name: &str, answer: Result<String, SessionError>)
        ensures
            texts(final(self).lines@) == texts(old(self).lines@).push(
                match answer {
                    Ok(value) => answered_line(name@, value@),
                    Err(e) => refused_line(name@, e@),
                },
            ),
            final(self).result == old(self).result,
    {
        match answer {
            Ok(value) => self.add(answered(name, value.as_str())),
            Err(e) => self.add(refused(name, &e)),
        }
    }
}

fn introduce<T: QmiTransport>(client: &mut QmiClient<T>) -> (report: ProbeReport)
    ensures
        report.tells(final(client)@, introduced(old(client)@)),
{
    let mut report = ProbeReport { lines: Vec::new(), result: Ok(()) };
    proof {
        assert(texts(report.lines@) =~= Seq::<Seq<char>>::empty());
    }
    match client.sync() {
        Ok(_) => report.add(owned("  sync=ok")),
        Err(e) => {
            report.fail("sync", &e);
            return report;
        },
    }
    match client.get_serial_numbers() {
        Ok(serials) => {
            report.add(owned("  dms serials=ok"));
            report.add(show_serials(&serials));
        },
        Err(e) => {
            report.fail("dms serials", &e);
            return report;
        },
    }
    let revision: DeviceRevision = match client.get_revision() {
        Ok(revision) => revision,
        Err(e) => {
            report.fail("dms revision", &e);
            return report;
        },
    };
    report.add(owned("  dms revision=ok"));
    let mut line: String = owned("  revision=");
    line.append(revision.device_rev_id.as_str());
    report.add(line);
    report
}

fn describe<T: QmiTransport>(client: &mut QmiClient<T>, report: &mut ProbeReport)
    requires
        old(report).result is Ok,
    ensures
        final(report).tells(
            final(client)@,
            described(goes_on(old(client)@, texts(old(report).lines@))),
        ),
{
    let model: Result<String, SessionError> = client.get_model();
    report.ask("model", model);
    let manufacturer: Result<String, SessionError> = client.get_manufacturer();
    report.ask("manufacturer", manufacturer);
}

fn show_mode<T: QmiTransport>(client: &mut QmiClient<T>, report: &mut ProbeReport)
    requires
        old(report).result is Ok,
    ensures
        final(report).tells(
            final(client)@,
            mode_shown(goes_on(old(client)@, texts(old(report).lines@))),
        ),
{
    match client.get_operating_mode() {
        Ok(mode) => {
            let mut text: String = String::new();
            push_mode(&mut text, mode);
            proof {
                assert(text@ =~= shown_mode(mode));
            }
            report.add(answered("operating_mode", text.as_str()));
        },
        Err(e) => report.add(refused("operating_mode", &e)),
    }
}

fn locate<T: QmiTransport>(client: &mut QmiClient<T>, report: &mut ProbeReport)
    requires
        old(report).result is Ok,
    ensures
        final(report).tells(
            final(client)@,
            located(goes_on(old(client)@, texts(old(report).lines@))),
        ),
{
    match client.get_serving_system() {
        Ok(serving) => report.add(show_serving(&serving)),
        Err(e) => report.add(refused("serving", &e)),
    }
    match client.get_cell_location() {
        Ok(info) => match info.lte {
            Some(cell) => report.add(show_cell(&cell)),
            None => report.add(owned("  lte_cell=none")),
        },
        Err(e) => report.add(refused("lte_cell", &e)),
    }
}

fn inspect<T: QmiTransport>(client: &mut QmiClient<T>, report: &mut ProbeReport)
    requires
        old(report).result is Ok,
    ensures
        final(report).tells(
            final(client)@,
            inspected(goes_on(old(client)@, texts(old(report).lines@))),
        ),
{
    match client.list_sms(StorageType::Uim, MessageTag::MtUnread, MessageMode::Gw) {
        Ok(list) => report.add(show_listing(&list)),
        Err(e) => report.add(refused("wms_list", &e)),
    }
    let eid: Result<String, SessionError> = client.read_eid(1);
    report.ask("eid", eid);
}

/// Ask a module for everything a first look needs, and put it into lines.
pub fn probe<T: QmiTransport>(client: &mut QmiClient<T>) -> (report: ProbeReport)
    ensures
        report.tells(final(client)@, probed(old(client)@)),
{
    let mut report: ProbeReport = introduce(client);
    if report.result.is_err() {
        return report;
    }
    describe(client, &mut report);
    show_mode(client, &mut report);
    locate(client, &mut report);
    inspect(client, &mut report);
    report
}

// ---------------------------------------------------------------------------
// Which devices, and how it went
// ---------------------------------------------------------------------------

/// What names a QMI control node under `/dev`.
pub open spec fn control_node(name: Seq<char>) -> bool {
    after_prefix(name, "cdc-wdm"@) is Some
}

/// Whether an entry of `/dev` is a QMI control node.
pub fn is_control_node(name: &str) -> (yes: bool)
    ensures
        yes == control_node(name@),
{
    let chars: Vec<char> = chars_of(name);
    strip_prefix(&chars, "cdc-wdm").is_some()
}

/// What a run over several devices comes to, by how many failed.
pub open spec fn verdict_text(failed: nat) -> Seq<char> {
    decimal(failed) + " device(s) failed"@
}

/// How a run over several devices ends.
pub fn verdict(failed: u64) -> (result: Result<(), String>)
    ensures
        match result {
            Ok(_) => failed == 0,
            Err(text) => failed > 0 && text@ == verdict_text(failed as nat),
        },
{
    if failed == 0 {
        return Ok(());
    }
    let mut text: String = String::new();
    push_decimal(&mut text, failed);
    text.append(" device(s) failed");
    proof {
        assert(text@ =~= verdict_text(failed as nat));
    }
    Err(text)
}

/// A probe that could not introduce itself asks nothing further.
pub proof fn law_a_silent_module_is_asked_nothing_more(client: ClientModel)
    requires
        synced_on(client).0 is Err,
    ensures
        probed(client).client == synced_on(client).1,
        probed(client).lines.len() == 0,
        probed(client).result is Err,
{
}

/// A module that introduced itself is probed to the end, whatever else it
/// refuses.
pub proof fn law_a_refusal_does_not_end_a_probe(client: ClientModel)
    requires
        introduced(client).result is Ok,
    ensures
        probed(client).result is Ok,
        probed(client).lines.len() == introduced(client).lines.len() + 7,
{
}

} // verus!
