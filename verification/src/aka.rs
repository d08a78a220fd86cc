//! USIM AKA (3G security context) over the modem's **basic** channel.
//!
//! EAP-AKA needs an oracle that only the card can be: given a RAND and an AUTN
//! from the operator's AuC, produce RES/CK/IK.
//!
//! * **Basic channel, no logical channel.** The USIM application is already
//!   selected on channel 0 after boot. Opening a logical channel to select it
//!   again would compete with `IsdrSession` for the few channels an eUICC
//!   offers, and losing that race breaks profile management.
//! * **The FCP is checked every time.** A card reset, a profile switch or
//!   somebody else's `SELECT` can change what is selected, and an AUTHENTICATE
//!   sent to the wrong application is answered by the wrong keys.
//!
//! Status words are classified here rather than left to the caller, because
//! the distinction between "the card rejected this challenge" and "the pipe is
//! broken" is exactly what the protocol layer above has to act on.

use crate::at::{ended_ok, AtError, AtExchange, ExchangeModel};
use crate::octets::{copy_of, push_all};
use crate::text::{
    after_prefix, all_hex, chars_of, decimal, find, first_index, hex_pair_upper, hex_text_upper,
    hex_value, owned, push_decimal, push_hex_pair_upper, push_hex_text_upper, quoted, quoted_text,
    read_hex_digit, string_of, strip_char, strip_prefix, stripped, texts, trim, trimmed,
};
use crate::uim::{join_rounds, joined, ApduModel, ApduResponse, MAX_GET_RESPONSE_ROUNDS};
use vstd::prelude::*;

verus! {

/// RAND is 16 bytes and AUTN is 16 bytes; the card rejects anything else.
pub const RAND_BYTES: usize = 16;

pub const AUTN_BYTES: usize = 16;

/// AUTS, returned on a sequence-number synchronisation failure.
pub const AUTS_BYTES: usize = 14;

pub const CK_BYTES: usize = 16;

pub const IK_BYTES: usize = 16;

pub const KC_BYTES: usize = 8;

/// RES is variable length within these bounds (TS 33.102).
pub const RES_MIN_BYTES: usize = 4;

pub const RES_MAX_BYTES: usize = 16;

/// `STATUS` with P2=00, i.e. "return the FCP of the current application".
pub const STATUS_FCP_APDU: [u8; 5] = [0x00, 0xf2, 0x00, 0x00, 0x00];

/// RID + PIX of the 3GPP USIM application: `A0 00 00 00 87` + `10 02`.
///
/// Only the prefix is fixed; the rest of the AID is card specific. ISIM is
/// `1004` under the same RID, which is why the PIX is part of the check —
/// authenticating against ISIM would use a different security context.
pub const USIM_ADF_AID_PREFIX: [u8; 7] = [0xa0, 0x00, 0x00, 0x00, 0x87, 0x10, 0x02];

/// FCP template tag, and the FCI template some cards answer with instead.
pub const FCP_TEMPLATE_TAG: u8 = 0x62;

pub const FCI_TEMPLATE_TAG: u8 = 0x6f;

/// DF name (the AID of the selected application) inside a template.
pub const DF_NAME_TAG: u8 = 0x84;

/// Body tags of an AUTHENTICATE response (TS 31.102 §7.1.2).
pub const TAG_SUCCESS: u8 = 0xdb;

pub const TAG_SYNC_FAILURE: u8 = 0xdc;

pub const TAG_AUTH_FAILURE: u8 = 0xdd;

/// "Authentication error, incorrect MAC".
///
/// The only `98xx` that is mapped. `9864` is *deliberately absent*: guessing it
/// would turn an unknown card state into a confidently wrong protocol decision.
/// Everything else in the family comes back as `AkaError::UnknownStatusWord`
/// carrying the raw bytes.
pub const SW_INCORRECT_MAC: (u8, u8) = (0x98, 0x62);

/// Default budget for one AUTHENTICATE round trip, in milliseconds.
///
/// Every caller of this is on a synchronous, timed path, so a card that stops
/// answering has to become an error quickly rather than hold the port until
/// the peer gives up on us.
pub const AKA_TIMEOUT: u64 = 10_000;

/// What the card said about one challenge.
///
/// Three outcomes, because the protocol above treats them as three different
/// messages: keys, a resynchronisation token, or a rejection.
#[derive(Clone, Debug, PartialEq, Eq)]
pub enum AkaOutcome {
    /// The card accepted the challenge.
    Success {
        res: Vec<u8>,
        ck: Vec<u8>,
        ik: Vec<u8>,
        /// Some USIMs append the GSM key; kept rather than dropped so a
        /// caller that needs GSM/UMTS interworking does not have to ask again.
        kc: Option<Vec<u8>>,
    },
    /// Sequence number out of range. `auts` goes back to the network in an
    /// `AT_AUTS` attribute; this is a recoverable condition, not a failure.
    SyncFailure { auts: Vec<u8> },
    /// The card refused the challenge. `sw1`/`sw2` are kept so a receipt can
    /// show which refusal it was.
    AuthenticationFailure { sw1: u8, sw2: u8, detail: &'static str },
}

/// What the card said, by what it holds.
pub enum OutcomeModel {
    Success { res: Seq<u8>, ck: Seq<u8>, ik: Seq<u8>, kc: Option<Seq<u8>> },
    SyncFailure { auts: Seq<u8> },
    AuthenticationFailure { sw1: u8, sw2: u8, detail: &'static str },
}

/// Octets that may be absent.
pub open spec fn opt_bytes(bytes: Option<Vec<u8>>) -> Option<Seq<u8>> {
    match bytes {
        Some(b) => Some(b@),
        None => None,
    }
}

impl View for AkaOutcome {
    type V = OutcomeModel;

    open spec fn view(&self) -> OutcomeModel {
        match *self {
            AkaOutcome::Success { res, ck, ik, kc } => OutcomeModel::Success {
                res: res@,
                ck: ck@,
                ik: ik@,
                kc: opt_bytes(kc),
            },
            AkaOutcome::SyncFailure { auts } => OutcomeModel::SyncFailure { auts: auts@ },
            AkaOutcome::AuthenticationFailure { sw1, sw2, detail } => {
                OutcomeModel::AuthenticationFailure { sw1, sw2, detail }
            },
        }
    }
}

impl OutcomeModel {
    /// Short, stable label for logs and RPC responses.
    pub open spec fn name(self) -> &'static str {
        match self {
            OutcomeModel::Success { .. } => "success",
            OutcomeModel::SyncFailure { .. } => "sync_failure",
            OutcomeModel::AuthenticationFailure { .. } => "authentication_failure",
        }
    }
}

impl AkaOutcome {
    /// Short, stable label for logs and RPC responses.
    pub fn label(&self) -> (label: &'static str)
        ensures
            label == self@.name(),
    {
        match self {
            AkaOutcome::Success { .. } => "success",
            AkaOutcome::SyncFailure { .. } => "sync_failure",
            AkaOutcome::AuthenticationFailure { .. } => "authentication_failure",
        }
    }
}

/// Everything that can go wrong that is *not* the card answering a challenge.
#[allow(inconsistent_fields)]
#[derive(Clone, Debug, PartialEq, Eq)]
pub enum AkaError {
    /// RAND or AUTN was not 16 bytes.
    BadChallengeLength { field: &'static str, actual: usize },
    /// The AT port refused the exchange, or the module answered `+CME ERROR`.
    Transport(String),
    /// `+CSIM:` was missing, malformed, or not valid hex.
    MalformedCsim(String),
    /// The card answered the FCP read with something other than `9000`.
    StatusRefused { sw1: u8, sw2: u8 },
    /// The FCP carried no tag `84`, so what is selected cannot be established.
    NoSelectedApplication { fcp: String },
    /// Something other than the USIM ADF is selected on the basic channel.
    ///
    /// Deliberately not repaired here: repairing it means `SELECT`, and this must
    /// not touch application selection while eUICC sessions are in flight.
    NotUsimAdf { aid: String },
    /// A status word with no mapping. Carries the raw bytes so the next person
    /// has the evidence rather than a guess.
    UnknownStatusWord { sw1: u8, sw2: u8, body: String },
    /// `9000`, but the body is not a shape TS 31.102 describes.
    MalformedResponse { reason: String, body: String },
    /// The card asked for more `GET RESPONSE` rounds than anyone should.
    TooManyGetResponseRounds { rounds: usize },
}

/// What an error says.
#[allow(inconsistent_fields)]
pub enum AkaFault {
    BadChallengeLength { field: &'static str, actual: usize },
    Transport(Seq<char>),
    MalformedCsim(Seq<char>),
    StatusRefused { sw1: u8, sw2: u8 },
    NoSelectedApplication { fcp: Seq<char> },
    NotUsimAdf { aid: Seq<char> },
    UnknownStatusWord { sw1: u8, sw2: u8, body: Seq<char> },
    MalformedResponse { reason: Seq<char>, body: Seq<char> },
    TooManyGetResponseRounds { rounds: usize },
}

impl View for AkaError {
    type V = AkaFault;

    open spec fn view(&self) -> AkaFault {
        match *self {
            AkaError::BadChallengeLength { field, actual } => AkaFault::BadChallengeLength { field, actual },
            AkaError::Transport(e) => AkaFault::Transport(e@),
            AkaError::MalformedCsim(e) => AkaFault::MalformedCsim(e@),
            AkaError::StatusRefused { sw1, sw2 } => AkaFault::StatusRefused { sw1, sw2 },
            AkaError::NoSelectedApplication { fcp } => AkaFault::NoSelectedApplication { fcp: fcp@ },
            AkaError::NotUsimAdf { aid } => AkaFault::NotUsimAdf { aid: aid@ },
            AkaError::UnknownStatusWord { sw1, sw2, body } => AkaFault::UnknownStatusWord {
                sw1,
                sw2,
                body: body@,
            },
            AkaError::MalformedResponse { reason, body } => AkaFault::MalformedResponse {
                reason: reason@,
                body: body@,
            },
            AkaError::TooManyGetResponseRounds { rounds } => AkaFault::TooManyGetResponseRounds { rounds },
        }
    }
}

impl AkaFault {
    /// What the error says.
    pub open spec fn text(self) -> Seq<char> {
        match self {
            AkaFault::BadChallengeLength { field, actual } => field@ + " must be 16 bytes, got "@
                + decimal(actual as nat),
            AkaFault::Transport(e) => "AT transport: "@ + e,
            AkaFault::MalformedCsim(e) => "malformed +CSIM answer: "@ + e,
            AkaFault::StatusRefused { sw1, sw2 } => "card refused STATUS with SW "@
                + hex_pair_upper(sw1) + hex_pair_upper(sw2)
                + ", so the selected application is unknown"@,
            AkaFault::NoSelectedApplication { fcp } => "FCP has no tag 84, so no application is selected on the basic channel: "@
                + fcp,
            AkaFault::NotUsimAdf { aid } => "basic channel has AID "@ + aid
                + " selected, not the USIM ADF; refusing to AUTHENTICATE against the wrong application"@,
            AkaFault::UnknownStatusWord { sw1, sw2, body } => "unmapped status word "@
                + hex_pair_upper(sw1) + hex_pair_upper(sw2) + " (body "@ + body + ")"@,
            AkaFault::MalformedResponse { reason, body } => reason + " (body "@ + body + ")"@,
            AkaFault::TooManyGetResponseRounds { rounds } => "card asked for more than "@
                + decimal(rounds as nat) + " GET RESPONSE rounds"@,
        }
    }
}

impl AkaError {
    pub fn push_to(&self, out: &mut String)
        ensures
            final(out)@ == old(out)@ + self@.text(),
    {
        match self {
            AkaError::BadChallengeLength { field, actual } => {
                out.append(field);
                out.append(" must be 16 bytes, got ");
                push_decimal(out, *actual as u64);
            },
            AkaError::Transport(e) => {
                out.append("AT transport: ");
                out.append(e.as_str());
            },
            AkaError::MalformedCsim(e) => {
                out.append("malformed +CSIM answer: ");
                out.append(e.as_str());
            },
            AkaError::StatusRefused { sw1, sw2 } => {
                out.append("card refused STATUS with SW ");
                push_hex_pair_upper(out, *sw1);
                push_hex_pair_upper(out, *sw2);
                out.append(", so the selected application is unknown");
            },
            AkaError::NoSelectedApplication { fcp } => {
                out.append(
                    "FCP has no tag 84, so no application is selected on the basic channel: ",
                );
                out.append(fcp.as_str());
            },
            AkaError::NotUsimAdf { aid } => {
                out.append("basic channel has AID ");
                out.append(aid.as_str());
                out.append(
                    " selected, not the USIM ADF; refusing to AUTHENTICATE against the wrong application",
                );
            },
            AkaError::UnknownStatusWord { sw1, sw2, body } => {
                out.append("unmapped status word ");
                push_hex_pair_upper(out, *sw1);
                push_hex_pair_upper(out, *sw2);
                out.append(" (body ");
                out.append(body.as_str());
                out.append(")");
            },
            AkaError::MalformedResponse { reason, body } => {
                out.append(reason.as_str());
                out.append(" (body ");
                out.append(body.as_str());
                out.append(")");
            },
            AkaError::TooManyGetResponseRounds { rounds } => {
                out.append("card asked for more than ");
                push_decimal(out, *rounds as u64);
                out.append(" GET RESPONSE rounds");
            },
        }
        proof {
            assert(out@ =~= old(out)@ + self@.text());
        }
    }

    pub fn to_string(&self) -> (text: String)
        ensures
            text@ == self@.text(),
    {
        let mut text: String = String::new();
        self.push_to(&mut text);
        proof {
            assert(text@ =~= self@.text());
        }
        text
    }
}

impl AkaFault {
    /// Stable machine-readable code, for the RPC surface and for receipts.
    pub open spec fn code_of(self) -> &'static str {
        match self {
            AkaFault::BadChallengeLength { .. } => "bad_challenge_length",
            AkaFault::Transport(_) => "at_transport_failed",
            AkaFault::MalformedCsim(_) => "malformed_csim",
            AkaFault::StatusRefused { .. } => "status_refused",
            AkaFault::NoSelectedApplication { .. } => "no_selected_application",
            AkaFault::NotUsimAdf { .. } => "not_usim_adf",
            AkaFault::UnknownStatusWord { .. } => "unknown_status_word",
            AkaFault::MalformedResponse { .. } => "malformed_response",
            AkaFault::TooManyGetResponseRounds { .. } => "too_many_get_response_rounds",
        }
    }
}

impl AkaError {
    /// Stable machine-readable code, for the RPC surface and for receipts.
    pub fn code(&self) -> (code: &'static str)
        ensures
            code == self@.code_of(),
    {
        match self {
            AkaError::BadChallengeLength { .. } => "bad_challenge_length",
            AkaError::Transport(_) => "at_transport_failed",
            AkaError::MalformedCsim(_) => "malformed_csim",
            AkaError::StatusRefused { .. } => "status_refused",
            AkaError::NoSelectedApplication { .. } => "no_selected_application",
            AkaError::NotUsimAdf { .. } => "not_usim_adf",
            AkaError::UnknownStatusWord { .. } => "unknown_status_word",
            AkaError::MalformedResponse { .. } => "malformed_response",
            AkaError::TooManyGetResponseRounds { .. } => "too_many_get_response_rounds",
        }
    }
}

/// A failure of the AT port, as a failure of an authentication.
pub fn from_at(error: AtError) -> (result: AkaError)
    ensures
        result@ == AkaFault::Transport(error@.text()),
{
    AkaError::Transport(error.to_string())
}

// ---------------------------------------------------------------------------
// The channel
// ---------------------------------------------------------------------------

/// What a basic channel does, seen over its whole life: the answers it has
/// still to give, the next one first, and the APDUs it was handed, the last
/// one last.
pub struct BasicModel {
    pub answers: spec_fn(nat) -> Result<ApduModel, AkaFault>,
    pub sent: Seq<Seq<u8>>,
}

/// One APDU goes out and the next answer comes back.
pub open spec fn carried(link: BasicModel, apdu: Seq<u8>) -> (
    Result<ApduModel, AkaFault>,
    BasicModel,
) {
    (
        (link.answers)(0),
        BasicModel { answers: |n: nat| (link.answers)(n + 1), sent: link.sent.push(apdu) },
    )
}

/// What was read, or why it was not, by what it says.
pub open spec fn read_as<R: View>(result: Result<R, AkaError>) -> Result<R::V, AkaFault> {
    match result {
        Ok(value) => Ok(value@),
        Err(e) => Err(e@),
    }
}

/// One APDU in, one APDU answer out, on the basic channel.
///
/// A trait because the two things that matter about this code — the APDU it
/// builds and the answers it accepts — must be testable without a modem, and
/// because the same primitive should work over anything that can carry an
/// APDU.
pub trait BasicChannel {
    spec fn link(&self) -> BasicModel;

    fn transmit(&mut self, apdu: &[u8]) -> (answer: Result<ApduResponse, AkaError>)
        ensures
            (read_as(answer), final(self).link()) == carried(old(self).link(), apdu@),
    ;
}

/// `AT+CSIM=<hex chars>,"<hex>"` for one APDU.
pub open spec fn csim_text(apdu: Seq<u8>) -> Seq<char> {
    "AT+CSIM="@ + decimal(2 * apdu.len()) + ",\""@ + hex_text_upper(apdu) + "\""@
}

/// `AT+CSIM=<hex chars>,"<hex>"` for one APDU.
///
/// The length field counts hex characters, not bytes; getting that wrong
/// produces `+CME ERROR: 21` rather than anything that names the problem.
pub fn csim_command(apdu: &[u8]) -> (command: String)
    requires
        2 * apdu@.len() <= usize::MAX,
    ensures
        command@ == csim_text(apdu@),
{
    let mut command: String = owned("AT+CSIM=");
    push_decimal(&mut command, (apdu.len() * 2) as u64);
    command.append(",\"");
    push_hex_text_upper(&mut command, apdu);
    command.append("\"");
    proof {
        assert(command@ =~= csim_text(apdu@));
    }
    command
}

/// What an exchange that carried an APDU answers.
pub open spec fn csim_in(exchange: ExchangeModel) -> Result<ApduModel, AkaFault> {
    if ended_ok(exchange.terminator) {
        csim_answer_in(exchange.lines)
    } else {
        Err(AkaFault::Transport(exchange.command + " answered "@ + exchange.terminator))
    }
}

/// The answer of a card, out of the exchange of the `AT+CSIM` that carried the
/// APDU.
pub fn csim_response(exchange: &AtExchange) -> (answer: Result<ApduResponse, AkaError>)
    ensures
        read_as(answer) == csim_in(exchange@),
{
    if !exchange.succeeded() {
        let mut text: String = owned(exchange.command.as_str());
        text.append(" answered ");
        text.append(exchange.terminator.as_str());
        proof {
            assert(text@ =~= exchange@.command + " answered "@ + exchange@.terminator);
        }
        return Err(AkaError::Transport(text));
    }
    parse_csim_answer(&exchange.lines)
}

/// The APDU that an AUTHENTICATE is.
pub open spec fn challenge_apdu(rand: Seq<u8>, autn: Seq<u8>, include_le: bool) -> Result<
    Seq<u8>,
    AkaFault,
> {
    if rand.len() != RAND_BYTES {
        Err(AkaFault::BadChallengeLength { field: "RAND", actual: rand.len() as usize })
    } else if autn.len() != AUTN_BYTES {
        Err(AkaFault::BadChallengeLength { field: "AUTN", actual: autn.len() as usize })
    } else {
        let apdu = seq![0x00u8, 0x88u8, 0x00u8, 0x81u8, 0x22u8, 0x10u8] + rand + seq![0x10u8]
            + autn;
        Ok(
            if include_le {
                apdu.push(0x00)
            } else {
                apdu
            },
        )
    }
}

/// The APDU an AUTHENTICATE looks like: `00 88 00 81 22 10<RAND>10<AUTN>` and
/// an `Le` byte.
///
/// CLA `00` is the basic channel; P2 `81` selects the 3G security context.
/// `Le` can be left out, but a card that wants it and does not get it answers
/// `6700` instead of the keys.
pub fn authenticate_apdu(rand16: &[u8], autn16: &[u8], include_le: bool) -> (apdu: Result<
    Vec<u8>,
    AkaError,
>)
    ensures
        read_as(apdu) == challenge_apdu(rand16@, autn16@, include_le),
{
    if rand16.len() != RAND_BYTES {
        return Err(AkaError::BadChallengeLength { field: "RAND", actual: rand16.len() });
    }
    if autn16.len() != AUTN_BYTES {
        return Err(AkaError::BadChallengeLength { field: "AUTN", actual: autn16.len() });
    }
    let mut apdu: Vec<u8> = vec![0x00, 0x88, 0x00, 0x81, 0x22, 0x10];
    push_all(&mut apdu, rand16);
    apdu.push(0x10);
    push_all(&mut apdu, autn16);
    if include_le {
        apdu.push(0x00);
    }
    proof {
        assert(apdu@ =~= challenge_apdu(rand16@, autn16@, include_le)->Ok_0);
    }
    Ok(apdu)
}

/// Fetching what is left of an answer, round by round, until the card stops
/// saying that there is more.
pub open spec fn drained_basic(
    link: BasicModel,
    gathered: Seq<u8>,
    latest: ApduModel,
    rounds: nat,
) -> (Result<ApduModel, AkaFault>, BasicModel)
    decreases MAX_GET_RESPONSE_ROUNDS - rounds,
{
    if !latest.more() {
        (Ok(joined(gathered, latest)), link)
    } else if rounds >= MAX_GET_RESPONSE_ROUNDS {
        (Err(AkaFault::TooManyGetResponseRounds { rounds: MAX_GET_RESPONSE_ROUNDS }), link)
    } else {
        let (answer, after) = carried(link, latest.fetch());
        match answer {
            Err(e) => (Err(e), after),
            Ok(next) => drained_basic(after, joined(gathered, latest).data, next, rounds + 1),
        }
    }
}

/// One APDU and all of its answer. `6C xx` means that the `Le` was wrong and
/// `xx` is the right one, and gets one retry.
pub open spec fn whole_answer(link: BasicModel, apdu: Seq<u8>) -> (
    Result<ApduModel, AkaFault>,
    BasicModel,
) {
    let (answer, after) = carried(link, apdu);
    match answer {
        Err(e) => (Err(e), after),
        Ok(first) => if first.sw1 == 0x6c && apdu.len() > 0 {
            let (answer, after) = carried(after, apdu.update(apdu.len() - 1, first.sw2));
            match answer {
                Err(e) => (Err(e), after),
                Ok(first) => drained_basic(after, Seq::empty(), first, 0),
            }
        } else {
            drained_basic(after, Seq::empty(), first, 0)
        },
    }
}

/// Keep pulling until the card stops asking for more.
fn drain<C: BasicChannel>(channel: &mut C, first: ApduResponse) -> (answer: Result<
    ApduResponse,
    AkaError,
>)
    ensures
        (read_as(answer), final(channel).link()) == drained_basic(
            old(channel).link(),
            Seq::empty(),
            first@,
            0,
        ),
{
    let mut latest: ApduResponse = first;
    let mut gathered: Vec<u8> = Vec::new();
    let mut rounds: usize = 0;
    let ghost wanted = drained_basic(old(channel).link(), Seq::empty(), first@, 0);
    proof {
        assert(gathered@ =~= Seq::empty());
    }
    loop
        invariant
            rounds <= MAX_GET_RESPONSE_ROUNDS,
            wanted == drained_basic(old(channel).link(), Seq::empty(), first@, 0),
            drained_basic(channel.link(), gathered@, latest@, rounds as nat) == wanted,
        decreases MAX_GET_RESPONSE_ROUNDS - rounds,
    {
        let fetch: [u8; 5] = match latest.get_response_apdu() {
            Some(fetch) => fetch,
            None => return Ok(join_rounds(&gathered, latest)),
        };
        if rounds >= MAX_GET_RESPONSE_ROUNDS {
            return Err(
                AkaError::TooManyGetResponseRounds { rounds: MAX_GET_RESPONSE_ROUNDS },
            );
        }
        let next: ApduResponse = match channel.transmit(&fetch) {
            Ok(next) => next,
            Err(e) => return Err(e),
        };
        gathered = join_rounds(&gathered, latest).data;
        latest = next;
        rounds = rounds + 1;
    }
}

/// Send one APDU and keep pulling until the card stops asking for more.
///
/// `61xx` and `6Cxx` are both "ask again differently" rather than results.
fn exchange<C: BasicChannel>(channel: &mut C, apdu: &[u8]) -> (answer: Result<
    ApduResponse,
    AkaError,
>)
    ensures
        (read_as(answer), final(channel).link()) == whole_answer(old(channel).link(), apdu@),
{
    let first: ApduResponse = match channel.transmit(apdu) {
        Ok(first) => first,
        Err(e) => return Err(e),
    };
    if first.sw1 == 0x6c && apdu.len() > 0 {
        let mut retry: Vec<u8> = copy_of(apdu);
        let last: usize = retry.len() - 1;
        retry.set(last, first.sw2);
        let second: ApduResponse = match channel.transmit(&retry) {
            Ok(second) => second,
            Err(e) => return Err(e),
        };
        return drain(channel, second);
    }
    drain(channel, first)
}

/// Reading what is selected, which has to be the USIM.
pub open spec fn selected_on(link: BasicModel) -> (Result<Seq<u8>, AkaFault>, BasicModel) {
    let (answer, after) = whole_answer(link, STATUS_FCP_APDU@);
    (
        match answer {
            Err(e) => Err(e),
            Ok(response) => if !response.success() {
                Err(AkaFault::StatusRefused { sw1: response.sw1, sw2: response.sw2 })
            } else {
                match aid_in(response.data) {
                    Err(e) => Err(e),
                    Ok(aid) => if is_usim(aid) {
                        Ok(aid)
                    } else {
                        Err(AkaFault::NotUsimAdf { aid: hex_text_upper(aid) })
                    },
                }
            },
        },
        after,
    )
}

/// Whether an AID is one of the USIM application.
pub open spec fn is_usim(aid: Seq<u8>) -> bool {
    aid.len() >= 7 && aid.take(7) == USIM_ADF_AID_PREFIX@
}

/// Read the FCP of the current application and require it to be the USIM ADF.
///
/// Returns the AID, so a caller can put the actual bytes in a receipt instead
/// of "it looked right".
pub fn verify_usim_selected<C: BasicChannel>(channel: &mut C) -> (aid: Result<
    Vec<u8>,
    AkaError,
>)
    ensures
        (read_as(aid), final(channel).link()) == selected_on(old(channel).link()),
{
    let response: ApduResponse = match exchange(channel, &STATUS_FCP_APDU) {
        Ok(response) => response,
        Err(e) => return Err(e),
    };
    if !response.is_success() {
        return Err(AkaError::StatusRefused { sw1: response.sw1, sw2: response.sw2 });
    }
    let aid: Vec<u8> = match selected_aid(&response.data) {
        Ok(aid) => aid,
        Err(e) => return Err(e),
    };
    if aid.len() < 7 || !crate::octets::same_bytes(&aid[0..7], &USIM_ADF_AID_PREFIX) {
        return Err(AkaError::NotUsimAdf { aid: hex_upper(&aid) });
    }
    proof {
        assert(aid@.subrange(0, 7) =~= aid@.take(7));
    }
    Ok(aid)
}

/// One AKA challenge: the check of what is selected, and only then the
/// AUTHENTICATE.
pub open spec fn challenged_on(link: BasicModel, rand: Seq<u8>, autn: Seq<u8>) -> (
    Result<OutcomeModel, AkaFault>,
    BasicModel,
) {
    match challenge_apdu(rand, autn, true) {
        Err(e) => (Err(e), link),
        Ok(apdu) => {
            let (selected, after) = selected_on(link);
            match selected {
                Err(e) => (Err(e), after),
                Ok(_) => {
                    let (answer, last) = whole_answer(after, apdu);
                    match answer {
                        Err(e) => (Err(e), last),
                        Ok(response) => (verdict_in(response), last),
                    }
                },
            }
        },
    }
}

/// Run one AKA challenge against whatever is selected on the basic channel.
///
/// Order matters: the FCP check comes first and a failure there stops the
/// sequence. Sending AUTHENTICATE blind to an unknown application is not a
/// smaller risk than not sending it — the answer would be indistinguishable
/// from a real one.
pub fn usim_authenticate<C: BasicChannel>(channel: &mut C, rand16: &[u8], autn16: &[u8]) -> (
    outcome: Result<AkaOutcome, AkaError>)
    ensures
        (read_as(outcome), final(channel).link()) == challenged_on(
            old(channel).link(),
            rand16@,
            autn16@,
        ),
{
    let apdu: Vec<u8> = match authenticate_apdu(rand16, autn16, true) {
        Ok(apdu) => apdu,
        Err(e) => return Err(e),
    };
    match verify_usim_selected(channel) {
        Ok(_) => {},
        Err(e) => return Err(e),
    }
    let response: ApduResponse = match exchange(channel, &apdu) {
        Ok(response) => response,
        Err(e) => return Err(e),
    };
    classify_authenticate(&response)
}

// ---------------------------------------------------------------------------
// Answers
// ---------------------------------------------------------------------------

/// What a completed AUTHENTICATE exchange comes to.
pub open spec fn verdict_in(response: ApduModel) -> Result<OutcomeModel, AkaFault> {
    if response.sw1 == 0x90 && response.sw2 == 0x00 {
        body_verdict(response.data)
    } else if response.sw1 == 0x98 && response.sw2 == 0x62 {
        Ok(
            OutcomeModel::AuthenticationFailure {
                sw1: response.sw1,
                sw2: response.sw2,
                detail: "card rejected the challenge: incorrect MAC (SW 9862)",
            },
        )
    } else {
        Err(
            AkaFault::UnknownStatusWord {
                sw1: response.sw1,
                sw2: response.sw2,
                body: hex_text_upper(response.data),
            },
        )
    }
}

/// Turn a completed AUTHENTICATE exchange into one of the three outcomes.
pub fn classify_authenticate(response: &ApduResponse) -> (outcome: Result<AkaOutcome, AkaError>)
    ensures
        read_as(outcome) == verdict_in(response@),
{
    if response.sw1 == 0x90 && response.sw2 == 0x00 {
        classify_body(&response.data)
    } else if response.sw1 == SW_INCORRECT_MAC.0 && response.sw2 == SW_INCORRECT_MAC.1 {
        Ok(
            AkaOutcome::AuthenticationFailure {
                sw1: response.sw1,
                sw2: response.sw2,
                detail: "card rejected the challenge: incorrect MAC (SW 9862)",
            },
        )
    } else {
        Err(
            AkaError::UnknownStatusWord {
                sw1: response.sw1,
                sw2: response.sw2,
                body: hex_upper(&response.data),
            },
        )
    }
}

/// A body of a shape that is not described.
pub open spec fn misshapen<R>(reason: Seq<char>, body: Seq<u8>) -> Result<R, AkaFault> {
    Err(AkaFault::MalformedResponse { reason, body: hex_text_upper(body) })
}

fn malformed(reason: String, body: &[u8]) -> (error: AkaError)
    ensures
        error@ == (AkaFault::MalformedResponse { reason: reason@, body: hex_text_upper(body@) }),
{
    AkaError::MalformedResponse { reason, body: hex_upper(body) }
}

/// A text with a number in it.
pub open spec fn numbered(before: Seq<char>, number: nat, after: Seq<char>) -> Seq<char> {
    before + decimal(number) + after
}

fn number_between(before: &str, number: usize, after: &str) -> (text: String)
    ensures
        text@ == numbered(before@, number as nat, after@),
{
    let mut text: String = owned(before);
    push_decimal(&mut text, number as u64);
    text.append(after);
    text
}

/// What the body of a `9000` AUTHENTICATE answer says.
pub open spec fn body_verdict(body: Seq<u8>) -> Result<OutcomeModel, AkaFault> {
    let data = unpadded(body);
    if data.len() == 0 {
        misshapen("AUTHENTICATE answered 9000 with an empty body"@, body)
    } else if data[0] == TAG_SUCCESS {
        match keys_in(data.skip(1), body) {
            Ok(outcome) => Ok(outcome),
            Err(_) => match wrapped_in(data) {
                Some(value) => keys_in(value, body),
                None => keys_in(data.skip(1), body),
            },
        }
    } else if data[0] == TAG_SYNC_FAILURE {
        match wrapped_in(data) {
            None => misshapen("truncated AUTS field"@, body),
            Some(value) => if value.len() != AUTS_BYTES {
                misshapen(numbered("AUTS must be 14 bytes, got "@, value.len(), Seq::empty()), body)
            } else {
                Ok(OutcomeModel::SyncFailure { auts: value })
            },
        }
    } else if data[0] == TAG_AUTH_FAILURE && (data.len() == 1 || wrapped_in(data) == Some(
        Seq::<u8>::empty(),
    )) {
        Ok(
            OutcomeModel::AuthenticationFailure {
                sw1: 0x90,
                sw2: 0x00,
                detail: "card rejected the challenge: body tag DD",
            },
        )
    } else {
        misshapen("unknown AUTHENTICATE body shape, tag "@ + hex_pair_upper(data[0]), body)
    }
}

/// Parse the body of a `9000` AUTHENTICATE answer.
///
/// The success body is *not* a BER-TLV, however much `DB 08 …` looks like
/// one: TS 31.102 defines it as a tag followed by a run of length-prefixed
/// fields, so the byte after `DB` is the length of RES and not of the whole
/// body. Some cards do wrap the whole thing in a real TLV as well, so both
/// readings are tried — plain first, because reading a wrapped body as plain
/// fails loudly while the reverse silently truncates RES.
fn classify_body(body: &[u8]) -> (outcome: Result<AkaOutcome, AkaError>)
    ensures
        read_as(outcome) == body_verdict(body@),
{
    let data: &[u8] = strip_leading_padding(body);
    if data.len() == 0 {
        return Err(malformed(owned("AUTHENTICATE answered 9000 with an empty body"), body));
    }
    let tag: u8 = data[0];
    if tag == TAG_SUCCESS {
        let plain: &[u8] = &data[1..data.len()];
        proof {
            assert(plain@ =~= data@.skip(1));
        }
        match parse_success(plain, body) {
            Ok(outcome) => Ok(outcome),
            Err(_) => match wrapped_value(data) {
                Some(value) => parse_success(value, body),
                None => parse_success(plain, body),
            },
        }
    } else if tag == TAG_SYNC_FAILURE {
        match wrapped_value(data) {
            None => Err(malformed(owned("truncated AUTS field"), body)),
            Some(value) => {
                if value.len() != AUTS_BYTES {
                    let reason: String = number_between(
                        "AUTS must be 14 bytes, got ",
                        value.len(),
                        "",
                    );
                    proof {
                        reveal_strlit("");
                        assert(""@ =~= Seq::empty());
                    }
                    Err(malformed(reason, body))
                } else {
                    Ok(AkaOutcome::SyncFailure { auts: copy_of(value) })
                }
            },
        }
    } else {
        let refused: bool = tag == TAG_AUTH_FAILURE && (data.len() == 1 || match wrapped_value(data) {
            Some(value) => value.len() == 0,
            None => false,
        });
        proof {
            if wrapped_in(data@) is Some && wrapped_in(data@)->0.len() == 0 {
                assert(wrapped_in(data@)->0 =~= Seq::<u8>::empty());
            }
        }
        if refused {
            Ok(
                AkaOutcome::AuthenticationFailure {
                    sw1: 0x90,
                    sw2: 0x00,
                    detail: "card rejected the challenge: body tag DD",
                },
            )
        } else {
            let mut reason: String = owned("unknown AUTHENTICATE body shape, tag ");
            push_hex_pair_upper(&mut reason, tag);
            Err(malformed(reason, body))
        }
    }
}

/// A length-prefixed field, and what follows it.
pub open spec fn field_in(data: Seq<u8>) -> Option<(Seq<u8>, Seq<u8>)> {
    if data.len() == 0 || data.len() < 1 + data[0] {
        None
    } else {
        Some((data.subrange(1, 1 + data[0]), data.skip(1 + data[0])))
    }
}

fn take_field<'a>(data: &'a [u8]) -> (field: Option<(&'a [u8], &'a [u8])>)
    ensures
        match field {
            Some((value, rest)) => field_in(data@) == Some((value@, rest@)) && value@.len() <= 255,
            None => field_in(data@) is None,
        },
{
    let total: usize = data.len();
    if total == 0 {
        return None;
    }
    let length: usize = data[0] as usize;
    if total < 1 + length {
        return None;
    }
    proof {
        assert(data@.subrange(1 + length, total as int) =~= data@.skip(1 + length));
    }
    Some((&data[1..1 + length], &data[1 + length..total]))
}

/// What follows IK: a Kc, or nothing.
pub open spec fn kc_in(rest: Seq<u8>, body: Seq<u8>) -> Result<
    (Option<Seq<u8>>, Seq<u8>),
    AkaFault,
> {
    if padding(rest) {
        Ok((None, rest))
    } else {
        match field_in(rest) {
            None => Ok((None, rest)),
            Some((kc, after)) => if kc.len() == KC_BYTES {
                Ok((Some(kc), after))
            } else {
                misshapen(
                    numbered("trailing field of "@, kc.len(), " bytes is not a Kc"@),
                    body,
                )
            },
        }
    }
}

/// `<len RES> RES <len CK> CK <len IK> IK [<len Kc> Kc]`.
pub open spec fn keys_in(value: Seq<u8>, body: Seq<u8>) -> Result<OutcomeModel, AkaFault> {
    match field_in(value) {
        None => misshapen("truncated RES"@, body),
        Some((res, after)) => if res.len() < RES_MIN_BYTES || res.len() > RES_MAX_BYTES {
            misshapen(numbered("RES length "@, res.len(), " out of range"@), body)
        } else {
            match field_in(after) {
                None => misshapen("truncated CK"@, body),
                Some((ck, after)) => if ck.len() != CK_BYTES {
                    misshapen(numbered("CK length "@, ck.len(), " is not 16"@), body)
                } else {
                    match field_in(after) {
                        None => misshapen("truncated IK"@, body),
                        Some((ik, after)) => if ik.len() != IK_BYTES {
                            misshapen(numbered("IK length "@, ik.len(), " is not 16"@), body)
                        } else {
                            match kc_in(after, body) {
                                Err(e) => Err(e),
                                Ok((kc, last)) => if padding(last) {
                                    Ok(OutcomeModel::Success { res, ck, ik, kc })
                                } else {
                                    misshapen(
                                        decimal(last.len()) + " unexplained trailing bytes"@,
                                        body,
                                    )
                                },
                            }
                        },
                    }
                },
            }
        },
    }
}

fn parse_kc<'a>(rest: &'a [u8], body: &[u8]) -> (kc: Result<(Option<Vec<u8>>, &'a [u8]), AkaError>)
    ensures
        match kc {
            Ok((kc, last)) => kc_in(rest@, body@) == Ok::<(Option<Seq<u8>>, Seq<u8>), AkaFault>(
                (opt_bytes(kc), last@),
            ),
            Err(e) => kc_in(rest@, body@) == Err::<(Option<Seq<u8>>, Seq<u8>), AkaFault>(e@),
        },
{
    if is_padding(rest) {
        return Ok((None, rest));
    }
    match take_field(rest) {
        None => Ok((None, rest)),
        Some((kc, after)) => {
            if kc.len() == KC_BYTES {
                Ok((Some(copy_of(kc)), after))
            } else {
                Err(
                    malformed(
                        number_between("trailing field of ", kc.len(), " bytes is not a Kc"),
                        body,
                    ),
                )
            }
        },
    }
}

/// `DB <len RES> RES <len CK> CK <len IK> IK [<len Kc> Kc]`.
fn parse_success(value: &[u8], body: &[u8]) -> (outcome: Result<AkaOutcome, AkaError>)
    ensures
        read_as(outcome) == keys_in(value@, body@),
{
    let (res, after_res) = match take_field(value) {
        Some(field) => field,
        None => return Err(malformed(owned("truncated RES"), body)),
    };
    if res.len() < RES_MIN_BYTES || res.len() > RES_MAX_BYTES {
        return Err(
            malformed(number_between("RES length ", res.len(), " out of range"), body),
        );
    }
    let (ck, after_ck) = match take_field(after_res) {
        Some(field) => field,
        None => return Err(malformed(owned("truncated CK"), body)),
    };
    if ck.len() != CK_BYTES {
        return Err(malformed(number_between("CK length ", ck.len(), " is not 16"), body));
    }
    let (ik, after_ik) = match take_field(after_ck) {
        Some(field) => field,
        None => return Err(malformed(owned("truncated IK"), body)),
    };
    if ik.len() != IK_BYTES {
        return Err(malformed(number_between("IK length ", ik.len(), " is not 16"), body));
    }
    let (kc, last) = match parse_kc(after_ik, body) {
        Ok(kc) => kc,
        Err(e) => return Err(e),
    };
    if !is_padding(last) {
        let mut reason: String = String::new();
        push_decimal(&mut reason, last.len() as u64);
        reason.append(" unexplained trailing bytes");
        proof {
            assert(reason@ =~= decimal(last@.len()) + " unexplained trailing bytes"@);
        }
        return Err(malformed(reason, body));
    }
    Ok(AkaOutcome::Success { res: copy_of(res), ck: copy_of(ck), ik: copy_of(ik), kc })
}

/// What a template that a card answers `STATUS` with has inside.
pub open spec fn template_in(fcp: Seq<u8>) -> Seq<u8> {
    let body = unpadded(fcp);
    match only_element(body) {
        Some((tag, value)) => if tag == FCP_TEMPLATE_TAG || tag == FCI_TEMPLATE_TAG {
            value
        } else {
            body
        },
        None => body,
    }
}

/// The AID of the application that an FCP says is selected.
pub open spec fn aid_in(fcp: Seq<u8>) -> Result<Seq<u8>, AkaFault> {
    match tagged(template_in(fcp), DF_NAME_TAG) {
        Some(aid) => Ok(aid),
        None => Err(AkaFault::NoSelectedApplication { fcp: hex_text_upper(fcp) }),
    }
}

/// The AID of the application a `STATUS` FCP says is selected.
pub fn selected_aid(fcp: &[u8]) -> (aid: Result<Vec<u8>, AkaError>)
    ensures
        read_as(aid) == aid_in(fcp@),
{
    let body: &[u8] = strip_leading_padding(fcp);
    let inner: &[u8] = match split_tlv(body) {
        Some((tag, value)) => if tag == FCP_TEMPLATE_TAG || tag == FCI_TEMPLATE_TAG {
            value
        } else {
            body
        },
        // Some cards answer with the bare template contents.
        None => body,
    };
    match find_tag(inner, DF_NAME_TAG) {
        Some(aid) => Ok(copy_of(aid)),
        None => Err(AkaError::NoSelectedApplication { fcp: hex_upper(fcp) }),
    }
}

/// Whether an octet is the filler that some cards put around an answer.
/// Neither of the two is a legal BER tag.
pub open spec fn filler(byte: u8) -> bool {
    byte == 0x00 || byte == 0xff
}

/// The first value with `tag` among a flat list of BER-TLVs.
pub open spec fn tagged(data: Seq<u8>, tag: u8) -> Option<Seq<u8>>
    decreases data.len(),
{
    if data.len() == 0 {
        None
    } else if filler(data[0]) {
        tagged(data.skip(1), tag)
    } else {
        match element_at(data) {
            None => None,
            Some((found, value, rest)) => if found == tag {
                Some(value)
            } else if rest.len() < data.len() {
                tagged(rest, tag)
            } else {
                None
            },
        }
    }
}

/// First value with `tag` among a flat list of BER-TLVs.
fn find_tag<'a>(list: &'a [u8], tag: u8) -> (value: Option<&'a [u8]>)
    ensures
        match value {
            Some(v) => tagged(list@, tag) == Some(v@),
            None => tagged(list@, tag) is None,
        },
{
    let mut data: &'a [u8] = list;
    while data.len() > 0
        invariant
            tagged(data@, tag) == tagged(list@, tag),
        decreases data@.len(),
    {
        if data[0] == 0x00 || data[0] == 0xff {
            let ghost before = data@;
            data = &data[1..data.len()];
            proof {
                assert(data@ =~= before.skip(1));
            }
        } else {
            match read_tlv(data) {
                None => return None,
                Some((found, value, rest)) => {
                    if found == tag {
                        return Some(value);
                    }
                    data = rest;
                },
            }
        }
    }
    None
}

/// One BER-TLV that is all there is apart from filler.
pub open spec fn only_element(data: Seq<u8>) -> Option<(u8, Seq<u8>)> {
    match element_at(unpadded(data)) {
        None => None,
        Some((tag, value, rest)) => if padding(rest) {
            Some((tag, value))
        } else {
            None
        },
    }
}

/// Split one BER-TLV off the front, requiring it to be the whole of `data`
/// apart from padding.
fn split_tlv<'a>(data: &'a [u8]) -> (element: Option<(u8, &'a [u8])>)
    ensures
        match element {
            Some((tag, value)) => only_element(data@) == Some((tag, value@)),
            None => only_element(data@) is None,
        },
{
    match read_tlv(strip_leading_padding(data)) {
        None => None,
        Some((tag, value, rest)) => {
            if !is_padding(rest) {
                None
            } else {
                Some((tag, value))
            }
        },
    }
}

/// The value of one whole BER-TLV, whatever its tag.
pub open spec fn wrapped_in(data: Seq<u8>) -> Option<Seq<u8>> {
    match only_element(data) {
        Some((_, value)) => Some(value),
        None => None,
    }
}

/// The value of `data` read as one whole BER-TLV, whatever its tag.
fn wrapped_value<'a>(data: &'a [u8]) -> (value: Option<&'a [u8]>)
    ensures
        match value {
            Some(v) => wrapped_in(data@) == Some(v@),
            None => wrapped_in(data@) is None,
        },
{
    match split_tlv(data) {
        Some((_, value)) => Some(value),
        None => None,
    }
}

/// How long a value is, and how many octets say so: a short length, or one or
/// two octets after `81` or `82`.
pub open spec fn length_at(data: Seq<u8>) -> Option<(nat, nat)> {
    if data.len() < 2 {
        None
    } else if data[1] < 0x80 {
        Some((data[1] as nat, 1))
    } else if data[1] == 0x81 && data.len() >= 3 {
        Some((data[2] as nat, 2))
    } else if data[1] == 0x82 && data.len() >= 4 {
        Some(((256 * data[2] + data[3]) as nat, 3))
    } else {
        None
    }
}

/// One BER-TLV with a single-byte tag: its tag, its value, and what follows.
pub open spec fn element_at(data: Seq<u8>) -> Option<(u8, Seq<u8>, Seq<u8>)> {
    match length_at(data) {
        None => None,
        Some((length, taken)) => if data.len() < 1 + taken + length {
            None
        } else {
            Some(
                (
                    data[0],
                    data.subrange((1 + taken) as int, (1 + taken + length) as int),
                    data.skip((1 + taken + length) as int),
                ),
            )
        },
    }
}

/// One BER-TLV with a single-byte tag and a short or 1/2-byte long form
/// length. Longer forms do not occur in an FCP or an AKA answer.
fn read_tlv<'a>(data: &'a [u8]) -> (element: Option<(u8, &'a [u8], &'a [u8])>)
    ensures
        match element {
            Some((tag, value, rest)) => element_at(data@) == Some((tag, value@, rest@))
                && rest@.len() < data@.len(),
            None => element_at(data@) is None,
        },
{
    let total: usize = data.len();
    if total < 2 {
        return None;
    }
    let mut length: usize = data[1] as usize;
    let mut start: usize = 2;
    if data[1] == 0x81 {
        if total < 3 {
            return None;
        }
        length = data[2] as usize;
        start = 3;
    } else if data[1] == 0x82 {
        if total < 4 {
            return None;
        }
        length = 256 * (data[2] as usize) + data[3] as usize;
        start = 4;
    } else if data[1] >= 0x80 {
        return None;
    }
    if total - start < length {
        return None;
    }
    proof {
        assert(data@.subrange(start + length, total as int) =~= data@.skip(start + length));
    }
    Some((data[0], &data[start..start + length], &data[start + length..total]))
}

/// The octets without the filler in front.
pub open spec fn unpadded(data: Seq<u8>) -> Seq<u8>
    decreases data.len(),
{
    if data.len() > 0 && filler(data[0]) {
        unpadded(data.skip(1))
    } else {
        data
    }
}

/// Drop the `00`/`FF` filler some cards put in front of an answer.
///
/// Only the front. Trimming the tail as well is the obvious next line and it
/// is wrong: an AID, a CK or an IK is perfectly entitled to end in `00`, and a
/// trimmer that cannot tell filler from payload turns a valid answer into a
/// short one.
fn strip_leading_padding<'a>(data: &'a [u8]) -> (rest: &'a [u8])
    ensures
        rest@ == unpadded(data@),
{
    let total: usize = data.len();
    let mut from: usize = 0;
    proof {
        assert(data@.skip(0) =~= data@);
    }
    while from < total && (data[from] == 0x00 || data[from] == 0xff)
        invariant
            from <= total,
            total == data@.len(),
            unpadded(data@.skip(from as int)) == unpadded(data@),
        decreases total - from,
    {
        proof {
            assert(data@.skip(from as int).skip(1) =~= data@.skip(from + 1));
        }
        from = from + 1;
    }
    proof {
        assert(data@.subrange(from as int, total as int) =~= data@.skip(from as int));
    }
    &data[from..total]
}

/// Whether octets are only filler.
pub open spec fn padding(data: Seq<u8>) -> bool {
    forall|i: int| 0 <= i < data.len() ==> filler(#[trigger] data[i])
}

/// Whether what is left after a complete TLV is only filler.
fn is_padding(data: &[u8]) -> (yes: bool)
    ensures
        yes == padding(data@),
{
    let mut i: usize = 0;
    while i < data.len()
        invariant
            i <= data@.len(),
            forall|j: int| 0 <= j < i ==> filler(#[trigger] data@[j]),
        decreases data@.len() - i,
    {
        if data[i] != 0x00 && data[i] != 0xff {
            proof {
                assert(!filler(data@[i as int]));
            }
            return false;
        }
        i = i + 1;
    }
    true
}

// ---------------------------------------------------------------------------
// `AT+CSIM`
// ---------------------------------------------------------------------------

/// The first line, without the space around it, that starts with a prefix.
pub open spec fn line_with(lines: Seq<Seq<char>>, prefix: Seq<char>) -> Option<Seq<char>>
    decreases lines.len(),
{
    if lines.len() == 0 {
        None
    } else if after_prefix(trimmed(lines[0]), prefix) is Some {
        Some(trimmed(lines[0]))
    } else {
        line_with(lines.skip(1), prefix)
    }
}

pub fn find_line(lines: &[String], prefix: &str) -> (line: Option<Vec<char>>)
    ensures
        match line {
            Some(l) => line_with(texts(lines@), prefix@) == Some(l@),
            None => line_with(texts(lines@), prefix@) is None,
        },
{
    let ghost all = texts(lines@);
    let mut i: usize = 0;
    proof {
        assert(all.skip(0) =~= all);
    }
    while i < lines.len()
        invariant
            i <= lines@.len(),
            all == texts(lines@),
            line_with(all.skip(i as int), prefix@) == line_with(all, prefix@),
        decreases lines@.len() - i,
    {
        let chars: Vec<char> = chars_of(lines[i].as_str());
        let line: &[char] = trim(&chars);
        proof {
            assert(all.skip(i as int)[0] == lines@[i as int]@);
            assert(all.skip(i as int).skip(1) =~= all.skip(i + 1));
        }
        if strip_prefix(line, prefix).is_some() {
            let found: String = string_of(line);
            return Some(chars_of(found.as_str()));
        }
        i = i + 1;
    }
    None
}

/// How a list of lines is shown to a reader who has to see their edges.
pub open spec fn shown_lines(lines: Seq<Seq<char>>) -> Seq<char> {
    "["@ + quoted_list(lines) + "]"@
}

/// Texts in quotes, with a comma between them.
pub open spec fn quoted_list(lines: Seq<Seq<char>>) -> Seq<char>
    decreases lines.len(),
{
    if lines.len() == 0 {
        Seq::empty()
    } else if lines.len() == 1 {
        quoted(lines[0])
    } else {
        quoted_list(lines.drop_last()) + ", "@ + quoted(lines.last())
    }
}

fn push_lines(out: &mut String, lines: &[String])
    ensures
        final(out)@ == old(out)@ + shown_lines(texts(lines@)),
{
    let ghost all = texts(lines@);
    out.append("[");
    let mut i: usize = 0;
    proof {
        assert(all.take(0) =~= Seq::empty());
        assert(out@ =~= old(out)@ + "["@ + quoted_list(all.take(0)));
    }
    while i < lines.len()
        invariant
            i <= lines@.len(),
            all == texts(lines@),
            out@ == old(out)@ + "["@ + quoted_list(all.take(i as int)),
        decreases lines@.len() - i,
    {
        let ghost before = out@;
        if i > 0 {
            out.append(", ");
        }
        out.append(quoted_text(lines[i].as_str()).as_str());
        proof {
            assert(all.take(i + 1).drop_last() =~= all.take(i as int));
            assert(all.take(i + 1).last() == lines@[i as int]@);
            if i == 0 {
                assert(out@ =~= old(out)@ + "["@ + quoted_list(all.take(i + 1)));
            } else {
                assert(out@ =~= old(out)@ + "["@ + quoted_list(all.take(i + 1)));
            }
        }
        i = i + 1;
    }
    out.append("]");
    proof {
        assert(all.take(i as int) =~= all);
        assert(out@ =~= old(out)@ + shown_lines(all));
    }
}

/// What stands behind the first comma of a line.
pub open spec fn behind_comma(line: Seq<char>) -> Option<Seq<char>> {
    let n = first_index(line, ',');
    if n < line.len() {
        Some(line.skip(n + 1))
    } else {
        None
    }
}

/// An answer to `AT+CSIM`.
pub open spec fn csim_answer_in(lines: Seq<Seq<char>>) -> Result<ApduModel, AkaFault> {
    match line_with(lines, "+CSIM:"@) {
        None => Err(AkaFault::MalformedCsim("no +CSIM line in "@ + shown_lines(lines))),
        Some(line) => match behind_comma(line) {
            None => Err(AkaFault::MalformedCsim("no comma in "@ + quoted(line))),
            Some(tail) => csim_payload_in(trimmed(stripped(trimmed(tail), '"'))),
        },
    }
}

/// An answer to `AT+CSIM`, out of its payload.
pub open spec fn csim_payload_in(payload: Seq<char>) -> Result<ApduModel, AkaFault> {
    match hex_octets(payload) {
        None => Err(AkaFault::MalformedCsim(quoted(payload) + " is not hex"@)),
        Some(bytes) => if bytes.len() < 2 {
            Err(
                AkaFault::MalformedCsim(
                    quoted(payload) + " is too short to carry a status word"@,
                ),
            )
        } else {
            Ok(
                ApduModel {
                    data: bytes.take(bytes.len() - 2),
                    sw1: bytes[bytes.len() - 2],
                    sw2: bytes[bytes.len() - 1],
                },
            )
        },
    }
}

fn parse_csim_payload(payload: &[char]) -> (answer: Result<ApduResponse, AkaError>)
    ensures
        read_as(answer) == csim_payload_in(payload@),
{
    let hex: String = string_of(payload);
    let bytes: Vec<u8> = match decode_hex(hex.as_str()) {
        Some(bytes) => bytes,
        None => {
            let mut text: String = quoted_text(hex.as_str());
            text.append(" is not hex");
            return Err(AkaError::MalformedCsim(text));
        },
    };
    if bytes.len() < 2 {
        let mut text: String = quoted_text(hex.as_str());
        text.append(" is too short to carry a status word");
        return Err(AkaError::MalformedCsim(text));
    }
    let split: usize = bytes.len() - 2;
    proof {
        assert(bytes@.subrange(0, split as int) =~= bytes@.take(split as int));
    }
    Ok(
        ApduResponse {
            data: copy_of(&bytes[0..split]),
            sw1: bytes[split],
            sw2: bytes[split + 1],
        },
    )
}

/// The answer to `AT+CSIM`, which is `+CSIM: <chars>,"<hex>"`.
pub fn parse_csim_answer(lines: &[String]) -> (answer: Result<ApduResponse, AkaError>)
    ensures
        read_as(answer) == csim_answer_in(texts(lines@)),
{
    let line: Vec<char> = match find_line(lines, "+CSIM:") {
        Some(line) => line,
        None => {
            let mut text: String = owned("no +CSIM line in ");
            push_lines(&mut text, lines);
            return Err(AkaError::MalformedCsim(text));
        },
    };
    let comma: usize = find(&line, ',');
    let total: usize = line.len();
    if comma >= total {
        let whole: String = string_of(&line);
        let mut text: String = owned("no comma in ");
        text.append(quoted_text(whole.as_str()).as_str());
        return Err(AkaError::MalformedCsim(text));
    }
    proof {
        assert(line@.subrange(comma + 1, total as int) =~= line@.skip(comma + 1));
    }
    parse_csim_payload(trim(strip_char(trim(&line[comma + 1..total]), '"')))
}

/// Uppercase hex, the form every AT command on this module expects.
pub fn hex_upper(bytes: &[u8]) -> (text: String)
    ensures
        text@ == hex_text_upper(bytes@),
{
    let mut text: String = String::new();
    push_hex_text_upper(&mut text, bytes);
    proof {
        assert(text@ =~= hex_text_upper(bytes@));
    }
    text
}

/// The octets that pairs of base-sixteen digits are.
pub open spec fn digit_pairs(text: Seq<char>) -> Seq<u8> {
    Seq::new(
        text.len() / 2,
        |i: int| (16 * hex_value(text[2 * i])->0 + hex_value(text[2 * i + 1])->0) as u8,
    )
}

/// What a text of pairs of base-sixteen digits says, the space around it set
/// aside.
pub open spec fn hex_octets(text: Seq<char>) -> Option<Seq<u8>> {
    let digits = trimmed(text);
    if all_hex(digits) && digits.len() % 2 == 0 {
        Some(digit_pairs(digits))
    } else {
        None
    }
}

/// Bytes from a hex string, or `None` if it is not one.
pub fn decode_hex(text: &str) -> (bytes: Option<Vec<u8>>)
    ensures
        opt_bytes(bytes) == hex_octets(text@),
{
    let chars: Vec<char> = chars_of(text);
    let digits: &[char] = trim(&chars);
    let total: usize = digits.len();
    if total % 2 != 0 {
        return None;
    }
    let mut bytes: Vec<u8> = Vec::new();
    let mut i: usize = 0;
    while i < total
        invariant
            i <= total,
            i % 2 == 0,
            total % 2 == 0,
            total == digits@.len(),
            digits@ == trimmed(text@),
            bytes@.len() == i / 2,
            forall|j: int| 0 <= j < i ==> hex_value(#[trigger] digits@[j]) is Some,
            forall|j: int| 0 <= j < i / 2 ==> bytes@[j] == digit_pairs(digits@)[j],
        decreases total - i,
    {
        let high: u8 = match read_hex_digit(digits[i]) {
            Some(high) => high,
            None => {
                proof {
                    assert(hex_value(digits@[i as int]) is None);
                }
                return None;
            },
        };
        let low: u8 = match read_hex_digit(digits[i + 1]) {
            Some(low) => low,
            None => {
                proof {
                    assert(hex_value(digits@[i + 1]) is None);
                }
                return None;
            },
        };
        bytes.push(16 * high + low);
        proof {
            assert(2 * (i as int / 2) == i);
        }
        i = i + 2;
    }
    proof {
        assert(bytes@ =~= digit_pairs(digits@));
    }
    Some(bytes)
}

// ---------------------------------------------------------------------------
// Laws
// ---------------------------------------------------------------------------

/// Nothing but the USIM is authenticated against: where the check of what is
/// selected fails, the challenge fails with the same error, and the card has
/// been sent nothing beyond that check.
pub proof fn law_only_the_usim_is_challenged(link: BasicModel, rand: Seq<u8>, autn: Seq<u8>)
    requires
        selected_on(link).0 is Err,
    ensures
        challenged_on(link, rand, autn).0 is Err,
        challenged_on(link, rand, autn).1 == link || challenged_on(link, rand, autn).1
            == selected_on(link).1,
        challenge_apdu(rand, autn, true) is Ok ==> challenged_on(link, rand, autn).0->Err_0
            == selected_on(link).0->Err_0,
{
}

/// A challenge of the wrong size never reaches the card.
pub proof fn law_a_bad_challenge_is_not_sent(link: BasicModel, rand: Seq<u8>, autn: Seq<u8>)
    requires
        rand.len() != RAND_BYTES || autn.len() != AUTN_BYTES,
    ensures
        challenged_on(link, rand, autn).0 is Err,
        challenged_on(link, rand, autn).1 == link,
{
}

/// RES, CK and IK as a card lists them, each behind its length.
pub open spec fn key_fields(res: Seq<u8>, ck: Seq<u8>, ik: Seq<u8>) -> Seq<u8> {
    seq![res.len() as u8] + res + seq![ck.len() as u8] + ck + seq![ik.len() as u8] + ik
}

proof fn lemma_keys_are_read(res: Seq<u8>, ck: Seq<u8>, ik: Seq<u8>, body: Seq<u8>)
    requires
        RES_MIN_BYTES <= res.len() <= RES_MAX_BYTES,
        ck.len() == CK_BYTES,
        ik.len() == IK_BYTES,
    ensures
        keys_in(key_fields(res, ck, ik), body) == Ok::<OutcomeModel, AkaFault>(
            OutcomeModel::Success { res, ck, ik, kc: None },
        ),
{
    let value = key_fields(res, ck, ik);
    let n = res.len() as int;
    assert(value.subrange(1, 1 + n) =~= res);
    let after_res = value.skip(1 + n);
    assert(after_res =~= seq![0x10u8] + ck + seq![0x10u8] + ik);
    assert(field_in(value) == Some((res, after_res)));
    assert(after_res.subrange(1, 17) =~= ck);
    let after_ck = after_res.skip(17);
    assert(after_ck =~= seq![0x10u8] + ik);
    assert(field_in(after_res) == Some((ck, after_ck)));
    assert(after_ck.subrange(1, 17) =~= ik);
    assert(after_ck.skip(17) =~= Seq::empty());
    assert(field_in(after_ck) == Some((ik, Seq::<u8>::empty())));
    assert(padding(Seq::<u8>::empty()));
}

/// A card that answers with the three keys is understood, whether or not it
/// wraps them: RES, CK and IK come out as they went in.
pub proof fn law_plain_and_wrapped_keys_are_read(res: Seq<u8>, ck: Seq<u8>, ik: Seq<u8>)
    requires
        RES_MIN_BYTES <= res.len() <= RES_MAX_BYTES,
        ck.len() == CK_BYTES,
        ik.len() == IK_BYTES,
    ensures
        body_verdict(seq![TAG_SUCCESS] + key_fields(res, ck, ik)) == Ok::<OutcomeModel, AkaFault>(
            OutcomeModel::Success { res, ck, ik, kc: None },
        ),
        body_verdict(
            seq![TAG_SUCCESS, key_fields(res, ck, ik).len() as u8] + key_fields(res, ck, ik),
        ) == Ok::<OutcomeModel, AkaFault>(OutcomeModel::Success { res, ck, ik, kc: None }),
{
    let value = key_fields(res, ck, ik);
    let plain = seq![TAG_SUCCESS] + value;
    assert(unpadded(plain) == plain);
    assert(plain.skip(1) =~= value);
    lemma_keys_are_read(res, ck, ik, plain);
    let length = value.len() as u8;
    let wrapped = seq![TAG_SUCCESS, length] + value;
    assert(unpadded(wrapped) == wrapped);
    // Read as plain, the length of the whole stands where that of RES should.
    assert(wrapped.skip(1)[0] == length);
    let (misread, _) = field_in(wrapped.skip(1)).unwrap();
    assert(misread.len() == length);
    assert(keys_in(wrapped.skip(1), wrapped) is Err);
    assert(wrapped.skip(2) =~= value);
    assert(wrapped_in(wrapped) == Some(value));
    lemma_keys_are_read(res, ck, ik, wrapped);
}

proof fn lemma_hex_text_length(bytes: Seq<u8>)
    ensures
        hex_text_upper(bytes).len() == 2 * bytes.len(),
    decreases bytes.len(),
{
    if bytes.len() > 0 {
        lemma_hex_text_length(bytes.drop_last());
    }
}

proof fn lemma_hex_text_digits(bytes: Seq<u8>, i: int)
    requires
        0 <= i < bytes.len(),
    ensures
        hex_text_upper(bytes).len() == 2 * bytes.len(),
        hex_text_upper(bytes)[2 * i] == hex_pair_upper(bytes[i])[0],
        hex_text_upper(bytes)[2 * i + 1] == hex_pair_upper(bytes[i])[1],
    decreases bytes.len(),
{
    lemma_hex_text_length(bytes);
    lemma_hex_text_length(bytes.drop_last());
    if i < bytes.len() - 1 {
        lemma_hex_text_digits(bytes.drop_last(), i);
    }
}

/// What is written in base sixteen reads back as the octets it was.
pub proof fn law_hex_reads_back(bytes: Seq<u8>)
    ensures
        hex_octets(hex_text_upper(bytes)) == Some(bytes),
{
    let text = hex_text_upper(bytes);
    lemma_hex_text_length(bytes);
    assert forall|i: int| 0 <= i < text.len() implies hex_value(#[trigger] text[i]) is Some
        && !crate::text::is_space(text[i]) by {
        lemma_hex_text_digits(bytes, i / 2);
        assert(i == 2 * (i / 2) || i == 2 * (i / 2) + 1);
    }
    assert(trimmed(text) == text);
    assert forall|i: int| 0 <= i < bytes.len() implies digit_pairs(text)[i] == bytes[i] by {
        lemma_hex_text_digits(bytes, i);
    }
    assert(digit_pairs(text) =~= bytes);
}

} // verus!
