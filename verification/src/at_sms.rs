//! Submitting a message over AT, for modules that cannot be reached by QMI.
//!
//! The EC200U series exposes no `cdc-wdm` at all, so a module that is present,
//! identified and registered on a network still cannot be asked to do anything
//! over QMI. This is the path for those.
//!
//! PDU mode rather than text mode, so the encoder is the one already used for
//! every QMI send.

use crate::at::{ended_ok, AtError, AtExchange, AtFault};
use crate::pdu::{encode_submit, submission, PduError};
use crate::text::{
    after_prefix, chars_of, decimal, hex_text_upper, number_in, owned, parse_u8, push_decimal,
    push_hex_text_upper, strip_prefix, texts, trim, trimmed,
};
use vstd::prelude::*;

verus! {

/// How long the module gets to accept the message, in milliseconds. Submission
/// waits on the network, so this is longer than an ordinary AT round trip.
pub const SEND_TIMEOUT: u64 = 60_000;

/// The command that selects PDU mode. Sent every time rather than once at
/// startup: the port is shared with a console, and a text-mode module reads a
/// PDU as the message body and sends the hex to the recipient.
pub const SELECT_PDU_MODE: &'static str = "AT+CMGF=0";

/// What went wrong submitting over AT.
#[allow(inconsistent_fields)]
#[derive(Clone, Debug, PartialEq, Eq)]
pub enum AtSmsError {
    /// The message could not be encoded.
    Encode(PduError),
    /// The port was lost.
    Transport(AtError),
    /// The module answered, and the answer was a refusal.
    Refused { terminator: String },
}

/// What an error says.
#[allow(inconsistent_fields)]
pub enum AtSmsFault {
    Encode(PduError),
    Transport(AtFault),
    Refused { terminator: Seq<char> },
}

impl View for AtSmsError {
    type V = AtSmsFault;

    open spec fn view(&self) -> AtSmsFault {
        match *self {
            AtSmsError::Encode(e) => AtSmsFault::Encode(e),
            AtSmsError::Transport(e) => AtSmsFault::Transport(e@),
            AtSmsError::Refused { terminator } => AtSmsFault::Refused { terminator: terminator@ },
        }
    }
}

impl AtSmsFault {
    /// What the error says.
    pub open spec fn text(self) -> Seq<char> {
        match self {
            AtSmsFault::Encode(e) => "pdu: "@ + e.shown(),
            AtSmsFault::Transport(e) => "at: "@ + e.text(),
            AtSmsFault::Refused { terminator } => "module refused the submission: "@ + terminator,
        }
    }
}

impl AtSmsError {
    pub fn push_to(&self, out: &mut String)
        ensures
            final(out)@ == old(out)@ + self@.text(),
    {
        match self {
            AtSmsError::Encode(e) => {
                out.append("pdu: ");
                e.push_shown(out);
            },
            AtSmsError::Transport(e) => {
                out.append("at: ");
                e.push_to(out);
            },
            AtSmsError::Refused { terminator } => {
                out.append("module refused the submission: ");
                out.append(terminator.as_str());
            },
        }
        proof {
            assert(out@ =~= old(out)@ + self@.text());
        }
    }

    pub fn to_string(&self) -> (text: String)
        ensures
            text@ == self@.text(),
    {
        let mut text: String = String::new();
        self.push_to(&mut text);
        proof {
            assert(text@ =~= self@.text());
        }
        text
    }
}

/// The message reference the module reports back, when it reports one.
#[derive(Clone, Copy, Debug, PartialEq, Eq, Structural)]
pub struct AtSendOutcome {
    /// TP-MR as the module used it. A delivery report names the message by
    /// this and by nothing else, so an absent one means a later `+CDS` cannot
    /// be tied to this send.
    pub reference: Option<u8>,
}

impl Default for AtSendOutcome {
    fn default() -> (outcome: Self)
        ensures
            outcome.reference is None,
    {
        AtSendOutcome { reference: None }
    }
}

/// One submission: the command that announces it, and what follows the prompt.
#[derive(Clone, Debug, PartialEq, Eq)]
pub struct AtSubmission {
    pub command: String,
    pub payload: String,
}

/// How one submission goes out. The length `AT+CMGS` wants is the TPDU only —
/// everything after the service-centre byte — not the whole PDU.
pub open spec fn announced(pdu: Seq<u8>) -> (Seq<char>, Seq<char>) {
    ("AT+CMGS="@ + decimal((pdu.len() - 1) as nat), hex_text_upper(pdu))
}

/// Prepare a submission. `reference` is the TP-MR written into the PDU; the
/// module is free to substitute its own and report that instead.
pub fn prepare_sms(to: &str, body: &str, reference: u8) -> (prepared: Result<
    AtSubmission,
    AtSmsError,
>)
    ensures
        match prepared {
            Ok(sms) => submission(to@, body@, reference) is Ok && (sms.command@, sms.payload@)
                == announced(submission(to@, body@, reference)->Ok_0),
            Err(e) => submission(to@, body@, reference) is Err && e@ == AtSmsFault::Encode(
                submission(to@, body@, reference)->Err_0,
            ),
        },
{
    let pdu: Vec<u8> = match encode_submit(to, body, reference) {
        Ok(pdu) => pdu,
        Err(e) => return Err(AtSmsError::Encode(e)),
    };
    proof {
        crate::pdu::law_every_submission_can_be_traced(to@, body@, reference);
    }
    let mut command: String = owned("AT+CMGS=");
    push_decimal(&mut command, (pdu.len() - 1) as u64);
    let mut payload: String = String::new();
    push_hex_text_upper(&mut payload, &pdu);
    proof {
        assert(command@ =~= announced(pdu@).0);
        assert(payload@ =~= announced(pdu@).1);
    }
    Ok(AtSubmission { command, payload })
}

/// Whether the module took PDU mode.
pub fn accept_mode(mode: AtExchange) -> (accepted: Result<(), AtSmsError>)
    ensures
        match accepted {
            Ok(_) => ended_ok(mode@.terminator),
            Err(e) => !ended_ok(mode@.terminator) && e@ == (AtSmsFault::Refused {
                terminator: mode@.terminator,
            }),
        },
{
    if mode.succeeded() {
        Ok(())
    } else {
        Err(AtSmsError::Refused { terminator: mode.terminator })
    }
}

/// What the module made of a submission.
pub fn accept_send(answer: AtExchange) -> (outcome: Result<AtSendOutcome, AtSmsError>)
    ensures
        match outcome {
            Ok(o) => ended_ok(answer@.terminator) && o.reference == reference_in(answer@.lines),
            Err(e) => !ended_ok(answer@.terminator) && e@ == (AtSmsFault::Refused {
                terminator: answer@.terminator,
            }),
        },
{
    if answer.succeeded() {
        Ok(AtSendOutcome { reference: parse_cmgs_reference(&answer.lines) })
    } else {
        Err(AtSmsError::Refused { terminator: answer.terminator })
    }
}

/// The reference that one line reports.
pub open spec fn reported(line: Seq<char>) -> Option<u8> {
    match after_prefix(trimmed(line), "+CMGS:"@) {
        None => None,
        Some(rest) => match number_in(trimmed(rest), 255) {
            Some(n) => Some(n as u8),
            None => None,
        },
    }
}

/// The first reference that is reported.
pub open spec fn reference_in(lines: Seq<Seq<char>>) -> Option<u8>
    decreases lines.len(),
{
    if lines.len() == 0 {
        None
    } else if reported(lines[0]) is Some {
        reported(lines[0])
    } else {
        reference_in(lines.skip(1))
    }
}

/// `+CMGS: 42` — the reference the module actually used.
pub fn parse_cmgs_reference(lines: &[String]) -> (reference: Option<u8>)
    ensures
        reference == reference_in(texts(lines@)),
{
    let ghost all = texts(lines@);
    let mut i: usize = 0;
    proof {
        assert(all.skip(0) =~= all);
    }
    while i < lines.len()
        invariant
            i <= lines@.len(),
            all == texts(lines@),
            reference_in(all.skip(i as int)) == reference_in(all),
        decreases lines@.len() - i,
    {
        proof {
            assert(all.skip(i as int)[0] == lines@[i as int]@);
            assert(all.skip(i as int).skip(1) =~= all.skip(i + 1));
        }
        let chars: Vec<char> = chars_of(lines[i].as_str());
        if let Some(rest) = strip_prefix(trim(&chars), "+CMGS:") {
            if let Some(reference) = parse_u8(trim(rest)) {
                return Some(reference);
            }
        }
        i = i + 1;
    }
    None
}

} // verus!
