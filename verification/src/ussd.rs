//! USSD sessions over the AT port.
//!
//! `AT+CUSD` is the only way to ask a carrier questions the module cannot
//! answer itself — balance, plan state, activation codes — so a debug terminal
//! without it cannot tell "the SIM has no credit" apart from "the SIM is
//! broken".
//!
//! The exchange is two-stage: the command returns `OK` as soon as the request
//! is accepted, and the network's answer arrives later as a `+CUSD:` report.
//! Reading only the command result returns an empty answer for a session that
//! worked.

use crate::text::{
    after_prefix, all_hex, chars_of, hex_digits_value, hex_value, number_in, opt_text, owned,
    parse_u8, push_chars, quoted_fields, read_hex_digit, read_utf16, split_fields, string_of,
    strip_char, strip_prefix, stripped, texts, trim, trimmed, utf16_text,
};
use vstd::prelude::*;

verus! {

/// What the network wants to happen next.
#[derive(Clone, Copy, Debug, PartialEq, Eq, Structural)]
pub enum UssdStage {
    /// Answer delivered, session closed.
    Complete,
    /// The network is waiting for a reply on the same session.
    NeedsReply,
    /// The network terminated the session.
    Terminated,
    /// Another local client answered first.
    OtherClient,
    /// The module does not support the operation.
    NotSupported,
    /// The network never answered. The module reports this after its own wait
    /// expires, which is why such a request takes tens of seconds to fail.
    NetworkTimeout,
    Other(u8),
}

impl UssdStage {
    pub open spec fn of_code(code: u8) -> UssdStage {
        if code == 0 {
            UssdStage::Complete
        } else if code == 1 {
            UssdStage::NeedsReply
        } else if code == 2 {
            UssdStage::Terminated
        } else if code == 3 {
            UssdStage::OtherClient
        } else if code == 4 {
            UssdStage::NotSupported
        } else if code == 5 {
            UssdStage::NetworkTimeout
        } else {
            UssdStage::Other(code)
        }
    }

    pub fn from_code(code: u8) -> (stage: Self)
        ensures
            stage == UssdStage::of_code(code),
    {
        if code == 0 {
            UssdStage::Complete
        } else if code == 1 {
            UssdStage::NeedsReply
        } else if code == 2 {
            UssdStage::Terminated
        } else if code == 3 {
            UssdStage::OtherClient
        } else if code == 4 {
            UssdStage::NotSupported
        } else if code == 5 {
            UssdStage::NetworkTimeout
        } else {
            UssdStage::Other(code)
        }
    }

    pub open spec fn name(self) -> &'static str {
        match self {
            UssdStage::Complete => "complete",
            UssdStage::NeedsReply => "needs_reply",
            UssdStage::Terminated => "terminated",
            UssdStage::OtherClient => "other_client",
            UssdStage::NotSupported => "not_supported",
            UssdStage::NetworkTimeout => "network_timeout",
            UssdStage::Other(_) => "other",
        }
    }

    pub fn as_str(self) -> (name: &'static str)
        ensures
            name == self.name(),
    {
        match self {
            UssdStage::Complete => "complete",
            UssdStage::NeedsReply => "needs_reply",
            UssdStage::Terminated => "terminated",
            UssdStage::OtherClient => "other_client",
            UssdStage::NotSupported => "not_supported",
            UssdStage::NetworkTimeout => "network_timeout",
            UssdStage::Other(_) => "other",
        }
    }

    /// Whether the caller should keep the session open for a follow-up.
    pub fn expects_reply(self) -> (yes: bool)
        ensures
            yes == (self == UssdStage::NeedsReply),
    {
        matches!(self, UssdStage::NeedsReply)
    }

    pub open spec fn answers(self) -> bool {
        self == UssdStage::Complete || self == UssdStage::NeedsReply
    }

    /// Whether the text field carries the network's answer.
    ///
    /// A timed-out or unsupported session still carries a string, but it is
    /// the module echoing the request back rather than anything the network
    /// said. Showing it presents noise as a reply.
    pub fn carries_answer(self) -> (yes: bool)
        ensures
            yes == self.answers(),
    {
        matches!(self, UssdStage::Complete | UssdStage::NeedsReply)
    }
}

/// One `+CUSD:` report.
#[derive(Clone, Debug, PartialEq, Eq)]
pub struct UssdReply {
    pub stage: UssdStage,
    pub text: String,
    pub dcs: Option<u8>,
}

/// One report, by what its text says.
#[verifier::ext_equal]
pub struct ReplyModel {
    pub stage: UssdStage,
    pub text: Seq<char>,
    pub dcs: Option<u8>,
}

impl View for UssdReply {
    type V = ReplyModel;

    open spec fn view(&self) -> ReplyModel {
        ReplyModel {
            stage: self.stage,
            text: self.text@,
            dcs: self.dcs,
        }
    }
}

/// Whether a character can stand in a code: a quote would close the argument
/// early, and a line end would end the command.
pub open spec fn fits_code(c: char) -> bool {
    c != '"' && c != '\r' && c != '\n'
}

/// A code without the characters that cannot stand in one.
pub open spec fn escaped_code(code: Seq<char>) -> Seq<char> {
    code.filter(|c: char| fits_code(c))
}

/// The command that sends a code.
pub open spec fn request_text(code: Seq<char>) -> Seq<char> {
    "AT+CUSD=1,\""@ + escaped_code(code) + "\",15"@
}

fn escape(code: &[char]) -> (escaped: Vec<char>)
    ensures
        escaped@ == escaped_code(code@),
{
    let ghost keep = |c: char| fits_code(c);
    let mut escaped: Vec<char> = Vec::new();
    let mut i: usize = 0;
    proof {
        reveal(Seq::filter);
        assert(code@.take(0) =~= Seq::empty());
        assert(escaped@ =~= code@.take(0).filter(keep));
    }
    while i < code.len()
        invariant
            i <= code@.len(),
            keep == |c: char| fits_code(c),
            escaped@ == code@.take(i as int).filter(keep),
        decreases code@.len() - i,
    {
        proof {
            reveal(Seq::filter);
            assert(code@.take(i + 1).drop_last() =~= code@.take(i as int));
            assert(code@.take(i + 1).last() == code@[i as int]);
        }
        let c: char = code[i];
        if c != '"' && c != '\r' && c != '\n' {
            escaped.push(c);
        }
        i = i + 1;
    }
    proof {
        assert(code@.take(i as int) =~= code@);
    }
    escaped
}

/// Build `AT+CUSD=1,"<code>",15`.
///
/// Mode 1 asks the module to report the network's answer, which is what makes
/// the reply arrive at all; mode 0 suppresses it.
pub fn request(code: &str) -> (command: String)
    ensures
        command@ == request_text(code@),
{
    let chars: Vec<char> = chars_of(code);
    let mut command: String = owned("AT+CUSD=1,\"");
    push_chars(&mut command, &escape(&chars));
    command.append("\",15");
    command
}

/// Cancel an open session.
pub fn cancel() -> (command: &'static str)
    ensures
        command@ == "AT+CUSD=2"@,
{
    "AT+CUSD=2"
}

/// A field of a report, without the space around it.
pub open spec fn field_at(fields: Seq<Seq<char>>, i: int) -> Option<Seq<char>> {
    if i < fields.len() {
        Some(trimmed(fields[i]))
    } else {
        None
    }
}

/// A small number in a field.
pub open spec fn small_number(field: Option<Seq<char>>) -> Option<u8> {
    match field {
        None => None,
        Some(text) => match number_in(text, 255) {
            Some(n) => Some(n as u8),
            None => None,
        },
    }
}

/// One report.
pub open spec fn reply_in(line: Seq<char>) -> Option<ReplyModel> {
    match after_prefix(trimmed(line), "+CUSD:"@) {
        None => None,
        Some(rest) => {
            let fields = quoted_fields(trimmed(rest), Seq::empty(), false, true);
            match small_number(field_at(fields, 0)) {
                None => None,
                Some(code) => {
                    let stage = UssdStage::of_code(code);
                    let raw = match field_at(fields, 1) {
                        Some(text) => stripped(text, '"'),
                        None => Seq::empty(),
                    };
                    let dcs = small_number(field_at(fields, 2));
                    Some(
                        ReplyModel {
                            stage,
                            text: if stage.answers() {
                                decoded(raw, dcs)
                            } else {
                                Seq::empty()
                            },
                            dcs,
                        },
                    )
                },
            }
        },
    }
}

fn read_small(fields: &Vec<String>, i: usize) -> (number: Option<u8>)
    ensures
        number == small_number(field_at(texts(fields@), i as int)),
{
    if i < fields.len() {
        proof {
            assert(texts(fields@)[i as int] == fields@[i as int]@);
        }
        let chars: Vec<char> = chars_of(fields[i].as_str());
        parse_u8(trim(&chars))
    } else {
        None
    }
}

/// A report that may not be one.
pub open spec fn opt_reply(reply: Option<UssdReply>) -> Option<ReplyModel> {
    match reply {
        Some(r) => Some(r@),
        None => None,
    }
}

/// Parse `+CUSD: 0,"Balance 12.30",15`.
pub fn parse_reply(line: &str) -> (reply: Option<UssdReply>)
    ensures
        opt_reply(reply) == reply_in(line@),
{
    let chars: Vec<char> = chars_of(line);
    let rest: &[char] = match strip_prefix(trim(&chars), "+CUSD:") {
        Some(rest) => trim(rest),
        None => return None,
    };
    let fields: Vec<String> = split_fields(rest, true);
    let stage: UssdStage = match read_small(&fields, 0) {
        Some(code) => UssdStage::from_code(code),
        None => return None,
    };
    let mut raw: String = String::new();
    proof {
        assert(raw@ =~= Seq::empty());
    }
    if fields.len() > 1 {
        proof {
            assert(texts(fields@)[1] == fields@[1]@);
        }
        let field: Vec<char> = chars_of(fields[1].as_str());
        raw = string_of(strip_char(trim(&field), '"'));
    }
    let dcs: Option<u8> = read_small(&fields, 2);
    let text: String = if stage.carries_answer() {
        decode(raw.as_str(), dcs)
    } else {
        String::new()
    };
    proof {
        if !stage.answers() {
            assert(text@ =~= Seq::empty());
        }
    }
    Some(UssdReply { stage, text, dcs })
}

/// Whether every character can be seen, or is a space.
pub open spec fn printable(text: Seq<char>) -> bool {
    forall|i: int| 0 <= i < text.len() ==> ' ' <= #[trigger] text[i] <= '~'
}

fn is_printable(text: &str) -> (yes: bool)
    ensures
        yes == printable(text@),
{
    let chars: Vec<char> = chars_of(text);
    let mut i: usize = 0;
    while i < chars.len()
        invariant
            i <= chars@.len(),
            chars@ == text@,
            forall|j: int| 0 <= j < i ==> ' ' <= #[trigger] chars@[j] <= '~',
        decreases chars@.len() - i,
    {
        if !(' ' <= chars[i] && chars[i] <= '~') {
            proof {
                assert(!(' ' <= text@[i as int] <= '~'));
            }
            return false;
        }
        i = i + 1;
    }
    true
}

/// The units that groups of four base-sixteen digits are.
pub open spec fn digit_units(raw: Seq<char>) -> Seq<u16> {
    Seq::new(raw.len() / 4, |i: int| hex_digits_value(raw.subrange(4 * i, 4 * i + 4)) as u16)
}

/// The text that groups of four base-sixteen digits encode.
pub open spec fn ucs2_in(raw: Seq<char>) -> Option<Seq<char>> {
    if raw.len() % 4 != 0 {
        None
    } else {
        utf16_text(digit_units(raw))
    }
}

/// An answer, by its data coding scheme.
pub open spec fn decoded(raw: Seq<char>, dcs: Option<u8>) -> Seq<char> {
    let is_hex = raw.len() % 2 == 0 && all_hex(raw);
    let text = ucs2_in(raw);
    if raw.len() == 0 {
        Seq::empty()
    } else if is_hex && dcs == Some(0x48u8) && text is Some {
        text->0
    } else if is_hex && raw.len() >= 4 && text is Some && text->0.len() > 0 && printable(text->0) {
        text->0
    } else {
        raw
    }
}

fn is_hex_text(raw: &[char]) -> (yes: bool)
    ensures
        yes == all_hex(raw@),
{
    let mut i: usize = 0;
    while i < raw.len()
        invariant
            i <= raw@.len(),
            forall|j: int| 0 <= j < i ==> hex_value(#[trigger] raw@[j]) is Some,
        decreases raw@.len() - i,
    {
        if read_hex_digit(raw[i]).is_none() {
            proof {
                assert(hex_value(raw@[i as int]) is None);
            }
            return false;
        }
        i = i + 1;
    }
    true
}

fn read_unit(raw: &[char], at: usize) -> (unit: u16)
    requires
        all_hex(raw@),
        at + 4 <= raw@.len(),
    ensures
        unit == hex_digits_value(raw@.subrange(at as int, at + 4)),
{
    let ghost group = raw@.subrange(at as int, at + 4);
    let total: usize = raw.len();
    let mut value: u16 = 0;
    let mut i: usize = 0;
    proof {
        assert(group.take(0) =~= Seq::empty());
    }
    while i < 4
        invariant
            i <= 4,
            all_hex(raw@),
            at + 4 <= total,
            total == raw@.len(),
            group == raw@.subrange(at as int, at + 4),
            value == hex_digits_value(group.take(i as int)),
            i == 0 ==> value == 0,
            i == 1 ==> value < 16,
            i == 2 ==> value < 256,
            i == 3 ==> value < 4096,
        decreases 4 - i,
    {
        proof {
            assert(group.take(i + 1).drop_last() =~= group.take(i as int));
            assert(group.take(i + 1).last() == raw@[at + i]);
            assert(hex_value(raw@[at + i]) is Some);
        }
        match read_hex_digit(raw[at + i]) {
            Some(digit) => {
                value = value * 16 + digit as u16;
            },
            None => {},
        }
        i = i + 1;
    }
    proof {
        assert(group.take(4) =~= group);
    }
    value
}

fn decode_ucs2(raw: &[char]) -> (text: Option<String>)
    requires
        all_hex(raw@),
    ensures
        opt_text(text) == ucs2_in(raw@),
{
    let total: usize = raw.len();
    if total % 4 != 0 {
        return None;
    }
    let count: usize = total / 4;
    let mut units: Vec<u16> = Vec::new();
    let mut i: usize = 0;
    while i < count
        invariant
            i <= count,
            count == total / 4,
            total == raw@.len(),
            all_hex(raw@),
            units@.len() == i,
            forall|j: int| 0 <= j < i ==> units@[j] == digit_units(raw@)[j],
        decreases count - i,
    {
        units.push(read_unit(raw, 4 * i));
        i = i + 1;
    }
    proof {
        assert(units@ =~= digit_units(raw@));
    }
    read_utf16(&units)
}

/// Decode the answer according to its data coding scheme.
///
/// Modules hand this back in whatever encoding the carrier used, and a UCS2
/// answer arrives as hex. Printing it raw shows the operator a wall of digits
/// instead of the message.
///
/// Some modules hex-encode an ASCII answer under another scheme. That is
/// accepted only when every decoded character is printable ASCII: "is it
/// alphabetic" is not a guard, because CJK is alphabetic too, so a genuine
/// eight-digit balance decodes into plausible-looking Chinese and the operator
/// is shown an invented answer.
pub fn decode(raw: &str, dcs: Option<u8>) -> (text: String)
    ensures
        text@ == decoded(raw@, dcs),
{
    let chars: Vec<char> = chars_of(raw);
    let total: usize = chars.len();
    if total == 0 {
        let text: String = String::new();
        proof {
            assert(text@ =~= Seq::empty());
        }
        return text;
    }
    if total % 2 == 0 && is_hex_text(&chars) {
        if let Some(text) = decode_ucs2(&chars) {
            // 0x48 selects UCS2 in the CBS coding used by +CUSD.
            let wide: bool = match dcs {
                Some(scheme) => scheme == 0x48,
                None => false,
            };
            if wide {
                return text;
            }
            let shown: Vec<char> = chars_of(text.as_str());
            if total >= 4 && shown.len() > 0 && is_printable(text.as_str()) {
                return text;
            }
        }
    }
    owned(raw)
}

/// A code never closes its own argument or ends the command: whatever the code,
/// the command is one argument of one line.
pub proof fn law_a_code_stays_in_its_argument(code: Seq<char>)
    ensures
        forall|i: int|
            0 <= i < escaped_code(code).len() ==> fits_code(
                #[trigger] escaped_code(code)[i],
            ),
{
    let keep = |c: char| fits_code(c);
    code.filter_lemma(keep);
    assert forall|i: int| 0 <= i < code.filter(keep).len() implies fits_code(
        #[trigger] code.filter(keep)[i],
    ) by {
        assert(keep(code.filter(keep)[i]));
    }
}

/// What the module only echoes is never shown as the network's answer.
pub proof fn law_an_echo_is_no_answer(line: Seq<char>)
    requires
        reply_in(line) is Some,
        !reply_in(line)->0.stage.answers(),
    ensures
        reply_in(line)->0.text.len() == 0,
{
}

} // verus!
