//! Reading and clearing a module's message store over AT.
//!
//! The counterpart to `at_sms`, and for the same modules: the QMI sweep cannot
//! touch an EC200U because the series exposes no `cdc-wdm`, so a message that
//! arrives on one sits in module storage where nothing can see it.
//!
//! PDU mode throughout, so the decoder is the one every QMI-collected message
//! already goes through. Text mode would hand back a string the module had
//! already decoded with its own idea of the alphabet, and the concatenation
//! header — which is how a long message is reassembled — would be gone.

use crate::at::{ended_ok, AtExchange};
use crate::text::{
    after_prefix, chars_of, decimal, hex_value, number_in, owned, parse_number, pieces,
    push_decimal, read_hex_digit, same_text, slices, split, string_of, strip_char, strip_prefix,
    stripped, texts, trim, trimmed,
};
use vstd::prelude::*;

verus! {

/// How long a listing may take, in milliseconds. A full store is a few dozen
/// PDUs on one port.
pub const LIST_TIMEOUT: u64 = 30_000;

/// The command that lists everything, read messages too. Read state is the
/// module's own bookkeeping and says nothing about whether this agent has
/// carried a message away.
pub const LIST_ALL: &'static str = "AT+CMGL=4";

/// One stored message as the module reports it.
#[derive(Clone, Debug, PartialEq, Eq)]
pub struct StoredMessage {
    /// Storage index. What `AT+CMGD` addresses, so it is how the message is
    /// deleted after it has been carried away.
    pub index: u32,
    /// The status word the module used, verbatim: `REC UNREAD`, `REC READ`,
    /// `STO SENT` and so on.
    pub status: String,
    /// The PDU, decoded no further here.
    pub pdu: Vec<u8>,
}

/// One stored message, by what it holds.
#[verifier::ext_equal]
pub struct StoredModel {
    pub index: u32,
    pub status: Seq<char>,
    pub pdu: Seq<u8>,
}

impl View for StoredMessage {
    type V = StoredModel;

    open spec fn view(&self) -> StoredModel {
        StoredModel {
            index: self.index,
            status: self.status@,
            pdu: self.pdu@,
        }
    }
}

/// The models of stored messages.
pub open spec fn stored_models(list: Seq<StoredMessage>) -> Seq<StoredModel> {
    list.map_values(|message: StoredMessage| message@)
}

/// Whether a status says that a message arrived: `0 REC UNREAD`, `1 REC READ`,
/// `2 STO UNSENT`, `3 STO SENT`.
pub open spec fn arrived(status: Seq<char>) -> bool {
    status == "0"@ || status == "1"@ || after_prefix(status, "REC"@) is Some
}

impl StoredMessage {
    /// Whether this is a message that arrived, rather than one this module
    /// sent or holds as a draft.
    ///
    /// Taken from the status the module reported rather than from what the
    /// listing asked for: `AT+CMGL=4` asks for everything, and a store holding
    /// sent messages would otherwise have them read, decoded as deliveries and
    /// carried upstream as if they had arrived.
    ///
    /// Both spellings, because the mode decides which one arrives. In text mode
    /// the status is a quoted word and in PDU mode it is the bare number that
    /// word stands for.
    pub fn is_received(&self) -> (yes: bool)
        ensures
            yes == arrived(self@.status),
    {
        let status: Vec<char> = chars_of(self.status.as_str());
        same_text(self.status.as_str(), "0") || same_text(self.status.as_str(), "1")
            || strip_prefix(&status, "REC").is_some()
    }
}

/// What is asked after PDU mode was asked for: the listing, unless the module
/// refused the mode.
pub fn list_command(mode: &AtExchange) -> (command: Option<&'static str>)
    ensures
        command == (if ended_ok(mode@.terminator) {
            Some(LIST_ALL)
        } else {
            None
        }),
{
    if mode.succeeded() {
        Some(LIST_ALL)
    } else {
        None
    }
}

/// What a listing holds; nothing where the module refused it.
pub fn list(listing: &AtExchange) -> (messages: Vec<StoredMessage>)
    ensures
        stored_models(messages@) == (if ended_ok(listing@.terminator) {
            listing_in(listing@.lines, None)
        } else {
            Seq::empty()
        }),
{
    if listing.succeeded() {
        parse_listing(&listing.lines)
    } else {
        let messages: Vec<StoredMessage> = Vec::new();
        proof {
            assert(stored_models(messages@) =~= Seq::empty());
        }
        messages
    }
}

/// The command that deletes one message.
///
/// Sent only after the message is durably stored elsewhere. The module's store
/// is small and a full one silently stops accepting new messages, so this is
/// not optional housekeeping — but it is destructive, and a delete that ran
/// before the message was safe would lose it with no trace.
pub fn delete_command(index: u32) -> (command: String)
    ensures
        command@ == "AT+CMGD="@ + decimal(index as nat),
{
    let mut command: String = owned("AT+CMGD=");
    push_decimal(&mut command, index as u64);
    command
}

/// The octet that two digits in base sixteen are.
pub open spec fn octet_in(high: char, low: char) -> Option<u8> {
    match (hex_value(high), hex_value(low)) {
        (Some(h), Some(l)) => Some((16 * h + l) as u8),
        _ => None,
    }
}

fn read_octet(high: char, low: char) -> (octet: Option<u8>)
    ensures
        octet == octet_in(high, low),
{
    match (read_hex_digit(high), read_hex_digit(low)) {
        (Some(h), Some(l)) => Some(16 * h + l),
        _ => None,
    }
}

/// The octets of a PDU line; none where it is empty, of odd length, or not made
/// of octets.
pub open spec fn pdu_in(line: Seq<char>) -> Option<Seq<u8>> {
    let value = trimmed(line);
    if value.len() > 0 && value.len() % 2 == 0 && (forall|i: int|
        0 <= i < value.len() / 2 ==> #[trigger] octet_in(value[2 * i], value[2 * i + 1]) is Some) {
        Some(Seq::new(value.len() / 2, |i: int| octet_in(value[2 * i], value[2 * i + 1])->0))
    } else {
        None
    }
}

fn decode_pdu(line: &[char]) -> (pdu: Option<Vec<u8>>)
    ensures
        match pdu {
            Some(bytes) => pdu_in(line@) == Some(bytes@),
            None => pdu_in(line@) is None,
        },
{
    let value: &[char] = trim(line);
    let total: usize = value.len();
    if total == 0 || total % 2 != 0 {
        return None;
    }
    let count: usize = total / 2;
    let mut bytes: Vec<u8> = Vec::new();
    let mut i: usize = 0;
    while i < count
        invariant
            i <= count,
            count == total / 2,
            total == value@.len(),
            total > 0,
            total % 2 == 0,
            value@ == trimmed(line@),
            bytes@.len() == i,
            forall|j: int|
                0 <= j < i ==> #[trigger] octet_in(value@[2 * j], value@[2 * j + 1]) == Some(
                    bytes@[j],
                ),
        decreases count - i,
    {
        match read_octet(value[2 * i], value[2 * i + 1]) {
            Some(octet) => bytes.push(octet),
            None => {
                proof {
                    assert(octet_in(value@[2 * i], value@[2 * i + 1]) is None);
                }
                return None;
            },
        }
        i = i + 1;
    }
    proof {
        assert(pdu_in(line@) is Some);
        assert(bytes@ =~= pdu_in(line@)->0);
    }
    Some(bytes)
}

/// The index and the status that a header names.
pub open spec fn header_in(rest: Seq<char>) -> Option<(u32, Seq<char>)> {
    let fields = pieces(rest, ',');
    match number_in(trimmed(fields[0]), u32::MAX as nat) {
        None => None,
        Some(index) => if fields.len() < 2 {
            None
        } else {
            let status = stripped(trimmed(fields[1]), '"');
            if status.len() == 0 {
                None
            } else {
                Some((index as u32, status))
            }
        },
    }
}

/// `0,"REC UNREAD","10001",,"26/08/29,17:35:23+32"` — index and status.
fn parse_header(rest: &[char]) -> (header: Option<(u32, String)>)
    ensures
        match header {
            Some((index, status)) => header_in(rest@) == Some((index, status@)),
            None => header_in(rest@) is None,
        },
{
    let fields: Vec<&[char]> = split(rest, ',');
    let ghost all = slices(fields@);
    proof {
        assert(all[0] == fields@[0]@);
    }
    let index: u32 = match parse_number(trim(fields[0]), u32::MAX as u64) {
        Some(index) => index as u32,
        None => return None,
    };
    if fields.len() < 2 {
        return None;
    }
    proof {
        assert(all[1] == fields@[1]@);
    }
    let status: &[char] = strip_char(trim(fields[1]), '"');
    if status.len() == 0 {
        return None;
    }
    Some((index, string_of(status)))
}

/// The messages of a listing, a header having been read or not.
pub open spec fn listing_in(lines: Seq<Seq<char>>, pending: Option<(u32, Seq<char>)>) -> Seq<
    StoredModel,
>
    decreases lines.len(),
{
    if lines.len() == 0 {
        Seq::empty()
    } else {
        let line = trimmed(lines[0]);
        match after_prefix(line, "+CMGL:"@) {
            Some(rest) => listing_in(lines.skip(1), header_in(rest)),
            None => match (pending, pdu_in(line)) {
                (Some((index, status)), Some(pdu)) => seq![StoredModel { index, status, pdu }]
                    + listing_in(lines.skip(1), None),
                _ => listing_in(lines.skip(1), None),
            },
        }
    }
}

/// A header that may have been read.
pub open spec fn pending_model(pending: Option<(u32, String)>) -> Option<(u32, Seq<char>)> {
    match pending {
        Some((index, status)) => Some((index, status@)),
        None => None,
    }
}

/// Parse the `+CMGL:` header/PDU pairs of a PDU-mode listing.
///
/// Each message is two lines: a header naming the index and status, and the PDU
/// on the line after it. A header whose PDU line is missing or unreadable is
/// dropped rather than guessed at — the index would be right and the content
/// wrong, which is the one combination that could delete a message nobody ever
/// read.
pub fn parse_listing(lines: &[String]) -> (messages: Vec<StoredMessage>)
    ensures
        stored_models(messages@) == listing_in(texts(lines@), None),
{
    let ghost all = texts(lines@);
    let ghost wanted = listing_in(all, None);
    let mut messages: Vec<StoredMessage> = Vec::new();
    let mut pending: Option<(u32, String)> = None;
    let mut i: usize = 0;
    proof {
        assert(all.skip(0) =~= all);
        assert(stored_models(messages@) + listing_in(all.skip(0), None) =~= wanted);
    }
    while i < lines.len()
        invariant
            i <= lines@.len(),
            all == texts(lines@),
            stored_models(messages@) + listing_in(all.skip(i as int), pending_model(pending))
                == wanted,
        decreases lines@.len() - i,
    {
        proof {
            assert(all.skip(i as int)[0] == lines@[i as int]@);
            assert(all.skip(i as int).skip(1) =~= all.skip(i + 1));
        }
        let ghost before = stored_models(messages@);
        let ghost was = pending_model(pending);
        let chars: Vec<char> = chars_of(lines[i].as_str());
        let line: &[char] = trim(&chars);
        match strip_prefix(line, "+CMGL:") {
            Some(rest) => {
                pending = parse_header(rest);
            },
            None => {
                if let Some((index, status)) = pending {
                    if let Some(pdu) = decode_pdu(line) {
                        let message = StoredMessage { index, status, pdu };
                        let ghost shown = message@;
                        messages.push(message);
                        proof {
                            assert(stored_models(messages@) =~= before + seq![shown]);
                            assert(stored_models(messages@) + listing_in(all.skip(i + 1), None)
                                =~= before + listing_in(all.skip(i as int), was));
                        }
                    }
                }
                pending = None;
            },
        }
        i = i + 1;
    }
    proof {
        assert(stored_models(messages@) + Seq::<StoredModel>::empty() =~= stored_models(
            messages@,
        ));
    }
    messages
}

/// Every message that a listing yields has a status and a PDU: an index is
/// never paired with nothing.
pub proof fn law_no_index_without_content(
    lines: Seq<Seq<char>>,
    pending: Option<(u32, Seq<char>)>,
)
    requires
        pending matches Some((_, status)) ==> status.len() > 0,
    ensures
        forall|i: int|
            0 <= i < listing_in(lines, pending).len() ==> {
                &&& (#[trigger] listing_in(lines, pending)[i]).status.len() > 0
                &&& listing_in(lines, pending)[i].pdu.len() > 0
            },
    decreases lines.len(),
{
    if lines.len() > 0 {
        let line = trimmed(lines[0]);
        match after_prefix(line, "+CMGL:"@) {
            Some(rest) => {
                law_no_index_without_content(lines.skip(1), header_in(rest));
                assert(listing_in(lines, pending) == listing_in(lines.skip(1), header_in(rest)));
            },
            None => {
                law_no_index_without_content(lines.skip(1), None);
                let rest = listing_in(lines.skip(1), None);
                let whole = listing_in(lines, pending);
                assert forall|i: int| 0 <= i < whole.len() implies {
                    &&& (#[trigger] whole[i]).status.len() > 0
                    &&& whole[i].pdu.len() > 0
                } by {
                    if whole.len() > rest.len() && i > 0 {
                        assert(whole[i] == rest[i - 1]);
                    } else if whole.len() == rest.len() {
                        assert(whole[i] == rest[i]);
                    }
                }
            },
        }
    }
}

} // verus!
