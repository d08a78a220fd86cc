//! What the crate reads out of JSON and how it writes JSON, over `serde_json`.

use crate::text::hex_pair;
use vstd::prelude::*;

verus! {

/// What stands at one place of a JSON text.
#[derive(Clone, Debug, PartialEq, Eq)]
pub enum JsonItem {
    Missing,
    Text(String),
    /// A number that fits an unsigned 64-bit integer.
    Count(u64),
    /// Anything else: `null`, a flag, another number, a list or an object.
    Other,
}

/// What stands at one place, by what it says.
pub enum JsonModel {
    Missing,
    Text(Seq<char>),
    Count(u64),
    Other,
}

impl View for JsonItem {
    type V = JsonModel;

    open spec fn view(&self) -> JsonModel {
        match *self {
            JsonItem::Missing => JsonModel::Missing,
            JsonItem::Text(text) => JsonModel::Text(text@),
            JsonItem::Count(count) => JsonModel::Count(count),
            JsonItem::Other => JsonModel::Other,
        }
    }
}

/// Why `serde_json::from_slice` does not read octets as JSON, where it does
/// not.
pub uninterp spec fn json_fault(text: Seq<u8>) -> Option<Seq<char>>;

/// `serde_json::from_slice` reads a `Value` or refuses the octets, and why it
/// refuses them depends on the octets alone.
#[verifier::external_body]
pub(crate) fn find_json_fault(text: &[u8]) -> (fault: Option<String>)
    ensures
        crate::text::opt_text(fault) == json_fault(text@),
{
    serde_json::from_slice::<serde_json::Value>(text).err().map(|error| error.to_string())
}

/// What `serde_json::Value::pointer` finds in a JSON text.
pub uninterp spec fn json_at(text: Seq<u8>, pointer: Seq<char>) -> JsonModel;

/// `serde_json::Value::pointer`, on the value that the octets are read as,
/// depends on the octets and on the pointer alone. A text that it finds is no
/// longer than the octets.
#[verifier::external_body]
pub(crate) fn json_item(text: &[u8], pointer: &str) -> (item: JsonItem)
    ensures
        item@ == json_at(text@, pointer@),
        item@ matches JsonModel::Text(found) ==> found.len() <= text@.len(),
{
    let value = serde_json::from_slice::<serde_json::Value>(text).ok();
    match value.as_ref().and_then(|value| value.pointer(pointer)) {
        None => JsonItem::Missing,
        Some(serde_json::Value::String(found)) => JsonItem::Text(found.clone()),
        Some(other) => other.as_u64().map_or(JsonItem::Other, JsonItem::Count),
    }
}

/// The text at one place of a JSON text.
pub open spec fn json_text(text: Seq<u8>, pointer: Seq<char>) -> Option<Seq<char>> {
    match json_at(text, pointer) {
        JsonModel::Text(found) => Some(found),
        _ => None,
    }
}

pub(crate) fn find_json_text(text: &[u8], pointer: &str) -> (found: Option<String>)
    ensures
        crate::text::opt_text(found) == json_text(text@, pointer@),
        found matches Some(t) ==> t@.len() <= text@.len(),
{
    match json_item(text, pointer) {
        JsonItem::Text(found) => Some(found),
        _ => None,
    }
}

/// A character inside a JSON string: a quote, a backslash and what is below the
/// space are escaped, and nothing else is.
pub open spec fn json_char(c: char) -> Seq<char> {
    let n = c as u32;
    if c == '"' || c == '\\' {
        seq!['\\', c]
    } else if n == 0x8 {
        seq!['\\', 'b']
    } else if n == 0x9 {
        seq!['\\', 't']
    } else if n == 0xa {
        seq!['\\', 'n']
    } else if n == 0xc {
        seq!['\\', 'f']
    } else if n == 0xd {
        seq!['\\', 'r']
    } else if n < 0x20 {
        seq!['\\', 'u', '0', '0'] + hex_pair(n as u8)
    } else {
        seq![c]
    }
}

/// The characters of a text, as they stand inside a JSON string.
pub open spec fn json_chars(text: Seq<char>) -> Seq<char>
    decreases text.len(),
{
    if text.len() == 0 {
        Seq::empty()
    } else {
        json_chars(text.drop_last()) + json_char(text.last())
    }
}

/// A text as a JSON string: in quotes, and escaped.
pub open spec fn json_string(text: Seq<char>) -> Seq<char> {
    seq!['"'] + json_chars(text) + seq!['"']
}

/// A `serde_json::Value` of a text, written out by its `to_string`: the text in
/// quotes, with the escapes of `serde_json`'s compact form.
#[verifier::external_body]
pub(crate) fn json_string_of(text: &str) -> (written: String)
    ensures
        written@ == json_string(text@),
{
    serde_json::Value::String(text.to_string()).to_string()
}

} // verus!
