//! Definite-length BER-TLV, as eUICCs and certificates use it: tags of one or
//! more octets, lengths in the short form or in one to four octets.

use crate::octets::{push_all, same_bytes};
use vstd::prelude::*;

verus! {

/// Why octets do not start with a complete element.
#[derive(Clone, Copy, Debug, PartialEq, Eq, Structural)]
pub enum BerFault {
    NoTag,
    TagCutShort,
    NoLength,
    /// An indefinite length, or one of more than four octets.
    LengthForm(u8),
    LengthCutShort,
    /// The value runs past the end of the octets.
    Overrun { length: usize },
}

/// One element: its tag, its value, and all of it with tag and length.
#[verifier::ext_equal]
pub struct ElementModel {
    pub tag: Seq<u8>,
    pub value: Seq<u8>,
    pub whole: Seq<u8>,
}

/// The end of a tag whose continuation octets start at `from`.
pub open spec fn tag_end(bytes: Seq<u8>, from: int) -> Option<int>
    decreases bytes.len() - from,
{
    if from < 0 || from >= bytes.len() {
        None
    } else if bytes[from] < 0x80 {
        Some(from + 1)
    } else {
        tag_end(bytes, from + 1)
    }
}

/// How many octets the tag takes. A first octet whose low five bits are all
/// ones is continued by octets that set the high bit while more follow.
pub open spec fn tag_length(bytes: Seq<u8>) -> Result<int, BerFault> {
    if bytes.len() == 0 {
        Err(BerFault::NoTag)
    } else if bytes[0] % 32 != 31 {
        Ok(1)
    } else {
        match tag_end(bytes, 1) {
            Some(end) => Ok(end),
            None => Err(BerFault::TagCutShort),
        }
    }
}

/// A big-endian number.
pub open spec fn big_endian(bytes: Seq<u8>) -> nat
    decreases bytes.len(),
{
    if bytes.len() == 0 {
        0
    } else {
        256 * big_endian(bytes.drop_last()) + bytes.last() as nat
    }
}

/// The length field at `at`: what it says and where the value starts.
pub open spec fn length_at(bytes: Seq<u8>, at: int) -> Result<(nat, int), BerFault> {
    if at >= bytes.len() {
        Err(BerFault::NoLength)
    } else if bytes[at] < 0x80 {
        Ok((bytes[at] as nat, at + 1))
    } else {
        let count = bytes[at] - 0x80;
        if count == 0 || count > 4 {
            Err(BerFault::LengthForm(bytes[at]))
        } else if at + 1 + count > bytes.len() {
            Err(BerFault::LengthCutShort)
        } else {
            Ok((big_endian(bytes.subrange(at + 1, at + 1 + count)), at + 1 + count))
        }
    }
}

/// The element that octets start with.
pub open spec fn element_in(bytes: Seq<u8>) -> Result<ElementModel, BerFault> {
    match tag_length(bytes) {
        Err(e) => Err(e),
        Ok(tag) => match length_at(bytes, tag) {
            Err(e) => Err(e),
            Ok((length, start)) => if start + length > bytes.len() {
                Err(BerFault::Overrun { length: length as usize })
            } else {
                Ok(
                    ElementModel {
                        tag: bytes.take(tag),
                        value: bytes.subrange(start, start + length),
                        whole: bytes.take(start + length),
                    },
                )
            },
        },
    }
}

/// What follows the element that octets start with.
pub open spec fn rest_after(bytes: Seq<u8>) -> Seq<u8> {
    match element_in(bytes) {
        Ok(element) => bytes.skip(element.whole.len() as int),
        Err(_) => Seq::empty(),
    }
}

pub proof fn lemma_tag_end(bytes: Seq<u8>, from: int)
    requires
        0 <= from <= bytes.len(),
    ensures
        tag_end(bytes, from) matches Some(end) ==> from < end <= bytes.len(),
    decreases bytes.len() - from,
{
    if from < bytes.len() && bytes[from] >= 0x80 {
        lemma_tag_end(bytes, from + 1);
    }
}

/// An element takes at least two octets and is the front of the octets.
pub proof fn lemma_element(bytes: Seq<u8>)
    requires
        element_in(bytes) is Ok,
    ensures
        ({
            let e = element_in(bytes)->Ok_0;
            &&& e.tag.len() >= 1
            &&& e.tag.len() + e.value.len() < e.whole.len() <= bytes.len()
            &&& e.whole == bytes.take(e.whole.len() as int)
            &&& bytes == e.whole + rest_after(bytes)
            &&& rest_after(bytes).len() < bytes.len()
            &&& e.whole.skip(e.whole.len() - e.value.len()) == e.value
        }),
{
    if bytes[0] % 32 == 31 {
        lemma_tag_end(bytes, 1);
    }
    let e = element_in(bytes)->Ok_0;
    assert(bytes =~= e.whole + rest_after(bytes));
    assert(e.whole.skip(e.whole.len() - e.value.len()) =~= e.value);
}

/// One element as slices of the octets it was read from.
///
/// Its view is the element. What follows it there is no part of it, and is stated
/// by whatever hands an element out.
pub struct Element<'a> {
    pub tag: &'a [u8],
    pub value: &'a [u8],
    pub whole: &'a [u8],
    pub rest: &'a [u8],
}

impl<'a> View for Element<'a> {
    type V = ElementModel;

    open spec fn view(&self) -> ElementModel {
        ElementModel { tag: self.tag@, value: self.value@, whole: self.whole@ }
    }
}

fn read_tag_length(bytes: &[u8]) -> (length: Result<usize, BerFault>)
    ensures
        match length {
            Ok(n) => tag_length(bytes@) == Ok::<int, BerFault>(n as int) && 1 <= n <= bytes@.len(),
            Err(e) => tag_length(bytes@) == Err::<int, BerFault>(e),
        },
{
    if bytes.len() == 0 {
        return Err(BerFault::NoTag);
    }
    if bytes[0] % 32 != 31 {
        return Ok(1);
    }
    let mut at: usize = 1;
    while at < bytes.len()
        invariant
            1 <= at <= bytes@.len(),
            bytes@[0] % 32 == 31,
            tag_end(bytes@, at as int) == tag_end(bytes@, 1),
        decreases bytes@.len() - at,
    {
        if bytes[at] < 0x80 {
            return Ok(at + 1);
        }
        at = at + 1;
    }
    Err(BerFault::TagCutShort)
}

fn read_length_at(bytes: &[u8], at: usize) -> (length: Result<(usize, usize), BerFault>)
    requires
        at <= bytes@.len(),
    ensures
        match length {
            Ok((n, start)) => length_at(bytes@, at as int) == Ok::<(nat, int), BerFault>(
                (n as nat, start as int),
            ) && at < start <= bytes@.len() && n <= 0xffff_ffff,
            Err(e) => length_at(bytes@, at as int) == Err::<(nat, int), BerFault>(e),
        },
{
    if at >= bytes.len() {
        return Err(BerFault::NoLength);
    }
    let first: u8 = bytes[at];
    if first < 0x80 {
        return Ok((first as usize, at + 1));
    }
    let count: usize = (first - 0x80) as usize;
    if count == 0 || count > 4 {
        return Err(BerFault::LengthForm(first));
    }
    if bytes.len() - at - 1 < count {
        return Err(BerFault::LengthCutShort);
    }
    let total: usize = bytes.len();
    let start: usize = at + 1;
    let mut value: u64 = 0;
    let mut i: usize = 0;
    let ghost field = bytes@.subrange(start as int, start + count);
    proof {
        assert(field.take(0) =~= Seq::empty());
    }
    while i < count
        invariant
            i <= count <= 4,
            start + count <= bytes@.len() == total,
            field == bytes@.subrange(start as int, start + count),
            value == big_endian(field.take(i as int)),
            i == 0 ==> value == 0,
            i == 1 ==> value <= 0xff,
            i == 2 ==> value <= 0xffff,
            i == 3 ==> value <= 0xff_ffff,
            i == 4 ==> value <= 0xffff_ffff,
        decreases count - i,
    {
        proof {
            assert(field.take(i + 1).drop_last() =~= field.take(i as int));
            assert(field.take(i + 1).last() == bytes@[start + i]);
        }
        value = 256 * value + bytes[start + i] as u64;
        i = i + 1;
    }
    proof {
        assert(field.take(i as int) =~= field);
    }
    Ok((value as usize, start + count))
}

/// Reads the element that octets start with.
pub fn read<'a>(bytes: &'a [u8]) -> (element: Result<Element<'a>, BerFault>)
    ensures
        match element {
            Ok(e) => element_in(bytes@) == Ok::<ElementModel, BerFault>(e@) && e.rest@
                == rest_after(bytes@) && e.rest@.len() < bytes@.len() && e.value@.len() <= 0xffff_ffff,
            Err(f) => element_in(bytes@) == Err::<ElementModel, BerFault>(f),
        },
{
    let tag: usize = match read_tag_length(bytes) {
        Ok(n) => n,
        Err(e) => return Err(e),
    };
    let (length, start) = match read_length_at(bytes, tag) {
        Ok(pair) => pair,
        Err(e) => return Err(e),
    };
    if bytes.len() - start < length {
        return Err(BerFault::Overrun { length });
    }
    let end: usize = start + length;
    proof {
        assert(bytes@.subrange(0, tag as int) =~= bytes@.take(tag as int));
        assert(bytes@.subrange(0, end as int) =~= bytes@.take(end as int));
        assert(bytes@.subrange(end as int, bytes@.len() as int) =~= bytes@.skip(end as int));
    }
    Ok(
        Element {
            tag: &bytes[0..tag],
            value: &bytes[start..end],
            whole: &bytes[0..end],
            rest: &bytes[end..bytes.len()],
        },
    )
}

/// Every element of a list of them, or the first fault in it.
pub open spec fn elements_in(bytes: Seq<u8>) -> Result<Seq<ElementModel>, BerFault>
    decreases bytes.len(),
    via elements_in_decreases
{
    if bytes.len() == 0 {
        Ok(Seq::empty())
    } else {
        match element_in(bytes) {
            Err(e) => Err(e),
            Ok(first) => match elements_in(rest_after(bytes)) {
                Err(e) => Err(e),
                Ok(more) => Ok(seq![first] + more),
            },
        }
    }
}

#[via_fn]
proof fn elements_in_decreases(bytes: Seq<u8>) {
    if element_in(bytes) is Ok {
        lemma_element(bytes);
    }
}

/// The models of elements.
pub open spec fn element_models(list: Seq<Element>) -> Seq<ElementModel> {
    list.map_values(|element: Element| element@)
}

/// Reads every element of a list of them.
pub fn read_all<'a>(bytes: &'a [u8]) -> (elements: Result<Vec<Element<'a>>, BerFault>)
    ensures
        match elements {
            Ok(list) => elements_in(bytes@) == Ok::<Seq<ElementModel>, BerFault>(
                element_models(list@),
            ),
            Err(f) => elements_in(bytes@) == Err::<Seq<ElementModel>, BerFault>(f),
        },
{
    let mut list: Vec<Element<'a>> = Vec::new();
    let mut rest: &'a [u8] = bytes;
    proof {
        if elements_in(bytes@) is Ok {
            assert(element_models(list@) + elements_in(bytes@)->Ok_0 =~= elements_in(
                bytes@,
            )->Ok_0);
        }
    }
    while rest.len() > 0
        invariant
            elements_in(bytes@) == (match elements_in(rest@) {
                Err(f) => Err::<Seq<ElementModel>, BerFault>(f),
                Ok(more) => Ok::<Seq<ElementModel>, BerFault>(element_models(list@) + more),
            }),
        decreases rest@.len(),
    {
        match read(rest) {
            Err(f) => return Err(f),
            Ok(element) => {
                let ghost before = element_models(list@);
                let ghost shown = element@;
                let ghost whole = rest@;
                rest = element.rest;
                list.push(element);
                proof {
                    assert(element_models(list@) =~= before.push(shown));
                    if elements_in(rest@) is Ok {
                        let more = elements_in(rest@)->Ok_0;
                        assert(elements_in(whole)->Ok_0 =~= seq![shown] + more);
                        assert(before + (seq![shown] + more) =~= element_models(list@) + more);
                    }
                }
            },
        }
    }
    proof {
        assert(element_models(list@) + Seq::<ElementModel>::empty() =~= element_models(list@));
    }
    Ok(list)
}

/// No element of a list is longer than the list.
pub proof fn lemma_elements_fit(bytes: Seq<u8>, i: int)
    requires
        elements_in(bytes) is Ok,
        0 <= i < elements_in(bytes)->Ok_0.len(),
    ensures
        elements_in(bytes)->Ok_0[i].whole.len() <= bytes.len(),
        elements_in(bytes)->Ok_0[i].value.len() <= bytes.len(),
    decreases bytes.len(),
{
    lemma_element(bytes);
    if i > 0 {
        lemma_elements_fit(rest_after(bytes), i - 1);
    }
}

/// The value of the first element with a tag; nothing behind a fault is seen.
pub open spec fn tagged_in(bytes: Seq<u8>, tag: Seq<u8>) -> Option<Seq<u8>>
    decreases bytes.len(),
    via tagged_in_decreases
{
    if bytes.len() == 0 {
        None
    } else {
        match element_in(bytes) {
            Err(_) => None,
            Ok(first) => if first.tag == tag {
                Some(first.value)
            } else {
                tagged_in(rest_after(bytes), tag)
            },
        }
    }
}

#[via_fn]
proof fn tagged_in_decreases(bytes: Seq<u8>, tag: Seq<u8>) {
    if element_in(bytes) is Ok {
        lemma_element(bytes);
    }
}

pub fn find_tag<'a>(bytes: &'a [u8], tag: &[u8]) -> (value: Option<&'a [u8]>)
    ensures
        match value {
            Some(v) => tagged_in(bytes@, tag@) == Some(v@) && v@.len() <= bytes@.len(),
            None => tagged_in(bytes@, tag@) is None,
        },
{
    let mut rest: &'a [u8] = bytes;
    while rest.len() > 0
        invariant
            rest@.len() <= bytes@.len(),
            tagged_in(rest@, tag@) == tagged_in(bytes@, tag@),
        decreases rest@.len(),
    {
        match read(rest) {
            Err(_) => return None,
            Ok(element) => {
                if same_bytes(element.tag, tag) {
                    proof {
                        lemma_element(rest@);
                    }
                    return Some(element.value);
                }
                rest = element.rest;
            },
        }
    }
    None
}

/// Whether a tag is the one octet `a`.
pub fn tag_is(tag: &[u8], a: u8) -> (yes: bool)
    ensures
        yes == (tag@ == seq![a]),
{
    let yes: bool = tag.len() == 1 && tag[0] == a;
    proof {
        if yes {
            assert(tag@ =~= seq![a]);
        } else if tag@ == seq![a] {
            assert(tag@.len() == 1 && tag@[0] == a);
        }
    }
    yes
}

/// Whether a tag is the two octets `a` and `b`.
pub fn tag_is_pair(tag: &[u8], a: u8, b: u8) -> (yes: bool)
    ensures
        yes == (tag@ == seq![a, b]),
{
    let yes: bool = tag.len() == 2 && tag[0] == a && tag[1] == b;
    proof {
        if yes {
            assert(tag@ =~= seq![a, b]);
        } else if tag@ == seq![a, b] {
            assert(tag@.len() == 2 && tag@[0] == a && tag@[1] == b);
        }
    }
    yes
}

// ---------------------------------------------------------------------------
// Writing
// ---------------------------------------------------------------------------

/// A length in the shortest form, up to three octets of it.
pub open spec fn length_octets(length: nat) -> Seq<u8> {
    if length < 0x80 {
        seq![length as u8]
    } else if length <= 0xff {
        seq![0x81u8, length as u8]
    } else if length <= 0xffff {
        seq![0x82u8, (length / 256) as u8, (length % 256) as u8]
    } else {
        seq![
            0x83u8,
            (length / 65536 % 256) as u8,
            (length / 256 % 256) as u8,
            (length % 256) as u8,
        ]
    }
}

/// An element as octets.
pub open spec fn element_octets(tag: Seq<u8>, value: Seq<u8>) -> Seq<u8> {
    tag + length_octets(value.len()) + value
}

pub fn push_length(out: &mut Vec<u8>, length: usize)
    ensures
        final(out)@ == old(out)@ + length_octets(length as nat),
{
    if length < 0x80 {
        out.push(length as u8);
    } else if length <= 0xff {
        out.push(0x81);
        out.push(length as u8);
    } else if length <= 0xffff {
        out.push(0x82);
        out.push((length / 256) as u8);
        out.push((length % 256) as u8);
    } else {
        out.push(0x83);
        out.push((length / 65536 % 256) as u8);
        out.push((length / 256 % 256) as u8);
        out.push((length % 256) as u8);
    }
    proof {
        assert(out@ =~= old(out)@ + length_octets(length as nat));
    }
}

/// Wraps `value` in one BER-TLV.
pub fn wrap(tag: &[u8], value: &[u8]) -> (out: Vec<u8>)
    ensures
        out@ == element_octets(tag@, value@),
{
    let mut out: Vec<u8> = Vec::new();
    push_all(&mut out, tag);
    push_length(&mut out, value.len());
    push_all(&mut out, value);
    proof {
        assert(out@ =~= element_octets(tag@, value@));
    }
    out
}

/// A tag is complete: one octet, or a continued one that ends where it ends.
pub open spec fn complete_tag(tag: Seq<u8>) -> bool {
    tag_length(tag) == Ok::<int, BerFault>(tag.len() as int)
}

proof fn lemma_tag_end_prefix(tag: Seq<u8>, more: Seq<u8>, from: int)
    requires
        0 <= from,
        tag_end(tag, from) is Some,
    ensures
        tag_end(tag + more, from) == tag_end(tag, from),
    decreases tag.len() - from,
{
    assert((tag + more)[from] == tag[from]);
    if tag[from] >= 0x80 {
        lemma_tag_end_prefix(tag, more, from + 1);
    }
}

proof fn lemma_big_endian_short(bytes: Seq<u8>)
    ensures
        bytes.len() == 1 ==> big_endian(bytes) == bytes[0],
        bytes.len() == 2 ==> big_endian(bytes) == 256 * bytes[0] + bytes[1],
        bytes.len() == 3 ==> big_endian(bytes) == 65536 * bytes[0] + 256 * bytes[1] + bytes[2],
{
    reveal_with_fuel(big_endian, 4);
    if bytes.len() == 2 {
        assert(bytes.drop_last().last() == bytes[0]);
    }
    if bytes.len() == 3 {
        assert(bytes.drop_last().last() == bytes[1]);
        assert(bytes.drop_last().drop_last().last() == bytes[0]);
    }
}

/// An element that was written is read back, whatever follows it: its tag, its
/// value, and the octets it was written as.
pub proof fn law_element_round_trip(tag: Seq<u8>, value: Seq<u8>, rest: Seq<u8>)
    requires
        complete_tag(tag),
        value.len() < 0x100_0000,
    ensures
        element_in(element_octets(tag, value) + rest) == Ok::<ElementModel, BerFault>(
            ElementModel { tag, value, whole: element_octets(tag, value) },
        ),
        rest_after(element_octets(tag, value) + rest) == rest,
{
    let n = value.len();
    let whole = element_octets(tag, value);
    let bytes = whole + rest;
    let t = tag.len() as int;
    assert(bytes[0] == tag[0]);
    if tag[0] % 32 == 31 {
        lemma_tag_end(tag, 1);
        assert(bytes =~= tag + (length_octets(n) + value + rest));
        lemma_tag_end_prefix(tag, length_octets(n) + value + rest, 1);
    }
    assert(tag_length(bytes) == Ok::<int, BerFault>(t));
    let l = length_octets(n);
    assert(bytes.subrange(t, t + l.len()) =~= l);
    assert(bytes[t] == l[0]);
    if n >= 0x80 {
        let count = l.len() - 1;
        let field = bytes.subrange(t + 1, t + 1 + count);
        assert(field =~= l.skip(1));
        lemma_big_endian_short(field);
        if n > 0xffff {
            assert(n / 256 / 256 == n / 65536);
            assert(field[0] == (n / 65536) as u8);
            assert(field[1] == (n / 256 % 256) as u8);
            assert(field[2] == (n % 256) as u8);
            assert(65536 * (n / 65536) + 256 * (n / 256 % 256) + n % 256 == n);
        } else if n > 0xff {
            assert(field[0] == (n / 256) as u8);
            assert(field[1] == (n % 256) as u8);
        } else {
            assert(field[0] == n as u8);
        }
        assert(big_endian(field) == n);
    }
    let start = t + l.len();
    assert(length_at(bytes, t) == Ok::<(nat, int), BerFault>((n, start)));
    assert(bytes.take(t) =~= tag);
    assert(bytes.subrange(start, start + n) =~= value);
    assert(bytes.take(start + n) =~= whole);
    assert(bytes.skip(whole.len() as int) =~= rest);
}

} // verus!
