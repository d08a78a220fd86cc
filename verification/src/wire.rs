//! The QMUX/QMI wire format: TLVs, request and response frames, transaction
//! matching and client-ID allocation.

use std::collections::HashMap;

use crate::octets::{copy_of, copy_range, le16, le16_octets, push_all, push_le16, read_le16};
use crate::text::{decimal, hex_pair, hex_quad, push_decimal, push_hex_pair, push_hex_quad};
use vstd::prelude::*;

verus! {

broadcast use vstd::std_specs::hash::group_hash_axioms;

pub const QMUX_INTERFACE_TYPE: u8 = 0x01;

pub const QMUX_HEADER_LENGTH: usize = 6;

pub const QMUX_REQUEST_FLAG: u8 = 0x00;

pub const QMUX_RESPONSE_FLAG: u8 = 0x80;

pub const CONTROL_QMI_HEADER_LENGTH: usize = 6;

pub const SERVICE_QMI_HEADER_LENGTH: usize = 7;

pub const CONTROL_REQUEST_KIND: u8 = 0x00;

pub const CONTROL_RESPONSE_KIND: u8 = 0x01;

pub const SERVICE_REQUEST_KIND: u8 = 0x00;

pub const SERVICE_RESPONSE_KIND: u8 = 0x02;

pub const TLV_HEADER_LENGTH: usize = 3;

/// `QMICTL_GET_CLIENT_ID`.
pub const GET_CLIENT_ID: u16 = 0x0022;

/// `QMICTL_RELEASE_CLIENT_ID`.
pub const RELEASE_CLIENT_ID: u16 = 0x0023;

// ---------------------------------------------------------------------------
// Identifiers
// ---------------------------------------------------------------------------

/// A QMI service identifier carried in the QMUX header.
///
/// Service IDs remain open-ended because vendor-specific services are valid on
/// real modem firmware. Only service `0x00` has special wire semantics.
#[derive(Clone, Copy, Debug, PartialEq, Eq, Hash, Structural)]
pub struct ServiceId(pub u8);

impl ServiceId {
    pub fn control() -> (service: Self)
        ensures
            service == ServiceId(0x00),
    {
        ServiceId(0x00)
    }

    pub fn wds() -> (service: Self)
        ensures
            service == ServiceId(0x01),
    {
        ServiceId(0x01)
    }

    pub fn dms() -> (service: Self)
        ensures
            service == ServiceId(0x02),
    {
        ServiceId(0x02)
    }

    pub fn nas() -> (service: Self)
        ensures
            service == ServiceId(0x03),
    {
        ServiceId(0x03)
    }

    pub fn wms() -> (service: Self)
        ensures
            service == ServiceId(0x05),
    {
        ServiceId(0x05)
    }

    pub fn uim() -> (service: Self)
        ensures
            service == ServiceId(0x0b),
    {
        ServiceId(0x0b)
    }

    pub fn wda() -> (service: Self)
        ensures
            service == ServiceId(0x1a),
    {
        ServiceId(0x1a)
    }

    pub fn new(value: u8) -> (service: Self)
        ensures
            service == ServiceId(value),
    {
        ServiceId(value)
    }

    pub fn as_u8(self) -> (value: u8)
        ensures
            value == self.0,
    {
        self.0
    }

    pub fn is_control(self) -> (yes: bool)
        ensures
            yes == (self == ServiceId(0x00)),
    {
        self.0 == 0x00
    }

    /// The identifier as it is written in messages: `0x` and two digits.
    pub open spec fn text(self) -> Seq<char> {
        "0x"@ + hex_pair(self.0)
    }

    pub fn push_to(&self, out: &mut String)
        ensures
            final(out)@ == old(out)@ + self.text(),
    {
        out.append("0x");
        push_hex_pair(out, self.0);
        proof {
            assert(out@ =~= old(out)@ + self.text());
        }
    }

    pub fn to_string(&self) -> (text: String)
        ensures
            text@ == self.text(),
    {
        let mut text: String = String::new();
        self.push_to(&mut text);
        proof {
            assert(text@ =~= self.text());
        }
        text
    }
}

/// A QMI client identifier. Client zero is reserved for the control service.
#[derive(Clone, Copy, Debug, PartialEq, Eq, Hash, Structural)]
pub struct ClientId(pub u8);

impl ClientId {
    pub fn control() -> (client: Self)
        ensures
            client == ClientId(0x00),
    {
        ClientId(0x00)
    }

    /// Returns a client ID that can be used with a non-control QMI service.
    pub fn allocated(value: u8) -> (client: Result<Self, WireError>)
        ensures
            client == allocated_client(value),
    {
        if value == 0x00 {
            return Err(WireError::ZeroClientId);
        }
        Ok(ClientId(value))
    }

    pub fn as_u8(self) -> (value: u8)
        ensures
            value == self.0,
    {
        self.0
    }

    pub fn is_control(self) -> (yes: bool)
        ensures
            yes == (self == ClientId(0x00)),
    {
        self.0 == 0x00
    }

    pub open spec fn text(self) -> Seq<char> {
        "0x"@ + hex_pair(self.0)
    }

    pub fn push_to(&self, out: &mut String)
        ensures
            final(out)@ == old(out)@ + self.text(),
    {
        out.append("0x");
        push_hex_pair(out, self.0);
        proof {
            assert(out@ =~= old(out)@ + self.text());
        }
    }

    pub fn to_string(&self) -> (text: String)
        ensures
            text@ == self.text(),
    {
        let mut text: String = String::new();
        self.push_to(&mut text);
        proof {
            assert(text@ =~= self.text());
        }
        text
    }
}

/// Client zero is not allocatable; every other value is.
pub open spec fn allocated_client(value: u8) -> Result<ClientId, WireError> {
    if value == 0x00 {
        Err(WireError::ZeroClientId)
    } else {
        Ok(ClientId(value))
    }
}

/// A QMI transaction ID. The control service uses only its low byte.
#[derive(Clone, Copy, Debug, PartialEq, Eq, Hash, Structural)]
pub struct TransactionId(pub u16);

impl TransactionId {
    pub fn new(value: u16) -> (transaction: Self)
        ensures
            transaction == TransactionId(value),
    {
        TransactionId(value)
    }

    pub fn as_u16(self) -> (value: u16)
        ensures
            value == self.0,
    {
        self.0
    }

    pub open spec fn text(self) -> Seq<char> {
        "0x"@ + hex_quad(self.0)
    }

    pub fn push_to(&self, out: &mut String)
        ensures
            final(out)@ == old(out)@ + self.text(),
    {
        out.append("0x");
        push_hex_quad(out, self.0);
        proof {
            assert(out@ =~= old(out)@ + self.text());
        }
    }

    pub fn to_string(&self) -> (text: String)
        ensures
            text@ == self.text(),
    {
        let mut text: String = String::new();
        self.push_to(&mut text);
        proof {
            assert(text@ =~= self.text());
        }
        text
    }
}

/// A QMI message identifier.
#[derive(Clone, Copy, Debug, PartialEq, Eq, Hash, Structural)]
pub struct MessageId(pub u16);

impl MessageId {
    pub fn new(value: u16) -> (message: Self)
        ensures
            message == MessageId(value),
    {
        MessageId(value)
    }

    pub fn as_u16(self) -> (value: u16)
        ensures
            value == self.0,
    {
        self.0
    }

    pub open spec fn text(self) -> Seq<char> {
        "0x"@ + hex_quad(self.0)
    }

    pub fn push_to(&self, out: &mut String)
        ensures
            final(out)@ == old(out)@ + self.text(),
    {
        out.append("0x");
        push_hex_quad(out, self.0);
        proof {
            assert(out@ =~= old(out)@ + self.text());
        }
    }

    pub fn to_string(&self) -> (text: String)
        ensures
            text@ == self.text(),
    {
        let mut text: String = String::new();
        self.push_to(&mut text);
        proof {
            assert(text@ =~= self.text());
        }
        text
    }
}

// ---------------------------------------------------------------------------
// TLVs
// ---------------------------------------------------------------------------

/// A single QMI type-length-value field.
#[derive(Debug, PartialEq, Eq)]
pub struct Tlv {
    pub kind: u8,
    pub value: Vec<u8>,
}

/// What a TLV holds.
#[verifier::ext_equal]
pub struct TlvModel {
    pub kind: u8,
    pub value: Seq<u8>,
}

impl View for Tlv {
    type V = TlvModel;

    open spec fn view(&self) -> TlvModel {
        TlvModel { kind: self.kind, value: self.value@ }
    }
}

impl Clone for Tlv {
    fn clone(&self) -> (copy: Self)
        ensures
            copy@ == self@,
    {
        Tlv { kind: self.kind, value: copy_of(&self.value) }
    }
}

impl Tlv {
    pub fn new(kind: u8, value: Vec<u8>) -> (tlv: Result<Self, WireError>)
        ensures
            match tlv {
                Ok(t) => value@.len() <= 0xffff && t@ == (TlvModel { kind, value: value@ }),
                Err(e) => value@.len() > 0xffff && e == (WireError::TlvValueTooLarge {
                    kind,
                    actual: value@.len() as usize,
                }),
            },
    {
        if value.len() > 0xffff {
            return Err(WireError::TlvValueTooLarge { kind, actual: value.len() });
        }
        Ok(Tlv { kind, value })
    }
}

/// What a list of TLVs holds.
pub open spec fn tlv_models(tlvs: Seq<Tlv>) -> Seq<TlvModel> {
    tlvs.map_values(|tlv: Tlv| tlv@)
}

/// A TLV on the wire: kind, little-endian length, value.
pub open spec fn tlv_octets(tlv: TlvModel) -> Seq<u8> {
    seq![tlv.kind] + le16_octets(tlv.value.len() as u16) + tlv.value
}

/// TLVs on the wire, one after the other.
pub open spec fn tlvs_octets(tlvs: Seq<TlvModel>) -> Seq<u8>
    decreases tlvs.len(),
{
    if tlvs.len() == 0 {
        Seq::empty()
    } else {
        tlvs_octets(tlvs.drop_last()) + tlv_octets(tlvs.last())
    }
}

/// Every value is short enough for its sixteen-bit length.
pub open spec fn tlvs_fit(tlvs: Seq<TlvModel>) -> bool {
    forall|i: int| 0 <= i < tlvs.len() ==> (#[trigger] tlvs[i]).value.len() <= 0xffff
}

/// The TLVs that a payload holds, or the first fault in it.
pub open spec fn tlvs_in(payload: Seq<u8>) -> Result<Seq<TlvModel>, WireError>
    decreases payload.len(),
{
    if payload.len() == 0 {
        Ok(Seq::empty())
    } else if payload.len() < 3 {
        Err(WireError::TruncatedTlvHeader { actual: payload.len() as usize })
    } else {
        let length = le16(payload[1], payload[2]);
        if payload.len() - 3 < length {
            Err(
                WireError::TruncatedTlvValue {
                    kind: payload[0],
                    declared: length as usize,
                    actual: (payload.len() - 3) as usize,
                },
            )
        } else {
            match tlvs_in(payload.skip(3 + length)) {
                Ok(rest) => Ok(
                    seq![TlvModel { kind: payload[0], value: payload.subrange(3, 3 + length) }]
                        + rest,
                ),
                Err(e) => Err(e),
            }
        }
    }
}

/// The first TLV whose value is too long for the wire, if there is one.
pub open spec fn first_oversized(tlvs: Seq<TlvModel>) -> Option<TlvModel>
    decreases tlvs.len(),
{
    if tlvs.len() == 0 {
        None
    } else if tlvs[0].value.len() > 0xffff {
        Some(tlvs[0])
    } else {
        first_oversized(tlvs.skip(1))
    }
}

/// The payload that TLVs encode to, or why they cannot be encoded. The last
/// error is for payloads beyond the machine's address space.
pub open spec fn encoded_tlvs(tlvs: Seq<TlvModel>) -> Result<Seq<u8>, WireError> {
    match oversized_at(tlvs, 0, 0) {
        Some(e) => Err(e),
        None => Ok(tlvs_octets(tlvs)),
    }
}

/// What the length count of an encoding stumbles over, starting at TLV `from`
/// with `length` octets counted.
pub open spec fn oversized_at(tlvs: Seq<TlvModel>, from: int, length: int) -> Option<WireError>
    decreases tlvs.len() - from,
{
    if from < 0 || from >= tlvs.len() {
        None
    } else if tlvs[from].value.len() > 0xffff {
        Some(
            WireError::TlvValueTooLarge {
                kind: tlvs[from].kind,
                actual: tlvs[from].value.len() as usize,
            },
        )
    } else if length + 3 + tlvs[from].value.len() > usize::MAX {
        Some(WireError::EncodedPayloadTooLarge)
    } else {
        oversized_at(tlvs, from + 1, length + 3 + tlvs[from].value.len())
    }
}

/// Encodes QMI TLVs with their three-byte wire headers.
pub fn encode_tlvs(tlvs: &[Tlv]) -> (encoded: Result<Vec<u8>, WireError>)
    ensures
        match encoded {
            Ok(bytes) => encoded_tlvs(tlv_models(tlvs@)) == Ok::<Seq<u8>, WireError>(bytes@),
            Err(e) => encoded_tlvs(tlv_models(tlvs@)) == Err::<Seq<u8>, WireError>(e),
        },
{
    let ghost models = tlv_models(tlvs@);
    let mut length: usize = 0;
    let mut i: usize = 0;
    while i < tlvs.len()
        invariant
            i <= tlvs@.len(),
            models == tlv_models(tlvs@),
            oversized_at(models, i as int, length as int) == oversized_at(models, 0, 0),
        decreases tlvs@.len() - i,
    {
        let tlv: &Tlv = &tlvs[i];
        assert(models[i as int] == tlv@);
        if tlv.value.len() > 0xffff {
            return Err(
                WireError::TlvValueTooLarge { kind: tlv.kind, actual: tlv.value.len() },
            );
        }
        match length.checked_add(TLV_HEADER_LENGTH + tlv.value.len()) {
            Some(sum) => {
                length = sum;
            },
            None => {
                return Err(WireError::EncodedPayloadTooLarge);
            },
        }
        i = i + 1;
    }

    let mut encoded: Vec<u8> = Vec::with_capacity(length);
    let mut k: usize = 0;
    proof {
        assert(models.take(0) =~= Seq::empty());
        assert(encoded@ =~= tlvs_octets(models.take(0)));
        lemma_nothing_oversized(models, 0, 0);
    }
    while k < tlvs.len()
        invariant
            k <= tlvs@.len(),
            models == tlv_models(tlvs@),
            tlvs_fit(models),
            encoded@ == tlvs_octets(models.take(k as int)),
        decreases tlvs@.len() - k,
    {
        let tlv: &Tlv = &tlvs[k];
        let ghost before = encoded@;
        assert(models[k as int] == tlv@);
        encoded.push(tlv.kind);
        push_le16(&mut encoded, tlv.value.len() as u16);
        push_all(&mut encoded, &tlv.value);
        proof {
            assert(encoded@ =~= before + tlv_octets(tlv@));
            assert(models.take(k + 1).drop_last() =~= models.take(k as int));
        }
        k = k + 1;
    }
    proof {
        assert(models.take(k as int) =~= models);
    }
    Ok(encoded)
}

proof fn lemma_nothing_oversized(tlvs: Seq<TlvModel>, from: int, length: int)
    requires
        0 <= from,
        oversized_at(tlvs, from, length) is None,
    ensures
        forall|i: int| from <= i < tlvs.len() ==> (#[trigger] tlvs[i]).value.len() <= 0xffff,
    decreases tlvs.len() - from,
{
    if from < tlvs.len() {
        lemma_nothing_oversized(tlvs, from + 1, length + 3 + tlvs[from].value.len());
    }
}

/// Decodes a QMI TLV sequence and rejects truncated headers and values.
pub fn decode_tlvs(payload: &[u8]) -> (tlvs: Result<Vec<Tlv>, WireError>)
    ensures
        match tlvs {
            Ok(list) => tlvs_in(payload@) == Ok::<Seq<TlvModel>, WireError>(tlv_models(list@)),
            Err(e) => tlvs_in(payload@) == Err::<Seq<TlvModel>, WireError>(e),
        },
{
    let mut tlvs: Vec<Tlv> = Vec::new();
    let mut at: usize = 0;
    proof {
        assert(payload@.skip(0) =~= payload@);
        match tlvs_in(payload@) {
            Ok(rest) => {
                assert(tlv_models(tlvs@) + rest =~= rest);
            },
            Err(e) => {},
        }
    }
    while at < payload.len()
        invariant
            at <= payload@.len(),
            tlvs_in(payload@) == match tlvs_in(payload@.skip(at as int)) {
                Ok(rest) => Ok(tlv_models(tlvs@) + rest),
                Err(e) => Err(e),
            },
        decreases payload@.len() - at,
    {
        let ghost rest = payload@.skip(at as int);
        let left: usize = payload.len() - at;
        if left < TLV_HEADER_LENGTH {
            return Err(WireError::TruncatedTlvHeader { actual: left });
        }
        let kind: u8 = payload[at];
        let length: usize = read_le16(payload[at + 1], payload[at + 2]) as usize;
        let available: usize = left - TLV_HEADER_LENGTH;
        if available < length {
            return Err(WireError::TruncatedTlvValue { kind, declared: length, actual: available });
        }
        let start: usize = at + TLV_HEADER_LENGTH;
        let value: Vec<u8> = copy_range(payload, start, start + length);
        let ghost before = tlvs@;
        tlvs.push(Tlv { kind, value });
        at = start + length;
        proof {
            let first = TlvModel { kind: rest[0], value: rest.subrange(3, 3 + length) };
            assert(value@ =~= first.value);
            assert(rest.skip(3 + length) =~= payload@.skip(at as int));
            assert(tlv_models(tlvs@) =~= tlv_models(before) + seq![first]);
            match tlvs_in(payload@.skip(at as int)) {
                Ok(tail) => {
                    assert(tlv_models(before) + (seq![first] + tail) =~= tlv_models(tlvs@) + tail);
                },
                Err(e) => {},
            }
        }
    }
    proof {
        assert(payload@.skip(at as int) =~= Seq::empty());
        assert(tlv_models(tlvs@) + Seq::<TlvModel>::empty() =~= tlv_models(tlvs@));
    }
    Ok(tlvs)
}

/// Encoded TLVs decode to what was encoded.
pub proof fn law_tlvs_round_trip(tlvs: Seq<TlvModel>)
    requires
        tlvs_fit(tlvs),
    ensures
        tlvs_in(tlvs_octets(tlvs)) == Ok::<Seq<TlvModel>, WireError>(tlvs),
{
    lemma_tlvs_then(tlvs, Seq::empty());
    assert(tlvs_octets(tlvs) + Seq::<u8>::empty() =~= tlvs_octets(tlvs));
    assert(tlvs + Seq::<TlvModel>::empty() =~= tlvs);
}

/// Decoding TLVs that something follows yields them and then the rest.
proof fn lemma_tlvs_then(tlvs: Seq<TlvModel>, rest: Seq<u8>)
    requires
        tlvs_fit(tlvs),
    ensures
        tlvs_in(tlvs_octets(tlvs) + rest) == match tlvs_in(rest) {
            Ok(more) => Ok::<Seq<TlvModel>, WireError>(tlvs + more),
            Err(e) => Err::<Seq<TlvModel>, WireError>(e),
        },
    decreases tlvs.len(),
{
    if tlvs.len() == 0 {
        assert(tlvs_octets(tlvs) + rest =~= rest);
        match tlvs_in(rest) {
            Ok(more) => {
                assert(tlvs + more =~= more);
            },
            Err(e) => {},
        }
    } else {
        let last = tlvs.last();
        let front = tlvs.drop_last();
        let tail = tlv_octets(last) + rest;
        assert(tlvs_octets(tlvs) + rest =~= tlvs_octets(front) + tail);
        assert(tlvs_fit(front)) by {
            assert forall|i: int| 0 <= i < front.len() implies (#[trigger] front[i]).value.len()
                <= 0xffff by {
                assert(tlvs[i].value.len() <= 0xffff);
            }
        }
        lemma_tlvs_then(front, tail);
        let n = last.value.len();
        assert(tlvs[tlvs.len() - 1].value.len() <= 0xffff);
        assert(tail[0] == last.kind);
        assert(tail[1] == le16_octets(n as u16)[0]);
        assert(tail[2] == le16_octets(n as u16)[1]);
        assert(le16(tail[1], tail[2]) == n as u16);
        assert(tail.subrange(3, 3 + n as int) =~= last.value);
        assert(tail.skip(3 + n as int) =~= rest);
        match tlvs_in(rest) {
            Ok(more) => {
                assert(tlvs_in(tail) == Ok::<Seq<TlvModel>, WireError>(seq![last] + more));
                assert(front + (seq![last] + more) =~= tlvs + more);
            },
            Err(e) => {},
        }
    }
}

/// A payload that decodes is the encoding of what it decodes to: two payloads
/// that hold the same TLVs are the same payload.
pub proof fn law_tlvs_are_canonical(payload: Seq<u8>)
    requires
        tlvs_in(payload) is Ok,
    ensures
        tlvs_fit(tlvs_in(payload)->Ok_0),
        tlvs_octets(tlvs_in(payload)->Ok_0) == payload,
    decreases payload.len(),
{
    if payload.len() == 0 {
        assert(tlvs_octets(tlvs_in(payload)->Ok_0) =~= payload);
    } else {
        let n = le16(payload[1], payload[2]);
        let rest = payload.skip(3 + n);
        law_tlvs_are_canonical(rest);
        let first = TlvModel { kind: payload[0], value: payload.subrange(3, 3 + n) };
        let more = tlvs_in(rest)->Ok_0;
        lemma_tlvs_octets_cons(first, more);
        assert(le16_octets(n) =~= seq![payload[1], payload[2]]);
        assert(payload =~= tlv_octets(first) + rest);
        let all = seq![first] + more;
        assert forall|i: int| 0 <= i < all.len() implies (#[trigger] all[i]).value.len()
            <= 0xffff by {
            if i > 0 {
                assert(all[i] == more[i - 1]);
            }
        }
    }
}

proof fn lemma_tlvs_octets_cons(first: TlvModel, more: Seq<TlvModel>)
    ensures
        tlvs_octets(seq![first] + more) == tlv_octets(first) + tlvs_octets(more),
    decreases more.len(),
{
    let all = seq![first] + more;
    if more.len() == 0 {
        assert(all.drop_last() =~= Seq::<TlvModel>::empty());
        assert(all.last() == first);
        assert(tlvs_octets(Seq::<TlvModel>::empty()) =~= Seq::<u8>::empty());
        assert(tlvs_octets(all) =~= tlv_octets(first) + tlvs_octets(more));
    } else {
        assert(all.drop_last() =~= seq![first] + more.drop_last());
        lemma_tlvs_octets_cons(first, more.drop_last());
        assert(all.last() == more.last());
        assert(tlvs_octets(all) =~= tlv_octets(first) + tlvs_octets(more));
    }
}

/// The one TLV of a kind; it is an error for it to be absent or repeated.
pub open spec fn only_tlv(tlvs: Seq<TlvModel>, kind: u8) -> Result<Seq<u8>, TlvLookupError> {
    let found = tlvs.filter(|t: TlvModel| t.kind == kind);
    if found.len() == 0 {
        Err(TlvLookupError::Missing { kind })
    } else if found.len() > 1 {
        Err(TlvLookupError::Duplicate { kind })
    } else {
        Ok(found[0].value)
    }
}

/// The first TLV of a kind.
pub open spec fn first_tlv(tlvs: Seq<TlvModel>, kind: u8) -> Option<Seq<u8>>
    decreases tlvs.len(),
{
    if tlvs.len() == 0 {
        None
    } else if tlvs[0].kind == kind {
        Some(tlvs[0].value)
    } else {
        first_tlv(tlvs.skip(1), kind)
    }
}

/// Looks up a TLV kind and rejects both absence and duplicates.
pub fn unique_tlv<'a>(tlvs: &'a [Tlv], kind: u8) -> (found: Result<&'a Tlv, TlvLookupError>)
    ensures
        match found {
            Ok(tlv) => tlv.kind == kind && only_tlv(tlv_models(tlvs@), kind) == Ok::<
                Seq<u8>,
                TlvLookupError,
            >(tlv.value@),
            Err(e) => only_tlv(tlv_models(tlvs@), kind) == Err::<Seq<u8>, TlvLookupError>(e),
        },
{
    let ghost models = tlv_models(tlvs@);
    let ghost wanted = |t: TlvModel| t.kind == kind;
    let mut found: Option<&'a Tlv> = None;
    let mut i: usize = 0;
    proof {
        assert(models.take(0) =~= Seq::empty());
        reveal(Seq::filter);
    }
    while i < tlvs.len()
        invariant
            i <= tlvs@.len(),
            models == tlv_models(tlvs@),
            wanted == (|t: TlvModel| t.kind == kind),
            match found {
                None => models.take(i as int).filter(wanted).len() == 0,
                Some(tlv) => tlv.kind == kind && models.take(i as int).filter(wanted) == seq![
                    tlv@,
                ],
            },
        decreases tlvs@.len() - i,
    {
        proof {
            reveal(Seq::filter);
            assert(models.take(i + 1).drop_last() =~= models.take(i as int));
            assert(models.take(i + 1).last() == tlvs@[i as int]@);
        }
        if tlvs[i].kind == kind {
            if found.is_some() {
                proof {
                    lemma_filter_grows(models, wanted, i + 1);
                }
                return Err(TlvLookupError::Duplicate { kind });
            }
            found = Some(&tlvs[i]);
            proof {
                assert(models.take(i + 1).filter(wanted) =~= seq![tlvs@[i as int]@]);
            }
        }
        i = i + 1;
    }
    proof {
        assert(models.take(i as int) =~= models);
    }
    match found {
        Some(tlv) => Ok(tlv),
        None => Err(TlvLookupError::Missing { kind }),
    }
}

proof fn lemma_filter_grows(s: Seq<TlvModel>, wanted: spec_fn(TlvModel) -> bool, n: int)
    requires
        0 <= n <= s.len(),
    ensures
        s.take(n).filter(wanted).len() <= s.filter(wanted).len(),
    decreases s.len() - n,
{
    reveal(Seq::filter);
    if n < s.len() {
        lemma_filter_grows(s, wanted, n + 1);
        assert(s.take(n + 1).drop_last() =~= s.take(n));
    } else {
        assert(s.take(n) =~= s);
    }
}

/// Finds the first TLV of a kind.
pub fn find_tlv<'a>(tlvs: &'a [Tlv], kind: u8) -> (found: Option<&'a Tlv>)
    ensures
        match found {
            Some(tlv) => tlv.kind == kind && first_tlv(tlv_models(tlvs@), kind) == Some(tlv.value@),
            None => first_tlv(tlv_models(tlvs@), kind) is None,
        },
{
    let ghost models = tlv_models(tlvs@);
    let mut i: usize = 0;
    proof {
        assert(models.skip(0) =~= models);
    }
    while i < tlvs.len()
        invariant
            i <= tlvs@.len(),
            models == tlv_models(tlvs@),
            first_tlv(models.skip(i as int), kind) == first_tlv(models, kind),
        decreases tlvs@.len() - i,
    {
        proof {
            assert(models.skip(i as int)[0] == tlvs@[i as int]@);
            assert(models.skip(i as int).skip(1) =~= models.skip(i + 1));
        }
        if tlvs[i].kind == kind {
            return Some(&tlvs[i]);
        }
        i = i + 1;
    }
    None
}

// ---------------------------------------------------------------------------
// Addresses
// ---------------------------------------------------------------------------

/// The control service goes with client zero and no other service does.
pub open spec fn address_fault(service: ServiceId, client: ClientId) -> Option<WireError> {
    if service == ServiceId(0) && client != ClientId(0) {
        Some(WireError::ControlServiceRequiresControlClient { actual: client })
    } else if service != ServiceId(0) && client == ClientId(0) {
        Some(WireError::ServiceRequiresAllocatedClient { service })
    } else {
        None
    }
}

/// A control transaction has to fit one octet.
pub open spec fn transaction_fault(
    service: ServiceId,
    transaction: TransactionId,
) -> Option<WireError> {
    if service == ServiceId(0) && transaction.0 > 0xff {
        Some(WireError::ControlTransactionOutOfRange { transaction })
    } else {
        None
    }
}

pub open spec fn header_length(service: ServiceId) -> nat {
    if service == ServiceId(0) {
        6
    } else {
        7
    }
}

/// The longest payload whose frame length still fits sixteen bits.
pub open spec fn payload_limit(service: ServiceId) -> nat {
    (0xffff - 5 - header_length(service)) as nat
}

pub open spec fn payload_fault(service: ServiceId, length: nat) -> Option<WireError> {
    if length > payload_limit(service) {
        Some(
            WireError::PayloadTooLarge {
                service,
                actual: length as usize,
                maximum: payload_limit(service) as usize,
            },
        )
    } else {
        None
    }
}

fn validate_address(service: ServiceId, client_id: ClientId) -> (checked: Result<(), WireError>)
    ensures
        match checked {
            Ok(_) => address_fault(service, client_id) is None,
            Err(e) => address_fault(service, client_id) == Some(e),
        },
{
    if service.is_control() && !client_id.is_control() {
        return Err(WireError::ControlServiceRequiresControlClient { actual: client_id });
    }
    if !service.is_control() && client_id.is_control() {
        return Err(WireError::ServiceRequiresAllocatedClient { service });
    }
    Ok(())
}

pub fn validate_transaction(service: ServiceId, transaction: TransactionId) -> (checked: Result<
    (),
    WireError,
>)
    ensures
        match checked {
            Ok(_) => transaction_fault(service, transaction) is None,
            Err(e) => transaction_fault(service, transaction) == Some(e),
        },
{
    if service.is_control() && transaction.as_u16() > 0xff {
        return Err(WireError::ControlTransactionOutOfRange { transaction });
    }
    Ok(())
}

fn validate_payload_length(service: ServiceId, length: usize) -> (checked: Result<(), WireError>)
    ensures
        match checked {
            Ok(_) => payload_fault(service, length as nat) is None,
            Err(e) => payload_fault(service, length as nat) == Some(e),
        },
{
    let maximum: usize = 0xffff - 5 - qmi_header_length(service);
    if length > maximum {
        return Err(WireError::PayloadTooLarge { service, actual: length, maximum });
    }
    Ok(())
}

fn qmi_header_length(service: ServiceId) -> (length: usize)
    ensures
        length == header_length(service),
{
    if service.is_control() {
        CONTROL_QMI_HEADER_LENGTH
    } else {
        SERVICE_QMI_HEADER_LENGTH
    }
}

fn request_kind(service: ServiceId) -> (kind: u8)
    ensures
        kind == 0x00,
{
    if service.is_control() {
        CONTROL_REQUEST_KIND
    } else {
        SERVICE_REQUEST_KIND
    }
}

/// The kind octet that marks a response of a service.
pub open spec fn response_kind_of(service: ServiceId) -> u8 {
    if service == ServiceId(0) {
        0x01
    } else {
        0x02
    }
}

fn response_kind(service: ServiceId) -> (kind: u8)
    ensures
        kind == response_kind_of(service),
{
    if service.is_control() {
        CONTROL_RESPONSE_KIND
    } else {
        SERVICE_RESPONSE_KIND
    }
}

// ---------------------------------------------------------------------------
// Requests
// ---------------------------------------------------------------------------

/// What one QMI message says, whichever way it travels.
#[verifier::ext_equal]
pub struct MessageModel {
    pub service: ServiceId,
    pub client: ClientId,
    pub transaction: TransactionId,
    pub message: MessageId,
    pub payload: Seq<u8>,
}

impl MessageModel {
    /// The message obeys the address, transaction and size rules and its
    /// payload is a TLV list.
    pub open spec fn well_formed(self) -> bool {
        &&& address_fault(self.service, self.client) is None
        &&& transaction_fault(self.service, self.transaction) is None
        &&& self.payload.len() <= payload_limit(self.service)
        &&& tlvs_in(self.payload) is Ok
    }

    pub open spec fn key(self) -> TransactionKey {
        TransactionKey {
            service: self.service,
            client_id: self.client,
            transaction: self.transaction,
        }
    }

    /// The TLVs of a well-formed message.
    pub open spec fn tlvs(self) -> Seq<TlvModel> {
        tlvs_in(self.payload)->Ok_0
    }
}

/// The request that a set of fields makes, or the first rule they break.
pub open spec fn request_of(m: MessageModel) -> Result<MessageModel, WireError> {
    match address_fault(m.service, m.client) {
        Some(e) => Err(e),
        None => match transaction_fault(m.service, m.transaction) {
            Some(e) => Err(e),
            None => match payload_fault(m.service, m.payload.len()) {
                Some(e) => Err(e),
                None => match tlvs_in(m.payload) {
                    Err(e) => Err(e),
                    Ok(_) => Ok(m),
                },
            },
        },
    }
}

/// The request that carries the given TLVs.
pub open spec fn request_of_tlvs(
    service: ServiceId,
    client: ClientId,
    transaction: TransactionId,
    message: MessageId,
    tlvs: Seq<TlvModel>,
) -> Result<MessageModel, WireError> {
    match encoded_tlvs(tlvs) {
        Err(e) => Err(e),
        Ok(payload) => request_of(
            MessageModel { service, client, transaction, message, payload },
        ),
    }
}

/// A built request is the one that was asked for; a refusal is the right one.
pub open spec fn made<E>(request: Result<QmiRequest, E>, wanted: Result<MessageModel, E>) -> bool {
    match (request, wanted) {
        (Ok(r), Ok(m)) => r@ == m && m.well_formed(),
        (Err(e), Err(f)) => e == f,
        _ => false,
    }
}

/// TLVs that fit a frame always make a request for an allocated client.
pub proof fn law_fitting_tlvs_make_a_request(
    service: ServiceId,
    client: ClientId,
    transaction: TransactionId,
    message: MessageId,
    tlvs: Seq<TlvModel>,
)
    requires
        service != ServiceId(0),
        client != ClientId(0),
        tlvs_octets(tlvs).len() <= payload_limit(service),
    ensures
        request_of_tlvs(service, client, transaction, message, tlvs) == Ok::<
            MessageModel,
            WireError,
        >(MessageModel { service, client, transaction, message, payload: tlvs_octets(tlvs) }),
        tlvs_in(tlvs_octets(tlvs)) == Ok::<Seq<TlvModel>, WireError>(tlvs),
{
    assert forall|i: int| 0 <= i < tlvs.len() implies (#[trigger] tlvs[i]).value.len()
        <= 0xffff by {
        lemma_octets_grow(tlvs, i + 1);
        assert(tlvs.take(i + 1).last() == tlvs[i]);
    }
    lemma_short_tlvs_encode(tlvs);
}

/// The QMUX frame of a request.
pub open spec fn request_frame(m: MessageModel) -> Seq<u8> {
    seq![0x01u8] + le16_octets((5 + header_length(m.service) + m.payload.len()) as u16) + seq![
        0x00u8,
        m.service.0,
        m.client.0,
        0x00u8,
    ] + (if m.service == ServiceId(0) {
        seq![m.transaction.0 as u8]
    } else {
        le16_octets(m.transaction.0)
    }) + le16_octets(m.message.0) + le16_octets(m.payload.len() as u16) + m.payload
}

/// A fully formed request, ready for a transport to write as one QMUX frame.
#[derive(Debug, PartialEq, Eq)]
pub struct QmiRequest {
    service: ServiceId,
    client_id: ClientId,
    transaction: TransactionId,
    message_id: MessageId,
    payload: Vec<u8>,
}

impl View for QmiRequest {
    type V = MessageModel;

    closed spec fn view(&self) -> MessageModel {
        MessageModel {
            service: self.service,
            client: self.client_id,
            transaction: self.transaction,
            message: self.message_id,
            payload: self.payload@,
        }
    }
}

impl Clone for QmiRequest {
    fn clone(&self) -> (copy: Self)
        ensures
            copy@ == self@,
    {
        proof {
            use_type_invariant(self);
        }
        let payload: Vec<u8> = copy_of(&self.payload);
        QmiRequest {
            service: self.service,
            client_id: self.client_id,
            transaction: self.transaction,
            message_id: self.message_id,
            payload,
        }
    }
}

impl QmiRequest {
    #[verifier::type_invariant]
    spec fn checked(self) -> bool {
        self@.well_formed()
    }

    pub fn new(
        service: ServiceId,
        client_id: ClientId,
        transaction: TransactionId,
        message_id: MessageId,
        payload: Vec<u8>,
    ) -> (request: Result<Self, WireError>)
        ensures
            match request {
                Ok(r) => request_of(
                    MessageModel {
                        service,
                        client: client_id,
                        transaction,
                        message: message_id,
                        payload: payload@,
                    },
                ) == Ok::<MessageModel, WireError>(r@) && r@.well_formed(),
                Err(e) => request_of(
                    MessageModel {
                        service,
                        client: client_id,
                        transaction,
                        message: message_id,
                        payload: payload@,
                    },
                ) == Err::<MessageModel, WireError>(e),
            },
    {
        match validate_address(service, client_id) {
            Ok(_) => {},
            Err(e) => return Err(e),
        }
        match validate_transaction(service, transaction) {
            Ok(_) => {},
            Err(e) => return Err(e),
        }
        match validate_payload_length(service, payload.len()) {
            Ok(_) => {},
            Err(e) => return Err(e),
        }
        match decode_tlvs(&payload) {
            Ok(_) => {},
            Err(e) => return Err(e),
        }
        Ok(QmiRequest { service, client_id, transaction, message_id, payload })
    }

    pub fn from_tlvs(
        service: ServiceId,
        client_id: ClientId,
        transaction: TransactionId,
        message_id: MessageId,
        tlvs: &[Tlv],
    ) -> (request: Result<Self, WireError>)
        ensures
            match request {
                Ok(r) => request_of_tlvs(
                    service,
                    client_id,
                    transaction,
                    message_id,
                    tlv_models(tlvs@),
                ) == Ok::<MessageModel, WireError>(r@) && r@.well_formed(),
                Err(e) => request_of_tlvs(
                    service,
                    client_id,
                    transaction,
                    message_id,
                    tlv_models(tlvs@),
                ) == Err::<MessageModel, WireError>(e),
            },
    {
        match encode_tlvs(tlvs) {
            Ok(payload) => QmiRequest::new(service, client_id, transaction, message_id, payload),
            Err(e) => Err(e),
        }
    }

    pub fn service(&self) -> (service: ServiceId)
        ensures
            service == self@.service,
    {
        self.service
    }

    pub fn client_id(&self) -> (client: ClientId)
        ensures
            client == self@.client,
    {
        self.client_id
    }

    pub fn transaction(&self) -> (transaction: TransactionId)
        ensures
            transaction == self@.transaction,
    {
        self.transaction
    }

    pub fn message_id(&self) -> (message: MessageId)
        ensures
            message == self@.message,
    {
        self.message_id
    }

    pub fn payload(&self) -> (payload: &[u8])
        ensures
            payload@ == self@.payload,
    {
        &self.payload
    }

    /// The TLVs of this request; a request always has a readable payload.
    pub fn tlvs(&self) -> (tlvs: Result<Vec<Tlv>, WireError>)
        ensures
            tlvs matches Ok(list) && tlv_models(list@) == self@.tlvs(),
            self@.well_formed(),
    {
        proof {
            use_type_invariant(self);
        }
        decode_tlvs(&self.payload)
    }

    pub fn transaction_key(&self) -> (key: TransactionKey)
        ensures
            key == self@.key(),
    {
        TransactionKey {
            service: self.service,
            client_id: self.client_id,
            transaction: self.transaction,
        }
    }

    /// Serializes this request into one complete QMUX frame.
    pub fn encode(&self) -> (frame: Vec<u8>)
        ensures
            frame@ == request_frame(self@),
            frame@.len() <= 0x10000,
    {
        proof {
            use_type_invariant(self);
        }
        let qmux_length: usize = 5 + qmi_header_length(self.service) + self.payload.len();
        let mut frame: Vec<u8> = Vec::with_capacity(qmux_length + 1);
        frame.push(QMUX_INTERFACE_TYPE);
        push_le16(&mut frame, qmux_length as u16);
        frame.push(QMUX_REQUEST_FLAG);
        frame.push(self.service.as_u8());
        frame.push(self.client_id.as_u8());
        frame.push(request_kind(self.service));
        if self.service.is_control() {
            frame.push(self.transaction.as_u16() as u8);
        } else {
            push_le16(&mut frame, self.transaction.as_u16());
        }
        push_le16(&mut frame, self.message_id.as_u16());
        push_le16(&mut frame, self.payload.len() as u16);
        push_all(&mut frame, &self.payload);
        proof {
            assert(frame@ =~= request_frame(self@));
        }
        frame
    }
}

// ---------------------------------------------------------------------------
// Responses
// ---------------------------------------------------------------------------

/// The response that one frame holds, or the first fault in it.
pub open spec fn response_in(frame: Seq<u8>) -> Result<MessageModel, WireError> {
    match qmux_response_in(frame) {
        Err(e) => Err(e),
        Ok((service, client)) => match sdu_in(service, frame.skip(6)) {
            Err(e) => Err(e),
            Ok((transaction, message, payload)) => match tlvs_in(payload) {
                Err(e) => Err(e),
                Ok(_) => Ok(MessageModel { service, client, transaction, message, payload }),
            },
        },
    }
}

/// The QMUX header: interface type, exact length, direction, address.
pub open spec fn qmux_response_in(frame: Seq<u8>) -> Result<(ServiceId, ClientId), WireError> {
    if frame.len() < 6 {
        Err(WireError::FrameTooShort { actual: frame.len() as usize, minimum: 6 })
    } else if frame[0] != 0x01 {
        Err(WireError::InvalidInterfaceType { actual: frame[0] })
    } else if le16(frame[1], frame[2]) + 1 != frame.len() {
        Err(
            WireError::QmuxLengthMismatch {
                declared: (le16(frame[1], frame[2]) + 1) as usize,
                actual: frame.len() as usize,
            },
        )
    } else if frame[3] != 0x80 {
        Err(WireError::UnexpectedQmuxControlFlag { actual: frame[3], expected: 0x80 })
    } else {
        match address_fault(ServiceId(frame[4]), ClientId(frame[5])) {
            Some(e) => Err(e),
            None => Ok((ServiceId(frame[4]), ClientId(frame[5]))),
        }
    }
}

/// The QMI header behind it: kind, transaction, message, exact length.
pub open spec fn sdu_in(service: ServiceId, sdu: Seq<u8>) -> Result<
    (TransactionId, MessageId, Seq<u8>),
    WireError,
> {
    let n = header_length(service) as int;
    if sdu.len() < n {
        Err(WireError::FrameTooShort { actual: sdu.len() as usize, minimum: n as usize })
    } else if sdu[0] != response_kind_of(service) {
        Err(
            WireError::UnexpectedMessageKind {
                service,
                actual: sdu[0],
                expected: response_kind_of(service),
            },
        )
    } else if le16(sdu[n - 2], sdu[n - 1]) != sdu.len() - n {
        Err(
            WireError::PayloadLengthMismatch {
                declared: le16(sdu[n - 2], sdu[n - 1]) as usize,
                actual: (sdu.len() - n) as usize,
            },
        )
    } else {
        Ok(
            (
                TransactionId(
                    if service == ServiceId(0) {
                        sdu[1] as u16
                    } else {
                        le16(sdu[1], sdu[2])
                    },
                ),
                MessageId(le16(sdu[n - 4], sdu[n - 3])),
                sdu.skip(n),
            ),
        )
    }
}

/// The frame of a response.
pub open spec fn response_frame(m: MessageModel) -> Seq<u8> {
    seq![0x01u8] + le16_octets((5 + header_length(m.service) + m.payload.len()) as u16) + seq![
        0x80u8,
        m.service.0,
        m.client.0,
        response_kind_of(m.service),
    ] + (if m.service == ServiceId(0) {
        seq![m.transaction.0 as u8]
    } else {
        le16_octets(m.transaction.0)
    }) + le16_octets(m.message.0) + le16_octets(m.payload.len() as u16) + m.payload
}

/// A frame that a well-formed response is written as decodes to it.
pub proof fn law_response_round_trip(m: MessageModel)
    requires
        m.well_formed(),
    ensures
        response_in(response_frame(m)) == Ok::<MessageModel, WireError>(m),
{
    let frame = response_frame(m);
    let n = header_length(m.service) as int;
    let total = (5 + n + m.payload.len()) as u16;
    assert(frame.len() == 6 + n + m.payload.len());
    assert(frame[1] == le16_octets(total)[0]);
    assert(frame[2] == le16_octets(total)[1]);
    assert(le16(frame[1], frame[2]) == total);
    assert(frame[3] == 0x80 && frame[4] == m.service.0 && frame[5] == m.client.0);
    let sdu = frame.skip(6);
    let len = m.payload.len() as u16;
    assert(sdu[0] == response_kind_of(m.service));
    assert(sdu[n - 2] == le16_octets(len)[0]);
    assert(sdu[n - 1] == le16_octets(len)[1]);
    assert(sdu[n - 4] == le16_octets(m.message.0)[0]);
    assert(sdu[n - 3] == le16_octets(m.message.0)[1]);
    if m.service == ServiceId(0) {
        assert(sdu[1] == m.transaction.0 as u8);
    } else {
        assert(sdu[1] == le16_octets(m.transaction.0)[0]);
        assert(sdu[2] == le16_octets(m.transaction.0)[1]);
    }
    assert(sdu.skip(n) =~= m.payload);
}

/// Bytes that follow a complete frame make the whole unreadable, so two
/// frames read as one are never taken for a response: the length that the frame
/// declares is named beside the one there is.
pub proof fn law_trailing_bytes_are_refused(frame: Seq<u8>, extra: Seq<u8>)
    requires
        response_in(frame) is Ok,
        extra.len() > 0,
    ensures
        response_in(frame + extra) == Err::<MessageModel, WireError>(
            WireError::QmuxLengthMismatch {
                declared: frame.len() as usize,
                actual: (frame.len() + extra.len()) as usize,
            },
        ),
{
    let whole = frame + extra;
    assert(whole[0] == frame[0] && whole[1] == frame[1] && whole[2] == frame[2]);
}

/// A decoded QMI response. The constructor has already checked all wire sizes,
/// message directions, address rules, and TLV boundaries.
#[derive(Debug, PartialEq, Eq)]
pub struct QmiResponse {
    service: ServiceId,
    client_id: ClientId,
    transaction: TransactionId,
    message_id: MessageId,
    payload: Vec<u8>,
}

impl View for QmiResponse {
    type V = MessageModel;

    closed spec fn view(&self) -> MessageModel {
        MessageModel {
            service: self.service,
            client: self.client_id,
            transaction: self.transaction,
            message: self.message_id,
            payload: self.payload@,
        }
    }
}

impl Clone for QmiResponse {
    fn clone(&self) -> (copy: Self)
        ensures
            copy@ == self@,
    {
        proof {
            use_type_invariant(self);
        }
        let payload: Vec<u8> = copy_of(&self.payload);
        QmiResponse {
            service: self.service,
            client_id: self.client_id,
            transaction: self.transaction,
            message_id: self.message_id,
            payload,
        }
    }
}

impl QmiResponse {
    #[verifier::type_invariant]
    spec fn checked(self) -> bool {
        self@.well_formed()
    }

    /// Decodes exactly one QMUX response frame. Concatenated and trailing data
    /// are rejected so a transport cannot accidentally correlate bytes from a
    /// later frame.
    pub fn decode(frame: &[u8]) -> (response: Result<Self, WireError>)
        ensures
            match response {
                Ok(r) => response_in(frame@) == Ok::<MessageModel, WireError>(r@)
                    && r@.well_formed(),
                Err(e) => response_in(frame@) == Err::<MessageModel, WireError>(e),
            },
    {
        let (service, client_id) = match decode_qmux_response(frame) {
            Ok(address) => address,
            Err(e) => return Err(e),
        };
        let sdu: &[u8] = &frame[QMUX_HEADER_LENGTH..frame.len()];
        proof {
            assert(sdu@ =~= frame@.skip(6));
        }
        let (transaction, message_id, payload) = match decode_response_sdu(service, sdu) {
            Ok(parts) => parts,
            Err(e) => return Err(e),
        };
        match decode_tlvs(payload) {
            Ok(_) => {},
            Err(e) => return Err(e),
        }
        let payload: Vec<u8> = copy_of(payload);
        Ok(QmiResponse { service, client_id, transaction, message_id, payload })
    }

    pub fn service(&self) -> (service: ServiceId)
        ensures
            service == self@.service,
    {
        self.service
    }

    pub fn client_id(&self) -> (client: ClientId)
        ensures
            client == self@.client,
    {
        self.client_id
    }

    pub fn transaction(&self) -> (transaction: TransactionId)
        ensures
            transaction == self@.transaction,
    {
        self.transaction
    }

    pub fn message_id(&self) -> (message: MessageId)
        ensures
            message == self@.message,
    {
        self.message_id
    }

    pub fn payload(&self) -> (payload: &[u8])
        ensures
            payload@ == self@.payload,
    {
        &self.payload
    }

    /// The TLVs of this response; a response always has a readable payload.
    pub fn tlvs(&self) -> (tlvs: Result<Vec<Tlv>, WireError>)
        ensures
            tlvs matches Ok(list) && tlv_models(list@) == self@.tlvs(),
            self@.well_formed(),
    {
        proof {
            use_type_invariant(self);
        }
        decode_tlvs(&self.payload)
    }

    pub fn transaction_key(&self) -> (key: TransactionKey)
        ensures
            key == self@.key(),
    {
        TransactionKey {
            service: self.service,
            client_id: self.client_id,
            transaction: self.transaction,
        }
    }
}

fn decode_qmux_response(frame: &[u8]) -> (address: Result<(ServiceId, ClientId), WireError>)
    ensures
        address == qmux_response_in(frame@),
        address is Ok ==> frame@.len() >= 6,
{
    if frame.len() < QMUX_HEADER_LENGTH {
        return Err(
            WireError::FrameTooShort { actual: frame.len(), minimum: QMUX_HEADER_LENGTH },
        );
    }
    if frame[0] != QMUX_INTERFACE_TYPE {
        return Err(WireError::InvalidInterfaceType { actual: frame[0] });
    }
    let declared: usize = read_le16(frame[1], frame[2]) as usize + 1;
    if declared != frame.len() {
        return Err(WireError::QmuxLengthMismatch { declared, actual: frame.len() });
    }
    if frame[3] != QMUX_RESPONSE_FLAG {
        return Err(
            WireError::UnexpectedQmuxControlFlag {
                actual: frame[3],
                expected: QMUX_RESPONSE_FLAG,
            },
        );
    }
    let service: ServiceId = ServiceId::new(frame[4]);
    let client_id: ClientId = ClientId(frame[5]);
    match validate_address(service, client_id) {
        Ok(_) => Ok((service, client_id)),
        Err(e) => Err(e),
    }
}

fn decode_response_sdu<'a>(service: ServiceId, sdu: &'a [u8]) -> (parts: Result<
    (TransactionId, MessageId, &'a [u8]),
    WireError,
>)
    ensures
        match parts {
            Ok((t, m, p)) => sdu_in(service, sdu@) == Ok::<
                (TransactionId, MessageId, Seq<u8>),
                WireError,
            >((t, m, p@)) && transaction_fault(service, t) is None && p@.len() <= 0xffff && p@.len()
                + header_length(service) == sdu@.len(),
            Err(e) => sdu_in(service, sdu@) == Err::<(TransactionId, MessageId, Seq<u8>), WireError>(
                e,
            ),
        },
{
    let length: usize = qmi_header_length(service);
    if sdu.len() < length {
        return Err(WireError::FrameTooShort { actual: sdu.len(), minimum: length });
    }
    let expected: u8 = response_kind(service);
    if sdu[0] != expected {
        return Err(WireError::UnexpectedMessageKind { service, actual: sdu[0], expected });
    }
    let transaction: TransactionId = if service.is_control() {
        TransactionId::new(sdu[1] as u16)
    } else {
        TransactionId::new(read_le16(sdu[1], sdu[2]))
    };
    let message_id: MessageId = MessageId::new(read_le16(sdu[length - 4], sdu[length - 3]));
    let declared: usize = read_le16(sdu[length - 2], sdu[length - 1]) as usize;
    let payload: &'a [u8] = &sdu[length..sdu.len()];
    proof {
        assert(payload@ =~= sdu@.skip(length as int));
    }
    if declared != payload.len() {
        return Err(WireError::PayloadLengthMismatch { declared, actual: payload.len() });
    }
    Ok((transaction, message_id, payload))
}

// ---------------------------------------------------------------------------
// Transactions
// ---------------------------------------------------------------------------

/// The fields that identify one in-flight QMI transaction.
#[derive(Clone, Copy, Debug, PartialEq, Eq, Hash, Structural)]
pub struct TransactionKey {
    pub service: ServiceId,
    pub client_id: ClientId,
    pub transaction: TransactionId,
}

impl TransactionKey {
    pub open spec fn text(self) -> Seq<char> {
        "service "@ + self.service.text() + " client "@ + self.client_id.text() + " transaction "@
            + self.transaction.text()
    }

    pub fn push_to(&self, out: &mut String)
        ensures
            final(out)@ == old(out)@ + self.text(),
    {
        out.append("service ");
        self.service.push_to(out);
        out.append(" client ");
        self.client_id.push_to(out);
        out.append(" transaction ");
        self.transaction.push_to(out);
        proof {
            assert(out@ =~= old(out)@ + self.text());
        }
    }

    pub fn to_string(&self) -> (text: String)
        ensures
            text@ == self.text(),
    {
        let mut text: String = String::new();
        self.push_to(&mut text);
        proof {
            assert(text@ =~= self.text());
        }
        text
    }

    /// The key packed into one number.
    spec fn code_of(self) -> u32 {
        (self.service.0 * 16777216 + self.client_id.0 * 65536 + self.transaction.0) as u32
    }

    fn code(self) -> (code: u32)
        ensures
            code == self.code_of(),
    {
        self.service.0 as u32 * 16777216 + self.client_id.0 as u32 * 65536
            + self.transaction.0 as u32
    }

    /// The key that a packed number stands for.
    spec fn from_code(code: u32) -> TransactionKey {
        TransactionKey {
            service: ServiceId((code / 16777216) as u8),
            client_id: ClientId((code / 65536 % 256) as u8),
            transaction: TransactionId((code % 65536) as u16),
        }
    }

    proof fn lemma_code(self)
        ensures
            TransactionKey::from_code(self.code_of()) == self,
    {
    }

    proof fn lemma_from_code(code: u32)
        ensures
            TransactionKey::from_code(code).code_of() == code,
    {
        assert(code / 65536 / 256 == code / 16777216);
    }
}

/// The result of matching one response to a registered request.
#[derive(Clone, Copy, Debug, PartialEq, Eq, Structural)]
pub struct MatchedTransaction {
    pub key: TransactionKey,
    pub message_id: MessageId,
}

/// Tracks in-flight requests without selecting a transport or timeout policy.
pub struct PendingTransactions {
    pending: HashMap<u32, MessageId>,
}

impl View for PendingTransactions {
    type V = Map<TransactionKey, MessageId>;

    closed spec fn view(&self) -> Map<TransactionKey, MessageId> {
        Map::new(
            |key: TransactionKey| self.pending@.contains_key(key.code_of()),
            |key: TransactionKey| self.pending@[key.code_of()],
        )
    }
}

impl Default for PendingTransactions {
    fn default() -> (pending: Self)
        ensures
            pending@ == Map::<TransactionKey, MessageId>::empty(),
    {
        let pending: PendingTransactions = PendingTransactions { pending: HashMap::new() };
        proof {
            assert(pending@ =~= Map::<TransactionKey, MessageId>::empty());
        }
        pending
    }
}

/// How a response answers the pending transactions.
pub open spec fn matched(
    pending: Map<TransactionKey, MessageId>,
    response: MessageModel,
) -> Result<MatchedTransaction, CorrelationError> {
    let key = response.key();
    if !pending.contains_key(key) {
        Err(CorrelationError::UnmatchedResponse(key))
    } else if pending[key] != response.message {
        Err(
            CorrelationError::MessageMismatch {
                key,
                expected: pending[key],
                actual: response.message,
            },
        )
    } else {
        Ok(MatchedTransaction { key, message_id: response.message })
    }
}

impl PendingTransactions {
    proof fn lemma_insert(before: &Self, after: &Self, key: TransactionKey, message: MessageId)
        requires
            after.pending@ == before.pending@.insert(key.code_of(), message),
        ensures
            after@ == before@.insert(key, message),
    {
        assert forall|other: TransactionKey| other != key implies other.code_of()
            != key.code_of() by {
            other.lemma_code();
            key.lemma_code();
        }
        assert(after@ =~= before@.insert(key, message));
    }

    proof fn lemma_remove(before: &Self, after: &Self, key: TransactionKey)
        requires
            after.pending@ == before.pending@.remove(key.code_of()),
        ensures
            after@ == before@.remove(key),
    {
        assert forall|other: TransactionKey| other != key implies other.code_of()
            != key.code_of() by {
            other.lemma_code();
            key.lemma_code();
        }
        assert(after@ =~= before@.remove(key));
    }

    /// Registers a request. A QMI transaction ID cannot be reused for the same
    /// service/client pair until its prior request is resolved or discarded.
    pub fn register(&mut self, request: &QmiRequest) -> (key: Result<
        TransactionKey,
        CorrelationError,
    >)
        ensures
            match key {
                Ok(k) => k == request@.key() && !old(self)@.contains_key(k) && final(self)@ == old(
                    self,
                )@.insert(k, request@.message),
                Err(e) => old(self)@.contains_key(request@.key()) && e
                    == CorrelationError::DuplicateTransaction(request@.key()) && final(self)@
                    == old(self)@,
            },
    {
        let key: TransactionKey = request.transaction_key();
        let code: u32 = key.code();
        if self.pending.contains_key(&code) {
            return Err(CorrelationError::DuplicateTransaction(key));
        }
        let ghost before = *self;
        self.pending.insert(code, request.message_id());
        proof {
            PendingTransactions::lemma_insert(&before, self, key, request@.message);
        }
        Ok(key)
    }

    /// Matches a response by service, client, and transaction, then verifies
    /// that its message ID is the one registered for that transaction. Only a
    /// match takes the transaction out.
    pub fn resolve(&mut self, response: &QmiResponse) -> (outcome: Result<
        MatchedTransaction,
        CorrelationError,
    >)
        ensures
            outcome == matched(old(self)@, response@),
            final(self)@ == (if outcome is Ok {
                old(self)@.remove(response@.key())
            } else {
                old(self)@
            }),
    {
        let key: TransactionKey = response.transaction_key();
        let code: u32 = key.code();
        let expected: MessageId = match self.pending.get(&code) {
            Some(message) => *message,
            None => return Err(CorrelationError::UnmatchedResponse(key)),
        };
        if expected != response.message_id() {
            return Err(
                CorrelationError::MessageMismatch { key, expected, actual: response.message_id() },
            );
        }
        let ghost before = *self;
        self.pending.remove(&code);
        proof {
            PendingTransactions::lemma_remove(&before, self, key);
        }
        Ok(MatchedTransaction { key, message_id: expected })
    }

    pub fn discard(&mut self, key: TransactionKey) -> (message: Option<MessageId>)
        ensures
            message == (if old(self)@.contains_key(key) {
                Some(old(self)@[key])
            } else {
                None
            }),
            final(self)@ == old(self)@.remove(key),
    {
        let code: u32 = key.code();
        let ghost before = *self;
        let message: Option<MessageId> = self.pending.remove(&code);
        proof {
            PendingTransactions::lemma_remove(&before, self, key);
        }
        message
    }

    pub fn len(&self) -> (count: usize)
        ensures
            self@.dom().finite(),
            count == self@.dom().len(),
    {
        proof {
            let f = |code: u32| TransactionKey::from_code(code);
            let codes = self.pending@.dom();
            assert forall|a: u32, b: u32|
                codes.contains(a) && codes.contains(b) && #[trigger] f(a) == #[trigger] f(
                    b,
                ) implies a == b by {
                TransactionKey::lemma_from_code(a);
                TransactionKey::lemma_from_code(b);
            }
            assert forall|key: TransactionKey| codes.map(f).contains(key) <==> #[trigger] self@.dom().contains(key) by {
                key.lemma_code();
                if codes.map(f).contains(key) {
                    let code = choose|code: u32| codes.contains(code) && key == f(code);
                    TransactionKey::lemma_from_code(code);
                }
                if self@.dom().contains(key) {
                    assert(f(key.code_of()) == key);
                }
            }
            assert(codes.map(f) =~= self@.dom());
            vstd::set_lib::lemma_map_size(codes, self@.dom(), f);
        }
        self.pending.len()
    }

    pub fn is_empty(&self) -> (empty: bool)
        ensures
            empty == (self@ == Map::<TransactionKey, MessageId>::empty()),
    {
        let empty: bool = self.pending.len() == 0;
        proof {
            if empty {
                assert(self.pending@.dom() =~= Set::empty());
                assert(self@ =~= Map::<TransactionKey, MessageId>::empty());
            } else {
                let code = self.pending@.dom().choose();
                assert(self.pending@.dom().contains(code));
                TransactionKey::lemma_from_code(code);
                assert(self@.contains_key(TransactionKey::from_code(code)));
            }
        }
        empty
    }
}

/// A response to a registered request is matched and leaves nothing of the
/// request behind.
pub proof fn law_registered_request_resolves(
    pending: Map<TransactionKey, MessageId>,
    request: MessageModel,
    response: MessageModel,
)
    requires
        !pending.contains_key(request.key()),
        response.key() == request.key(),
        response.message == request.message,
    ensures
        matched(pending.insert(request.key(), request.message), response) == Ok::<
            MatchedTransaction,
            CorrelationError,
        >(MatchedTransaction { key: request.key(), message_id: request.message }),
        pending.insert(request.key(), request.message).remove(response.key()) == pending,
{
    assert(pending.insert(request.key(), request.message).remove(response.key()) =~= pending);
}

// ---------------------------------------------------------------------------
// Client allocation
// ---------------------------------------------------------------------------

/// The CTL message that asks a modem to allocate a service client ID.
#[derive(Clone, Copy, Debug, PartialEq, Eq, Structural)]
pub struct ClientAllocationRequest {
    service: ServiceId,
    transaction: TransactionId,
}

/// The request that asks for a client of `service`.
pub open spec fn allocation_request(
    service: ServiceId,
    transaction: TransactionId,
) -> MessageModel {
    MessageModel {
        service: ServiceId(0),
        client: ClientId(0),
        transaction,
        message: MessageId(GET_CLIENT_ID),
        payload: tlvs_octets(seq![TlvModel { kind: 0x01, value: seq![service.0] }]),
    }
}

/// What a response to an allocation request means.
pub open spec fn allocation_in(
    service: ServiceId,
    transaction: TransactionId,
    response: MessageModel,
) -> Result<ClientAssignment, AllocationError> {
    if response.service != ServiceId(0) || response.client != ClientId(0) || response.transaction
        != transaction || response.message != MessageId(GET_CLIENT_ID) {
        Err(
            AllocationError::UnexpectedResponse {
                expected_transaction: transaction,
                actual_service: response.service,
                actual_client: response.client,
                actual_transaction: response.transaction,
                actual_message: response.message,
            },
        )
    } else {
        match only_tlv(response.tlvs(), 0x02) {
            Err(e) => Err(allocation_lookup(e)),
            Ok(result) => if result.len() != 4 {
                Err(AllocationError::MalformedResultCode { actual: result.len() as usize })
            } else if le16(result[0], result[1]) != 0 {
                Err(
                    AllocationError::ModemRejected {
                        result: le16(result[0], result[1]),
                        error: le16(result[2], result[3]),
                    },
                )
            } else if le16(result[2], result[3]) != 0 {
                Err(AllocationError::SuccessWithErrorCode { error: le16(result[2], result[3]) })
            } else {
                match only_tlv(response.tlvs(), 0x01) {
                    Err(e) => Err(allocation_lookup(e)),
                    Ok(pair) => if pair.len() != 2 {
                        Err(AllocationError::MalformedAllocation { actual: pair.len() as usize })
                    } else if ServiceId(pair[0]) != service {
                        Err(
                            AllocationError::ServiceMismatch {
                                expected: service,
                                actual: ServiceId(pair[0]),
                            },
                        )
                    } else {
                        match allocated_client(pair[1]) {
                            Err(e) => Err(AllocationError::Wire(e)),
                            Ok(client_id) => Ok(ClientAssignment { service, client_id }),
                        }
                    },
                }
            },
        }
    }
}

/// A lookup failure as the allocation exchange reports it.
pub open spec fn allocation_lookup(error: TlvLookupError) -> AllocationError {
    match error {
        TlvLookupError::Missing { kind } => AllocationError::MissingTlv { kind },
        TlvLookupError::Duplicate { kind } => AllocationError::DuplicateTlv { kind },
    }
}

impl ClientAllocationRequest {
    pub closed spec fn service_of(self) -> ServiceId {
        self.service
    }

    pub closed spec fn transaction_of(self) -> TransactionId {
        self.transaction
    }

    #[verifier::type_invariant]
    spec fn checked(self) -> bool {
        self.service != ServiceId(0) && self.transaction.0 <= 0xff
    }

    pub fn new(service: ServiceId, transaction: TransactionId) -> (request: Result<
        Self,
        AllocationError,
    >)
        ensures
            match request {
                Ok(r) => service != ServiceId(0) && transaction.0 <= 0xff && r.service_of()
                    == service && r.transaction_of() == transaction,
                Err(e) => if service == ServiceId(0) {
                    e == AllocationError::ControlServiceCannotBeAllocated
                } else {
                    transaction.0 > 0xff && e == AllocationError::Wire(
                        WireError::ControlTransactionOutOfRange { transaction },
                    )
                },
            },
    {
        if service.is_control() {
            return Err(AllocationError::ControlServiceCannotBeAllocated);
        }
        match validate_transaction(ServiceId::control(), transaction) {
            Ok(_) => Ok(ClientAllocationRequest { service, transaction }),
            Err(e) => Err(AllocationError::Wire(e)),
        }
    }

    pub fn service(&self) -> (service: ServiceId)
        ensures
            service == self.service_of(),
    {
        self.service
    }

    pub fn transaction(&self) -> (transaction: TransactionId)
        ensures
            transaction == self.transaction_of(),
    {
        self.transaction
    }

    /// Produces `QMICTL_GET_CLIENT_ID` with TLV `0x01 = requested service`.
    pub fn to_qmi_request(&self) -> (request: Result<QmiRequest, AllocationError>)
        ensures
            request matches Ok(r) && r@ == allocation_request(
                self.service_of(),
                self.transaction_of(),
            ) && r@.well_formed(),
    {
        proof {
            use_type_invariant(self);
            let tlv = TlvModel { kind: 0x01, value: seq![self.service.0] };
            lemma_one_tlv(tlv);
            lemma_short_tlvs_encode(seq![tlv]);
        }
        let mut value: Vec<u8> = Vec::new();
        value.push(self.service.as_u8());
        let mut tlvs: Vec<Tlv> = Vec::new();
        tlvs.push(Tlv { kind: 0x01, value });
        proof {
            assert(value@ =~= seq![self.service.0]);
            assert(
                tlv_models(tlvs@) =~= seq![TlvModel { kind: 0x01, value: seq![self.service.0] }]
            );
        }
        match QmiRequest::from_tlvs(
            ServiceId::control(),
            ClientId::control(),
            self.transaction,
            MessageId::new(GET_CLIENT_ID),
            &tlvs,
        ) {
            Ok(request) => Ok(request),
            Err(e) => Err(AllocationError::Wire(e)),
        }
    }

    /// Validates the correlated CTL response and extracts the allocated client.
    pub fn accept(&self, response: &QmiResponse) -> (assignment: Result<
        ClientAssignment,
        AllocationError,
    >)
        ensures
            assignment == allocation_in(self.service_of(), self.transaction_of(), response@),
    {
        if response.service() != ServiceId::control() || response.client_id() != ClientId::control()
            || response.transaction() != self.transaction || response.message_id()
            != MessageId::new(GET_CLIENT_ID) {
            return Err(
                AllocationError::UnexpectedResponse {
                    expected_transaction: self.transaction,
                    actual_service: response.service(),
                    actual_client: response.client_id(),
                    actual_transaction: response.transaction(),
                    actual_message: response.message_id(),
                },
            );
        }
        let tlvs: Vec<Tlv> = match response.tlvs() {
            Ok(tlvs) => tlvs,
            Err(e) => return Err(AllocationError::Wire(e)),
        };
        let result: &Tlv = match required_tlv(&tlvs, 0x02) {
            Ok(tlv) => tlv,
            Err(e) => return Err(e),
        };
        if result.value.len() != 4 {
            return Err(AllocationError::MalformedResultCode { actual: result.value.len() });
        }
        let result_code: u16 = read_le16(result.value[0], result.value[1]);
        let error_code: u16 = read_le16(result.value[2], result.value[3]);
        if result_code != 0 {
            return Err(AllocationError::ModemRejected { result: result_code, error: error_code });
        }
        if error_code != 0 {
            return Err(AllocationError::SuccessWithErrorCode { error: error_code });
        }
        let allocation: &Tlv = match required_tlv(&tlvs, 0x01) {
            Ok(tlv) => tlv,
            Err(e) => return Err(e),
        };
        if allocation.value.len() != 2 {
            return Err(AllocationError::MalformedAllocation { actual: allocation.value.len() });
        }
        let actual: ServiceId = ServiceId::new(allocation.value[0]);
        if actual != self.service {
            return Err(AllocationError::ServiceMismatch { expected: self.service, actual });
        }
        match ClientId::allocated(allocation.value[1]) {
            Ok(client_id) => Ok(ClientAssignment { service: self.service, client_id }),
            Err(e) => Err(AllocationError::Wire(e)),
        }
    }
}

/// A list of one TLV is written as that TLV.
pub proof fn lemma_one_tlv(tlv: TlvModel)
    ensures
        tlvs_octets(seq![tlv]) == tlv_octets(tlv),
        tlvs_octets(seq![tlv]).len() == 3 + tlv.value.len(),
{
    assert(seq![tlv].drop_last() =~= Seq::<TlvModel>::empty());
    assert(tlvs_octets(Seq::<TlvModel>::empty()) =~= Seq::<u8>::empty());
    assert(tlvs_octets(seq![tlv]) =~= tlv_octets(tlv));
}

/// A few short TLVs always encode.
pub proof fn lemma_short_tlvs_encode(tlvs: Seq<TlvModel>)
    requires
        tlvs_fit(tlvs),
        tlvs_octets(tlvs).len() <= usize::MAX,
    ensures
        encoded_tlvs(tlvs) == Ok::<Seq<u8>, WireError>(tlvs_octets(tlvs)),
        tlvs_in(tlvs_octets(tlvs)) == Ok::<Seq<TlvModel>, WireError>(tlvs),
{
    lemma_not_oversized(tlvs, 0, 0);
    law_tlvs_round_trip(tlvs);
}

proof fn lemma_not_oversized(tlvs: Seq<TlvModel>, from: int, length: int)
    requires
        tlvs_fit(tlvs),
        0 <= from <= tlvs.len(),
        length == tlvs_octets(tlvs.take(from)).len(),
        tlvs_octets(tlvs).len() <= usize::MAX,
    ensures
        oversized_at(tlvs, from, length) is None,
    decreases tlvs.len() - from,
{
    if from < tlvs.len() {
        lemma_octets_grow(tlvs, from + 1);
        assert(tlvs.take(from + 1).drop_last() =~= tlvs.take(from));
        assert(tlvs[from].value.len() <= 0xffff);
        lemma_not_oversized(tlvs, from + 1, length + 3 + tlvs[from].value.len());
    }
}

proof fn lemma_octets_grow(tlvs: Seq<TlvModel>, n: int)
    requires
        0 <= n <= tlvs.len(),
    ensures
        tlvs_octets(tlvs.take(n)).len() <= tlvs_octets(tlvs).len(),
    decreases tlvs.len() - n,
{
    if n < tlvs.len() {
        lemma_octets_grow(tlvs, n + 1);
        assert(tlvs.take(n + 1).drop_last() =~= tlvs.take(n));
    } else {
        assert(tlvs.take(n) =~= tlvs);
    }
}

fn required_tlv<'a>(tlvs: &'a [Tlv], kind: u8) -> (found: Result<&'a Tlv, AllocationError>)
    ensures
        match found {
            Ok(tlv) => only_tlv(tlv_models(tlvs@), kind) == Ok::<Seq<u8>, TlvLookupError>(
                tlv.value@,
            ),
            Err(e) => only_tlv(tlv_models(tlvs@), kind) matches Err(lookup) && e
                == allocation_lookup(lookup),
        },
{
    match unique_tlv(tlvs, kind) {
        Ok(tlv) => Ok(tlv),
        Err(TlvLookupError::Missing { kind }) => Err(AllocationError::MissingTlv { kind }),
        Err(TlvLookupError::Duplicate { kind }) => Err(AllocationError::DuplicateTlv { kind }),
    }
}

/// A modem-issued service/client pair that can be used for service requests.
#[derive(Clone, Copy, Debug, PartialEq, Eq, Structural)]
pub struct ClientAssignment {
    pub service: ServiceId,
    pub client_id: ClientId,
}

/// The request that gives a client back.
pub open spec fn release_message(
    assignment: ClientAssignment,
    transaction: TransactionId,
) -> MessageModel {
    MessageModel {
        service: ServiceId(0),
        client: ClientId(0),
        transaction,
        message: MessageId(RELEASE_CLIENT_ID),
        payload: tlvs_octets(
            seq![
                TlvModel { kind: 0x01, value: seq![assignment.service.0, assignment.client_id.0] },
            ],
        ),
    }
}

impl ClientAssignment {
    pub fn new(service: ServiceId, client_id: ClientId) -> (assignment: Result<Self, WireError>)
        ensures
            assignment == (if service == ServiceId(0) {
                Err::<ClientAssignment, WireError>(WireError::ControlServiceCannotHaveAssignment)
            } else {
                match address_fault(service, client_id) {
                    Some(e) => Err(e),
                    None => Ok(ClientAssignment { service, client_id }),
                }
            }),
    {
        if service.is_control() {
            return Err(WireError::ControlServiceCannotHaveAssignment);
        }
        match validate_address(service, client_id) {
            Ok(_) => Ok(ClientAssignment { service, client_id }),
            Err(e) => Err(e),
        }
    }

    pub fn service(&self) -> (service: ServiceId)
        ensures
            service == self.service,
    {
        self.service
    }

    pub fn client_id(&self) -> (client: ClientId)
        ensures
            client == self.client_id,
    {
        self.client_id
    }

    /// Produces `QMICTL_RELEASE_CLIENT_ID` for this assignment.
    pub fn release_request(&self, transaction: TransactionId) -> (request: Result<
        QmiRequest,
        WireError,
    >)
        ensures
            match request {
                Ok(r) => transaction.0 <= 0xff && r@ == release_message(*self, transaction),
                Err(e) => transaction.0 > 0xff && e == (WireError::ControlTransactionOutOfRange {
                    transaction,
                }),
            },
    {
        match validate_transaction(ServiceId::control(), transaction) {
            Ok(_) => {},
            Err(e) => return Err(e),
        }
        let mut value: Vec<u8> = Vec::new();
        value.push(self.service.as_u8());
        value.push(self.client_id.as_u8());
        let mut tlvs: Vec<Tlv> = Vec::new();
        tlvs.push(Tlv { kind: 0x01, value });
        proof {
            let model = TlvModel { kind: 0x01, value: seq![self.service.0, self.client_id.0] };
            assert(value@ =~= model.value);
            assert(tlv_models(tlvs@) =~= seq![model]);
            lemma_one_tlv(model);
            lemma_short_tlvs_encode(seq![model]);
        }
        QmiRequest::from_tlvs(
            ServiceId::control(),
            ClientId::control(),
            transaction,
            MessageId::new(RELEASE_CLIENT_ID),
            &tlvs,
        )
    }
}

/// A local registry of modem-issued clients, keyed by service.
pub struct ClientRegistry {
    clients: HashMap<u8, ClientId>,
}

impl View for ClientRegistry {
    type V = Map<ServiceId, ClientId>;

    closed spec fn view(&self) -> Map<ServiceId, ClientId> {
        Map::new(
            |service: ServiceId| self.clients@.contains_key(service.0),
            |service: ServiceId| self.clients@[service.0],
        )
    }
}

impl Default for ClientRegistry {
    fn default() -> (registry: Self)
        ensures
            registry@ == Map::<ServiceId, ClientId>::empty(),
    {
        let registry: ClientRegistry = ClientRegistry { clients: HashMap::new() };
        proof {
            assert(registry@ =~= Map::<ServiceId, ClientId>::empty());
        }
        registry
    }
}

impl ClientRegistry {
    pub fn install(&mut self, assignment: ClientAssignment) -> (installed: Result<
        (),
        ClientRegistryError,
    >)
        ensures
            match installed {
                Ok(_) => !old(self)@.contains_key(assignment.service) && final(self)@ == old(
                    self,
                )@.insert(assignment.service, assignment.client_id),
                Err(e) => old(self)@.contains_key(assignment.service) && final(self)@ == old(self)@
                    && e == (ClientRegistryError::AlreadyAssigned { service: assignment.service }),
            },
    {
        let code: u8 = assignment.service.as_u8();
        if self.clients.contains_key(&code) {
            return Err(ClientRegistryError::AlreadyAssigned { service: assignment.service });
        }
        self.clients.insert(code, assignment.client_id);
        proof {
            assert(self@ =~= old(self)@.insert(assignment.service, assignment.client_id));
        }
        Ok(())
    }

    pub fn client_for(&self, service: ServiceId) -> (client: Option<ClientId>)
        ensures
            client == (if self@.contains_key(service) {
                Some(self@[service])
            } else {
                None
            }),
    {
        match self.clients.get(&service.as_u8()) {
            Some(client) => Some(*client),
            None => None,
        }
    }

    pub fn release(&mut self, service: ServiceId) -> (released: Option<ClientAssignment>)
        ensures
            released == (if old(self)@.contains_key(service) {
                Some(ClientAssignment { service, client_id: old(self)@[service] })
            } else {
                None
            }),
            final(self)@ == old(self)@.remove(service),
    {
        let removed: Option<ClientId> = self.clients.remove(&service.as_u8());
        proof {
            assert(self@ =~= old(self)@.remove(service));
        }
        match removed {
            Some(client_id) => Some(ClientAssignment { service, client_id }),
            None => None,
        }
    }

    pub fn len(&self) -> (count: usize)
        ensures
            self@.dom().finite(),
            count == self@.dom().len(),
    {
        proof {
            let f = |code: u8| ServiceId(code);
            let codes = self.clients@.dom();
            assert forall|service: ServiceId| codes.map(f).contains(service) <==> #[trigger] self@.dom().contains(service) by {
                if self@.dom().contains(service) {
                    assert(f(service.0) == service);
                }
            }
            assert(codes.map(f) =~= self@.dom());
            vstd::set_lib::lemma_map_size(codes, self@.dom(), f);
        }
        self.clients.len()
    }

    pub fn is_empty(&self) -> (empty: bool)
        ensures
            empty == (self@ == Map::<ServiceId, ClientId>::empty()),
    {
        let empty: bool = self.clients.len() == 0;
        proof {
            if empty {
                assert(self.clients@.dom() =~= Set::empty());
                assert(self@ =~= Map::<ServiceId, ClientId>::empty());
            } else {
                let code = self.clients@.dom().choose();
                assert(self.clients@.dom().contains(code));
                assert(self@.contains_key(ServiceId(code)));
            }
        }
        empty
    }
}

// ---------------------------------------------------------------------------
// Errors
// ---------------------------------------------------------------------------

/// Errors emitted while encoding or decoding a QMUX/QMI frame.
#[allow(inconsistent_fields)]
#[derive(Clone, Copy, Debug, PartialEq, Eq, Structural)]
pub enum WireError {
    FrameTooShort { actual: usize, minimum: usize },
    InvalidInterfaceType { actual: u8 },
    QmuxLengthMismatch { declared: usize, actual: usize },
    UnexpectedQmuxControlFlag { actual: u8, expected: u8 },
    ControlServiceRequiresControlClient { actual: ClientId },
    ControlServiceCannotHaveAssignment,
    ServiceRequiresAllocatedClient { service: ServiceId },
    ZeroClientId,
    ControlTransactionOutOfRange { transaction: TransactionId },
    PayloadTooLarge { service: ServiceId, actual: usize, maximum: usize },
    EncodedPayloadTooLarge,
    UnexpectedMessageKind { service: ServiceId, actual: u8, expected: u8 },
    PayloadLengthMismatch { declared: usize, actual: usize },
    TlvValueTooLarge { kind: u8, actual: usize },
    TruncatedTlvHeader { actual: usize },
    TruncatedTlvValue { kind: u8, declared: usize, actual: usize },
}

impl WireError {
    pub open spec fn text(self) -> Seq<char> {
        match self {
            WireError::FrameTooShort { actual, minimum } => "QMUX frame is "@ + decimal(
                actual as nat,
            ) + " bytes, need at least "@ + decimal(minimum as nat),
            WireError::InvalidInterfaceType { actual } => "invalid QMUX interface type 0x"@
                + hex_pair(actual),
            WireError::QmuxLengthMismatch { declared, actual } => "QMUX length declares "@
                + decimal(declared as nat) + " total bytes, received "@ + decimal(actual as nat),
            WireError::UnexpectedQmuxControlFlag { actual, expected } => "QMUX control flag 0x"@
                + hex_pair(actual) + ", expected 0x"@ + hex_pair(expected),
            WireError::ControlServiceRequiresControlClient { actual } =>
                "control service requires client 0x00, received "@ + actual.text(),
            WireError::ControlServiceCannotHaveAssignment =>
                "the control service cannot have an allocated client assignment"@,
            WireError::ServiceRequiresAllocatedClient { service } => "service "@ + service.text()
                + " requires a nonzero allocated client"@,
            WireError::ZeroClientId => "client ID 0x00 is not allocatable"@,
            WireError::ControlTransactionOutOfRange { transaction } => "control transaction "@
                + transaction.text() + " exceeds the one-byte wire field"@,
            WireError::PayloadTooLarge { service, actual, maximum } => "payload for service "@
                + service.text() + " is "@ + decimal(actual as nat) + " bytes, maximum is "@
                + decimal(maximum as nat),
            WireError::EncodedPayloadTooLarge =>
                "encoded QMI payload exceeds addressable memory"@,
            WireError::UnexpectedMessageKind { service, actual, expected } => "service "@
                + service.text() + " message kind 0x"@ + hex_pair(actual) + ", expected 0x"@
                + hex_pair(expected),
            WireError::PayloadLengthMismatch { declared, actual } => "QMI payload declares "@
                + decimal(declared as nat) + " bytes, received "@ + decimal(actual as nat),
            WireError::TlvValueTooLarge { kind, actual } => "TLV 0x"@ + hex_pair(kind) + " has "@
                + decimal(actual as nat) + " bytes, above the u16 wire limit"@,
            WireError::TruncatedTlvHeader { actual } => "truncated QMI TLV header with "@
                + decimal(actual as nat) + " bytes remaining"@,
            WireError::TruncatedTlvValue { kind, declared, actual } => "TLV 0x"@ + hex_pair(kind)
                + " declares "@ + decimal(declared as nat) + " bytes, only "@ + decimal(
                actual as nat,
            ) + " remain"@,
        }
    }

    pub fn push_to(&self, out: &mut String)
        ensures
            final(out)@ == old(out)@ + self.text(),
    {
        match *self {
            WireError::FrameTooShort { actual, minimum } => {
                out.append("QMUX frame is ");
                push_decimal(out, actual as u64);
                out.append(" bytes, need at least ");
                push_decimal(out, minimum as u64);
            },
            WireError::InvalidInterfaceType { actual } => {
                out.append("invalid QMUX interface type 0x");
                push_hex_pair(out, actual);
            },
            WireError::QmuxLengthMismatch { declared, actual } => {
                out.append("QMUX length declares ");
                push_decimal(out, declared as u64);
                out.append(" total bytes, received ");
                push_decimal(out, actual as u64);
            },
            WireError::UnexpectedQmuxControlFlag { actual, expected } => {
                out.append("QMUX control flag 0x");
                push_hex_pair(out, actual);
                out.append(", expected 0x");
                push_hex_pair(out, expected);
            },
            WireError::ControlServiceRequiresControlClient { actual } => {
                out.append("control service requires client 0x00, received ");
                actual.push_to(out);
            },
            WireError::ControlServiceCannotHaveAssignment => {
                out.append("the control service cannot have an allocated client assignment");
            },
            WireError::ServiceRequiresAllocatedClient { service } => {
                out.append("service ");
                service.push_to(out);
                out.append(" requires a nonzero allocated client");
            },
            WireError::ZeroClientId => {
                out.append("client ID 0x00 is not allocatable");
            },
            WireError::ControlTransactionOutOfRange { transaction } => {
                out.append("control transaction ");
                transaction.push_to(out);
                out.append(" exceeds the one-byte wire field");
            },
            WireError::PayloadTooLarge { service, actual, maximum } => {
                out.append("payload for service ");
                service.push_to(out);
                out.append(" is ");
                push_decimal(out, actual as u64);
                out.append(" bytes, maximum is ");
                push_decimal(out, maximum as u64);
            },
            WireError::EncodedPayloadTooLarge => {
                out.append("encoded QMI payload exceeds addressable memory");
            },
            WireError::UnexpectedMessageKind { service, actual, expected } => {
                out.append("service ");
                service.push_to(out);
                out.append(" message kind 0x");
                push_hex_pair(out, actual);
                out.append(", expected 0x");
                push_hex_pair(out, expected);
            },
            WireError::PayloadLengthMismatch { declared, actual } => {
                out.append("QMI payload declares ");
                push_decimal(out, declared as u64);
                out.append(" bytes, received ");
                push_decimal(out, actual as u64);
            },
            WireError::TlvValueTooLarge { kind, actual } => {
                out.append("TLV 0x");
                push_hex_pair(out, kind);
                out.append(" has ");
                push_decimal(out, actual as u64);
                out.append(" bytes, above the u16 wire limit");
            },
            WireError::TruncatedTlvHeader { actual } => {
                out.append("truncated QMI TLV header with ");
                push_decimal(out, actual as u64);
                out.append(" bytes remaining");
            },
            WireError::TruncatedTlvValue { kind, declared, actual } => {
                out.append("TLV 0x");
                push_hex_pair(out, kind);
                out.append(" declares ");
                push_decimal(out, declared as u64);
                out.append(" bytes, only ");
                push_decimal(out, actual as u64);
                out.append(" remain");
            },
        }
        proof {
            assert(out@ =~= old(out)@ + self.text());
        }
    }

    pub fn to_string(&self) -> (text: String)
        ensures
            text@ == self.text(),
    {
        let mut text: String = String::new();
        self.push_to(&mut text);
        proof {
            assert(text@ =~= self.text());
        }
        text
    }
}

/// Errors specific to a CTL client-ID allocation exchange.
#[allow(inconsistent_fields)]
#[derive(Clone, Copy, Debug, PartialEq, Eq, Structural)]
pub enum AllocationError {
    Wire(WireError),
    ControlServiceCannotBeAllocated,
    UnexpectedResponse {
        expected_transaction: TransactionId,
        actual_service: ServiceId,
        actual_client: ClientId,
        actual_transaction: TransactionId,
        actual_message: MessageId,
    },
    MissingTlv { kind: u8 },
    DuplicateTlv { kind: u8 },
    MalformedResultCode { actual: usize },
    ModemRejected { result: u16, error: u16 },
    SuccessWithErrorCode { error: u16 },
    MalformedAllocation { actual: usize },
    ServiceMismatch { expected: ServiceId, actual: ServiceId },
}

impl AllocationError {
    pub open spec fn text(self) -> Seq<char> {
        match self {
            AllocationError::Wire(error) => error.text(),
            AllocationError::ControlServiceCannotBeAllocated =>
                "the control service does not have an allocatable client ID"@,
            AllocationError::UnexpectedResponse {
                expected_transaction,
                actual_service,
                actual_client,
                actual_transaction,
                actual_message,
            } => "unexpected client allocation response: expected control transaction "@
                + expected_transaction.text() + ", got service "@ + actual_service.text()
                + " client "@ + actual_client.text() + " transaction "@ + actual_transaction.text()
                + " message "@ + actual_message.text(),
            AllocationError::MissingTlv { kind } => "client allocation response lacks TLV 0x"@
                + hex_pair(kind),
            AllocationError::DuplicateTlv { kind } => "client allocation response repeats TLV 0x"@
                + hex_pair(kind),
            AllocationError::MalformedResultCode { actual } =>
                "client allocation result code has "@ + decimal(actual as nat)
                + " bytes, expected four"@,
            AllocationError::ModemRejected { result, error } =>
                "modem rejected client allocation with result "@ + decimal(result as nat)
                + " and error "@ + decimal(error as nat),
            AllocationError::SuccessWithErrorCode { error } =>
                "client allocation reports success with nonzero error code "@ + decimal(
                error as nat,
            ),
            AllocationError::MalformedAllocation { actual } => "client allocation TLV has "@
                + decimal(actual as nat) + " bytes, expected service and client"@,
            AllocationError::ServiceMismatch { expected, actual } =>
                "client allocation returned service "@ + actual.text() + ", expected "@
                + expected.text(),
        }
    }

    pub fn push_to(&self, out: &mut String)
        ensures
            final(out)@ == old(out)@ + self.text(),
    {
        match *self {
            AllocationError::Wire(error) => {
                error.push_to(out);
            },
            AllocationError::ControlServiceCannotBeAllocated => {
                out.append("the control service does not have an allocatable client ID");
            },
            AllocationError::UnexpectedResponse {
                expected_transaction,
                actual_service,
                actual_client,
                actual_transaction,
                actual_message,
            } => {
                out.append(
                    "unexpected client allocation response: expected control transaction ",
                );
                expected_transaction.push_to(out);
                out.append(", got service ");
                actual_service.push_to(out);
                out.append(" client ");
                actual_client.push_to(out);
                out.append(" transaction ");
                actual_transaction.push_to(out);
                out.append(" message ");
                actual_message.push_to(out);
            },
            AllocationError::MissingTlv { kind } => {
                out.append("client allocation response lacks TLV 0x");
                push_hex_pair(out, kind);
            },
            AllocationError::DuplicateTlv { kind } => {
                out.append("client allocation response repeats TLV 0x");
                push_hex_pair(out, kind);
            },
            AllocationError::MalformedResultCode { actual } => {
                out.append("client allocation result code has ");
                push_decimal(out, actual as u64);
                out.append(" bytes, expected four");
            },
            AllocationError::ModemRejected { result, error } => {
                out.append("modem rejected client allocation with result ");
                push_decimal(out, result as u64);
                out.append(" and error ");
                push_decimal(out, error as u64);
            },
            AllocationError::SuccessWithErrorCode { error } => {
                out.append("client allocation reports success with nonzero error code ");
                push_decimal(out, error as u64);
            },
            AllocationError::MalformedAllocation { actual } => {
                out.append("client allocation TLV has ");
                push_decimal(out, actual as u64);
                out.append(" bytes, expected service and client");
            },
            AllocationError::ServiceMismatch { expected, actual } => {
                out.append("client allocation returned service ");
                actual.push_to(out);
                out.append(", expected ");
                expected.push_to(out);
            },
        }
        proof {
            assert(out@ =~= old(out)@ + self.text());
        }
    }

    pub fn to_string(&self) -> (text: String)
        ensures
            text@ == self.text(),
    {
        let mut text: String = String::new();
        self.push_to(&mut text);
        proof {
            assert(text@ =~= self.text());
        }
        text
    }
}

/// Errors from local transaction matching.
#[derive(Clone, Copy, Debug, PartialEq, Eq, Structural)]
pub enum CorrelationError {
    DuplicateTransaction(TransactionKey),
    UnmatchedResponse(TransactionKey),
    MessageMismatch { key: TransactionKey, expected: MessageId, actual: MessageId },
}

impl CorrelationError {
    pub open spec fn text(self) -> Seq<char> {
        match self {
            CorrelationError::DuplicateTransaction(key) => "transaction already registered for "@
                + key.text(),
            CorrelationError::UnmatchedResponse(key) => "response has no pending "@ + key.text(),
            CorrelationError::MessageMismatch { key, expected, actual } => "response for "@
                + key.text() + " has message "@ + actual.text() + ", expected "@
                + expected.text(),
        }
    }

    pub fn push_to(&self, out: &mut String)
        ensures
            final(out)@ == old(out)@ + self.text(),
    {
        match *self {
            CorrelationError::DuplicateTransaction(key) => {
                out.append("transaction already registered for ");
                key.push_to(out);
            },
            CorrelationError::UnmatchedResponse(key) => {
                out.append("response has no pending ");
                key.push_to(out);
            },
            CorrelationError::MessageMismatch { key, expected, actual } => {
                out.append("response for ");
                key.push_to(out);
                out.append(" has message ");
                actual.push_to(out);
                out.append(", expected ");
                expected.push_to(out);
            },
        }
        proof {
            assert(out@ =~= old(out)@ + self.text());
        }
    }

    pub fn to_string(&self) -> (text: String)
        ensures
            text@ == self.text(),
    {
        let mut text: String = String::new();
        self.push_to(&mut text);
        proof {
            assert(text@ =~= self.text());
        }
        text
    }
}

/// Errors from managing locally installed client assignments.
#[derive(Clone, Copy, Debug, PartialEq, Eq, Structural)]
pub enum ClientRegistryError {
    AlreadyAssigned { service: ServiceId },
}

impl ClientRegistryError {
    pub open spec fn text(self) -> Seq<char> {
        match self {
            ClientRegistryError::AlreadyAssigned { service } => "service "@ + service.text()
                + " already has an installed client"@,
        }
    }

    pub fn push_to(&self, out: &mut String)
        ensures
            final(out)@ == old(out)@ + self.text(),
    {
        match *self {
            ClientRegistryError::AlreadyAssigned { service } => {
                out.append("service ");
                service.push_to(out);
                out.append(" already has an installed client");
            },
        }
        proof {
            assert(out@ =~= old(out)@ + self.text());
        }
    }

    pub fn to_string(&self) -> (text: String)
        ensures
            text@ == self.text(),
    {
        let mut text: String = String::new();
        self.push_to(&mut text);
        proof {
            assert(text@ =~= self.text());
        }
        text
    }
}

/// Errors from locating a unique TLV in a decoded payload.
#[derive(Clone, Copy, Debug, PartialEq, Eq, Structural)]
pub enum TlvLookupError {
    Missing { kind: u8 },
    Duplicate { kind: u8 },
}

impl TlvLookupError {
    pub open spec fn text(self) -> Seq<char> {
        match self {
            TlvLookupError::Missing { kind } => "missing TLV 0x"@ + hex_pair(kind),
            TlvLookupError::Duplicate { kind } => "duplicate TLV 0x"@ + hex_pair(kind),
        }
    }

    pub fn push_to(&self, out: &mut String)
        ensures
            final(out)@ == old(out)@ + self.text(),
    {
        match *self {
            TlvLookupError::Missing { kind } => {
                out.append("missing TLV 0x");
                push_hex_pair(out, kind);
            },
            TlvLookupError::Duplicate { kind } => {
                out.append("duplicate TLV 0x");
                push_hex_pair(out, kind);
            },
        }
        proof {
            assert(out@ =~= old(out)@ + self.text());
        }
    }

    pub fn to_string(&self) -> (text: String)
        ensures
            text@ == self.text(),
    {
        let mut text: String = String::new();
        self.push_to(&mut text);
        proof {
            assert(text@ =~= self.text());
        }
        text
    }
}

} // verus!
