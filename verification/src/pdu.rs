//! SMS-SUBMIT TPDU encoding for QMI WMS RAW_SEND (format 0x06).
//!
//! Wire shape is `00` (use the network SMSC) plus a 3GPP 23.040 SUBMIT TPDU.
//! GSM-7 is used for a small ASCII subset; everything else is UCS2.

use crate::domain::{gsm7_value, septet_of, GSM7_MAX_SEPTETS, UCS2_MAX_CHARS};
use crate::octets::push_all;
use crate::text::{
    chars_of, decimal, digit, is_digit, lemma_char_at, paired, push_decimal, quoted, quoted_text,
    trim, trimmed, utf16_text,
};
use vstd::prelude::*;

verus! {

/// Errors while building a SUBMIT TPDU.
#[allow(inconsistent_fields)]
#[derive(Clone, Copy, Debug, PartialEq, Eq)]
pub enum PduError {
    EmptyDestination,
    InvalidDestination,
    EmptyBody,
    TooLong { encoding: &'static str, limit: usize },
}

impl PduError {
    /// What the error says.
    pub open spec fn text(self) -> Seq<char> {
        match self {
            PduError::EmptyDestination => "SMS destination is empty"@,
            PduError::InvalidDestination => "SMS destination is not a phone number"@,
            PduError::EmptyBody => "SMS body is empty"@,
            PduError::TooLong { encoding, limit } => "SMS body exceeds "@ + decimal(limit as nat)
                + " "@ + encoding@ + " units"@,
        }
    }
}

impl PduError {
    /// How the error is written out for a developer.
    pub open spec fn shown(self) -> Seq<char> {
        match self {
            PduError::EmptyDestination => "EmptyDestination"@,
            PduError::InvalidDestination => "InvalidDestination"@,
            PduError::EmptyBody => "EmptyBody"@,
            PduError::TooLong { encoding, limit } => "TooLong { encoding: "@ + quoted(encoding@)
                + ", limit: "@ + decimal(limit as nat) + " }"@,
        }
    }

    pub fn push_shown(&self, out: &mut String)
        ensures
            final(out)@ == old(out)@ + self.shown(),
    {
        match self {
            PduError::EmptyDestination => out.append("EmptyDestination"),
            PduError::InvalidDestination => out.append("InvalidDestination"),
            PduError::EmptyBody => out.append("EmptyBody"),
            PduError::TooLong { encoding, limit } => {
                out.append("TooLong { encoding: ");
                out.append(quoted_text(encoding).as_str());
                out.append(", limit: ");
                push_decimal(out, *limit as u64);
                out.append(" }");
            },
        }
        proof {
            assert(out@ =~= old(out)@ + self.shown());
        }
    }
}

impl PduError {
    pub fn push_to(&self, out: &mut String)
        ensures
            final(out)@ == old(out)@ + self.text(),
    {
        match self {
            PduError::EmptyDestination => {
                out.append("SMS destination is empty");
            },
            PduError::InvalidDestination => {
                out.append("SMS destination is not a phone number");
            },
            PduError::EmptyBody => {
                out.append("SMS body is empty");
            },
            PduError::TooLong { encoding, limit } => {
                out.append("SMS body exceeds ");
                push_decimal(out, *limit as u64);
                out.append(" ");
                out.append(encoding);
                out.append(" units");
            },
        }
        proof {
            assert(out@ =~= old(out)@ + self.text());
        }
    }

    pub fn to_string(&self) -> (text: String)
        ensures
            text@ == self.text(),
    {
        let mut text: String = String::new();
        self.push_to(&mut text);
        proof {
            assert(text@ =~= self.text());
        }
        text
    }
}

// ---------------------------------------------------------------------------
// The destination
// ---------------------------------------------------------------------------

/// The decimal digits in a text; everything else in it is skipped.
pub open spec fn digits_in(text: Seq<char>) -> Seq<char> {
    text.filter(|c: char| is_digit(c))
}

fn keep_digits(text: &[char]) -> (digits: Vec<char>)
    ensures
        digits@ == digits_in(text@),
        digits@.len() <= text@.len(),
        forall|i: int| 0 <= i < digits@.len() ==> is_digit(#[trigger] digits@[i]),
{
    let mut digits: Vec<char> = Vec::new();
    let mut i: usize = 0;
    proof {
        reveal(Seq::filter);
        assert(text@.take(0) =~= Seq::empty());
        assert(digits@ =~= digits_in(text@.take(0)));
    }
    while i < text.len()
        invariant
            i <= text@.len(),
            digits@.len() <= i,
            digits@ == digits_in(text@.take(i as int)),
            forall|j: int| 0 <= j < digits@.len() ==> is_digit(#[trigger] digits@[j]),
        decreases text@.len() - i,
    {
        proof {
            reveal(Seq::filter);
            assert(text@.take(i + 1).drop_last() =~= text@.take(i as int));
            assert(text@.take(i + 1).last() == text@[i as int]);
        }
        if digit(text[i]) {
            digits.push(text[i]);
        }
        i = i + 1;
    }
    proof {
        assert(text@.take(i as int) =~= text@);
    }
    digits
}

/// Two digits to an octet, the first one low; a place that is left over is
/// filled up.
pub open spec fn semi_octets(digits: Seq<char>) -> Seq<u8> {
    Seq::new(
        (digits.len() + 1) / 2,
        |i: int|
            ((digits[2 * i] as u32 - 48) + 16 * (if 2 * i + 1 < digits.len() {
                digits[2 * i + 1] as u32 - 48
            } else {
                15
            })) as u8,
    )
}

fn bcd_digits(digits: &[char]) -> (bytes: Vec<u8>)
    requires
        forall|i: int| 0 <= i < digits@.len() ==> is_digit(#[trigger] digits@[i]),
    ensures
        bytes@ == semi_octets(digits@),
{
    let total: usize = digits.len();
    let count: usize = total / 2 + total % 2;
    let mut bytes: Vec<u8> = Vec::new();
    let mut k: usize = 0;
    while k < count
        invariant
            k <= count,
            total == digits@.len(),
            count == total / 2 + total % 2,
            bytes@.len() == k,
            forall|i: int| 0 <= i < digits@.len() ==> is_digit(#[trigger] digits@[i]),
            forall|j: int| 0 <= j < k ==> bytes@[j] == semi_octets(digits@)[j],
        decreases count - k,
    {
        proof {
            assert(is_digit(digits@[2 * k]));
            if 2 * k + 1 < total {
                assert(is_digit(digits@[2 * k + 1]));
            }
        }
        let low: u8 = (digits[2 * k] as u32 - 48) as u8;
        let high: u8 = if 2 * k + 1 < total {
            (digits[2 * k + 1] as u32 - 48) as u8
        } else {
            15
        };
        bytes.push(low + 16 * high);
        k = k + 1;
    }
    proof {
        assert(bytes@ =~= semi_octets(digits@));
    }
    bytes
}

/// A destination: how many digits it has, of which type it is, and the digits.
pub open spec fn address_in(to: Seq<char>) -> Result<(u8, u8, Seq<u8>), PduError> {
    let text = trimmed(to);
    let digits = digits_in(text);
    if text.len() == 0 {
        Err(PduError::EmptyDestination)
    } else if digits.len() == 0 || digits.len() > 20 {
        Err(PduError::InvalidDestination)
    } else {
        Ok(
            (
                digits.len() as u8,
                if text[0] == '+' {
                    0x91u8
                } else {
                    0x81
                },
                semi_octets(digits),
            ),
        )
    }
}

fn encode_address(to: &str) -> (address: Result<(u8, u8, Vec<u8>), PduError>)
    ensures
        match address {
            Ok((count, toa, bytes)) => address_in(to@) == Ok::<(u8, u8, Seq<u8>), PduError>(
                (count, toa, bytes@),
            ),
            Err(e) => address_in(to@) == Err::<(u8, u8, Seq<u8>), PduError>(e),
        },
{
    let chars: Vec<char> = chars_of(to);
    let text: &[char] = trim(&chars);
    if text.len() == 0 {
        return Err(PduError::EmptyDestination);
    }
    let international: bool = text[0] == '+';
    let digits: Vec<char> = keep_digits(text);
    if digits.len() == 0 || digits.len() > 20 {
        return Err(PduError::InvalidDestination);
    }
    let toa: u8 = if international {
        0x91
    } else {
        0x81
    };
    Ok((digits.len() as u8, toa, bcd_digits(&digits)))
}

// ---------------------------------------------------------------------------
// The body
// ---------------------------------------------------------------------------

/// Whether every character of a body has a septet.
pub open spec fn is_gsm7(body: Seq<char>) -> bool {
    forall|i: int| 0 <= i < body.len() ==> septet_of(#[trigger] body[i]) is Some
}

/// Two to a small power.
pub open spec fn power(n: int) -> int {
    if n == 0 {
        1
    } else if n == 1 {
        2
    } else if n == 2 {
        4
    } else if n == 3 {
        8
    } else if n == 4 {
        16
    } else if n == 5 {
        32
    } else if n == 6 {
        64
    } else if n == 7 {
        128
    } else {
        256
    }
}

fn power_of(n: usize) -> (value: u32)
    requires
        n <= 7,
    ensures
        value == power(n as int),
{
    if n == 0 {
        1
    } else if n == 1 {
        2
    } else if n == 2 {
        4
    } else if n == 3 {
        8
    } else if n == 4 {
        16
    } else if n == 5 {
        32
    } else if n == 6 {
        64
    } else {
        128
    }
}

/// A septet of a row, or zeros behind its end.
pub open spec fn septet_at(septets: Seq<u8>, i: int) -> int {
    if 0 <= i < septets.len() {
        septets[i] as int
    } else {
        0
    }
}

/// One octet of a row of septets that stand bit to bit, the first bits low: the
/// bits of one septet that the octet before did not take, and above them as many
/// of the next septet as there is room for.
pub open spec fn packed_octet(septets: Seq<u8>, k: int) -> int {
    let first = 8 * k / 7;
    let taken = 8 * k % 7;
    septet_at(septets, first) / power(taken) + (septet_at(septets, first + 1) % power(taken + 1))
        * power(7 - taken)
}

/// Septets, eight to seven octets.
pub open spec fn packed(septets: Seq<u8>) -> Seq<u8> {
    Seq::new((7 * septets.len() + 7) / 8, |k: int| packed_octet(septets, k) as u8)
}

/// The septets of a body.
pub open spec fn septets_of(body: Seq<char>) -> Seq<u8> {
    body.map_values(|c: char| septet_of(c)->0)
}

fn read_septets(body: &[char]) -> (septets: Option<Vec<u8>>)
    ensures
        match septets {
            Some(s) => is_gsm7(body@) && s@ == septets_of(body@) && forall|i: int|
                0 <= i < s@.len() ==> (#[trigger] s@[i]) < 128,
            None => !is_gsm7(body@),
        },
{
    let mut septets: Vec<u8> = Vec::new();
    let mut i: usize = 0;
    while i < body.len()
        invariant
            i <= body@.len(),
            septets@.len() == i,
            forall|j: int| 0 <= j < i ==> septet_of(#[trigger] body@[j]) == Some(septets@[j]),
            forall|j: int| 0 <= j < i ==> (#[trigger] septets@[j]) < 128,
        decreases body@.len() - i,
    {
        match gsm7_value(body[i]) {
            Some(septet) => septets.push(septet),
            None => {
                proof {
                    assert(septet_of(body@[i as int]) is None);
                }
                return None;
            },
        }
        i = i + 1;
    }
    proof {
        assert(septets@ =~= septets_of(body@));
    }
    Some(septets)
}

fn septet_or_zero(septets: &[u8], i: usize) -> (septet: u32)
    requires
        forall|j: int| 0 <= j < septets@.len() ==> (#[trigger] septets@[j]) < 128,
    ensures
        septet == septet_at(septets@, i as int),
        septet < 128,
{
    if i < septets.len() {
        septets[i] as u32
    } else {
        0
    }
}

proof fn lemma_powers(n: int)
    requires
        0 <= n <= 7,
    ensures
        power(n) > 0,
        power(7 - n) > 0,
        power(n) * power(7 - n) == 128,
        power(n + 1) == 2 * power(n),
{
    if n == 0 {
    } else if n == 1 {
    } else if n == 2 {
    } else if n == 3 {
    } else if n == 4 {
    } else if n == 5 {
    } else if n == 6 {
    } else {
    }
}

proof fn lemma_octet_fits(low: int, high: int, taken: int)
    requires
        0 <= low < 128,
        0 <= high < 128,
        0 <= taken <= 6,
    ensures
        0 <= low / power(taken) < power(7 - taken),
        0 <= high % power(taken + 1) < power(taken + 1),
        power(taken + 1) * power(7 - taken) == 256,
        0 <= low / power(taken) + (high % power(taken + 1)) * power(7 - taken) < 256,
{
    lemma_powers(taken);
    let d = power(taken);
    let w = power(taken + 1);
    let p = power(7 - taken);
    let kept = low / d;
    let above = high % w;
    assert(0 <= kept < p) by (nonlinear_arith)
        requires
            0 <= low < 128,
            d > 0,
            d * p == 128,
            kept == low / d,
    ;
    assert(w * p == 256) by (nonlinear_arith)
        requires
            w == 2 * d,
            d * p == 128,
    ;
    assert(0 <= above * p <= 256 - p) by (nonlinear_arith)
        requires
            0 <= above <= w - 1,
            p > 0,
            w * p == 256,
    ;
}

fn pack_octet(septets: &[u8], k: usize) -> (octet: u8)
    requires
        septets@.len() <= 160,
        k <= 140,
        forall|j: int| 0 <= j < septets@.len() ==> (#[trigger] septets@[j]) < 128,
    ensures
        octet == packed_octet(septets@, k as int),
{
    let first: usize = 8 * k / 7;
    let taken: usize = 8 * k % 7;
    let low: u32 = septet_or_zero(septets, first);
    let high: u32 = septet_or_zero(septets, first + 1);
    let divisor: u32 = power_of(taken);
    let width: u32 = power_of(taken + 1);
    let place: u32 = power_of(7 - taken);
    proof {
        lemma_octet_fits(low as int, high as int, taken as int);
    }
    let above: u32 = high % width;
    proof {
        assert(0 <= above * place < 256) by (nonlinear_arith)
            requires
                0 <= above < width,
                0 < place <= 128,
                0 < width <= 128,
                width * place == 256,
        ;
    }
    (low / divisor + above * place) as u8
}

/// Septets, eight to seven octets.
fn pack_gsm7(septets: &[u8]) -> (octets: Vec<u8>)
    requires
        septets@.len() <= 160,
        forall|j: int| 0 <= j < septets@.len() ==> (#[trigger] septets@[j]) < 128,
    ensures
        octets@ == packed(septets@),
{
    let count: usize = (7 * septets.len() + 7) / 8;
    let mut octets: Vec<u8> = Vec::new();
    let mut k: usize = 0;
    while k < count
        invariant
            k <= count,
            count == (7 * septets@.len() + 7) / 8,
            septets@.len() <= 160,
            octets@.len() == k,
            forall|j: int| 0 <= j < septets@.len() ==> (#[trigger] septets@[j]) < 128,
            forall|j: int| 0 <= j < k ==> octets@[j] == packed(septets@)[j],
        decreases count - k,
    {
        octets.push(pack_octet(septets, k));
        k = k + 1;
    }
    proof {
        assert(octets@ =~= packed(septets@));
    }
    octets
}

/// The UTF-16 units of a character.
pub open spec fn units_of(c: char) -> Seq<u16> {
    let n = c as u32;
    if n < 0x1_0000 {
        seq![n as u16]
    } else {
        seq![
            (0xd800 + (n - 0x1_0000) / 0x400) as u16,
            (0xdc00 + (n - 0x1_0000) % 0x400) as u16,
        ]
    }
}

/// The UTF-16 units of a body.
pub open spec fn utf16_units(body: Seq<char>) -> Seq<u16>
    decreases body.len(),
{
    if body.len() == 0 {
        Seq::empty()
    } else {
        utf16_units(body.drop_last()) + units_of(body.last())
    }
}

fn encode_units(body: &[char]) -> (units: Vec<u16>)
    ensures
        units@ == utf16_units(body@),
{
    let mut units: Vec<u16> = Vec::new();
    let mut i: usize = 0;
    proof {
        assert(body@.take(0) =~= Seq::empty());
    }
    while i < body.len()
        invariant
            i <= body@.len(),
            units@ == utf16_units(body@.take(i as int)),
        decreases body@.len() - i,
    {
        let ghost before = units@;
        let n: u32 = body[i] as u32;
        if n < 0x1_0000 {
            units.push(n as u16);
        } else {
            units.push((0xd800 + (n - 0x1_0000) / 0x400) as u16);
            units.push((0xdc00 + (n - 0x1_0000) % 0x400) as u16);
        }
        proof {
            assert(body@.take(i + 1).drop_last() =~= body@.take(i as int));
            assert(units@ =~= before + units_of(body@[i as int]));
        }
        i = i + 1;
    }
    proof {
        assert(body@.take(i as int) =~= body@);
    }
    units
}

/// Units, high octet first.
pub open spec fn big_endian(units: Seq<u16>) -> Seq<u8> {
    Seq::new(
        2 * units.len(),
        |i: int|
            if i % 2 == 0 {
                (units[i / 2] / 256) as u8
            } else {
                (units[i / 2] % 256) as u8
            },
    )
}

fn push_units(out: &mut Vec<u8>, units: &[u16])
    ensures
        final(out)@ == old(out)@ + big_endian(units@),
{
    let mut i: usize = 0;
    proof {
        assert(out@ =~= old(out)@ + big_endian(units@.take(0)));
    }
    while i < units.len()
        invariant
            i <= units@.len(),
            out@ == old(out)@ + big_endian(units@.take(i as int)),
        decreases units@.len() - i,
    {
        let ghost before = out@;
        out.push((units[i] / 256) as u8);
        out.push((units[i] % 256) as u8);
        proof {
            let done = big_endian(units@.take(i as int));
            let next = big_endian(units@.take(i + 1));
            assert forall|j: int| 0 <= j < next.len() implies next[j] == (done.push(
                (units@[i as int] / 256) as u8,
            ).push((units@[i as int] % 256) as u8))[j] by {
                if j < done.len() {
                    assert(units@.take(i + 1)[j / 2] == units@.take(i as int)[j / 2]);
                }
            }
            assert(next =~= done.push((units@[i as int] / 256) as u8).push(
                (units@[i as int] % 256) as u8,
            ));
            assert(out@ =~= old(out)@ + next);
        }
        i = i + 1;
    }
    proof {
        assert(units@.take(i as int) =~= units@);
    }
}

/// What stands behind the protocol identifier: the coding, the length, and the
/// body.
pub open spec fn user_data(body: Seq<char>) -> Result<Seq<u8>, PduError> {
    if is_gsm7(body) {
        if body.len() > GSM7_MAX_SEPTETS {
            Err(PduError::TooLong { encoding: "gsm7", limit: GSM7_MAX_SEPTETS })
        } else {
            Ok(seq![0x00u8, body.len() as u8] + packed(septets_of(body)))
        }
    } else {
        let units = utf16_units(body);
        if units.len() > UCS2_MAX_CHARS {
            Err(PduError::TooLong { encoding: "ucs2", limit: UCS2_MAX_CHARS })
        } else {
            Ok(seq![0x08u8, (2 * units.len()) as u8] + big_endian(units))
        }
    }
}

fn encode_user_data(body: &[char]) -> (data: Result<Vec<u8>, PduError>)
    ensures
        match data {
            Ok(d) => user_data(body@) == Ok::<Seq<u8>, PduError>(d@),
            Err(e) => user_data(body@) == Err::<Seq<u8>, PduError>(e),
        },
{
    match read_septets(body) {
        Some(septets) => {
            if body.len() > GSM7_MAX_SEPTETS {
                return Err(PduError::TooLong { encoding: "gsm7", limit: GSM7_MAX_SEPTETS });
            }
            let mut data: Vec<u8> = vec![0x00, body.len() as u8];
            push_all(&mut data, &pack_gsm7(&septets));
            proof {
                assert(data@ =~= seq![0x00u8, body@.len() as u8] + packed(septets_of(body@)));
            }
            Ok(data)
        },
        None => {
            let units: Vec<u16> = encode_units(body);
            if units.len() > UCS2_MAX_CHARS {
                return Err(PduError::TooLong { encoding: "ucs2", limit: UCS2_MAX_CHARS });
            }
            let mut data: Vec<u8> = vec![0x08, (units.len() * 2) as u8];
            push_units(&mut data, &units);
            proof {
                assert(data@ =~= seq![0x08u8, (2 * units@.len()) as u8] + big_endian(units@));
            }
            Ok(data)
        },
    }
}

/// One SMS-SUBMIT TPDU that asks for a status report.
pub open spec fn submit_in(to: Seq<char>, body: Seq<char>, reference: u8) -> Result<
    Seq<u8>,
    PduError,
> {
    if body.len() == 0 {
        Err(PduError::EmptyBody)
    } else {
        match address_in(to) {
            Err(e) => Err(e),
            Ok((count, toa, address)) => match user_data(body) {
                Err(e) => Err(e),
                Ok(data) => Ok(
                    seq![0x21u8, reference, count, toa] + address + seq![0x00u8] + data,
                ),
            },
        }
    }
}

/// One SMS-SUBMIT PDU: the TPDU behind a zero-length SMSC.
pub open spec fn submission(to: Seq<char>, body: Seq<char>, reference: u8) -> Result<
    Seq<u8>,
    PduError,
> {
    match submit_in(to, body, reference) {
        Ok(tpdu) => Ok(seq![0x00u8] + tpdu),
        Err(e) => Err(e),
    }
}

/// What was encoded, or why it was not.
pub open spec fn encoded(pdu: Result<Vec<u8>, PduError>) -> Result<Seq<u8>, PduError> {
    match pdu {
        Ok(bytes) => Ok(bytes@),
        Err(e) => Err(e),
    }
}

/// Encode one SMS-SUBMIT PDU including a zero-length SMSC prefix.
///
/// `reference` becomes TP-MR. It is the caller's because it is the only thing
/// that ties a later SMS-STATUS-REPORT back to this send: the report quotes the
/// reference and nothing else about the original.
///
/// TP-SRR is always set: nothing in the modem, the SMSC, or any AT setting can
/// conjure a delivery receipt for a message that did not ask for one, and a
/// missing one cannot be recovered after the fact.
pub fn encode_submit(to: &str, body: &str, reference: u8) -> (pdu: Result<Vec<u8>, PduError>)
    ensures
        encoded(pdu) == submission(to@, body@, reference),
{
    let chars: Vec<char> = chars_of(body);
    if chars.len() == 0 {
        return Err(PduError::EmptyBody);
    }
    let (count, toa, address) = match encode_address(to) {
        Ok(address) => address,
        Err(e) => return Err(e),
    };
    let data: Vec<u8> = match encode_user_data(&chars) {
        Ok(data) => data,
        Err(e) => return Err(e),
    };
    let mut pdu: Vec<u8> = vec![0x00, 0x21, reference, count, toa];
    push_all(&mut pdu, &address);
    pdu.push(0x00);
    push_all(&mut pdu, &data);
    proof {
        assert(pdu@ =~= submission(to@, body@, reference)->Ok_0);
    }
    Ok(pdu)
}

// ---------------------------------------------------------------------------
// Laws
// ---------------------------------------------------------------------------

/// Every PDU asks for a status report, is a SUBMIT, and carries the caller's
/// reference.
pub proof fn law_every_submission_can_be_traced(to: Seq<char>, body: Seq<char>, reference: u8)
    requires
        submission(to, body, reference) is Ok,
    ensures
        ({
            let pdu = submission(to, body, reference)->Ok_0;
            &&& pdu.len() >= 9
            &&& pdu[0] == 0
            &&& pdu[1] & 0x20 == 0x20
            &&& pdu[1] & 0x03 == 0x01
            &&& pdu[2] == reference
        }),
{
    assert(0x21u8 & 0x20 == 0x20) by (bit_vector);
    assert(0x21u8 & 0x03 == 0x01) by (bit_vector);
    let address = address_in(to)->Ok_0.2;
    let data = user_data(body)->Ok_0;
    assert(address.len() >= 1);
    assert(data.len() >= 2);
    assert(submission(to, body, reference)->Ok_0.len() == 6 + address.len() + data.len());
}

/// One septet back out of octets in which septets stand bit to bit.
pub open spec fn unpacked_septet(octets: Seq<u8>, i: int) -> int {
    let first = 7 * i / 8;
    let taken = 7 * i % 8;
    let low = octets[first] as int;
    let high = if first + 1 < octets.len() {
        octets[first + 1] as int
    } else {
        0
    };
    (low / power(taken) + high * power(8 - taken)) % 128
}

proof fn lemma_unpack(previous: int, own: int, next: int, r: int)
    requires
        0 <= previous < 128,
        0 <= own < 128,
        0 <= next < 128,
        1 <= r <= 6,
    ensures
        ({
            let low = previous / power(r - 1) + (own % power(r)) * power(8 - r);
            let high = own / power(r) + (next % power(r + 1)) * power(7 - r);
            (low / power(8 - r) + high * power(r)) % 128 == own
        }),
{
    lemma_octet_fits(previous, own, r - 1);
    lemma_powers(r);
    let base = previous / power(r - 1);
    let b = power(r);
    let c = power(8 - r);
    let d = power(7 - r);
    let kept = own % b;
    let rest = own / b;
    let above = next % power(r + 1);
    assert((base + kept * c) / c == kept) by (nonlinear_arith)
        requires
            0 <= base < c,
            0 <= kept,
    ;
    assert(kept + (rest + above * d) * b == own + 128 * above) by (nonlinear_arith)
        requires
            b > 0,
            kept == own % b,
            rest == own / b,
            b * d == 128,
    ;
    assert((own + 128 * above) % 128 == own);
}

proof fn lemma_packed_octet(septets: Seq<u8>, q: int, m: int)
    requires
        0 <= q,
        0 <= m <= 6,
    ensures
        packed_octet(septets, 7 * q + m) == septet_at(septets, 8 * q + m) / power(m) + (septet_at(
            septets,
            8 * q + m + 1,
        ) % power(m + 1)) * power(7 - m),
{
    let k = 7 * q + m;
    assert(8 * k / 7 == 8 * q + m);
    assert(8 * k % 7 == m);
}

/// Packing loses nothing: each septet comes back out of the octets.
pub proof fn law_every_septet_is_kept(septets: Seq<u8>, i: int)
    requires
        forall|j: int| 0 <= j < septets.len() ==> (#[trigger] septets[j]) < 128,
        0 <= i < septets.len(),
    ensures
        unpacked_septet(packed(septets), i) == septets[i],
{
    let octets = packed(septets);
    let q = i / 8;
    let r = i % 8;
    let first = 7 * i / 8;
    assert(i == 8 * q + r);
    let own = septet_at(septets, i);
    let previous = septet_at(septets, i - 1);
    let next = septet_at(septets, i + 1);
    assert(0 <= own < 128 && 0 <= previous < 128 && 0 <= next < 128);
    assert(0 <= first < octets.len());
    if r == 0 {
        assert(first == 7 * q && 7 * i % 8 == 0);
        lemma_packed_octet(septets, q, 0);
        lemma_octet_fits(own, next, 0);
        let high = if first + 1 < octets.len() {
            octets[first + 1] as int
        } else {
            0
        };
        assert(octets[first] as int == own + (next % 2) * 128);
        assert((own + (next % 2) * 128 + high * 256) % 128 == own);
    } else {
        assert(first == 7 * q + (r - 1) && 7 * i % 8 == 8 - r);
        lemma_packed_octet(septets, q, r - 1);
        lemma_octet_fits(previous, own, r - 1);
        let low = previous / power(r - 1) + (own % power(r)) * power(8 - r);
        assert(octets[first] as int == low);
        if r < 7 {
            lemma_packed_octet(septets, q, r);
            lemma_octet_fits(own, next, r);
            lemma_unpack(previous, own, next, r);
            assert(first + 1 < octets.len());
            assert(octets[first + 1] as int == own / power(r) + (next % power(r + 1)) * power(
                7 - r,
            ));
            assert(unpacked_septet(octets, i) == (low / power(8 - r) + (octets[first + 1] as int)
                * power(r)) % 128);
        } else {
            let high = if first + 1 < octets.len() {
                octets[first + 1] as int
            } else {
                0
            };
            assert(own % 128 == own);
            assert(low == previous / 64 + own * 2);
            assert((previous / 64 + own * 2) / 2 == own);
            assert((own + high * 128) % 128 == own);
        }
    }
}

proof fn lemma_units_from_the_front(body: Seq<char>)
    requires
        body.len() > 0,
    ensures
        utf16_units(body) == units_of(body[0]) + utf16_units(body.skip(1)),
    decreases body.len(),
{
    if body.len() == 1 {
        assert(body.drop_last() =~= Seq::empty());
        assert(body.skip(1) =~= Seq::empty());
        assert(utf16_units(body) =~= units_of(body[0]) + utf16_units(body.skip(1)));
    } else {
        lemma_units_from_the_front(body.drop_last());
        assert(body.drop_last().skip(1) =~= body.skip(1).drop_last());
        assert(utf16_units(body) =~= units_of(body[0]) + utf16_units(body.skip(1)));
    }
}

/// Every character of a body that the default alphabet does not have is kept: the
/// units that are sent for a body read back as that body.
pub proof fn law_every_character_is_kept(body: Seq<char>)
    ensures
        utf16_text(utf16_units(body)) == Some(body),
    decreases body.len(),
{
    if body.len() > 0 {
        let units = utf16_units(body);
        let rest = body.skip(1);
        let n = body[0] as u32;
        lemma_units_from_the_front(body);
        law_every_character_is_kept(rest);
        lemma_char_at(body[0]);
        assert(seq![body[0]] + rest =~= body);
        if n < 0x1_0000 {
            assert(units.skip(1) =~= utf16_units(rest));
        } else {
            assert(units.skip(2) =~= utf16_units(rest));
            assert(paired(units[0], units[1]) == body[0]);
        }
    } else {
        assert(body =~= Seq::empty());
    }
}

} // verus!
