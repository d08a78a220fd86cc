//! ES10b and ES10c: the local information and profile management interfaces
//! of an eUICC.
//!
//! Commands travel to the ISD-R as BER-TLV inside a `STORE DATA` APDU, and the
//! eUICC answers with BER-TLV. The channel number is carried by QMI as its own
//! field, so the APDU class byte stays `0x80` here and does not encode it.

use crate::ber::{
    big_endian, element_in, element_octets, find_tag, lemma_element, read, rest_after, tag_is,
    tag_is_pair, tagged_in, wrap, Element, ElementModel,
};
use crate::octets::{copy_of, push_all, same_bytes};
use crate::text::{
    all_digits, chars_of, decimal, digit, hex_text, hex_text_upper, is_digit, is_space, lossy,
    lossy_text, opt_str, opt_text, owned, push_decimal, push_hex_text, push_hex_text_upper,
    same_text, space, string_of, texts, trim, trimmed,
};
use crate::uim::{bcd_digits, decode_iccid, iccid_in, nibbles};
use vstd::prelude::*;
use vstd::utf8::encode_utf8;

verus! {

/// `STORE DATA` for a block that is not the last one (SGP.22 §5.7.2).
pub const P1_MORE_BLOCKS: u8 = 0x11;

/// `STORE DATA` for the last block.
pub const P1_LAST_BLOCK: u8 = 0x91;

pub const CLA_GLOBALPLATFORM: u8 = 0x80;

pub const INS_STORE_DATA: u8 = 0xe2;

/// The largest command data field one `STORE DATA` can carry: `Lc` is a single
/// byte in the short APDU form the ISD-R accepts.
pub const STORE_DATA_BLOCK_BYTES: usize = 255;

/// `P2` carries the block number in one byte, so a chain is at most 256 blocks.
pub const MAX_STORE_DATA_BLOCKS: usize = 256;

/// The largest payload a `STORE DATA` chain can carry at all.
pub const MAX_STORE_DATA_BYTES: usize = 65280;

/// The longest nickname SGP.22 admits.
pub const NICKNAME_MAX_BYTES: usize = 64;

/// How many bytes `GetEUICCChallenge` returns (SGP.22 `Octet16`).
pub const EUICC_CHALLENGE_BYTES: usize = 16;

pub const TAG_PROFILE_LIST: u8 = 0xa0;

pub const TAG_PROFILE: u8 = 0xe3;

pub const TAG_ICCID: u8 = 0x5a;

pub const TAG_ISDP_AID: u8 = 0x4f;

pub const TAG_NICKNAME: u8 = 0x90;

pub const TAG_PROVIDER: u8 = 0x91;

pub const TAG_PROFILE_NAME: u8 = 0x92;

pub const TAG_PROFILE_CLASS: u8 = 0x95;

pub const TAG_RESULT: u8 = 0x80;

/// `[0]` in both notification responses: the list.
pub const TAG_NOTIFICATION_LIST: u8 = 0xa0;

/// `[1]` in both notification responses: an error instead of a list.
pub const TAG_NOTIFICATION_ERROR: u8 = 0x81;

/// An `OtherSignedNotification` is a plain SEQUENCE, unlike the tagged
/// `ProfileInstallationResult` it shares the list with.
pub const TAG_SEQUENCE: u8 = 0x30;

pub const TAG_OCTET_STRING: u8 = 0x04;

pub const TAG_UTF8_STRING: u8 = 0x0c;

/// `profilePolicyRules` inside `StoreMetadataRequest`.
pub const TAG_PROFILE_POLICY_RULES: u8 = 0x99;

/// The `[0]` alternative of a CHOICE: the success case in every ES10b response
/// of a download.
pub const TAG_CHOICE_OK: u8 = 0xa0;

/// The `[1]` alternative: the error case.
pub const TAG_CHOICE_ERROR: u8 = 0xa1;

/// `finalResult` inside `ProfileInstallationResultData`.
pub const TAG_FINAL_RESULT: u8 = 0xa2;

/// The first octet of every two-octet tag that names an ES10 function.
pub const TAG_FUNCTION: u8 = 0xbf;

/// The second octet of each function's tag.
pub const FN_EUICC_INFO1: u8 = 0x20;

pub const FN_PREPARE_DOWNLOAD: u8 = 0x21;

pub const FN_EUICC_INFO2: u8 = 0x22;

pub const FN_INITIALISE_SECURE_CHANNEL: u8 = 0x23;

pub const FN_STORE_METADATA: u8 = 0x25;

pub const FN_INSTALLATION_RESULT_DATA: u8 = 0x27;

pub const FN_LIST_NOTIFICATION: u8 = 0x28;

pub const FN_SET_NICKNAME: u8 = 0x29;

pub const FN_RETRIEVE_NOTIFICATIONS: u8 = 0x2b;

pub const FN_GET_PROFILES_INFO: u8 = 0x2d;

pub const FN_EUICC_CHALLENGE: u8 = 0x2e;

pub const FN_NOTIFICATION_METADATA: u8 = 0x2f;

pub const FN_NOTIFICATION_SENT: u8 = 0x30;

pub const FN_ENABLE_PROFILE: u8 = 0x31;

pub const FN_DISABLE_PROFILE: u8 = 0x32;

pub const FN_DELETE_PROFILE: u8 = 0x33;

pub const FN_BOUND_PROFILE_PACKAGE: u8 = 0x36;

pub const FN_INSTALLATION_RESULT: u8 = 0x37;

pub const FN_AUTHENTICATE_SERVER: u8 = 0x38;

pub const FN_CONFIGURED_ADDRESSES: u8 = 0x3c;

pub const FN_GET_EUICC_DATA: u8 = 0x3e;

pub const FN_CANCEL_SESSION: u8 = 0x41;

/// The tag of an ES10 function.
pub open spec fn function_tag(function: u8) -> Seq<u8> {
    seq![TAG_FUNCTION, function]
}

fn make_function_tag(function: u8) -> (tag: Vec<u8>)
    ensures
        tag@ == function_tag(function),
{
    let mut tag: Vec<u8> = Vec::new();
    tag.push(TAG_FUNCTION);
    tag.push(function);
    proof {
        assert(tag@ =~= function_tag(function));
    }
    tag
}

fn one(octet: u8) -> (bytes: Vec<u8>)
    ensures
        bytes@ == seq![octet],
{
    let mut bytes: Vec<u8> = Vec::new();
    bytes.push(octet);
    proof {
        assert(bytes@ =~= seq![octet]);
    }
    bytes
}

// ---------------------------------------------------------------------------
// Errors
// ---------------------------------------------------------------------------

/// Failures decoding an eUICC answer or building a request.
#[allow(inconsistent_fields)]
#[derive(Clone, Debug, PartialEq, Eq)]
pub enum Es10cError {
    Truncated,
    UnexpectedTag { expected: Vec<u8>, actual: Vec<u8> },
    MissingProfileList,
    InvalidIccid,
    /// The eUICC understood the command and refused it.
    Refused { code: u8, reason: &'static str },
    /// A `STORE DATA` chain cannot carry this much: the block number is one
    /// byte, so past this point there is no correct APDU to send.
    PayloadTooLarge { actual: usize, max: usize },
    /// `STORE DATA` with no command data is not a request the ISD-R answers.
    EmptyPayload,
    /// The card returned an error code instead of a notification list.
    NotificationsUnavailable { code: u64 },
    /// A field SGP.22 makes mandatory was absent.
    MissingField { name: &'static str },
    /// SGP.22 caps `profileNickname` at 64 bytes. Refused rather than
    /// truncated: a name silently cut in half is one nobody can search for.
    NicknameTooLong { bytes: usize },
    /// `GetEUICCChallenge` returned something other than sixteen bytes. The
    /// challenge is what binds an ES9+ session to this chip.
    ChallengeLength { actual: usize },
    /// The eUICC would not authenticate the SM-DP+.
    AuthenticationRefused { code: u64, reason: &'static str },
    /// The eUICC would not prepare the download.
    DownloadRefused { code: u64, reason: &'static str },
    /// `CancelSession` came back as an error, so an RSP session is still open
    /// on the chip.
    SessionNotCancelled,
    /// An IMEI that is not fifteen or sixteen digits has no type allocation
    /// code to take, and inventing one would put a false device identity in
    /// front of an operator.
    InvalidImei,
}

/// What an error says. Only the tag mismatch carries octets; every other
/// error is what it is.
pub enum Es10cFault {
    Tag { expected: Seq<u8>, actual: Seq<u8> },
    Plain(Es10cError),
}

impl View for Es10cError {
    type V = Es10cFault;

    open spec fn view(&self) -> Es10cFault {
        match *self {
            Es10cError::UnexpectedTag { expected, actual } => Es10cFault::Tag {
                expected: expected@,
                actual: actual@,
            },
            other => Es10cFault::Plain(other),
        }
    }
}

/// A fault without octets.
pub open spec fn plain(error: Es10cError) -> Es10cFault {
    Es10cFault::Plain(error)
}

/// The fault of every answer that is cut short.
pub open spec fn cut_short() -> Es10cFault {
    Es10cFault::Plain(Es10cError::Truncated)
}

/// A reading is the one that was specified; a failure is the right one.
pub open spec fn reads<T: View>(
    reading: Result<T, Es10cError>,
    wanted: Result<T::V, Es10cFault>,
) -> bool {
    match (reading, wanted) {
        (Ok(r), Ok(w)) => r@ == w,
        (Err(e), Err(f)) => e@ == f,
        _ => false,
    }
}

impl Es10cError {
    pub open spec fn text(self) -> Seq<char> {
        match self {
            Es10cError::Truncated => "eUICC response is truncated"@,
            Es10cError::UnexpectedTag { expected, actual } => "expected tag "@ + hex_text(
                expected@,
            ) + ", got "@ + hex_text(actual@),
            Es10cError::MissingProfileList => "response has no profile list"@,
            Es10cError::InvalidIccid => "ICCID is not a digit string"@,
            Es10cError::NicknameTooLong { bytes } => "nickname is "@ + decimal(bytes as nat)
                + " bytes; SGP.22 allows "@ + decimal(NICKNAME_MAX_BYTES as nat),
            Es10cError::Refused { code, reason } => "eUICC refused the request: "@ + reason@
                + " ("@ + decimal(code as nat) + ")"@,
            Es10cError::PayloadTooLarge { actual, max } => "ES10 payload is "@ + decimal(
                actual as nat,
            ) + " bytes, above the "@ + decimal(max as nat) + " a STORE DATA chain can carry"@,
            Es10cError::EmptyPayload => "ES10 payload is empty"@,
            Es10cError::NotificationsUnavailable { code } =>
                "eUICC returned notification list error "@ + decimal(code as nat) + (if code
                == 127 {
                " (undefined error)"@
            } else {
                Seq::empty()
            }),
            Es10cError::MissingField { name } => "response has no "@ + name@,
            Es10cError::ChallengeLength { actual } => "eUICC challenge is "@ + decimal(
                actual as nat,
            ) + " bytes, SGP.22 requires "@ + decimal(EUICC_CHALLENGE_BYTES as nat),
            Es10cError::AuthenticationRefused { code, reason } =>
                "eUICC refused to authenticate the SM-DP+: "@ + reason@ + " ("@ + decimal(
                code as nat,
            ) + ")"@,
            Es10cError::DownloadRefused { code, reason } =>
                "eUICC refused to prepare the download: "@ + reason@ + " ("@ + decimal(
                code as nat,
            ) + ")"@,
            Es10cError::SessionNotCancelled => "eUICC refused to cancel the RSP session"@,
            Es10cError::InvalidImei =>
                "IMEI is not a digit string long enough to carry a TAC"@,
        }
    }

    pub fn push_to(&self, out: &mut String)
        ensures
            final(out)@ == old(out)@ + self.text(),
            self.text() == self@.text(),
    {
        match self {
            Es10cError::Truncated => {
                out.append("eUICC response is truncated");
            },
            Es10cError::UnexpectedTag { expected, actual } => {
                out.append("expected tag ");
                push_hex_text(out, expected);
                out.append(", got ");
                push_hex_text(out, actual);
            },
            Es10cError::MissingProfileList => {
                out.append("response has no profile list");
            },
            Es10cError::InvalidIccid => {
                out.append("ICCID is not a digit string");
            },
            Es10cError::NicknameTooLong { bytes } => {
                out.append("nickname is ");
                push_decimal(out, *bytes as u64);
                out.append(" bytes; SGP.22 allows ");
                push_decimal(out, NICKNAME_MAX_BYTES as u64);
            },
            Es10cError::Refused { code, reason } => {
                out.append("eUICC refused the request: ");
                out.append(reason);
                out.append(" (");
                push_decimal(out, *code as u64);
                out.append(")");
            },
            Es10cError::PayloadTooLarge { actual, max } => {
                out.append("ES10 payload is ");
                push_decimal(out, *actual as u64);
                out.append(" bytes, above the ");
                push_decimal(out, *max as u64);
                out.append(" a STORE DATA chain can carry");
            },
            Es10cError::EmptyPayload => {
                out.append("ES10 payload is empty");
            },
            Es10cError::NotificationsUnavailable { code } => {
                out.append("eUICC returned notification list error ");
                push_decimal(out, *code);
                if *code == 127 {
                    out.append(" (undefined error)");
                }
            },
            Es10cError::MissingField { name } => {
                out.append("response has no ");
                out.append(name);
            },
            Es10cError::ChallengeLength { actual } => {
                out.append("eUICC challenge is ");
                push_decimal(out, *actual as u64);
                out.append(" bytes, SGP.22 requires ");
                push_decimal(out, EUICC_CHALLENGE_BYTES as u64);
            },
            Es10cError::AuthenticationRefused { code, reason } => {
                out.append("eUICC refused to authenticate the SM-DP+: ");
                out.append(reason);
                out.append(" (");
                push_decimal(out, *code);
                out.append(")");
            },
            Es10cError::DownloadRefused { code, reason } => {
                out.append("eUICC refused to prepare the download: ");
                out.append(reason);
                out.append(" (");
                push_decimal(out, *code);
                out.append(")");
            },
            Es10cError::SessionNotCancelled => {
                out.append("eUICC refused to cancel the RSP session");
            },
            Es10cError::InvalidImei => {
                out.append("IMEI is not a digit string long enough to carry a TAC");
            },
        }
        proof {
            assert(out@ =~= old(out)@ + self.text());
        }
    }

    pub fn to_string(&self) -> (text: String)
        ensures
            text@ == self.text(),
    {
        let mut text: String = String::new();
        self.push_to(&mut text);
        proof {
            assert(text@ =~= self.text());
        }
        text
    }
}

impl Es10cFault {
    /// What the error says.
    pub open spec fn text(self) -> Seq<char> {
        match self {
            Es10cFault::Tag { expected, actual } => "expected tag "@ + hex_text(expected)
                + ", got "@ + hex_text(actual),
            Es10cFault::Plain(error) => error.text(),
        }
    }
}

fn unexpected_tag(expected: &[u8], actual: &[u8]) -> (error: Es10cError)
    ensures
        error@ == (Es10cFault::Tag { expected: expected@, actual: actual@ }),
{
    Es10cError::UnexpectedTag { expected: copy_of(expected), actual: copy_of(actual) }
}

// ---------------------------------------------------------------------------
// STORE DATA
// ---------------------------------------------------------------------------

/// How many blocks a payload takes.
pub open spec fn block_count(length: nat) -> nat {
    (length + 254) / 255
}

/// The data of one block.
pub open spec fn block_data(payload: Seq<u8>, index: int) -> Seq<u8> {
    payload.subrange(
        255 * index,
        if 255 * (index + 1) <= payload.len() {
            255 * (index + 1)
        } else {
            payload.len() as int
        },
    )
}

/// One `STORE DATA` command of a chain: all but the last say that more follow,
/// and `P2` counts them from zero.
pub open spec fn store_block(payload: Seq<u8>, index: int) -> Seq<u8> {
    seq![
        CLA_GLOBALPLATFORM,
        INS_STORE_DATA,
        if index + 1 == block_count(payload.len()) {
            P1_LAST_BLOCK
        } else {
            P1_MORE_BLOCKS
        },
        index as u8,
        block_data(payload, index).len() as u8,
    ] + block_data(payload, index)
}

/// The chain that carries a payload, or why none can.
pub open spec fn chain_of(payload: Seq<u8>) -> Result<Seq<Seq<u8>>, Es10cFault> {
    if payload.len() == 0 {
        Err(plain(Es10cError::EmptyPayload))
    } else if payload.len() > MAX_STORE_DATA_BYTES {
        Err(
            plain(
                Es10cError::PayloadTooLarge {
                    actual: payload.len() as usize,
                    max: MAX_STORE_DATA_BYTES,
                },
            ),
        )
    } else {
        Ok(Seq::new(block_count(payload.len()), |index: int| store_block(payload, index)))
    }
}

/// The octets of each command.
pub open spec fn octets_of(chain: Seq<Vec<u8>>) -> Seq<Seq<u8>> {
    chain.map_values(|apdu: Vec<u8>| apdu@)
}

/// Split an ES10 request into a `STORE DATA` chain.
///
/// Blocks before the last carry `P1 = 0x11`, the last carries `0x91`, and `P2`
/// counts them from zero (SGP.22 section 5.7.2). A payload that does not fit
/// is an error.
pub fn store_data_chain(payload: &[u8]) -> (chain: Result<Vec<Vec<u8>>, Es10cError>)
    ensures
        match chain {
            Ok(c) => chain_of(payload@) == Ok::<Seq<Seq<u8>>, Es10cFault>(octets_of(c@)) && c@.len()
                == block_count(payload@.len()) && 1 <= c@.len() <= MAX_STORE_DATA_BLOCKS,
            Err(e) => chain_of(payload@) == Err::<Seq<Seq<u8>>, Es10cFault>(e@),
        },
{
    if payload.len() == 0 {
        return Err(Es10cError::EmptyPayload);
    }
    if payload.len() > MAX_STORE_DATA_BYTES {
        return Err(
            Es10cError::PayloadTooLarge { actual: payload.len(), max: MAX_STORE_DATA_BYTES },
        );
    }
    let total: usize = payload.len();
    let count: usize = (total + 254) / 255;
    let mut chain: Vec<Vec<u8>> = Vec::new();
    let mut index: usize = 0;
    while index < count
        invariant
            0 < total <= MAX_STORE_DATA_BYTES,
            total == payload@.len(),
            count == block_count(payload@.len()),
            count <= 256,
            index <= count,
            octets_of(chain@) =~= Seq::new(
                index as nat,
                |i: int| store_block(payload@, i),
            ),
        decreases count - index,
    {
        let from: usize = 255 * index;
        let to: usize = if 255 * (index + 1) <= total {
            255 * (index + 1)
        } else {
            total
        };
        let p1: u8 = if index + 1 == count {
            P1_LAST_BLOCK
        } else {
            P1_MORE_BLOCKS
        };
        let mut apdu: Vec<u8> = Vec::new();
        apdu.push(CLA_GLOBALPLATFORM);
        apdu.push(INS_STORE_DATA);
        apdu.push(p1);
        apdu.push(index as u8);
        apdu.push((to - from) as u8);
        push_all(&mut apdu, &payload[from..to]);
        proof {
            assert(apdu@ =~= store_block(payload@, index as int));
        }
        let ghost before = chain@;
        chain.push(apdu);
        proof {
            assert(octets_of(chain@) =~= octets_of(before).push(apdu@));
        }
        index = index + 1;
    }
    Ok(chain)
}

/// The data that a chain carries, put back together.
pub open spec fn carried(chain: Seq<Seq<u8>>) -> Seq<u8>
    decreases chain.len(),
{
    if chain.len() == 0 {
        Seq::empty()
    } else {
        carried(chain.drop_last()) + chain.last().skip(5)
    }
}

/// A chain carries its payload, all of it and nothing else; every block's
/// length octet says how much data it has; and only the last block is marked
/// as the last.
pub proof fn law_chain_carries_payload(payload: Seq<u8>)
    requires
        chain_of(payload) is Ok,
    ensures
        carried(chain_of(payload)->Ok_0) == payload,
        forall|i: int|
            #![trigger chain_of(payload)->Ok_0[i]]
            0 <= i < chain_of(payload)->Ok_0.len() ==> {
                let apdu = chain_of(payload)->Ok_0[i];
                &&& apdu.len() > 5
                &&& apdu[4] == apdu.len() - 5
                &&& apdu[3] == i
                &&& (apdu[2] == P1_LAST_BLOCK <==> i + 1 == chain_of(payload)->Ok_0.len())
            },
{
    let chain = chain_of(payload)->Ok_0;
    lemma_chain_prefix(payload, chain.len() as int);
    assert(chain.take(chain.len() as int) =~= chain);
    assert(payload.take(payload.len() as int) =~= payload);
}

proof fn lemma_chain_prefix(payload: Seq<u8>, n: int)
    requires
        chain_of(payload) is Ok,
        0 <= n <= chain_of(payload)->Ok_0.len(),
    ensures
        carried(chain_of(payload)->Ok_0.take(n)) == payload.take(
            if 255 * n <= payload.len() {
                255 * n
            } else {
                payload.len() as int
            },
        ),
    decreases n,
{
    let chain = chain_of(payload)->Ok_0;
    if n == 0 {
        assert(chain.take(0) =~= Seq::<Seq<u8>>::empty());
        assert(payload.take(0) =~= Seq::<u8>::empty());
    } else {
        lemma_chain_prefix(payload, n - 1);
        assert(chain.take(n).drop_last() =~= chain.take(n - 1));
        assert(chain.take(n).last() == store_block(payload, n - 1));
        assert(store_block(payload, n - 1).skip(5) =~= block_data(payload, n - 1));
        let end = if 255 * n <= payload.len() {
            255 * n
        } else {
            payload.len() as int
        };
        assert(payload.take(255 * (n - 1)) + block_data(payload, n - 1) =~= payload.take(end));
    }
}

// ---------------------------------------------------------------------------
// Requests
// ---------------------------------------------------------------------------

/// A request without arguments.
pub open spec fn bare_request(function: u8) -> Seq<u8> {
    seq![TAG_FUNCTION, function, 0x00u8]
}

fn make_bare_request(function: u8) -> (payload: Vec<u8>)
    ensures
        payload@ == bare_request(function),
{
    let mut payload: Vec<u8> = make_function_tag(function);
    payload.push(0x00);
    proof {
        assert(payload@ =~= bare_request(function));
    }
    payload
}

/// `GetProfilesInfo` with no search criteria, so the card returns every profile.
pub fn get_profiles_payload() -> (payload: Vec<u8>)
    ensures
        payload@ == bare_request(FN_GET_PROFILES_INFO),
{
    make_bare_request(FN_GET_PROFILES_INFO)
}

/// ES10c `GetEUICCData` asking for tag `5A`, the EID.
pub open spec fn eid_request() -> Seq<u8> {
    seq![TAG_FUNCTION, FN_GET_EUICC_DATA, 0x03u8, 0x5cu8, 0x01u8, 0x5au8]
}

/// ES10c `GetEUICCData` asking for tag `5A`, the EID.
///
/// Preferred over the GlobalPlatform `GET DATA` form, which some eUICCs do not
/// know.
pub fn get_eid_payload() -> (payload: Vec<u8>)
    ensures
        payload@ == eid_request(),
{
    let mut payload: Vec<u8> = make_function_tag(FN_GET_EUICC_DATA);
    payload.push(0x03);
    payload.push(0x5c);
    payload.push(0x01);
    payload.push(0x5a);
    proof {
        assert(payload@ =~= eid_request());
    }
    payload
}

/// ES10b `GetEUICCInfo2`.
pub fn euicc_info2_payload() -> (payload: Vec<u8>)
    ensures
        payload@ == bare_request(FN_EUICC_INFO2),
{
    make_bare_request(FN_EUICC_INFO2)
}

/// ES10b `GetEUICCInfo1`.
///
/// Not the same thing as `GetEUICCInfo2` with fewer fields read out of it:
/// ES9+ `InitiateAuthentication` carries `euiccInfo1`, and an SM-DP+ handed
/// the `BF22` structure instead rejects the request.
pub fn euicc_info1_payload() -> (payload: Vec<u8>)
    ensures
        payload@ == bare_request(FN_EUICC_INFO1),
{
    make_bare_request(FN_EUICC_INFO1)
}

/// ES10b `GetEUICCChallenge`. The chip generates a new random challenge per
/// call.
pub fn euicc_challenge_payload() -> (payload: Vec<u8>)
    ensures
        payload@ == bare_request(FN_EUICC_CHALLENGE),
{
    make_bare_request(FN_EUICC_CHALLENGE)
}

/// ES10a `GetEuiccConfiguredAddresses`.
pub fn configured_addresses_payload() -> (payload: Vec<u8>)
    ensures
        payload@ == bare_request(FN_CONFIGURED_ADDRESSES),
{
    make_bare_request(FN_CONFIGURED_ADDRESSES)
}

/// ES10b `ListNotification` with no filter.
pub fn list_notification_payload() -> (payload: Vec<u8>)
    ensures
        payload@ == bare_request(FN_LIST_NOTIFICATION),
{
    make_bare_request(FN_LIST_NOTIFICATION)
}

/// ES10b `RetrieveNotificationsList` with no search criteria: some eUICCs
/// refuse the search by sequence number, so retrieving one notification means
/// retrieving all of them and picking.
pub fn retrieve_notifications_payload() -> (payload: Vec<u8>)
    ensures
        payload@ == bare_request(FN_RETRIEVE_NOTIFICATIONS),
{
    make_bare_request(FN_RETRIEVE_NOTIFICATIONS)
}

// ---------------------------------------------------------------------------
// ICCIDs
// ---------------------------------------------------------------------------

/// The value of the digit at `i`, or the filler behind the last digit.
pub open spec fn iccid_nibble(digits: Seq<char>, i: int) -> u8 {
    if i < digits.len() {
        (digits[i] as u32 - 48) as u8
    } else {
        15
    }
}

/// An ICCID as nibble-swapped BCD, padded to ten octets with ones.
pub open spec fn iccid_octets(digits: Seq<char>) -> Seq<u8> {
    let packed = (digits.len() + 1) / 2;
    Seq::new(
        if packed < 10 {
            10
        } else {
            packed as nat
        },
        |i: int| (iccid_nibble(digits, 2 * i) + 16 * iccid_nibble(digits, 2 * i + 1)) as u8,
    )
}

/// The card's form of an ICCID given as text.
pub open spec fn encoded_iccid(iccid: Seq<char>) -> Result<Seq<u8>, Es10cFault> {
    let digits = trimmed(iccid);
    if digits.len() == 0 || !all_digits(digits) {
        Err(plain(Es10cError::InvalidIccid))
    } else {
        Ok(iccid_octets(digits))
    }
}

fn encode_iccid(iccid: &str) -> (bytes: Result<Vec<u8>, Es10cError>)
    ensures
        reads(bytes, encoded_iccid(iccid@)),
{
    let chars: Vec<char> = chars_of(iccid);
    let digits: &[char] = trim(&chars);
    if digits.len() == 0 {
        return Err(Es10cError::InvalidIccid);
    }
    let total: usize = digits.len();
    let mut k: usize = 0;
    while k < total
        invariant
            k <= total == digits@.len(),
            digits@ == trimmed(iccid@),
            forall|j: int| 0 <= j < k ==> is_digit(#[trigger] digits@[j]),
        decreases total - k,
    {
        if !digit(digits[k]) {
            return Err(Es10cError::InvalidIccid);
        }
        k = k + 1;
    }
    let ghost wanted = iccid_octets(digits@);
    let mut bytes: Vec<u8> = Vec::new();
    let packed: usize = total / 2 + total % 2;
    let mut i: usize = 0;
    while i < packed
        invariant
            total == digits@.len(),
            packed == total / 2 + total % 2,
            all_digits(digits@),
            wanted == iccid_octets(digits@),
            i <= packed,
            i == bytes@.len(),
            forall|j: int| 0 <= j < bytes@.len() ==> bytes@[j] == wanted[j],
        decreases packed - i,
    {
        proof {
            assert(is_digit(digits@[2 * i as int]));
        }
        let low: u8 = (digits[2 * i] as u32 - 48) as u8;
        let high: u8 = if 2 * i + 1 < total {
            proof {
                assert(is_digit(digits@[2 * i + 1]));
            }
            (digits[2 * i + 1] as u32 - 48) as u8
        } else {
            15
        };
        proof {
            assert(wanted[i as int] == (low + 16 * high) as u8);
        }
        bytes.push(low + 16 * high);
        i = i + 1;
    }
    while bytes.len() < 10
        invariant
            wanted == iccid_octets(digits@),
            bytes@.len() >= (digits@.len() + 1) / 2,
            bytes@.len() <= wanted.len(),
            forall|i: int| 0 <= i < bytes@.len() ==> bytes@[i] == wanted[i],
        decreases 10 - bytes@.len(),
    {
        proof {
            assert(wanted[bytes@.len() as int] == 0xff);
        }
        bytes.push(0xff);
    }
    proof {
        assert(bytes@ =~= wanted);
    }
    Ok(bytes)
}

proof fn lemma_filler_is_dropped(digits: Seq<char>, filler: Seq<char>)
    requires
        digits.len() > 0,
        all_digits(digits),
        forall|i: int| 0 <= i < filler.len() ==> filler[i] == 'f',
    ensures
        crate::text::stripped_end(digits + filler, 'f') == digits,
    decreases filler.len(),
{
    let whole = digits + filler;
    if filler.len() == 0 {
        assert(whole =~= digits);
        assert(is_digit(digits[digits.len() - 1]));
    } else {
        assert(whole.drop_last() =~= digits + filler.drop_last());
        lemma_filler_is_dropped(digits, filler.drop_last());
    }
}

/// An ICCID read back from the form the card keeps it in is the ICCID.
pub proof fn law_iccid_round_trip(digits: Seq<char>)
    requires
        digits.len() > 0,
        all_digits(digits),
    ensures
        iccid_in(iccid_octets(digits)) == Ok::<Seq<char>, crate::uim::UimError>(digits),
{
    let bytes = iccid_octets(digits);
    let shown = crate::uim::swapped_nibbles(bytes);
    let filler = Seq::new((shown.len() - digits.len()) as nat, |i: int| 'f');
    assert(shown.len() == 2 * bytes.len());
    assert forall|k: int| 0 <= k < shown.len() implies shown[k] == (digits + filler)[k] by {
        let i = k / 2;
        assert(bytes[i] == (iccid_nibble(digits, 2 * i) + 16 * iccid_nibble(digits, 2 * i + 1))
            as u8);
        if 2 * i < digits.len() {
            assert(is_digit(digits[2 * i]));
        }
        if 2 * i + 1 < digits.len() {
            assert(is_digit(digits[2 * i + 1]));
        }
        let low = iccid_nibble(digits, 2 * i);
        let high = iccid_nibble(digits, 2 * i + 1);
        assert(bytes[i] as int % 16 == low);
        assert(bytes[i] as int / 16 == high);
        if k % 2 == 0 {
            assert(k == 2 * i);
        } else {
            assert(k == 2 * i + 1);
        }
    }
    assert(shown =~= digits + filler);
    lemma_filler_is_dropped(digits, filler);
}

// ---------------------------------------------------------------------------
// Profile commands
// ---------------------------------------------------------------------------

/// An element whose length is written as one octet, as every short request is.
/// A length that one octet cannot hold keeps its low eight bits.
pub open spec fn short_element(tag: Seq<u8>, value: Seq<u8>) -> Seq<u8> {
    tag + seq![value.len() as u8] + value
}

fn make_short_element(tag: &[u8], value: &[u8]) -> (out: Vec<u8>)
    ensures
        out@ == short_element(tag@, value@),
{
    let mut out: Vec<u8> = copy_of(tag);
    out.push(value.len() as u8);
    push_all(&mut out, value);
    proof {
        assert(out@ =~= short_element(tag@, value@));
    }
    out
}

/// `EnableProfile` and `DisableProfile`: the ICCID in a list, then the refresh
/// flag.
pub open spec fn profile_request(function: u8, iccid: Seq<char>, refresh: bool) -> Result<
    Seq<u8>,
    Es10cFault,
> {
    match encoded_iccid(iccid) {
        Err(e) => Err(e),
        Ok(bytes) => Ok(
            short_element(
                function_tag(function),
                short_element(
                    seq![TAG_PROFILE_LIST],
                    short_element(seq![TAG_ICCID], bytes),
                ) + seq![
                    0x81u8,
                    0x01u8,
                    if refresh {
                        0xffu8
                    } else {
                        0x00u8
                    },
                ],
            ),
        ),
    }
}

/// `DeleteProfile`: the ICCID directly, not wrapped in a list. The request is
/// a CHOICE rather than a SEQUENCE in SGP.22.
pub open spec fn delete_request(iccid: Seq<char>) -> Result<Seq<u8>, Es10cFault> {
    match encoded_iccid(iccid) {
        Err(e) => Err(e),
        Ok(bytes) => Ok(
            short_element(
                function_tag(FN_DELETE_PROFILE),
                short_element(seq![TAG_ICCID], bytes),
            ),
        ),
    }
}

/// `SetNickname`: the ICCID and the name, which is sent even where it is
/// empty: that is how a card is told to forget the old one.
pub open spec fn nickname_request(iccid: Seq<char>, nickname: Seq<char>) -> Result<
    Seq<u8>,
    Es10cFault,
> {
    let name = encode_utf8(trimmed(nickname));
    match encoded_iccid(iccid) {
        Err(e) => Err(e),
        Ok(bytes) => if name.len() > NICKNAME_MAX_BYTES {
            Err(plain(Es10cError::NicknameTooLong { bytes: name.len() as usize }))
        } else {
            Ok(
                short_element(
                    function_tag(FN_SET_NICKNAME),
                    short_element(seq![TAG_ICCID], bytes) + short_element(
                        seq![TAG_NICKNAME],
                        name,
                    ),
                ),
            )
        },
    }
}

/// `EnableProfile` by ICCID.
///
/// `refresh` asks the card to trigger a REFRESH so the modem re-reads the new
/// profile. Without it the switch does not take effect until the module is
/// restarted.
pub fn enable_profile_payload(iccid: &str, refresh: bool) -> (payload: Result<Vec<u8>, Es10cError>)
    ensures
        reads(payload, profile_request(FN_ENABLE_PROFILE, iccid@, refresh)),
{
    profile_command(FN_ENABLE_PROFILE, iccid, refresh)
}

/// `DisableProfile` by ICCID.
pub fn disable_profile_payload(iccid: &str, refresh: bool) -> (payload: Result<
    Vec<u8>,
    Es10cError,
>)
    ensures
        reads(payload, profile_request(FN_DISABLE_PROFILE, iccid@, refresh)),
{
    profile_command(FN_DISABLE_PROFILE, iccid, refresh)
}

fn profile_command(function: u8, iccid: &str, refresh: bool) -> (payload: Result<
    Vec<u8>,
    Es10cError,
>)
    ensures
        reads(payload, profile_request(function, iccid@, refresh)),
{
    let bytes: Vec<u8> = match encode_iccid(iccid) {
        Ok(bytes) => bytes,
        Err(e) => return Err(e),
    };
    let identifier: Vec<u8> = make_short_element(&one(TAG_ICCID), &bytes);
    let mut body: Vec<u8> = make_short_element(&one(TAG_PROFILE_LIST), &identifier);
    let ghost list = body@;
    body.push(0x81);
    body.push(0x01);
    body.push(
        if refresh {
            0xff
        } else {
            0x00
        },
    );
    proof {
        assert(body@ =~= list + seq![
            0x81u8,
            0x01u8,
            if refresh {
                0xffu8
            } else {
                0x00u8
            },
        ]);
    }
    Ok(make_short_element(&make_function_tag(function), &body))
}

/// `SetNickname` by ICCID. The name is cut of the space around it first.
pub fn set_nickname_payload(iccid: &str, nickname: &str) -> (payload: Result<Vec<u8>, Es10cError>)
    ensures
        reads(payload, nickname_request(iccid@, nickname@)),
{
    let bytes: Vec<u8> = match encode_iccid(iccid) {
        Ok(bytes) => bytes,
        Err(e) => return Err(e),
    };
    let chars: Vec<char> = chars_of(nickname);
    let name: String = string_of(trim(&chars));
    let name_bytes: &[u8] = name.as_str().as_bytes();
    if name_bytes.len() > NICKNAME_MAX_BYTES {
        return Err(Es10cError::NicknameTooLong { bytes: name_bytes.len() });
    }
    let mut body: Vec<u8> = make_short_element(&one(TAG_ICCID), &bytes);
    let field: Vec<u8> = make_short_element(&one(TAG_NICKNAME), name_bytes);
    push_all(&mut body, &field);
    Ok(make_short_element(&make_function_tag(FN_SET_NICKNAME), &body))
}

/// `DeleteProfile` by ICCID. Irreversible: a deleted profile cannot be
/// restored from the card.
pub fn delete_profile_payload(iccid: &str) -> (payload: Result<Vec<u8>, Es10cError>)
    ensures
        reads(payload, delete_request(iccid@)),
{
    let bytes: Vec<u8> = match encode_iccid(iccid) {
        Ok(bytes) => bytes,
        Err(e) => return Err(e),
    };
    let body: Vec<u8> = make_short_element(&one(TAG_ICCID), &bytes);
    Ok(make_short_element(&make_function_tag(FN_DELETE_PROFILE), &body))
}

// ---------------------------------------------------------------------------
// Reading elements
// ---------------------------------------------------------------------------

/// The value of the element that octets start with, which has to carry `tag`.
pub open spec fn body_of(bytes: Seq<u8>, tag: Seq<u8>) -> Result<Seq<u8>, Es10cFault> {
    match element_in(bytes) {
        Err(_) => Err(cut_short()),
        Ok(element) => if element.tag != tag {
            Err(Es10cFault::Tag { expected: tag, actual: element.tag })
        } else {
            Ok(element.value)
        },
    }
}

fn expect_tag<'a>(bytes: &'a [u8], expected: &[u8]) -> (body: Result<&'a [u8], Es10cError>)
    ensures
        match body {
            Ok(b) => body_of(bytes@, expected@) == Ok::<Seq<u8>, Es10cFault>(b@) && b@.len()
                <= 0xffff_ffff,
            Err(e) => body_of(bytes@, expected@) == Err::<Seq<u8>, Es10cFault>(e@),
        },
{
    match read(bytes) {
        Err(_) => Err(Es10cError::Truncated),
        Ok(element) => {
            if !same_bytes(element.tag, expected) {
                return Err(unexpected_tag(expected, element.tag));
            }
            Ok(element.value)
        },
    }
}

fn expect_function<'a>(bytes: &'a [u8], function: u8) -> (body: Result<&'a [u8], Es10cError>)
    ensures
        match body {
            Ok(b) => body_of(bytes@, function_tag(function)) == Ok::<Seq<u8>, Es10cFault>(b@)
                && b@.len() <= 0xffff_ffff,
            Err(e) => body_of(bytes@, function_tag(function)) == Err::<Seq<u8>, Es10cFault>(e@),
        },
{
    expect_tag(bytes, &make_function_tag(function))
}

/// The first complete TLV in octets, tag and length along with it.
pub open spec fn whole_of(bytes: Seq<u8>) -> Result<Seq<u8>, Es10cFault> {
    match element_in(bytes) {
        Err(_) => Err(cut_short()),
        Ok(element) => Ok(element.whole),
    }
}

/// The first complete TLV in `bytes`, tag and length along with it.
///
/// A modem is free to pad its answer, and a trailing zero byte handed to an
/// SM-DP+ inside base64 is rejected by a strict DER parser.
pub fn first_tlv<'a>(bytes: &'a [u8]) -> (whole: Result<&'a [u8], Es10cError>)
    ensures
        match whole {
            Ok(w) => whole_of(bytes@) == Ok::<Seq<u8>, Es10cFault>(w@),
            Err(e) => whole_of(bytes@) == Err::<Seq<u8>, Es10cFault>(e@),
        },
{
    match read(bytes) {
        Ok(element) => Ok(element.whole),
        Err(_) => Err(Es10cError::Truncated),
    }
}

/// An unsigned integer of one to eight octets.
pub open spec fn integer_in(value: Seq<u8>) -> Result<u64, Es10cFault> {
    if value.len() == 0 || value.len() > 8 {
        Err(cut_short())
    } else {
        Ok(big_endian(value) as u64)
    }
}

fn integer(value: &[u8]) -> (number: Result<u64, Es10cError>)
    ensures
        match number {
            Ok(n) => integer_in(value@) == Ok::<u64, Es10cFault>(n) && n == big_endian(value@),
            Err(e) => integer_in(value@) == Err::<u64, Es10cFault>(e@),
        },
{
    if value.len() == 0 || value.len() > 8 {
        return Err(Es10cError::Truncated);
    }
    let mut number: u64 = 0;
    let mut i: usize = 0;
    proof {
        assert(value@.take(0) =~= Seq::empty());
    }
    while i < value.len()
        invariant
            i <= value@.len() <= 8,
            number == big_endian(value@.take(i as int)),
            i == 0 ==> number == 0,
            i == 1 ==> number <= 0xff,
            i == 2 ==> number <= 0xffff,
            i == 3 ==> number <= 0xff_ffff,
            i == 4 ==> number <= 0xffff_ffff,
            i == 5 ==> number <= 0xff_ffff_ffff,
            i == 6 ==> number <= 0xffff_ffff_ffff,
            i == 7 ==> number <= 0xff_ffff_ffff_ffff,
        decreases value@.len() - i,
    {
        proof {
            assert(value@.take(i + 1).drop_last() =~= value@.take(i as int));
        }
        number = 256 * number + value[i] as u64;
        i = i + 1;
    }
    proof {
        assert(value@.take(i as int) =~= value@);
    }
    Ok(number)
}

/// An optional integer: absent, or readable.
pub open spec fn optional_integer(value: Option<Seq<u8>>) -> Result<Option<u64>, Es10cFault> {
    match value {
        None => Ok(None),
        Some(v) => match integer_in(v) {
            Ok(n) => Ok(Some(n)),
            Err(e) => Err(e),
        },
    }
}

fn find_integer(bytes: &[u8], tag: u8) -> (number: Result<Option<u64>, Es10cError>)
    ensures
        match number {
            Ok(n) => optional_integer(tagged_in(bytes@, seq![tag])) == Ok::<
                Option<u64>,
                Es10cFault,
            >(n),
            Err(e) => optional_integer(tagged_in(bytes@, seq![tag])) == Err::<
                Option<u64>,
                Es10cFault,
            >(e@),
        },
{
    match find_tag(bytes, &one(tag)) {
        None => Ok(None),
        Some(value) => match integer(value) {
            Ok(n) => Ok(Some(n)),
            Err(e) => Err(e),
        },
    }
}

/// A text field: none where nothing is left of it without the space around it.
pub open spec fn shown(value: Seq<u8>) -> Option<Seq<char>> {
    let text = trimmed(lossy(value));
    if text.len() == 0 {
        None
    } else {
        Some(text)
    }
}

fn trimmed_text(value: &[u8]) -> (text: String)
    ensures
        text@ == trimmed(lossy(value@)),
{
    let raw: String = lossy_text(value);
    let chars: Vec<char> = chars_of(raw.as_str());
    string_of(trim(&chars))
}

fn text(value: &[u8]) -> (text: Option<String>)
    ensures
        opt_text(text) == shown(value@),
{
    let text: String = trimmed_text(value);
    if text.as_str().is_empty() {
        None
    } else {
        Some(text)
    }
}

fn hex_upper_text(value: &[u8]) -> (text: String)
    ensures
        text@ == hex_text_upper(value@),
{
    let mut text: String = String::new();
    push_hex_text_upper(&mut text, value);
    proof {
        assert(text@ =~= hex_text_upper(value@));
    }
    text
}

/// Octets as decimal numbers with dots between them.
pub open spec fn dotted(value: Seq<u8>) -> Seq<char>
    decreases value.len(),
{
    if value.len() == 0 {
        Seq::empty()
    } else if value.len() == 1 {
        decimal(value[0] as nat)
    } else {
        dotted(value.drop_last()) + "."@ + decimal(value.last() as nat)
    }
}

/// `VersionType` is three bytes of major, minor and patch.
fn version(value: &[u8]) -> (text: String)
    ensures
        text@ == dotted(value@),
{
    let mut text: String = String::new();
    let mut i: usize = 0;
    proof {
        assert(value@.take(0) =~= Seq::empty());
        assert(text@ =~= dotted(value@.take(0)));
    }
    while i < value.len()
        invariant
            i <= value@.len(),
            text@ == dotted(value@.take(i as int)),
        decreases value@.len() - i,
    {
        let ghost before = text@;
        if i > 0 {
            text.append(".");
        }
        push_decimal(&mut text, value[i] as u64);
        proof {
            assert(value@.take(i + 1).drop_last() =~= value@.take(i as int));
            assert(text@ =~= dotted(value@.take(i + 1)));
        }
        i = i + 1;
    }
    proof {
        assert(value@.take(i as int) =~= value@);
    }
    text
}

// ---------------------------------------------------------------------------
// Named bits
// ---------------------------------------------------------------------------

/// What a bit of an octet weighs, counted from the most significant one.
pub open spec fn bit_weight(k: int) -> int {
    if k == 0 {
        128
    } else if k == 1 {
        64
    } else if k == 2 {
        32
    } else if k == 3 {
        16
    } else if k == 4 {
        8
    } else if k == 5 {
        4
    } else if k == 6 {
        2
    } else {
        1
    }
}

/// Whether a bit of a bit string is set; bit zero is the most significant bit
/// of the first octet.
pub open spec fn bit_set(bytes: Seq<u8>, bit: int) -> bool {
    bytes[bit / 8] as int / bit_weight(bit % 8) % 2 == 1
}

/// The name of a bit, or its number where it has none.
pub open spec fn bit_name(names: Seq<Seq<char>>, bit: int) -> Seq<char> {
    if bit < names.len() {
        names[bit]
    } else {
        "bit"@ + decimal(bit as nat)
    }
}

/// The names of the set bits from `bit` on.
pub open spec fn bits_from(
    bytes: Seq<u8>,
    names: Seq<Seq<char>>,
    bit: int,
    significant: int,
) -> Seq<Seq<char>>
    decreases significant - bit,
{
    if bit >= significant {
        Seq::empty()
    } else if bit_set(bytes, bit) {
        seq![bit_name(names, bit)] + bits_from(bytes, names, bit + 1, significant)
    } else {
        bits_from(bytes, names, bit + 1, significant)
    }
}

/// How many bits of a bit string count: its first octet says how many at the
/// end do not.
pub open spec fn significant_bits(value: Seq<u8>) -> int {
    let all = 8 * (value.len() - 1);
    if all <= value[0] {
        0
    } else {
        all - value[0]
    }
}

/// The names of the bits that a BIT STRING sets.
pub open spec fn bits_in(value: Seq<u8>, names: Seq<Seq<char>>) -> Seq<Seq<char>> {
    if value.len() == 0 {
        Seq::empty()
    } else {
        bits_from(value.skip(1), names, 0, significant_bits(value))
    }
}

/// The characters of each name.
pub open spec fn names_of(names: Seq<&'static str>) -> Seq<Seq<char>> {
    names.map_values(|name: &'static str| name@)
}

fn weight(k: usize) -> (w: u8)
    requires
        k < 8,
    ensures
        w == bit_weight(k as int),
        w > 0,
{
    if k == 0 {
        128
    } else if k == 1 {
        64
    } else if k == 2 {
        32
    } else if k == 3 {
        16
    } else if k == 4 {
        8
    } else if k == 5 {
        4
    } else if k == 6 {
        2
    } else {
        1
    }
}

/// Decode a BER BIT STRING into the names of the bits that are set.
///
/// The first byte counts the unused trailing bits, and bit zero is the most
/// significant bit of the byte after it. Reading it the other way round turns
/// `install` into `delete`.
fn named_bits(value: &[u8], names: &[&'static str]) -> (set: Vec<String>)
    requires
        value@.len() <= 0xffff_ffff,
    ensures
        texts(set@) == bits_in(value@, names_of(names@)),
{
    let mut set: Vec<String> = Vec::new();
    if value.len() == 0 {
        proof {
            assert(texts(set@) =~= Seq::empty());
        }
        return set;
    }
    let ghost bytes = value@.skip(1);
    let ghost all_names = names_of(names@);
    let all: u64 = 8 * (value.len() as u64 - 1);
    let unused: u64 = value[0] as u64;
    let significant: u64 = if all <= unused {
        0
    } else {
        all - unused
    };
    let mut bit: u64 = 0;
    proof {
        assert(texts(set@) + bits_from(bytes, all_names, 0, significant as int) =~= bits_in(
            value@,
            all_names,
        ));
    }
    while bit < significant
        invariant
            bit <= significant,
            significant <= 8 * (value@.len() - 1),
            0 < value@.len() <= 0xffff_ffff,
            bytes == value@.skip(1),
            all_names == names_of(names@),
            texts(set@) + bits_from(bytes, all_names, bit as int, significant as int) == bits_in(
                value@,
                all_names,
            ),
        decreases significant - bit,
    {
        let octet: u8 = value[1 + (bit / 8) as usize];
        let w: u8 = weight((bit % 8) as usize);
        proof {
            assert(bytes[bit as int / 8] == octet);
        }
        if octet / w % 2 == 1 {
            let name: String = if bit < names.len() as u64 {
                proof {
                    assert(all_names[bit as int] == names@[bit as int]@);
                }
                owned(names[bit as usize])
            } else {
                let mut name: String = String::new();
                name.append("bit");
                push_decimal(&mut name, bit);
                proof {
                    assert(name@ =~= bit_name(all_names, bit as int));
                }
                name
            };
            let ghost before = set@;
            set.push(name);
            proof {
                assert(bit_set(bytes, bit as int));
                assert(texts(set@) =~= texts(before) + seq![bit_name(all_names, bit as int)]);
                assert(texts(set@) + bits_from(
                    bytes,
                    all_names,
                    bit + 1,
                    significant as int,
                ) =~= texts(before) + bits_from(bytes, all_names, bit as int, significant as int));
            }
        }
        bit = bit + 1;
    }
    proof {
        assert(texts(set@) + Seq::<Seq<char>>::empty() =~= texts(set@));
    }
    set
}

/// SGP.22 `NotificationEvent`, a BIT STRING.
pub open spec fn notification_events() -> Seq<Seq<char>> {
    seq!["install"@, "enable"@, "disable"@, "delete"@]
}

/// SGP.22 `RspCapability`, a BIT STRING.
pub open spec fn rsp_capabilities() -> Seq<Seq<char>> {
    seq![
        "additionalProfile"@,
        "crlSupport"@,
        "rpmSupport"@,
        "testProfileSupport"@,
        "deviceInfoExtensibilitySupport"@,
        "serviceSpecificDataSupport"@,
        "hriServerAddressSupport"@,
        "serviceProviderMessageSupport"@,
    ]
}

/// SGP.22 `UICCCapability`, a BIT STRING.
pub open spec fn uicc_capabilities() -> Seq<Seq<char>> {
    seq![
        "contactlessSupport"@,
        "usimSupport"@,
        "isimSupport"@,
        "csimSupport"@,
        "akaMilenage"@,
        "akaCave"@,
        "akaTuak128"@,
        "akaTuak256"@,
        "usimTestAlgorithm"@,
        "rfu2"@,
        "gbaAuthenUsim"@,
        "gbaAuthenISim"@,
        "mbmsAuthenUsim"@,
        "eapClient"@,
        "javacard"@,
        "multos"@,
        "multipleUsimSupport"@,
        "multipleIsimSupport"@,
        "multipleCsimSupport"@,
        "berTlvFileSupport"@,
        "dfLinkSupport"@,
        "catTp"@,
        "getIdentity"@,
        "profile-a-x25519"@,
        "profile-b-p256"@,
        "suciCalculatorApi"@,
    ]
}

/// SGP.22 `PprIds`, a BIT STRING.
pub open spec fn ppr_ids() -> Seq<Seq<char>> {
    seq!["pprUpdateControl"@, "ppr1"@, "ppr2"@]
}

fn event_bits(value: &[u8]) -> (set: Vec<String>)
    requires
        value@.len() <= 0xffff_ffff,
    ensures
        texts(set@) == bits_in(value@, notification_events()),
{
    let names: [&'static str; 4] = ["install", "enable", "disable", "delete"];
    proof {
        assert(names_of(names@) =~= notification_events());
    }
    named_bits(value, &names)
}

fn rsp_bits(value: &[u8]) -> (set: Vec<String>)
    requires
        value@.len() <= 0xffff_ffff,
    ensures
        texts(set@) == bits_in(value@, rsp_capabilities()),
{
    let names: [&'static str; 8] = [
        "additionalProfile",
        "crlSupport",
        "rpmSupport",
        "testProfileSupport",
        "deviceInfoExtensibilitySupport",
        "serviceSpecificDataSupport",
        "hriServerAddressSupport",
        "serviceProviderMessageSupport",
    ];
    proof {
        assert(names_of(names@) =~= rsp_capabilities());
    }
    named_bits(value, &names)
}

fn uicc_bits(value: &[u8]) -> (set: Vec<String>)
    requires
        value@.len() <= 0xffff_ffff,
    ensures
        texts(set@) == bits_in(value@, uicc_capabilities()),
{
    let names: [&'static str; 26] = [
        "contactlessSupport",
        "usimSupport",
        "isimSupport",
        "csimSupport",
        "akaMilenage",
        "akaCave",
        "akaTuak128",
        "akaTuak256",
        "usimTestAlgorithm",
        "rfu2",
        "gbaAuthenUsim",
        "gbaAuthenISim",
        "mbmsAuthenUsim",
        "eapClient",
        "javacard",
        "multos",
        "multipleUsimSupport",
        "multipleIsimSupport",
        "multipleCsimSupport",
        "berTlvFileSupport",
        "dfLinkSupport",
        "catTp",
        "getIdentity",
        "profile-a-x25519",
        "profile-b-p256",
        "suciCalculatorApi",
    ];
    proof {
        assert(names_of(names@) =~= uicc_capabilities());
    }
    named_bits(value, &names)
}

fn ppr_bits(value: &[u8]) -> (set: Vec<String>)
    requires
        value@.len() <= 0xffff_ffff,
    ensures
        texts(set@) == bits_in(value@, ppr_ids()),
{
    let names: [&'static str; 3] = ["pprUpdateControl", "ppr1", "ppr2"];
    proof {
        assert(names_of(names@) =~= ppr_ids());
    }
    named_bits(value, &names)
}

// ---------------------------------------------------------------------------
// Walking a list of elements
// ---------------------------------------------------------------------------

/// What becomes of `state` when every element of a list is taken up in turn.
/// Octets that are no element, and an element that cannot be taken up, end it.
pub open spec fn walked<A>(
    bytes: Seq<u8>,
    state: A,
    step: spec_fn(A, ElementModel) -> Result<A, Es10cFault>,
) -> Result<A, Es10cFault>
    decreases bytes.len(),
{
    if bytes.len() == 0 {
        Ok(state)
    } else {
        match element_in(bytes) {
            Err(_) => Err(cut_short()),
            Ok(element) => match step(state, element) {
                Err(e) => Err(e),
                Ok(next) => {
                    proof {
                        lemma_element(bytes);
                    }
                    walked(rest_after(bytes), next, step)
                },
            },
        }
    }
}

// ---------------------------------------------------------------------------
// Profiles
// ---------------------------------------------------------------------------

/// One profile as the eUICC reports it.
#[derive(Clone, Debug, PartialEq, Eq)]
pub struct Profile {
    pub iccid: String,
    pub isdp_aid: Option<String>,
    /// `true` when `profileState` is 1. Exactly one profile can be enabled.
    pub enabled: bool,
    pub nickname: Option<String>,
    pub provider: Option<String>,
    pub name: Option<String>,
    /// 0 test, 1 provisioning, 2 operational.
    pub class: Option<u8>,
}

/// A profile, by what its texts say.
#[verifier::ext_equal]
pub struct ProfileModel {
    pub iccid: Seq<char>,
    pub isdp_aid: Option<Seq<char>>,
    pub enabled: bool,
    pub nickname: Option<Seq<char>>,
    pub provider: Option<Seq<char>>,
    pub name: Option<Seq<char>>,
    pub class: Option<u8>,
}

impl View for Profile {
    type V = ProfileModel;

    open spec fn view(&self) -> ProfileModel {
        ProfileModel {
            iccid: self.iccid@,
            isdp_aid: opt_text(self.isdp_aid),
            enabled: self.enabled,
            nickname: opt_text(self.nickname),
            provider: opt_text(self.provider),
            name: opt_text(self.name),
            class: self.class,
        }
    }
}

/// A profile of which nothing is known.
pub open spec fn blank_profile() -> ProfileModel {
    ProfileModel {
        iccid: Seq::empty(),
        isdp_aid: None,
        enabled: false,
        nickname: None,
        provider: None,
        name: None,
        class: None,
    }
}

impl Default for Profile {
    fn default() -> (value: Self)
        ensures
            value@ == blank_profile(),
    {
        let value = Profile {
            iccid: String::new(),
            isdp_aid: None,
            enabled: false,
            nickname: None,
            provider: None,
            name: None,
            class: None,
        };
        proof {
            assert(value@ =~= blank_profile());
        }
        value
    }
}

impl Profile {
    /// The most useful human label the card offers, falling back to the ICCID.
    pub open spec fn label_text(self) -> Seq<char> {
        if self.nickname is Some {
            self.nickname->0@
        } else if self.name is Some {
            self.name->0@
        } else if self.provider is Some {
            self.provider->0@
        } else {
            self.iccid@
        }
    }

    /// The most useful human label the card offers, falling back to the ICCID.
    pub fn label(&self) -> (label: String)
        ensures
            label@ == self.label_text(),
    {
        match &self.nickname {
            Some(nickname) => owned(nickname.as_str()),
            None => match &self.name {
                Some(name) => owned(name.as_str()),
                None => match &self.provider {
                    Some(provider) => owned(provider.as_str()),
                    None => owned(self.iccid.as_str()),
                },
            },
        }
    }
}

/// The first octet of a value.
pub open spec fn first_octet(value: Seq<u8>) -> Option<u8> {
    if value.len() == 0 {
        None
    } else {
        Some(value[0])
    }
}

fn first_of(value: &[u8]) -> (first: Option<u8>)
    ensures
        first == first_octet(value@),
{
    if value.len() == 0 {
        None
    } else {
        Some(value[0])
    }
}

/// A profile with one element of its description taken up.
pub open spec fn profile_field(state: ProfileModel, element: ElementModel) -> Result<
    ProfileModel,
    Es10cFault,
> {
    let value = element.value;
    if element.tag == seq![TAG_ICCID] {
        match iccid_in(value) {
            Ok(iccid) => Ok(ProfileModel { iccid: iccid, ..state }),
            Err(_) => Err(plain(Es10cError::InvalidIccid)),
        }
    } else if element.tag == seq![TAG_ISDP_AID] {
        Ok(ProfileModel { isdp_aid: Some(hex_text_upper(value)), ..state })
    } else if element.tag == seq![TAG_NICKNAME] {
        Ok(ProfileModel { nickname: shown(value), ..state })
    } else if element.tag == seq![TAG_PROVIDER] {
        Ok(ProfileModel { provider: shown(value), ..state })
    } else if element.tag == seq![TAG_PROFILE_NAME] {
        Ok(ProfileModel { name: shown(value), ..state })
    } else if element.tag == seq![TAG_PROFILE_CLASS] {
        Ok(ProfileModel { class: first_octet(value), ..state })
    } else if element.tag == seq![0x9fu8, 0x70u8] {
        Ok(ProfileModel { enabled: first_octet(value) == Some(1u8), ..state })
    } else {
        Ok(state)
    }
}

/// How a profile is read.
pub open spec fn profile_step() -> spec_fn(ProfileModel, ElementModel) -> Result<ProfileModel, Es10cFault> {
    |state: ProfileModel, element: ElementModel| profile_field(state, element)
}

fn take_profile_field(state: &mut Profile, element: &Element) -> (done: Result<(), Es10cError>)
    requires
        element.value@.len() <= 0xffff_ffff,
    ensures
        match done {
            Ok(_) => profile_field(
                old(state)@,
                element@,
            ) == Ok::<ProfileModel, Es10cFault>(final(state)@),
            Err(e) => profile_field(old(state)@, element@) == Err::<ProfileModel, Es10cFault>(e@),
        },
{
    if tag_is(element.tag, TAG_ICCID) {
        match decode_iccid(element.value) {
            Ok(iccid) => {
                state.iccid = iccid;
            },
            Err(_) => return Err(Es10cError::InvalidIccid),
        }
    } else if tag_is(element.tag, TAG_ISDP_AID) {
        state.isdp_aid = Some(hex_upper_text(element.value));
    } else if tag_is(element.tag, TAG_NICKNAME) {
        state.nickname = text(element.value);
    } else if tag_is(element.tag, TAG_PROVIDER) {
        state.provider = text(element.value);
    } else if tag_is(element.tag, TAG_PROFILE_NAME) {
        state.name = text(element.value);
    } else if tag_is(element.tag, TAG_PROFILE_CLASS) {
        state.class = first_of(element.value);
    } else if tag_is_pair(element.tag, 0x9f, 0x70) {
        state.enabled = match first_of(element.value) {
            Some(octet) => octet == 1,
            None => false,
        };
    }
    proof {
        assert(state@ =~= profile_field(old(state)@, element@)->Ok_0);
    }
    Ok(())
}

fn read_profile_fields(bytes: &[u8], state: &mut Profile) -> (done: Result<(), Es10cError>)
    ensures
        match done {
            Ok(_) => walked(bytes@, old(state)@, profile_step()) == Ok::<ProfileModel, Es10cFault>(
                final(state)@,
            ),
            Err(e) => walked(
                bytes@,
                old(state)@,
                profile_step(),
            ) == Err::<ProfileModel, Es10cFault>(e@),
        },
{
    let mut rest: &[u8] = bytes;
    while rest.len() > 0
        invariant
            walked(rest@, state@, profile_step()) == walked(bytes@, old(state)@, profile_step()),
        decreases rest@.len(),
    {
        match read(rest) {
            Err(_) => return Err(Es10cError::Truncated),
            Ok(element) => {
                match take_profile_field(state, &element) {
                    Ok(_) => {},
                    Err(e) => return Err(e),
                }
                rest = element.rest;
            },
        }
    }
    Ok(())
}

/// The models of profiles.
pub open spec fn profile_models(profiles: Seq<Profile>) -> Seq<ProfileModel> {
    profiles.map_values(|profile: Profile| profile@)
}

/// Profiles with one element of their list taken up. Elements of another kind
/// are passed over.
pub open spec fn profile_entry(state: Seq<ProfileModel>, element: ElementModel) -> Result<
    Seq<ProfileModel>,
    Es10cFault,
> {
    if element.tag != seq![TAG_PROFILE] {
        Ok(state)
    } else {
        match walked(element.value, blank_profile(), profile_step()) {
            Ok(profile) => Ok(state.push(profile)),
            Err(e) => Err(e),
        }
    }
}

/// How a list of profiles is read.
pub open spec fn profile_list_step() -> spec_fn(Seq<ProfileModel>, ElementModel) -> Result<
    Seq<ProfileModel>,
    Es10cFault,
> {
    |state: Seq<ProfileModel>, element: ElementModel| profile_entry(state, element)
}

/// The profiles in an answer to `GetProfilesInfo`.
pub open spec fn profiles_in(response: Seq<u8>) -> Result<Seq<ProfileModel>, Es10cFault> {
    match body_of(response, function_tag(FN_GET_PROFILES_INFO)) {
        Err(e) => Err(e),
        Ok(body) => match element_in(body) {
            Err(_) => Err(cut_short()),
            Ok(list) => if list.tag != seq![TAG_PROFILE_LIST] {
                Err(plain(Es10cError::MissingProfileList))
            } else {
                walked(list.value, Seq::empty(), profile_list_step())
            },
        },
    }
}

/// Parse a `GetProfilesInfo` response. A card with no profiles answers with an
/// error tag instead of an empty list, so that is a refusal rather than "none
/// installed".
pub fn parse_profiles(response: &[u8]) -> (profiles: Result<Vec<Profile>, Es10cError>)
    ensures
        match profiles {
            Ok(p) => profiles_in(response@) == Ok::<Seq<ProfileModel>, Es10cFault>(
                profile_models(p@),
            ),
            Err(e) => profiles_in(response@) == Err::<Seq<ProfileModel>, Es10cFault>(e@),
        },
{
    let body: &[u8] = match expect_function(response, FN_GET_PROFILES_INFO) {
        Ok(body) => body,
        Err(e) => return Err(e),
    };
    let list: Element = match read(body) {
        Ok(list) => list,
        Err(_) => return Err(Es10cError::Truncated),
    };
    if !tag_is(list.tag, TAG_PROFILE_LIST) {
        return Err(Es10cError::MissingProfileList);
    }
    let mut profiles: Vec<Profile> = Vec::new();
    let mut rest: &[u8] = list.value;
    let ghost wanted = walked(list.value@, Seq::<ProfileModel>::empty(), profile_list_step());
    proof {
        assert(profile_models(profiles@) =~= Seq::empty());
    }
    while rest.len() > 0
        invariant
            walked(rest@, profile_models(profiles@), profile_list_step()) == wanted,
            profiles_in(response@) == wanted,
        decreases rest@.len(),
    {
        match read(rest) {
            Err(_) => return Err(Es10cError::Truncated),
            Ok(element) => {
                if tag_is(element.tag, TAG_PROFILE) {
                    let mut profile: Profile = Profile::default();
                    match read_profile_fields(element.value, &mut profile) {
                        Ok(_) => {},
                        Err(e) => return Err(e),
                    }
                    let ghost before = profile_models(profiles@);
                    profiles.push(profile);
                    proof {
                        assert(profile_models(profiles@) =~= before.push(profile@));
                    }
                }
                rest = element.rest;
            },
        }
    }
    Ok(profiles)
}

// ---------------------------------------------------------------------------
// Results of profile commands
// ---------------------------------------------------------------------------

/// The commands on a profile that answer with a result code.
#[derive(Clone, Copy, Debug, PartialEq, Eq, Structural)]
pub enum ProfileCommand {
    Enable,
    Disable,
    SetNickname,
    Delete,
}

/// The tag octet of a command.
pub open spec fn command_function(command: ProfileCommand) -> u8 {
    match command {
        ProfileCommand::Enable => FN_ENABLE_PROFILE,
        ProfileCommand::Disable => FN_DISABLE_PROFILE,
        ProfileCommand::SetNickname => FN_SET_NICKNAME,
        ProfileCommand::Delete => FN_DELETE_PROFILE,
    }
}

/// SGP.22 result codes in words. The one worth naming for a deletion: a card
/// refuses to delete the profile it is currently running on.
pub open spec fn refusal_reason(command: ProfileCommand, code: u8) -> &'static str {
    match command {
        ProfileCommand::Enable => if code == 1 {
            "ICCID or AID not found"
        } else if code == 2 {
            "profile is not in the disabled state"
        } else if code == 3 {
            "disallowed by policy"
        } else if code == 4 {
            "wrong profile reenabled"
        } else if code == 5 {
            "catBusy"
        } else {
            "undefined error"
        },
        ProfileCommand::Disable => if code == 1 {
            "ICCID or AID not found"
        } else if code == 2 {
            "profile is not in the enabled state"
        } else if code == 3 {
            "disallowed by policy"
        } else if code == 4 {
            "catBusy"
        } else if code == 5 {
            "catBusy"
        } else {
            "undefined error"
        },
        ProfileCommand::SetNickname => if code == 1 {
            "ICCID or AID not found"
        } else {
            "undefined error"
        },
        ProfileCommand::Delete => if code == 1 {
            "ICCID or AID not found"
        } else if code == 2 {
            "profile is not in the disabled state"
        } else if code == 3 {
            "disallowed by policy"
        } else {
            "undefined error"
        },
    }
}

fn refusal(command: ProfileCommand, code: u8) -> (reason: &'static str)
    ensures
        reason == refusal_reason(command, code),
{
    match command {
        ProfileCommand::Enable => match code {
            1 => "ICCID or AID not found",
            2 => "profile is not in the disabled state",
            3 => "disallowed by policy",
            4 => "wrong profile reenabled",
            5 => "catBusy",
            _ => "undefined error",
        },
        ProfileCommand::Disable => match code {
            1 => "ICCID or AID not found",
            2 => "profile is not in the enabled state",
            3 => "disallowed by policy",
            4 => "catBusy",
            5 => "catBusy",
            _ => "undefined error",
        },
        ProfileCommand::SetNickname => match code {
            1 => "ICCID or AID not found",
            _ => "undefined error",
        },
        ProfileCommand::Delete => match code {
            1 => "ICCID or AID not found",
            2 => "profile is not in the disabled state",
            3 => "disallowed by policy",
            _ => "undefined error",
        },
    }
}

/// The value of the one element that a function's answer has to start with.
pub open spec fn answer_value(response: Seq<u8>, function: u8, tag: u8) -> Result<
    Seq<u8>,
    Es10cFault,
> {
    match body_of(response, function_tag(function)) {
        Err(e) => Err(e),
        Ok(body) => body_of(body, seq![tag]),
    }
}

fn expect_answer<'a>(response: &'a [u8], function: u8, tag: u8) -> (value: Result<
    &'a [u8],
    Es10cError,
>)
    ensures
        match value {
            Ok(v) => answer_value(response@, function, tag) == Ok::<Seq<u8>, Es10cFault>(v@)
                && v@.len() <= 0xffff_ffff,
            Err(e) => answer_value(response@, function, tag) == Err::<Seq<u8>, Es10cFault>(e@),
        },
{
    match expect_function(response, function) {
        Ok(body) => expect_tag(body, &one(tag)),
        Err(e) => Err(e),
    }
}

/// Whether a command was carried out.
pub open spec fn command_result(response: Seq<u8>, command: ProfileCommand) -> Result<
    (),
    Es10cFault,
> {
    match answer_value(response, command_function(command), TAG_RESULT) {
        Err(e) => Err(e),
        Ok(value) => if value.len() == 0 {
            Err(cut_short())
        } else if value[0] == 0 {
            Ok(())
        } else {
            Err(
                plain(
                    Es10cError::Refused {
                        code: value[0],
                        reason: refusal_reason(command, value[0]),
                    },
                ),
            )
        },
    }
}

fn parse_command_result(response: &[u8], command: ProfileCommand) -> (done: Result<
    (),
    Es10cError,
>)
    ensures
        match done {
            Ok(_) => command_result(response@, command) is Ok,
            Err(e) => command_result(response@, command) == Err::<(), Es10cFault>(e@),
        },
{
    let function: u8 = match command {
        ProfileCommand::Enable => FN_ENABLE_PROFILE,
        ProfileCommand::Disable => FN_DISABLE_PROFILE,
        ProfileCommand::SetNickname => FN_SET_NICKNAME,
        ProfileCommand::Delete => FN_DELETE_PROFILE,
    };
    let value: &[u8] = match expect_answer(response, function, TAG_RESULT) {
        Ok(value) => value,
        Err(e) => return Err(e),
    };
    if value.len() == 0 {
        return Err(Es10cError::Truncated);
    }
    if value[0] == 0 {
        return Ok(());
    }
    Err(Es10cError::Refused { code: value[0], reason: refusal(command, value[0]) })
}

/// Parse an `EnableProfile` or `DisableProfile` response.
pub fn parse_profile_result(response: &[u8], enable: bool) -> (done: Result<(), Es10cError>)
    ensures
        ({
            let command = if enable {
                ProfileCommand::Enable
            } else {
                ProfileCommand::Disable
            };
            match done {
                Ok(_) => command_result(response@, command) is Ok,
                Err(e) => command_result(response@, command) == Err::<(), Es10cFault>(e@),
            }
        }),
{
    if enable {
        parse_command_result(response, ProfileCommand::Enable)
    } else {
        parse_command_result(response, ProfileCommand::Disable)
    }
}

/// Parse a `SetNickname` response.
pub fn parse_set_nickname_result(response: &[u8]) -> (done: Result<(), Es10cError>)
    ensures
        match done {
            Ok(_) => command_result(response@, ProfileCommand::SetNickname) is Ok,
            Err(e) => command_result(response@, ProfileCommand::SetNickname) == Err::<
                (),
                Es10cFault,
            >(e@),
        },
{
    parse_command_result(response, ProfileCommand::SetNickname)
}

/// Parse a `DeleteProfile` response.
pub fn parse_delete_result(response: &[u8]) -> (done: Result<(), Es10cError>)
    ensures
        match done {
            Ok(_) => command_result(response@, ProfileCommand::Delete) is Ok,
            Err(e) => command_result(response@, ProfileCommand::Delete) == Err::<
                (),
                Es10cFault,
            >(e@),
        },
{
    parse_command_result(response, ProfileCommand::Delete)
}

/// The EID in an answer to `GetEUICCData`: sixteen octets in reading order.
pub open spec fn eid_answer(response: Seq<u8>) -> Result<Seq<char>, Es10cFault> {
    match answer_value(response, FN_GET_EUICC_DATA, TAG_ICCID) {
        Err(e) => Err(e),
        Ok(value) => if value.len() != 16 {
            Err(cut_short())
        } else {
            Ok(nibbles(value))
        },
    }
}

/// Parse an ES10c `GetEUICCData` response into the 32 EID digits.
///
/// The EID reuses tag 5A. Same tag, different meaning: sixteen BCD bytes in
/// reading order rather than a nibble-swapped ICCID.
pub fn parse_eid_response(response: &[u8]) -> (eid: Result<String, Es10cError>)
    ensures
        reads(eid, eid_answer(response@)),
{
    match expect_answer(response, FN_GET_EUICC_DATA, TAG_ICCID) {
        Ok(value) => {
            if value.len() != 16 {
                return Err(Es10cError::Truncated);
            }
            Ok(bcd_digits(value))
        },
        Err(e) => Err(e),
    }
}

// ---------------------------------------------------------------------------
// What the chip says of itself
// ---------------------------------------------------------------------------

/// What `GetEUICCInfo2` says about the chip.
///
/// Decoded in full rather than checked for a success tag. The interesting
/// numbers for anyone about to download a profile are the free non-volatile
/// memory and the CI public keys the chip will verify against.
#[derive(Clone, Debug, PartialEq, Eq)]
pub struct EuiccInfo2 {
    pub profile_version: Option<String>,
    /// SGP.22 version the chip implements.
    pub svn: Option<String>,
    pub firmware_version: Option<String>,
    pub installed_applications: Option<u64>,
    pub free_non_volatile_memory: Option<u64>,
    pub free_volatile_memory: Option<u64>,
    pub uicc_capabilities: Vec<String>,
    pub ts102241_version: Option<String>,
    pub global_platform_version: Option<String>,
    pub rsp_capabilities: Vec<String>,
    /// GSMA CI public key identifiers the chip verifies signatures against.
    pub ci_key_ids_for_verification: Vec<String>,
    /// CI public key identifiers the chip can sign with.
    pub ci_key_ids_for_signing: Vec<String>,
    pub category: Option<u64>,
    pub forbidden_profile_policy_rules: Vec<String>,
    pub pp_version: Option<String>,
    pub sas_accreditation_number: Option<String>,
}

/// The chip description, by what its texts say.
#[verifier::ext_equal]
pub struct EuiccInfo2Model {
    pub profile_version: Option<Seq<char>>,
    pub svn: Option<Seq<char>>,
    pub firmware_version: Option<Seq<char>>,
    pub installed_applications: Option<u64>,
    pub free_non_volatile_memory: Option<u64>,
    pub free_volatile_memory: Option<u64>,
    pub uicc_capabilities: Seq<Seq<char>>,
    pub ts102241_version: Option<Seq<char>>,
    pub global_platform_version: Option<Seq<char>>,
    pub rsp_capabilities: Seq<Seq<char>>,
    pub ci_key_ids_for_verification: Seq<Seq<char>>,
    pub ci_key_ids_for_signing: Seq<Seq<char>>,
    pub category: Option<u64>,
    pub forbidden_profile_policy_rules: Seq<Seq<char>>,
    pub pp_version: Option<Seq<char>>,
    pub sas_accreditation_number: Option<Seq<char>>,
}

impl View for EuiccInfo2 {
    type V = EuiccInfo2Model;

    open spec fn view(&self) -> EuiccInfo2Model {
        EuiccInfo2Model {
            profile_version: opt_text(self.profile_version),
            svn: opt_text(self.svn),
            firmware_version: opt_text(self.firmware_version),
            installed_applications: self.installed_applications,
            free_non_volatile_memory: self.free_non_volatile_memory,
            free_volatile_memory: self.free_volatile_memory,
            uicc_capabilities: texts(self.uicc_capabilities@),
            ts102241_version: opt_text(self.ts102241_version),
            global_platform_version: opt_text(self.global_platform_version),
            rsp_capabilities: texts(self.rsp_capabilities@),
            ci_key_ids_for_verification: texts(self.ci_key_ids_for_verification@),
            ci_key_ids_for_signing: texts(self.ci_key_ids_for_signing@),
            category: self.category,
            forbidden_profile_policy_rules: texts(self.forbidden_profile_policy_rules@),
            pp_version: opt_text(self.pp_version),
            sas_accreditation_number: opt_text(self.sas_accreditation_number),
        }
    }
}

/// A chip of which nothing is known.
pub open spec fn blank_info2() -> EuiccInfo2Model {
    EuiccInfo2Model {
        profile_version: None,
        svn: None,
        firmware_version: None,
        installed_applications: None,
        free_non_volatile_memory: None,
        free_volatile_memory: None,
        uicc_capabilities: Seq::empty(),
        ts102241_version: None,
        global_platform_version: None,
        rsp_capabilities: Seq::empty(),
        ci_key_ids_for_verification: Seq::empty(),
        ci_key_ids_for_signing: Seq::empty(),
        category: None,
        forbidden_profile_policy_rules: Seq::empty(),
        pp_version: None,
        sas_accreditation_number: None,
    }
}

impl Default for EuiccInfo2 {
    fn default() -> (value: Self)
        ensures
            value@ == blank_info2(),
    {
        let value = EuiccInfo2 {
            profile_version: None,
            svn: None,
            firmware_version: None,
            installed_applications: None,
            free_non_volatile_memory: None,
            free_volatile_memory: None,
            uicc_capabilities: Vec::new(),
            ts102241_version: None,
            global_platform_version: None,
            rsp_capabilities: Vec::new(),
            ci_key_ids_for_verification: Vec::new(),
            ci_key_ids_for_signing: Vec::new(),
            category: None,
            forbidden_profile_policy_rules: Vec::new(),
            pp_version: None,
            sas_accreditation_number: None,
        };
        proof {
            assert(value@ =~= blank_info2());
        }
        value
    }
}

pub open spec fn one_if(present: bool) -> nat {
    if present {
        1
    } else {
        0
    }
}

fn count_text(text: &Option<String>) -> (count: usize)
    ensures
        count == one_if(opt_text(*text) is Some),
{
    if text.is_some() {
        1
    } else {
        0
    }
}

fn count_number(number: &Option<u64>) -> (count: usize)
    ensures
        count == one_if(number is Some),
{
    if number.is_some() {
        1
    } else {
        0
    }
}

fn count_list(list: &Vec<String>) -> (count: usize)
    ensures
        count == one_if(texts(list@).len() > 0),
{
    if list.len() > 0 {
        1
    } else {
        0
    }
}

impl EuiccInfo2Model {
    /// How many of the sixteen fields the card populated.
    pub open spec fn populated(self) -> nat {
        one_if(self.profile_version is Some)
            + one_if(self.svn is Some)
            + one_if(self.firmware_version is Some)
            + one_if(self.installed_applications is Some)
            + one_if(self.free_non_volatile_memory is Some)
            + one_if(self.free_volatile_memory is Some)
            + one_if(self.uicc_capabilities.len() > 0)
            + one_if(self.ts102241_version is Some)
            + one_if(self.global_platform_version is Some)
            + one_if(self.rsp_capabilities.len() > 0)
            + one_if(self.ci_key_ids_for_verification.len() > 0)
            + one_if(self.ci_key_ids_for_signing.len() > 0)
            + one_if(self.category is Some)
            + one_if(self.forbidden_profile_policy_rules.len() > 0)
            + one_if(self.pp_version is Some)
            + one_if(self.sas_accreditation_number is Some)
    }
}

impl EuiccInfo2 {
    /// How many of the sixteen fields the card actually populated.
    ///
    /// The point of a count is that a caller can insist the decoder read the
    /// whole answer. "No error" holds just as well where a truncated response
    /// yielded one field out of sixteen, which is what a single round of
    /// GET RESPONSE produces.
    pub fn populated_fields(&self) -> (count: usize)
        ensures
            count == self@.populated(),
    {
        count_text(&self.profile_version)
            + count_text(&self.svn)
            + count_text(&self.firmware_version)
            + count_number(&self.installed_applications)
            + count_number(&self.free_non_volatile_memory)
            + count_number(&self.free_volatile_memory)
            + count_list(&self.uicc_capabilities)
            + count_text(&self.ts102241_version)
            + count_text(&self.global_platform_version)
            + count_list(&self.rsp_capabilities)
            + count_list(&self.ci_key_ids_for_verification)
            + count_list(&self.ci_key_ids_for_signing)
            + count_number(&self.category)
            + count_list(&self.forbidden_profile_policy_rules)
            + count_text(&self.pp_version)
            + count_text(&self.sas_accreditation_number)
    }
}

/// Identifiers with one element of their list taken up.
pub open spec fn key_entry(state: Seq<Seq<char>>, element: ElementModel) -> Result<
    Seq<Seq<char>>,
    Es10cFault,
> {
    if element.tag == seq![TAG_OCTET_STRING] {
        Ok(state.push(hex_text_upper(element.value)))
    } else {
        Ok(state)
    }
}

/// How a list of key identifiers is read.
pub open spec fn key_step() -> spec_fn(Seq<Seq<char>>, ElementModel) -> Result<
    Seq<Seq<char>>,
    Es10cFault,
> {
    |state: Seq<Seq<char>>, element: ElementModel| key_entry(state, element)
}

/// The key identifiers in a list of octet strings.
pub open spec fn keys_in(value: Seq<u8>) -> Result<Seq<Seq<char>>, Es10cFault> {
    walked(value, Seq::empty(), key_step())
}

fn key_identifiers(value: &[u8]) -> (keys: Result<Vec<String>, Es10cError>)
    ensures
        match keys {
            Ok(k) => keys_in(value@) == Ok::<Seq<Seq<char>>, Es10cFault>(texts(k@)),
            Err(e) => keys_in(value@) == Err::<Seq<Seq<char>>, Es10cFault>(e@),
        },
{
    let mut keys: Vec<String> = Vec::new();
    let mut rest: &[u8] = value;
    proof {
        assert(texts(keys@) =~= Seq::empty());
    }
    while rest.len() > 0
        invariant
            walked(rest@, texts(keys@), key_step()) == keys_in(value@),
        decreases rest@.len(),
    {
        match read(rest) {
            Err(_) => return Err(Es10cError::Truncated),
            Ok(element) => {
                if tag_is(element.tag, TAG_OCTET_STRING) {
                    let ghost before = texts(keys@);
                    let key: String = hex_upper_text(element.value);
                    keys.push(key);
                    proof {
                        assert(texts(keys@) =~= before.push(hex_text_upper(element.value@)));
                    }
                }
                rest = element.rest;
            },
        }
    }
    Ok(keys)
}

/// A chip description with one element of the card resources taken up.
pub open spec fn resource_field(state: EuiccInfo2Model, element: ElementModel) -> Result<
    EuiccInfo2Model,
    Es10cFault,
> {
    let value = element.value;
    if element.tag == seq![0x81u8] {
        match integer_in(value) {
            Ok(n) => Ok(EuiccInfo2Model { installed_applications: Some(n), ..state }),
            Err(e) => Err(e),
        }
    } else if element.tag == seq![0x82u8] {
        match integer_in(value) {
            Ok(n) => Ok(EuiccInfo2Model { free_non_volatile_memory: Some(n), ..state }),
            Err(e) => Err(e),
        }
    } else if element.tag == seq![0x83u8] {
        match integer_in(value) {
            Ok(n) => Ok(EuiccInfo2Model { free_volatile_memory: Some(n), ..state }),
            Err(e) => Err(e),
        }
    } else {
        Ok(state)
    }
}

/// How ETSI TS 102 226 `extendedCardResource` is read.
pub open spec fn resource_step() -> spec_fn(EuiccInfo2Model, ElementModel) -> Result<EuiccInfo2Model, Es10cFault> {
    |state: EuiccInfo2Model, element: ElementModel| resource_field(state, element)
}

fn take_resource(state: &mut EuiccInfo2, element: &Element) -> (done: Result<(), Es10cError>)
    requires
        element.value@.len() <= 0xffff_ffff,
    ensures
        match done {
            Ok(_) => resource_field(
                old(state)@,
                element@,
            ) == Ok::<EuiccInfo2Model, Es10cFault>(final(state)@),
            Err(e) => resource_field(
                old(state)@,
                element@,
            ) == Err::<EuiccInfo2Model, Es10cFault>(e@),
        },
{
    if tag_is(element.tag, 0x81) {
        match integer(element.value) {
            Ok(n) => {
                state.installed_applications = Some(n);
            },
            Err(e) => return Err(e),
        }
    } else if tag_is(element.tag, 0x82) {
        match integer(element.value) {
            Ok(n) => {
                state.free_non_volatile_memory = Some(n);
            },
            Err(e) => return Err(e),
        }
    } else if tag_is(element.tag, 0x83) {
        match integer(element.value) {
            Ok(n) => {
                state.free_volatile_memory = Some(n);
            },
            Err(e) => return Err(e),
        }
    }
    proof {
        assert(state@ =~= resource_field(old(state)@, element@)->Ok_0);
    }
    Ok(())
}

/// ETSI TS 102 226 `extendedCardResource`, carried as an OCTET STRING.
fn read_card_resource(bytes: &[u8], state: &mut EuiccInfo2) -> (done: Result<(), Es10cError>)
    ensures
        match done {
            Ok(_) => walked(bytes@, old(state)@, resource_step()) == Ok::<EuiccInfo2Model, Es10cFault>(
                final(state)@,
            ),
            Err(e) => walked(
                bytes@,
                old(state)@,
                resource_step(),
            ) == Err::<EuiccInfo2Model, Es10cFault>(e@),
        },
{
    let mut rest: &[u8] = bytes;
    while rest.len() > 0
        invariant
            walked(rest@, state@, resource_step()) == walked(bytes@, old(state)@, resource_step()),
        decreases rest@.len(),
    {
        match read(rest) {
            Err(_) => return Err(Es10cError::Truncated),
            Ok(element) => {
                match take_resource(state, &element) {
                    Ok(_) => {},
                    Err(e) => return Err(e),
                }
                rest = element.rest;
            },
        }
    }
    Ok(())
}

/// A chip description with one of its elements taken up. The last two carry
/// no context tag: SGP.22 leaves them universally tagged.
pub open spec fn info2_field(state: EuiccInfo2Model, element: ElementModel) -> Result<
    EuiccInfo2Model,
    Es10cFault,
> {
    let value = element.value;
    if element.tag == seq![0x81u8] {
        Ok(EuiccInfo2Model { profile_version: Some(dotted(value)), ..state })
    } else if element.tag == seq![0x82u8] {
        Ok(EuiccInfo2Model { svn: Some(dotted(value)), ..state })
    } else if element.tag == seq![0x83u8] {
        Ok(EuiccInfo2Model { firmware_version: Some(dotted(value)), ..state })
    } else if element.tag == seq![0x84u8] {
        walked(value, state, resource_step())
    } else if element.tag == seq![0x85u8] {
        Ok(EuiccInfo2Model { uicc_capabilities: bits_in(value, uicc_capabilities()), ..state })
    } else if element.tag == seq![0x86u8] {
        Ok(EuiccInfo2Model { ts102241_version: Some(dotted(value)), ..state })
    } else if element.tag == seq![0x87u8] {
        Ok(EuiccInfo2Model { global_platform_version: Some(dotted(value)), ..state })
    } else if element.tag == seq![0x88u8] {
        Ok(EuiccInfo2Model { rsp_capabilities: bits_in(value, rsp_capabilities()), ..state })
    } else if element.tag == seq![0xa9u8] {
        match keys_in(value) {
            Ok(keys) => Ok(EuiccInfo2Model { ci_key_ids_for_verification: keys, ..state }),
            Err(e) => Err(e),
        }
    } else if element.tag == seq![0xaau8] {
        match keys_in(value) {
            Ok(keys) => Ok(EuiccInfo2Model { ci_key_ids_for_signing: keys, ..state }),
            Err(e) => Err(e),
        }
    } else if element.tag == seq![0x8bu8] {
        match integer_in(value) {
            Ok(n) => Ok(EuiccInfo2Model { category: Some(n), ..state }),
            Err(e) => Err(e),
        }
    } else if element.tag == seq![0x99u8] {
        Ok(EuiccInfo2Model { forbidden_profile_policy_rules: bits_in(value, ppr_ids()), ..state })
    } else if element.tag == seq![TAG_OCTET_STRING] {
        Ok(EuiccInfo2Model { pp_version: Some(dotted(value)), ..state })
    } else if element.tag == seq![TAG_UTF8_STRING] {
        Ok(EuiccInfo2Model { sas_accreditation_number: shown(value), ..state })
    } else {
        Ok(state)
    }
}

/// How a chip description is read.
pub open spec fn info2_step() -> spec_fn(EuiccInfo2Model, ElementModel) -> Result<EuiccInfo2Model, Es10cFault> {
    |state: EuiccInfo2Model, element: ElementModel| info2_field(state, element)
}

fn take_info2_field(state: &mut EuiccInfo2, element: &Element) -> (done: Result<(), Es10cError>)
    requires
        element.value@.len() <= 0xffff_ffff,
    ensures
        match done {
            Ok(_) => info2_field(
                old(state)@,
                element@,
            ) == Ok::<EuiccInfo2Model, Es10cFault>(final(state)@),
            Err(e) => info2_field(old(state)@, element@) == Err::<EuiccInfo2Model, Es10cFault>(e@),
        },
{
    if tag_is(element.tag, 0x81) {
        state.profile_version = Some(version(element.value));
    } else if tag_is(element.tag, 0x82) {
        state.svn = Some(version(element.value));
    } else if tag_is(element.tag, 0x83) {
        state.firmware_version = Some(version(element.value));
    } else if tag_is(element.tag, 0x84) {
        match read_card_resource(element.value, state) {
            Ok(_) => {},
            Err(e) => return Err(e),
        }
    } else if tag_is(element.tag, 0x85) {
        state.uicc_capabilities = uicc_bits(element.value);
    } else if tag_is(element.tag, 0x86) {
        state.ts102241_version = Some(version(element.value));
    } else if tag_is(element.tag, 0x87) {
        state.global_platform_version = Some(version(element.value));
    } else if tag_is(element.tag, 0x88) {
        state.rsp_capabilities = rsp_bits(element.value);
    } else if tag_is(element.tag, 0xa9) {
        match key_identifiers(element.value) {
            Ok(keys) => {
                state.ci_key_ids_for_verification = keys;
            },
            Err(e) => return Err(e),
        }
    } else if tag_is(element.tag, 0xaa) {
        match key_identifiers(element.value) {
            Ok(keys) => {
                state.ci_key_ids_for_signing = keys;
            },
            Err(e) => return Err(e),
        }
    } else if tag_is(element.tag, 0x8b) {
        match integer(element.value) {
            Ok(n) => {
                state.category = Some(n);
            },
            Err(e) => return Err(e),
        }
    } else if tag_is(element.tag, 0x99) {
        state.forbidden_profile_policy_rules = ppr_bits(element.value);
    } else if tag_is(element.tag, TAG_OCTET_STRING) {
        state.pp_version = Some(version(element.value));
    } else if tag_is(element.tag, TAG_UTF8_STRING) {
        state.sas_accreditation_number = text(element.value);
    }
    proof {
        assert(state@ =~= info2_field(old(state)@, element@)->Ok_0);
    }
    Ok(())
}

fn read_info2_fields(bytes: &[u8], state: &mut EuiccInfo2) -> (done: Result<(), Es10cError>)
    ensures
        match done {
            Ok(_) => walked(bytes@, old(state)@, info2_step()) == Ok::<EuiccInfo2Model, Es10cFault>(
                final(state)@,
            ),
            Err(e) => walked(
                bytes@,
                old(state)@,
                info2_step(),
            ) == Err::<EuiccInfo2Model, Es10cFault>(e@),
        },
{
    let mut rest: &[u8] = bytes;
    while rest.len() > 0
        invariant
            walked(rest@, state@, info2_step()) == walked(bytes@, old(state)@, info2_step()),
        decreases rest@.len(),
    {
        match read(rest) {
            Err(_) => return Err(Es10cError::Truncated),
            Ok(element) => {
                match take_info2_field(state, &element) {
                    Ok(_) => {},
                    Err(e) => return Err(e),
                }
                rest = element.rest;
            },
        }
    }
    Ok(())
}

/// The chip description in an answer to `GetEUICCInfo2`.
pub open spec fn info2_in(response: Seq<u8>) -> Result<EuiccInfo2Model, Es10cFault> {
    match body_of(response, function_tag(FN_EUICC_INFO2)) {
        Err(e) => Err(e),
        Ok(body) => match walked(body, blank_info2(), info2_step()) {
            Err(e) => Err(e),
            Ok(info) => if info.svn is None {
                Err(plain(Es10cError::MissingField { name: "svn" }))
            } else {
                Ok(info)
            },
        },
    }
}

/// Parse a `GetEUICCInfo2` response.
pub fn parse_euicc_info2(response: &[u8]) -> (info: Result<EuiccInfo2, Es10cError>)
    ensures
        reads(info, info2_in(response@)),
{
    let body: &[u8] = match expect_function(response, FN_EUICC_INFO2) {
        Ok(body) => body,
        Err(e) => return Err(e),
    };
    let mut info: EuiccInfo2 = EuiccInfo2::default();
    match read_info2_fields(body, &mut info) {
        Ok(_) => {},
        Err(e) => return Err(e),
    }
    if info.svn.is_none() {
        return Err(Es10cError::MissingField { name: "svn" });
    }
    Ok(info)
}

/// The random octets in an answer to `GetEUICCChallenge`.
pub open spec fn challenge_in(response: Seq<u8>) -> Result<Seq<u8>, Es10cFault> {
    match answer_value(response, FN_EUICC_CHALLENGE, 0x80) {
        Err(e) => Err(e),
        Ok(value) => if value.len() != EUICC_CHALLENGE_BYTES {
            Err(plain(Es10cError::ChallengeLength { actual: value.len() as usize }))
        } else {
            Ok(value)
        },
    }
}

/// Parse a `GetEUICCChallenge` response into the sixteen random bytes.
pub fn parse_euicc_challenge(response: &[u8]) -> (challenge: Result<[u8; 16], Es10cError>)
    ensures
        reads(challenge, challenge_in(response@)),
{
    match expect_answer(response, FN_EUICC_CHALLENGE, 0x80) {
        Ok(value) => {
            if value.len() != EUICC_CHALLENGE_BYTES {
                return Err(Es10cError::ChallengeLength { actual: value.len() });
            }
            let challenge: [u8; 16] = [
                value[0],
                value[1],
                value[2],
                value[3],
                value[4],
                value[5],
                value[6],
                value[7],
                value[8],
                value[9],
                value[10],
                value[11],
                value[12],
                value[13],
                value[14],
                value[15],
            ];
            proof {
                assert(challenge@ =~= value@);
            }
            Ok(challenge)
        },
        Err(e) => Err(e),
    }
}

/// `GetEUICCInfo1`: the short chip description ES9+ carries verbatim.
///
/// The raw bytes are kept alongside the decoded fields because
/// `InitiateAuthentication` transports the whole `BF20` structure base64
/// encoded, and an SM-DP+ reads it as the chip emitted it.
#[derive(Clone, Debug, PartialEq, Eq)]
pub struct EuiccInfo1 {
    /// SGP.22 version the chip implements.
    pub svn: Option<String>,
    /// GSMA CI public key identifiers the chip verifies an SM-DP+ against.
    pub ci_key_ids_for_verification: Vec<String>,
    pub ci_key_ids_for_signing: Vec<String>,
    /// The `BF20` TLV exactly as the card produced it.
    pub raw: Vec<u8>,
}

/// The short chip description, by what its texts say.
#[verifier::ext_equal]
pub struct EuiccInfo1Model {
    pub svn: Option<Seq<char>>,
    pub ci_key_ids_for_verification: Seq<Seq<char>>,
    pub ci_key_ids_for_signing: Seq<Seq<char>>,
    pub raw: Seq<u8>,
}

impl View for EuiccInfo1 {
    type V = EuiccInfo1Model;

    open spec fn view(&self) -> EuiccInfo1Model {
        EuiccInfo1Model {
            svn: opt_text(self.svn),
            ci_key_ids_for_verification: texts(self.ci_key_ids_for_verification@),
            ci_key_ids_for_signing: texts(self.ci_key_ids_for_signing@),
            raw: self.raw@,
        }
    }
}

/// A short description that says nothing yet.
pub open spec fn blank_info1() -> EuiccInfo1Model {
    EuiccInfo1Model {
        svn: None,
        ci_key_ids_for_verification: Seq::empty(),
        ci_key_ids_for_signing: Seq::empty(),
        raw: Seq::empty(),
    }
}

impl Default for EuiccInfo1 {
    fn default() -> (value: Self)
        ensures
            value@ == blank_info1(),
    {
        let value = EuiccInfo1 {
            svn: None,
            ci_key_ids_for_verification: Vec::new(),
            ci_key_ids_for_signing: Vec::new(),
            raw: Vec::new(),
        };
        proof {
            assert(value@ =~= blank_info1());
        }
        value
    }
}

/// A short description with one of its elements taken up.
pub open spec fn info1_field(state: EuiccInfo1Model, element: ElementModel) -> Result<
    EuiccInfo1Model,
    Es10cFault,
> {
    let value = element.value;
    if element.tag == seq![0x82u8] {
        Ok(EuiccInfo1Model { svn: Some(dotted(value)), ..state })
    } else if element.tag == seq![0xa9u8] {
        match keys_in(value) {
            Ok(keys) => Ok(EuiccInfo1Model { ci_key_ids_for_verification: keys, ..state }),
            Err(e) => Err(e),
        }
    } else if element.tag == seq![0xaau8] {
        match keys_in(value) {
            Ok(keys) => Ok(EuiccInfo1Model { ci_key_ids_for_signing: keys, ..state }),
            Err(e) => Err(e),
        }
    } else {
        Ok(state)
    }
}

/// How a short description is read.
pub open spec fn info1_step() -> spec_fn(EuiccInfo1Model, ElementModel) -> Result<EuiccInfo1Model, Es10cFault> {
    |state: EuiccInfo1Model, element: ElementModel| info1_field(state, element)
}

fn take_info1_field(state: &mut EuiccInfo1, element: &Element) -> (done: Result<(), Es10cError>)
    requires
        element.value@.len() <= 0xffff_ffff,
    ensures
        match done {
            Ok(_) => info1_field(
                old(state)@,
                element@,
            ) == Ok::<EuiccInfo1Model, Es10cFault>(final(state)@),
            Err(e) => info1_field(old(state)@, element@) == Err::<EuiccInfo1Model, Es10cFault>(e@),
        },
{
    if tag_is(element.tag, 0x82) {
        state.svn = Some(version(element.value));
    } else if tag_is(element.tag, 0xa9) {
        match key_identifiers(element.value) {
            Ok(keys) => {
                state.ci_key_ids_for_verification = keys;
            },
            Err(e) => return Err(e),
        }
    } else if tag_is(element.tag, 0xaa) {
        match key_identifiers(element.value) {
            Ok(keys) => {
                state.ci_key_ids_for_signing = keys;
            },
            Err(e) => return Err(e),
        }
    }
    proof {
        assert(state@ =~= info1_field(old(state)@, element@)->Ok_0);
    }
    Ok(())
}

fn read_info1_fields(bytes: &[u8], state: &mut EuiccInfo1) -> (done: Result<(), Es10cError>)
    ensures
        match done {
            Ok(_) => walked(bytes@, old(state)@, info1_step()) == Ok::<EuiccInfo1Model, Es10cFault>(
                final(state)@,
            ),
            Err(e) => walked(
                bytes@,
                old(state)@,
                info1_step(),
            ) == Err::<EuiccInfo1Model, Es10cFault>(e@),
        },
{
    let mut rest: &[u8] = bytes;
    while rest.len() > 0
        invariant
            walked(rest@, state@, info1_step()) == walked(bytes@, old(state)@, info1_step()),
        decreases rest@.len(),
    {
        match read(rest) {
            Err(_) => return Err(Es10cError::Truncated),
            Ok(element) => {
                match take_info1_field(state, &element) {
                    Ok(_) => {},
                    Err(e) => return Err(e),
                }
                rest = element.rest;
            },
        }
    }
    Ok(())
}

/// The short chip description in an answer to `GetEUICCInfo1`. A chip that
/// lists no CI it will verify against cannot complete a download at all, so
/// that is a refusal rather than a blank field.
pub open spec fn info1_in(response: Seq<u8>) -> Result<EuiccInfo1Model, Es10cFault> {
    match body_of(response, function_tag(FN_EUICC_INFO1)) {
        Err(e) => Err(e),
        Ok(body) => {
            let start = EuiccInfo1Model { raw: whole_of(response)->Ok_0, ..blank_info1() };
            match walked(body, start, info1_step()) {
                Err(e) => Err(e),
                Ok(info) => if info.svn is None {
                    Err(plain(Es10cError::MissingField { name: "svn" }))
                } else if info.ci_key_ids_for_verification.len() == 0 {
                    Err(
                        plain(
                            Es10cError::MissingField { name: "euiccCiPKIdListForVerification" },
                        ),
                    )
                } else {
                    Ok(info)
                },
            }
        },
    }
}

/// Parse a `GetEUICCInfo1` response, keeping the encoded form.
///
/// The response is trimmed to exactly the length the `BF20` header declares.
/// A modem that pads its answer would otherwise put those pad bytes into the
/// base64 an SM-DP+ receives, and a server that parses strict DER answers
/// that with a function execution error rather than with anything that names
/// the padding.
pub fn parse_euicc_info1(response: &[u8]) -> (info: Result<EuiccInfo1, Es10cError>)
    ensures
        reads(info, info1_in(response@)),
{
    let body: &[u8] = match expect_function(response, FN_EUICC_INFO1) {
        Ok(body) => body,
        Err(e) => return Err(e),
    };
    let mut info: EuiccInfo1 = EuiccInfo1::default();
    match first_tlv(response) {
        Ok(whole) => {
            info.raw = copy_of(whole);
        },
        Err(e) => return Err(e),
    }
    proof {
        assert(info@ =~= (EuiccInfo1Model { raw: whole_of(response@)->Ok_0, ..blank_info1() }));
    }
    match read_info1_fields(body, &mut info) {
        Ok(_) => {},
        Err(e) => return Err(e),
    }
    if info.svn.is_none() {
        return Err(Es10cError::MissingField { name: "svn" });
    }
    if info.ci_key_ids_for_verification.len() == 0 {
        return Err(Es10cError::MissingField { name: "euiccCiPKIdListForVerification" });
    }
    Ok(info)
}

/// The addresses ES10a `GetEuiccConfiguredAddresses` reports. Both are optional.
#[derive(Clone, Debug, PartialEq, Eq)]
pub struct ConfiguredAddresses {
    /// The SM-DP+ the chip should talk to when nothing else names one.
    pub default_dp_address: Option<String>,
    /// The root discovery server.
    pub root_ds_address: Option<String>,
}

/// The addresses, by what they say.
#[verifier::ext_equal]
pub struct AddressesModel {
    pub default_dp_address: Option<Seq<char>>,
    pub root_ds_address: Option<Seq<char>>,
}

impl View for ConfiguredAddresses {
    type V = AddressesModel;

    open spec fn view(&self) -> AddressesModel {
        AddressesModel {
            default_dp_address: opt_text(self.default_dp_address),
            root_ds_address: opt_text(self.root_ds_address),
        }
    }
}

/// No address at all.
pub open spec fn blank_addresses() -> AddressesModel {
    AddressesModel {
        default_dp_address: None,
        root_ds_address: None,
    }
}

impl Default for ConfiguredAddresses {
    fn default() -> (value: Self)
        ensures
            value@ == blank_addresses(),
    {
        let value = ConfiguredAddresses {
            default_dp_address: None,
            root_ds_address: None,
        };
        proof {
            assert(value@ =~= blank_addresses());
        }
        value
    }
}

/// Addresses with one element taken up.
pub open spec fn address_field(state: AddressesModel, element: ElementModel) -> Result<
    AddressesModel,
    Es10cFault,
> {
    let value = element.value;
    if element.tag == seq![0x80u8] {
        Ok(AddressesModel { default_dp_address: shown(value), ..state })
    } else if element.tag == seq![0x81u8] {
        Ok(AddressesModel { root_ds_address: shown(value), ..state })
    } else {
        Ok(state)
    }
}

/// How addresses are read.
pub open spec fn address_step() -> spec_fn(AddressesModel, ElementModel) -> Result<AddressesModel, Es10cFault> {
    |state: AddressesModel, element: ElementModel| address_field(state, element)
}

fn take_address(
    state: &mut ConfiguredAddresses,
    element: &Element,
) -> (done: Result<(), Es10cError>)
    requires
        element.value@.len() <= 0xffff_ffff,
    ensures
        match done {
            Ok(_) => address_field(
                old(state)@,
                element@,
            ) == Ok::<AddressesModel, Es10cFault>(final(state)@),
            Err(e) => address_field(old(state)@, element@) == Err::<AddressesModel, Es10cFault>(e@),
        },
{
    if tag_is(element.tag, 0x80) {
        state.default_dp_address = text(element.value);
    } else if tag_is(element.tag, 0x81) {
        state.root_ds_address = text(element.value);
    }
    proof {
        assert(state@ =~= address_field(old(state)@, element@)->Ok_0);
    }
    Ok(())
}

fn read_addresses(bytes: &[u8], state: &mut ConfiguredAddresses) -> (done: Result<(), Es10cError>)
    ensures
        match done {
            Ok(_) => walked(bytes@, old(state)@, address_step()) == Ok::<AddressesModel, Es10cFault>(
                final(state)@,
            ),
            Err(e) => walked(
                bytes@,
                old(state)@,
                address_step(),
            ) == Err::<AddressesModel, Es10cFault>(e@),
        },
{
    let mut rest: &[u8] = bytes;
    while rest.len() > 0
        invariant
            walked(rest@, state@, address_step()) == walked(bytes@, old(state)@, address_step()),
        decreases rest@.len(),
    {
        match read(rest) {
            Err(_) => return Err(Es10cError::Truncated),
            Ok(element) => {
                match take_address(state, &element) {
                    Ok(_) => {},
                    Err(e) => return Err(e),
                }
                rest = element.rest;
            },
        }
    }
    Ok(())
}

/// The addresses in an answer to `GetEuiccConfiguredAddresses`.
pub open spec fn addresses_in(response: Seq<u8>) -> Result<AddressesModel, Es10cFault> {
    match body_of(response, function_tag(FN_CONFIGURED_ADDRESSES)) {
        Err(e) => Err(e),
        Ok(body) => walked(body, blank_addresses(), address_step()),
    }
}

/// Parse a `GetEuiccConfiguredAddresses` response.
pub fn parse_configured_addresses(response: &[u8]) -> (addresses: Result<
    ConfiguredAddresses,
    Es10cError,
>)
    ensures
        reads(addresses, addresses_in(response@)),
{
    let body: &[u8] = match expect_function(response, FN_CONFIGURED_ADDRESSES) {
        Ok(body) => body,
        Err(e) => return Err(e),
    };
    let mut addresses: ConfiguredAddresses = ConfiguredAddresses::default();
    match read_addresses(body, &mut addresses) {
        Ok(_) => Ok(addresses),
        Err(e) => Err(e),
    }
}

// ---------------------------------------------------------------------------
// Notifications
// ---------------------------------------------------------------------------

/// One entry of the eUICC pending notification list.
#[derive(Clone, Debug, PartialEq, Eq)]
pub struct NotificationMetadata {
    pub sequence_number: u64,
    /// `install`, `enable`, `disable` or `delete`.
    pub operations: Vec<String>,
    /// The SM-DP+ that has to be told, as a host name.
    pub address: String,
    pub iccid: Option<String>,
}

/// A notification, by what its texts say.
#[verifier::ext_equal]
pub struct NotificationModel {
    pub sequence_number: u64,
    pub operations: Seq<Seq<char>>,
    pub address: Seq<char>,
    pub iccid: Option<Seq<char>>,
}

impl View for NotificationMetadata {
    type V = NotificationModel;

    open spec fn view(&self) -> NotificationModel {
        NotificationModel {
            sequence_number: self.sequence_number,
            operations: texts(self.operations@),
            address: self.address@,
            iccid: opt_text(self.iccid),
        }
    }
}

/// A notification of which nothing is known.
pub open spec fn blank_notification() -> NotificationModel {
    NotificationModel {
        sequence_number: 0,
        operations: Seq::empty(),
        address: Seq::empty(),
        iccid: None,
    }
}

impl Default for NotificationMetadata {
    fn default() -> (value: Self)
        ensures
            value@ == blank_notification(),
    {
        let value = NotificationMetadata {
            sequence_number: 0,
            operations: Vec::new(),
            address: String::new(),
            iccid: None,
        };
        proof {
            assert(value@ =~= blank_notification());
        }
        value
    }
}

#[derive(Clone, Debug, PartialEq, Eq)]
/// A pending notification with the signed bytes the SM-DP+ has to receive.
pub struct PendingNotification {
    pub metadata: NotificationMetadata,
    /// `true` for a `ProfileInstallationResult`, `false` for an
    /// `OtherSignedNotification`. The two are carried in the same list under
    /// different tags and go to the same ES9+ function.
    pub installation_result: bool,
    /// The whole signed notification, verbatim: what ES9+ `handleNotification`
    /// carries is the signed structure the eUICC produced.
    pub payload: Vec<u8>,
}

/// A pending notification, by what its parts say.
#[verifier::ext_equal]
pub struct PendingModel {
    pub metadata: NotificationModel,
    pub installation_result: bool,
    pub payload: Seq<u8>,
}

impl View for PendingNotification {
    type V = PendingModel;

    open spec fn view(&self) -> PendingModel {
        PendingModel {
            metadata: self.metadata@,
            installation_result: self.installation_result,
            payload: self.payload@,
        }
    }
}

/// The models of notifications.
pub open spec fn notification_models(list: Seq<NotificationMetadata>) -> Seq<NotificationModel> {
    list.map_values(|entry: NotificationMetadata| entry@)
}

/// The models of pending notifications.
pub open spec fn pending_models(list: Seq<PendingNotification>) -> Seq<PendingModel> {
    list.map_values(|entry: PendingNotification| entry@)
}

/// The ICCID in a value, where there is one.
pub open spec fn readable_iccid(value: Seq<u8>) -> Option<Seq<char>> {
    match iccid_in(value) {
        Ok(iccid) => Some(iccid),
        Err(_) => None,
    }
}

fn try_iccid(value: &[u8]) -> (iccid: Option<String>)
    ensures
        opt_text(iccid) == readable_iccid(value@),
{
    match decode_iccid(value) {
        Ok(iccid) => Some(iccid),
        Err(_) => None,
    }
}

/// A notification that is being read, and whether it has its number yet.
pub struct PartialNotification {
    pub numbered: bool,
    pub metadata: NotificationMetadata,
}

#[verifier::ext_equal]
pub struct PartialModel {
    pub numbered: bool,
    pub metadata: NotificationModel,
}

impl View for PartialNotification {
    type V = PartialModel;

    open spec fn view(&self) -> PartialModel {
        PartialModel { numbered: self.numbered, metadata: self.metadata@ }
    }
}

/// A notification with one of its elements taken up.
pub open spec fn notification_field(state: PartialModel, element: ElementModel) -> Result<
    PartialModel,
    Es10cFault,
> {
    let value = element.value;
    if element.tag == seq![0x80u8] {
        match integer_in(value) {
            Ok(n) => Ok(
                PartialModel {
                    numbered: true,
                    metadata: NotificationModel { sequence_number: n, ..state.metadata },
                },
            ),
            Err(e) => Err(e),
        }
    } else if element.tag == seq![0x81u8] {
        Ok(
            PartialModel {
                metadata: NotificationModel {
                    operations: bits_in(value, notification_events()),
                    ..state.metadata
                },
                ..state
            },
        )
    } else if element.tag == seq![TAG_UTF8_STRING] {
        Ok(
            PartialModel {
                metadata: NotificationModel { address: trimmed(lossy(value)), ..state.metadata },
                ..state
            },
        )
    } else if element.tag == seq![TAG_ICCID] {
        Ok(
            PartialModel {
                metadata: NotificationModel { iccid: readable_iccid(value), ..state.metadata },
                ..state
            },
        )
    } else {
        Ok(state)
    }
}

/// How a notification is read.
pub open spec fn notification_step() -> spec_fn(PartialModel, ElementModel) -> Result<PartialModel, Es10cFault> {
    |state: PartialModel, element: ElementModel| notification_field(state, element)
}

fn take_notification_field(
    state: &mut PartialNotification,
    element: &Element,
) -> (done: Result<(), Es10cError>)
    requires
        element.value@.len() <= 0xffff_ffff,
    ensures
        match done {
            Ok(_) => notification_field(
                old(state)@,
                element@,
            ) == Ok::<PartialModel, Es10cFault>(final(state)@),
            Err(e) => notification_field(
                old(state)@,
                element@,
            ) == Err::<PartialModel, Es10cFault>(e@),
        },
{
    if tag_is(element.tag, 0x80) {
        match integer(element.value) {
            Ok(n) => {
                state.metadata.sequence_number = n;
                state.numbered = true;
            },
            Err(e) => return Err(e),
        }
    } else if tag_is(element.tag, 0x81) {
        state.metadata.operations = event_bits(element.value);
    } else if tag_is(element.tag, TAG_UTF8_STRING) {
        state.metadata.address = trimmed_text(element.value);
    } else if tag_is(element.tag, TAG_ICCID) {
        state.metadata.iccid = try_iccid(element.value);
    }
    proof {
        assert(state@ =~= notification_field(old(state)@, element@)->Ok_0);
    }
    Ok(())
}

fn read_notification_fields(
    bytes: &[u8],
    state: &mut PartialNotification,
) -> (done: Result<(), Es10cError>)
    ensures
        match done {
            Ok(_) => walked(bytes@, old(state)@, notification_step()) == Ok::<PartialModel, Es10cFault>(
                final(state)@,
            ),
            Err(e) => walked(
                bytes@,
                old(state)@,
                notification_step(),
            ) == Err::<PartialModel, Es10cFault>(e@),
        },
{
    let mut rest: &[u8] = bytes;
    while rest.len() > 0
        invariant
            walked(rest@, state@, notification_step()) == walked(
                bytes@,
                old(state)@,
                notification_step(),
            ),
        decreases rest@.len(),
    {
        match read(rest) {
            Err(_) => return Err(Es10cError::Truncated),
            Ok(element) => {
                match take_notification_field(state, &element) {
                    Ok(_) => {},
                    Err(e) => return Err(e),
                }
                rest = element.rest;
            },
        }
    }
    Ok(())
}

/// The notification that a `NotificationMetadata` describes.
pub open spec fn notification_in(body: Seq<u8>) -> Result<NotificationModel, Es10cFault> {
    let start = PartialModel { numbered: false, metadata: blank_notification() };
    match walked(body, start, notification_step()) {
        Err(e) => Err(e),
        Ok(read) => if !read.numbered {
            Err(plain(Es10cError::MissingField { name: "seqNumber" }))
        } else if read.metadata.address.len() == 0 {
            Err(plain(Es10cError::MissingField { name: "notificationAddress" }))
        } else {
            Ok(read.metadata)
        },
    }
}

fn parse_notification_metadata(body: &[u8]) -> (metadata: Result<NotificationMetadata, Es10cError>)
    ensures
        reads(metadata, notification_in(body@)),
{
    let mut state: PartialNotification = PartialNotification {
        numbered: false,
        metadata: NotificationMetadata::default(),
    };
    match read_notification_fields(body, &mut state) {
        Ok(_) => {},
        Err(e) => return Err(e),
    }
    if !state.numbered {
        return Err(Es10cError::MissingField { name: "seqNumber" });
    }
    if state.metadata.address.as_str().is_empty() {
        return Err(Es10cError::MissingField { name: "notificationAddress" });
    }
    Ok(state.metadata)
}

/// The first `NotificationMetadata` in a list of elements.
pub open spec fn described_in(body: Seq<u8>) -> Result<NotificationModel, Es10cFault>
    decreases body.len(),
{
    if body.len() == 0 {
        Err(plain(Es10cError::MissingField { name: "notificationMetadata" }))
    } else {
        match element_in(body) {
            Err(_) => Err(cut_short()),
            Ok(element) => if element.tag == function_tag(FN_NOTIFICATION_METADATA) {
                notification_in(element.value)
            } else {
                proof {
                    lemma_element(body);
                }
                described_in(rest_after(body))
            },
        }
    }
}

fn find_notification_metadata(body: &[u8]) -> (metadata: Result<NotificationMetadata, Es10cError>)
    ensures
        reads(metadata, described_in(body@)),
{
    let mut rest: &[u8] = body;
    while rest.len() > 0
        invariant
            described_in(rest@) == described_in(body@),
        decreases rest@.len(),
    {
        match read(rest) {
            Err(_) => return Err(Es10cError::Truncated),
            Ok(element) => {
                if tag_is_pair(element.tag, TAG_FUNCTION, FN_NOTIFICATION_METADATA) {
                    return parse_notification_metadata(element.value);
                }
                rest = element.rest;
            },
        }
    }
    Err(Es10cError::MissingField { name: "notificationMetadata" })
}

/// The `[0]` list, or the `[1]` error code the card sends instead of one.
pub open spec fn notification_list_in(response: Seq<u8>, function: u8) -> Result<
    Seq<u8>,
    Es10cFault,
> {
    match body_of(response, function_tag(function)) {
        Err(e) => Err(e),
        Ok(body) => match element_in(body) {
            Err(_) => Err(cut_short()),
            Ok(element) => if element.tag == seq![TAG_NOTIFICATION_LIST] {
                Ok(element.value)
            } else if element.tag == seq![TAG_NOTIFICATION_ERROR] {
                match integer_in(element.value) {
                    Ok(code) => Err(plain(Es10cError::NotificationsUnavailable { code })),
                    Err(e) => Err(e),
                }
            } else {
                Err(
                    Es10cFault::Tag {
                        expected: seq![TAG_NOTIFICATION_LIST],
                        actual: element.tag,
                    },
                )
            },
        },
    }
}

fn notification_list<'a>(response: &'a [u8], function: u8) -> (list: Result<
    &'a [u8],
    Es10cError,
>)
    ensures
        match list {
            Ok(l) => notification_list_in(response@, function) == Ok::<Seq<u8>, Es10cFault>(l@),
            Err(e) => notification_list_in(response@, function) == Err::<Seq<u8>, Es10cFault>(e@),
        },
{
    let body: &[u8] = match expect_function(response, function) {
        Ok(body) => body,
        Err(e) => return Err(e),
    };
    match read(body) {
        Err(_) => Err(Es10cError::Truncated),
        Ok(element) => {
            if tag_is(element.tag, TAG_NOTIFICATION_LIST) {
                return Ok(element.value);
            }
            if tag_is(element.tag, TAG_NOTIFICATION_ERROR) {
                return match integer(element.value) {
                    Ok(code) => Err(Es10cError::NotificationsUnavailable { code }),
                    Err(e) => Err(e),
                };
            }
            Err(unexpected_tag(&one(TAG_NOTIFICATION_LIST), element.tag))
        },
    }
}

/// Notifications with one element of their list taken up. Elements of another
/// kind are passed over.
pub open spec fn listed_entry(state: Seq<NotificationModel>, element: ElementModel) -> Result<
    Seq<NotificationModel>,
    Es10cFault,
> {
    if element.tag != function_tag(FN_NOTIFICATION_METADATA) {
        Ok(state)
    } else {
        match notification_in(element.value) {
            Ok(entry) => Ok(state.push(entry)),
            Err(e) => Err(e),
        }
    }
}

/// How a list of notifications is read.
pub open spec fn listed_step() -> spec_fn(Seq<NotificationModel>, ElementModel) -> Result<
    Seq<NotificationModel>,
    Es10cFault,
> {
    |state: Seq<NotificationModel>, element: ElementModel| listed_entry(state, element)
}

/// The notifications in an answer to `ListNotification`.
pub open spec fn notifications_in(response: Seq<u8>) -> Result<
    Seq<NotificationModel>,
    Es10cFault,
> {
    match notification_list_in(response, FN_LIST_NOTIFICATION) {
        Err(e) => Err(e),
        Ok(list) => walked(list, Seq::empty(), listed_step()),
    }
}

/// Parse a `ListNotification` response.
pub fn parse_notification_metadata_list(response: &[u8]) -> (list: Result<
    Vec<NotificationMetadata>,
    Es10cError,
>)
    ensures
        match list {
            Ok(l) => notifications_in(response@) == Ok::<Seq<NotificationModel>, Es10cFault>(
                notification_models(l@),
            ),
            Err(e) => notifications_in(response@) == Err::<Seq<NotificationModel>, Es10cFault>(e@),
        },
{
    let list: &[u8] = match notification_list(response, FN_LIST_NOTIFICATION) {
        Ok(list) => list,
        Err(e) => return Err(e),
    };
    let mut out: Vec<NotificationMetadata> = Vec::new();
    let mut rest: &[u8] = list;
    let ghost wanted = notifications_in(response@);
    proof {
        assert(notification_models(out@) =~= Seq::empty());
    }
    while rest.len() > 0
        invariant
            walked(rest@, notification_models(out@), listed_step()) == wanted,
            notifications_in(response@) == wanted,
        decreases rest@.len(),
    {
        match read(rest) {
            Err(_) => return Err(Es10cError::Truncated),
            Ok(element) => {
                if tag_is_pair(element.tag, TAG_FUNCTION, FN_NOTIFICATION_METADATA) {
                    let entry: NotificationMetadata = match parse_notification_metadata(
                        element.value,
                    ) {
                        Ok(entry) => entry,
                        Err(e) => return Err(e),
                    };
                    let ghost before = notification_models(out@);
                    out.push(entry);
                    proof {
                        assert(notification_models(out@) =~= before.push(entry@));
                    }
                }
                rest = element.rest;
            },
        }
    }
    Ok(out)
}

/// Pending notifications with one element of their list taken up: an
/// installation result, another signed notification, or something that is
/// passed over. The element itself is kept verbatim.
pub open spec fn pending_entry(state: Seq<PendingModel>, element: ElementModel) -> Result<
    Seq<PendingModel>,
    Es10cFault,
> {
    if element.tag == function_tag(FN_INSTALLATION_RESULT) {
        match body_of(element.value, function_tag(FN_INSTALLATION_RESULT_DATA)) {
            Err(e) => Err(e),
            Ok(data) => match described_in(data) {
                Err(e) => Err(e),
                Ok(metadata) => Ok(
                    state.push(
                        PendingModel {
                            metadata,
                            installation_result: true,
                            payload: element.whole,
                        },
                    ),
                ),
            },
        }
    } else if element.tag == seq![TAG_SEQUENCE] {
        match described_in(element.value) {
            Err(e) => Err(e),
            Ok(metadata) => Ok(
                state.push(
                    PendingModel { metadata, installation_result: false, payload: element.whole },
                ),
            ),
        }
    } else {
        Ok(state)
    }
}

/// How a list of pending notifications is read.
pub open spec fn pending_step() -> spec_fn(Seq<PendingModel>, ElementModel) -> Result<
    Seq<PendingModel>,
    Es10cFault,
> {
    |state: Seq<PendingModel>, element: ElementModel| pending_entry(state, element)
}

/// The pending notifications in an answer to `RetrieveNotificationsList`.
pub open spec fn pending_in(response: Seq<u8>) -> Result<Seq<PendingModel>, Es10cFault> {
    match notification_list_in(response, FN_RETRIEVE_NOTIFICATIONS) {
        Err(e) => Err(e),
        Ok(list) => walked(list, Seq::empty(), pending_step()),
    }
}

fn take_pending(out: &mut Vec<PendingNotification>, element: &Element) -> (done: Result<
    (),
    Es10cError,
>)
    ensures
        match done {
            Ok(_) => pending_entry(pending_models(old(out)@), element@) == Ok::<
                Seq<PendingModel>,
                Es10cFault,
            >(pending_models(final(out)@)),
            Err(e) => pending_entry(pending_models(old(out)@), element@) == Err::<
                Seq<PendingModel>,
                Es10cFault,
            >(e@),
        },
{
    let found: Result<NotificationMetadata, Es10cError>;
    let installation_result: bool;
    if tag_is_pair(element.tag, TAG_FUNCTION, FN_INSTALLATION_RESULT) {
        installation_result = true;
        let data: &[u8] = match expect_function(element.value, FN_INSTALLATION_RESULT_DATA) {
            Ok(data) => data,
            Err(e) => return Err(e),
        };
        found = find_notification_metadata(data);
    } else if tag_is(element.tag, TAG_SEQUENCE) {
        installation_result = false;
        found = find_notification_metadata(element.value);
    } else {
        return Ok(());
    }
    match found {
        Err(e) => Err(e),
        Ok(metadata) => {
            let entry: PendingNotification = PendingNotification {
                metadata,
                installation_result,
                payload: copy_of(element.whole),
            };
            let ghost shown = entry@;
            out.push(entry);
            proof {
                assert(pending_models(out@) =~= pending_models(old(out)@).push(shown));
            }
            Ok(())
        },
    }
}

/// Parse a `RetrieveNotificationsList` response.
pub fn parse_pending_notifications(response: &[u8]) -> (list: Result<
    Vec<PendingNotification>,
    Es10cError,
>)
    ensures
        match list {
            Ok(l) => pending_in(response@) == Ok::<Seq<PendingModel>, Es10cFault>(
                pending_models(l@),
            ),
            Err(e) => pending_in(response@) == Err::<Seq<PendingModel>, Es10cFault>(e@),
        },
{
    let list: &[u8] = match notification_list(response, FN_RETRIEVE_NOTIFICATIONS) {
        Ok(list) => list,
        Err(e) => return Err(e),
    };
    let mut out: Vec<PendingNotification> = Vec::new();
    let mut rest: &[u8] = list;
    let ghost wanted = pending_in(response@);
    proof {
        assert(pending_models(out@) =~= Seq::empty());
    }
    while rest.len() > 0
        invariant
            walked(rest@, pending_models(out@), pending_step()) == wanted,
            pending_in(response@) == wanted,
        decreases rest@.len(),
    {
        match read(rest) {
            Err(_) => return Err(Es10cError::Truncated),
            Ok(element) => {
                match take_pending(&mut out, &element) {
                    Ok(_) => {},
                    Err(e) => return Err(e),
                }
                rest = element.rest;
            },
        }
    }
    Ok(out)
}

// ---------------------------------------------------------------------------
// Downloading a profile
// ---------------------------------------------------------------------------

/// SGP.22 `CancelSessionReason`.
#[derive(Clone, Copy, Debug, PartialEq, Eq, Structural)]
pub enum CancelSessionReason {
    EndUserRejection,
    Postponed,
    Timeout,
    /// The profile arrived carrying a Profile Policy Rule this device will not
    /// install. The one reason code that exists so an LPA can walk away
    /// *before* the package is released.
    PprNotAllowed,
    MetadataMismatch,
    LoadBppExecutionError,
    UndefinedReason,
}

impl CancelSessionReason {
    /// The code that goes on the wire.
    pub open spec fn code_of(self) -> u8 {
        match self {
            CancelSessionReason::EndUserRejection => 0,
            CancelSessionReason::Postponed => 1,
            CancelSessionReason::Timeout => 2,
            CancelSessionReason::PprNotAllowed => 3,
            CancelSessionReason::MetadataMismatch => 4,
            CancelSessionReason::LoadBppExecutionError => 5,
            CancelSessionReason::UndefinedReason => 16,
        }
    }

    pub fn code(self) -> (code: u8)
        ensures
            code == self.code_of(),
    {
        match self {
            CancelSessionReason::EndUserRejection => 0,
            CancelSessionReason::Postponed => 1,
            CancelSessionReason::Timeout => 2,
            CancelSessionReason::PprNotAllowed => 3,
            CancelSessionReason::MetadataMismatch => 4,
            CancelSessionReason::LoadBppExecutionError => 5,
            CancelSessionReason::UndefinedReason => 16,
        }
    }

    /// The name SGP.22 gives it.
    pub open spec fn name_of(self) -> &'static str {
        match self {
            CancelSessionReason::EndUserRejection => "endUserRejection",
            CancelSessionReason::Postponed => "postponed",
            CancelSessionReason::Timeout => "timeout",
            CancelSessionReason::PprNotAllowed => "pprNotAllowed",
            CancelSessionReason::MetadataMismatch => "metadataMismatch",
            CancelSessionReason::LoadBppExecutionError => "loadBppExecutionError",
            CancelSessionReason::UndefinedReason => "undefinedReason",
        }
    }

    pub fn label(self) -> (label: &'static str)
        ensures
            label == self.name_of(),
    {
        match self {
            CancelSessionReason::EndUserRejection => "endUserRejection",
            CancelSessionReason::Postponed => "postponed",
            CancelSessionReason::Timeout => "timeout",
            CancelSessionReason::PprNotAllowed => "pprNotAllowed",
            CancelSessionReason::MetadataMismatch => "metadataMismatch",
            CancelSessionReason::LoadBppExecutionError => "loadBppExecutionError",
            CancelSessionReason::UndefinedReason => "undefinedReason",
        }
    }
}

/// SGP.22 `AuthenticateErrorCode`.
pub open spec fn authenticate_error_name(code: u64) -> &'static str {
    if code == 1 {
        "invalidCertificate"
    } else if code == 2 {
        "invalidSignature"
    } else if code == 3 {
        "unsupportedCurve"
    } else if code == 4 {
        "noSessionContext"
    } else if code == 5 {
        "invalidOid"
    } else if code == 6 {
        "euiccChallengeMismatch"
    } else if code == 7 {
        "ciPKUnknown"
    } else if code == 127 {
        "undefinedError"
    } else {
        "unknown error code"
    }
}

fn authenticate_error(code: u64) -> (name: &'static str)
    ensures
        name == authenticate_error_name(code),
{
    match code {
        1 => "invalidCertificate",
        2 => "invalidSignature",
        3 => "unsupportedCurve",
        4 => "noSessionContext",
        5 => "invalidOid",
        6 => "euiccChallengeMismatch",
        7 => "ciPKUnknown",
        127 => "undefinedError",
        _ => "unknown error code",
    }
}

/// SGP.22 `DownloadErrorCode`.
pub open spec fn download_error_name(code: u64) -> &'static str {
    if code == 1 {
        "invalidCertificate"
    } else if code == 2 {
        "invalidSignature"
    } else if code == 3 {
        "unsupportedCurve"
    } else if code == 4 {
        "noSessionContext"
    } else if code == 5 {
        "invalidTransactionId"
    } else if code == 127 {
        "undefinedError"
    } else {
        "unknown error code"
    }
}

fn download_error(code: u64) -> (name: &'static str)
    ensures
        name == download_error_name(code),
{
    match code {
        1 => "invalidCertificate",
        2 => "invalidSignature",
        3 => "unsupportedCurve",
        4 => "noSessionContext",
        5 => "invalidTransactionId",
        127 => "undefinedError",
        _ => "unknown error code",
    }
}

/// SGP.22 `BppCommandId`.
pub open spec fn bpp_command_name(code: u64) -> &'static str {
    if code == 0 {
        "initialiseSecureChannel"
    } else if code == 1 {
        "configureISDP"
    } else if code == 2 {
        "storeMetadata"
    } else if code == 3 {
        "storeMetadata2"
    } else if code == 4 {
        "replaceSessionKeys"
    } else if code == 5 {
        "loadProfileElements"
    } else {
        "unknown BPP command"
    }
}

fn bpp_command(code: u64) -> (name: &'static str)
    ensures
        name == bpp_command_name(code),
{
    match code {
        0 => "initialiseSecureChannel",
        1 => "configureISDP",
        2 => "storeMetadata",
        3 => "storeMetadata2",
        4 => "replaceSessionKeys",
        5 => "loadProfileElements",
        _ => "unknown BPP command",
    }
}

/// SGP.22 `ErrorReason` from a `ProfileInstallationResult`.
pub open spec fn installation_error_name(code: u64) -> &'static str {
    if code == 1 {
        "incorrectInputValues"
    } else if code == 2 {
        "invalidSignature"
    } else if code == 3 {
        "invalidTransactionId"
    } else if code == 4 {
        "unsupportedCrtValues"
    } else if code == 5 {
        "unsupportedRemoteOperationType"
    } else if code == 6 {
        "unsupportedProfileClass"
    } else if code == 7 {
        "scp03tStructureError"
    } else if code == 8 {
        "scp03tSecurityError"
    } else if code == 9 {
        "installFailedDueToIccidAlreadyExistsOnEuicc"
    } else if code == 10 {
        "installFailedDueToInsufficientMemoryForProfile"
    } else if code == 11 {
        "installFailedDueToInterruption"
    } else if code == 12 {
        "installFailedDueToPEProcessingError"
    } else if code == 13 {
        "installFailedDueToDataMismatch"
    } else if code == 14 {
        "testProfileInstallFailedDueToInvalidNaaKey"
    } else if code == 15 {
        "pprNotAllowed"
    } else if code == 127 {
        "installFailedDueToUnknownError"
    } else {
        "unknown error reason"
    }
}

fn installation_error(code: u64) -> (name: &'static str)
    ensures
        name == installation_error_name(code),
{
    match code {
        1 => "incorrectInputValues",
        2 => "invalidSignature",
        3 => "invalidTransactionId",
        4 => "unsupportedCrtValues",
        5 => "unsupportedRemoteOperationType",
        6 => "unsupportedProfileClass",
        7 => "scp03tStructureError",
        8 => "scp03tSecurityError",
        9 => "installFailedDueToIccidAlreadyExistsOnEuicc",
        10 => "installFailedDueToInsufficientMemoryForProfile",
        11 => "installFailedDueToInterruption",
        12 => "installFailedDueToPEProcessingError",
        13 => "installFailedDueToDataMismatch",
        14 => "testProfileInstallFailedDueToInvalidNaaKey",
        15 => "pprNotAllowed",
        127 => "installFailedDueToUnknownError",
        _ => "unknown error reason",
    }
}

/// The context parameters of `AuthenticateServer`: the matching identifier
/// where there is one, then the device: its type allocation code and no
/// capabilities.
pub open spec fn server_context(matching_id: Option<Seq<char>>, tac: Seq<u8>) -> Seq<u8> {
    let device = element_octets(
        seq![0xa1u8],
        element_octets(seq![0x80u8], tac) + element_octets(seq![0xa1u8], Seq::empty()),
    );
    match matching_id {
        Some(id) => element_octets(seq![0x80u8], encode_utf8(id)) + device,
        None => device,
    }
}

/// `AuthenticateServer`: four signed structures as they came, each cut to its
/// own length, then the context.
pub open spec fn authenticate_request(
    signed: Seq<u8>,
    signature: Seq<u8>,
    key: Seq<u8>,
    certificate: Seq<u8>,
    context: Seq<u8>,
) -> Result<Seq<u8>, Es10cFault> {
    if whole_of(signed) is Err || whole_of(signature) is Err || whole_of(key) is Err || whole_of(
        certificate,
    ) is Err {
        Err(cut_short())
    } else {
        Ok(
            element_octets(
                function_tag(FN_AUTHENTICATE_SERVER),
                whole_of(signed)->Ok_0 + whole_of(signature)->Ok_0 + whole_of(key)->Ok_0 + whole_of(
                    certificate,
                )->Ok_0 + element_octets(seq![TAG_CHOICE_OK], context),
            ),
        )
    }
}

/// Build ES10b `AuthenticateServer`.
///
/// The four credentials go in exactly as the SM-DP+ sent them. They are signed
/// structures: anything re-encoded here, even into something that means the
/// same, no longer matches the signature the eUICC is about to check.
///
/// The device has no `imei` field. It is optional in SGP.22; the type
/// allocation code is taken from the module's own IMEI, because it is how an
/// operator decides what this device is.
pub fn authenticate_server_payload(
    server_signed1: &[u8],
    server_signature1: &[u8],
    euicc_ci_pkid: &[u8],
    server_certificate: &[u8],
    matching_id: Option<&str>,
    tac: [u8; 4],
) -> (payload: Result<Vec<u8>, Es10cError>)
    ensures
        reads(
            payload,
            authenticate_request(
                server_signed1@,
                server_signature1@,
                euicc_ci_pkid@,
                server_certificate@,
                server_context(opt_str(matching_id), tac@),
            ),
        ),
{
    let mut context: Vec<u8> = Vec::new();
    if let Some(id) = matching_id {
        context = wrap(&one(0x80), id.as_bytes());
    }
    let mut device: Vec<u8> = wrap(&one(0x80), &tac);
    let empty: Vec<u8> = Vec::new();
    let capabilities: Vec<u8> = wrap(&one(0xa1), &empty);
    push_all(&mut device, &capabilities);
    let device_info: Vec<u8> = wrap(&one(0xa1), &device);
    push_all(&mut context, &device_info);
    proof {
        assert(empty@ =~= Seq::empty());
        assert(context@ =~= server_context(opt_str(matching_id), tac@));
    }
    let mut body: Vec<u8> = match first_tlv(server_signed1) {
        Ok(whole) => copy_of(whole),
        Err(e) => return Err(e),
    };
    match first_tlv(server_signature1) {
        Ok(whole) => push_all(&mut body, whole),
        Err(e) => return Err(e),
    }
    match first_tlv(euicc_ci_pkid) {
        Ok(whole) => push_all(&mut body, whole),
        Err(e) => return Err(e),
    }
    match first_tlv(server_certificate) {
        Ok(whole) => push_all(&mut body, whole),
        Err(e) => return Err(e),
    }
    let parameters: Vec<u8> = wrap(&one(TAG_CHOICE_OK), &context);
    push_all(&mut body, &parameters);
    Ok(wrap(&make_function_tag(FN_AUTHENTICATE_SERVER), &body))
}

/// The characters of an IMEI that count: the space in it does not.
pub open spec fn unspaced(s: Seq<char>) -> Seq<char> {
    s.filter(|c: char| !is_space(c))
}

/// The type allocation code of an IMEI, which is fifteen or sixteen digits.
pub open spec fn tac_in(imei: Seq<char>) -> Result<Seq<u8>, Es10cFault> {
    let digits = unspaced(imei);
    if !all_digits(digits) || !(15 <= digits.len() <= 16) {
        Err(plain(Es10cError::InvalidImei))
    } else {
        Ok(
            Seq::new(
                4,
                |i: int|
                    (16 * (digits[2 * i] as int - 48) + (digits[2 * i + 1] as int - 48)) as u8,
            ),
        )
    }
}

fn without_space(text: &str) -> (chars: Vec<char>)
    ensures
        chars@ == unspaced(text@),
{
    let all: Vec<char> = chars_of(text);
    let mut chars: Vec<char> = Vec::new();
    let mut i: usize = 0;
    let ghost keep = |c: char| !is_space(c);
    proof {
        reveal(Seq::filter);
        assert(all@.take(0) =~= Seq::empty());
        assert(chars@ =~= all@.take(0).filter(keep));
    }
    while i < all.len()
        invariant
            i <= all@.len(),
            keep == (|c: char| !is_space(c)),
            chars@ == all@.take(i as int).filter(keep),
        decreases all@.len() - i,
    {
        proof {
            reveal(Seq::filter);
            assert(all@.take(i + 1).drop_last() =~= all@.take(i as int));
        }
        if !space(all[i]) {
            chars.push(all[i]);
        }
        i = i + 1;
    }
    proof {
        assert(all@.take(i as int) =~= all@);
    }
    chars
}

/// The type allocation code of an IMEI: its first eight digits, packed BCD.
pub fn tac_from_imei(imei: &str) -> (tac: Result<[u8; 4], Es10cError>)
    ensures
        reads(tac, tac_in(imei@)),
{
    let digits: Vec<char> = without_space(imei);
    let mut i: usize = 0;
    while i < digits.len()
        invariant
            i <= digits@.len(),
            digits@ == unspaced(imei@),
            forall|j: int| 0 <= j < i ==> is_digit(digits@[j]),
        decreases digits@.len() - i,
    {
        if !digit(digits[i]) {
            return Err(Es10cError::InvalidImei);
        }
        i = i + 1;
    }
    if digits.len() < 15 || digits.len() > 16 {
        return Err(Es10cError::InvalidImei);
    }
    let tac: [u8; 4] = [
        packed(digits[0], digits[1]),
        packed(digits[2], digits[3]),
        packed(digits[4], digits[5]),
        packed(digits[6], digits[7]),
    ];
    proof {
        assert(tac@ =~= tac_in(imei@)->Ok_0);
    }
    Ok(tac)
}

fn packed(high: char, low: char) -> (octet: u8)
    requires
        is_digit(high),
        is_digit(low),
    ensures
        octet == (16 * (high as int - 48) + (low as int - 48)) as u8,
{
    (16 * (high as u32 - 48) + (low as u32 - 48)) as u8
}

/// The steps of a download that a card answers with a CHOICE.
#[derive(Clone, Copy, Debug, PartialEq, Eq, Structural)]
pub enum DownloadStep {
    AuthenticateServer,
    PrepareDownload,
    CancelSession,
}

/// The tag octet of a step.
pub open spec fn step_function(step: DownloadStep) -> u8 {
    match step {
        DownloadStep::AuthenticateServer => FN_AUTHENTICATE_SERVER,
        DownloadStep::PrepareDownload => FN_PREPARE_DOWNLOAD,
        DownloadStep::CancelSession => FN_CANCEL_SESSION,
    }
}

/// The code in a refusal; a refusal without one is undefined.
pub open spec fn refused_code(value: Seq<u8>) -> Result<u64, Es10cFault> {
    match optional_integer(tagged_in(value, seq![0x81u8])) {
        Err(e) => Err(e),
        Ok(Some(code)) => Ok(code),
        Ok(None) => Ok(127),
    }
}

/// What a refusal of a step is.
pub open spec fn step_refusal(step: DownloadStep, value: Seq<u8>) -> Es10cFault {
    match step {
        DownloadStep::CancelSession => plain(Es10cError::SessionNotCancelled),
        DownloadStep::AuthenticateServer => match refused_code(value) {
            Err(e) => e,
            Ok(code) => plain(
                Es10cError::AuthenticationRefused { code, reason: authenticate_error_name(code) },
            ),
        },
        DownloadStep::PrepareDownload => match refused_code(value) {
            Err(e) => e,
            Ok(code) => plain(
                Es10cError::DownloadRefused { code, reason: download_error_name(code) },
            ),
        },
    }
}

/// A step's answer, cut to its own length, where it is no refusal.
pub open spec fn accepted_in(response: Seq<u8>, step: DownloadStep) -> Result<
    Seq<u8>,
    Es10cFault,
> {
    match whole_of(response) {
        Err(e) => Err(e),
        Ok(whole) => match body_of(whole, function_tag(step_function(step))) {
            Err(e) => Err(e),
            Ok(body) => match element_in(body) {
                Err(_) => Err(cut_short()),
                Ok(element) => if element.tag == seq![TAG_CHOICE_OK] {
                    Ok(whole)
                } else if element.tag == seq![TAG_CHOICE_ERROR] {
                    Err(step_refusal(step, element.value))
                } else {
                    Err(Es10cFault::Tag { expected: seq![TAG_CHOICE_OK], actual: element.tag })
                },
            },
        },
    }
}

fn refusal_of(step: DownloadStep, value: &[u8]) -> (error: Es10cError)
    ensures
        error@ == step_refusal(step, value@),
{
    match step {
        DownloadStep::CancelSession => Es10cError::SessionNotCancelled,
        DownloadStep::AuthenticateServer => match find_integer(value, 0x81) {
            Err(e) => e,
            Ok(Some(code)) => Es10cError::AuthenticationRefused {
                code,
                reason: authenticate_error(code),
            },
            Ok(None) => Es10cError::AuthenticationRefused {
                code: 127,
                reason: authenticate_error(127),
            },
        },
        DownloadStep::PrepareDownload => match find_integer(value, 0x81) {
            Err(e) => e,
            Ok(Some(code)) => Es10cError::DownloadRefused { code, reason: download_error(code) },
            Ok(None) => Es10cError::DownloadRefused { code: 127, reason: download_error(127) },
        },
    }
}

fn accepted(response: &[u8], step: DownloadStep) -> (whole: Result<Vec<u8>, Es10cError>)
    ensures
        reads(whole, accepted_in(response@, step)),
{
    let whole: &[u8] = match first_tlv(response) {
        Ok(whole) => whole,
        Err(e) => return Err(e),
    };
    let function: u8 = match step {
        DownloadStep::AuthenticateServer => FN_AUTHENTICATE_SERVER,
        DownloadStep::PrepareDownload => FN_PREPARE_DOWNLOAD,
        DownloadStep::CancelSession => FN_CANCEL_SESSION,
    };
    let body: &[u8] = match expect_function(whole, function) {
        Ok(body) => body,
        Err(e) => return Err(e),
    };
    match read(body) {
        Err(_) => Err(Es10cError::Truncated),
        Ok(element) => {
            if tag_is(element.tag, TAG_CHOICE_OK) {
                return Ok(copy_of(whole));
            }
            if tag_is(element.tag, TAG_CHOICE_ERROR) {
                return Err(refusal_of(step, element.value));
            }
            Err(unexpected_tag(&one(TAG_CHOICE_OK), element.tag))
        },
    }
}

/// Read an `AuthenticateServer` response and return it verbatim.
///
/// The bytes are what `AuthenticateClient` carries to the SM-DP+, so they are
/// returned rather than rebuilt. The parse exists to notice a refusal: an
/// error response is a well formed answer that would otherwise be base64'd and
/// posted, and the server would then reject it with a message about *its*
/// input rather than about this card.
pub fn parse_authenticate_server_response(response: &[u8]) -> (whole: Result<
    Vec<u8>,
    Es10cError,
>)
    ensures
        reads(whole, accepted_in(response@, DownloadStep::AuthenticateServer)),
{
    accepted(response, DownloadStep::AuthenticateServer)
}

/// The body of the structure that octets start with.
pub open spec fn inside(bytes: Seq<u8>) -> Result<Seq<u8>, Es10cFault> {
    match whole_of(bytes) {
        Err(e) => Err(e),
        Ok(whole) => match element_in(whole) {
            Err(_) => Err(cut_short()),
            Ok(element) => Ok(element.value),
        },
    }
}

fn inside_of<'a>(bytes: &'a [u8]) -> (body: Result<&'a [u8], Es10cError>)
    ensures
        match body {
            Ok(b) => inside(bytes@) == Ok::<Seq<u8>, Es10cFault>(b@) && b@.len() <= bytes@.len(),
            Err(e) => inside(bytes@) == Err::<Seq<u8>, Es10cFault>(e@),
        },
{
    match first_tlv(bytes) {
        Err(e) => Err(e),
        Ok(whole) => match read(whole) {
            Err(_) => Err(Es10cError::Truncated),
            Ok(element) => {
                proof {
                    lemma_element(bytes@);
                    lemma_element(whole@);
                }
                Ok(element.value)
            },
        },
    }
}

/// `ccRequiredFlag`: absent or empty is no.
pub open spec fn code_required_in(smdp_signed2: Seq<u8>) -> Result<bool, Es10cFault> {
    match inside(smdp_signed2) {
        Err(e) => Err(e),
        Ok(body) => match tagged_in(body, seq![0x01u8]) {
            Some(value) => Ok(value.len() > 0 && value[0] != 0),
            None => Ok(false),
        },
    }
}

/// `ccRequiredFlag` inside `SmdpSigned2`.
///
/// A confirmation code the operator did not supply turns into a
/// `PrepareDownload` the card refuses, so the question is asked before the
/// card is involved.
pub fn confirmation_code_required(smdp_signed2: &[u8]) -> (required: Result<bool, Es10cError>)
    ensures
        match required {
            Ok(r) => code_required_in(smdp_signed2@) == Ok::<bool, Es10cFault>(r),
            Err(e) => code_required_in(smdp_signed2@) == Err::<bool, Es10cFault>(e@),
        },
{
    match inside_of(smdp_signed2) {
        Err(e) => Err(e),
        Ok(body) => match find_tag(body, &one(0x01)) {
            Some(value) => Ok(value.len() > 0 && value[0] != 0),
            None => Ok(false),
        },
    }
}

/// The `transactionId` that an SM-DP+ signed.
pub open spec fn signed_transaction_in(smdp_signed2: Seq<u8>) -> Result<Seq<u8>, Es10cFault> {
    match inside(smdp_signed2) {
        Err(e) => Err(e),
        Ok(body) => match tagged_in(body, seq![0x80u8]) {
            Some(value) => Ok(value),
            None => Err(plain(Es10cError::MissingField { name: "smdpSigned2.transactionId" })),
        },
    }
}

/// The `transactionId` an SM-DP+ signed into `SmdpSigned2`.
pub fn smdp_signed2_transaction_id(smdp_signed2: &[u8]) -> (id: Result<Vec<u8>, Es10cError>)
    ensures
        reads(id, signed_transaction_in(smdp_signed2@)),
        id matches Ok(i) ==> i@.len() <= smdp_signed2@.len(),
{
    match inside_of(smdp_signed2) {
        Err(e) => Err(e),
        Ok(body) => match find_tag(body, &one(0x80)) {
            Some(value) => Ok(copy_of(value)),
            None => Err(Es10cError::MissingField { name: "smdpSigned2.transactionId" }),
        },
    }
}

/// Octets that may be absent, by what they are.
pub open spec fn opt_octets(bytes: Option<&[u8]>) -> Option<Seq<u8>> {
    match bytes {
        Some(b) => Some(b@),
        None => None,
    }
}

/// `PrepareDownload`: the signed structures as they came, with the hash of the
/// confirmation code between them where there is one.
pub open spec fn prepare_request(
    signed: Seq<u8>,
    signature: Seq<u8>,
    certificate: Seq<u8>,
    hash: Option<Seq<u8>>,
) -> Result<Seq<u8>, Es10cFault> {
    if whole_of(signed) is Err || whole_of(signature) is Err || whole_of(certificate) is Err {
        Err(cut_short())
    } else {
        Ok(
            element_octets(
                function_tag(FN_PREPARE_DOWNLOAD),
                whole_of(signed)->Ok_0 + whole_of(signature)->Ok_0 + (match hash {
                    Some(h) => element_octets(seq![TAG_OCTET_STRING], h),
                    None => Seq::empty(),
                }) + whole_of(certificate)->Ok_0,
            ),
        )
    }
}

/// Build ES10b `PrepareDownload`.
pub fn prepare_download_payload(
    smdp_signed2: &[u8],
    smdp_signature2: &[u8],
    smdp_certificate: &[u8],
    hash_cc: Option<&[u8]>,
) -> (payload: Result<Vec<u8>, Es10cError>)
    ensures
        reads(
            payload,
            prepare_request(
                smdp_signed2@,
                smdp_signature2@,
                smdp_certificate@,
                opt_octets(hash_cc),
            ),
        ),
{
    let mut body: Vec<u8> = match first_tlv(smdp_signed2) {
        Ok(whole) => copy_of(whole),
        Err(e) => return Err(e),
    };
    match first_tlv(smdp_signature2) {
        Ok(whole) => push_all(&mut body, whole),
        Err(e) => return Err(e),
    }
    let ghost before = body@;
    if let Some(hash) = hash_cc {
        let field: Vec<u8> = wrap(&one(TAG_OCTET_STRING), hash);
        push_all(&mut body, &field);
    }
    proof {
        assert(before + Seq::<u8>::empty() =~= before);
    }
    match first_tlv(smdp_certificate) {
        Ok(whole) => push_all(&mut body, whole),
        Err(e) => return Err(e),
    }
    Ok(wrap(&make_function_tag(FN_PREPARE_DOWNLOAD), &body))
}

/// Read a `PrepareDownload` response and return it verbatim.
pub fn parse_prepare_download_response(response: &[u8]) -> (whole: Result<Vec<u8>, Es10cError>)
    ensures
        reads(whole, accepted_in(response@, DownloadStep::PrepareDownload)),
{
    accepted(response, DownloadStep::PrepareDownload)
}

/// What an SM-DP+ says a profile is, before the profile itself is released.
///
/// This is the whole reason `AuthenticateClient` and `PrepareDownload` are two
/// steps rather than one: between them the LPA holds the metadata and nothing
/// has been installed yet.
#[derive(Clone, Debug, PartialEq, Eq)]
pub struct ProfileMetadata {
    pub iccid: Option<String>,
    pub service_provider_name: Option<String>,
    pub profile_name: Option<String>,
    /// 0 test, 1 provisioning, 2 operational.
    pub class: Option<u8>,
    /// The policy rules that would be installed with the profile:
    /// `pprUpdateControl`, `ppr1`, `ppr2`.
    pub policy_rules: Vec<String>,
    /// The raw `BF25` bytes, so what was decided on can be shown verbatim.
    pub raw: Vec<u8>,
}

/// The metadata, by what its texts say.
#[verifier::ext_equal]
pub struct MetadataModel {
    pub iccid: Option<Seq<char>>,
    pub service_provider_name: Option<Seq<char>>,
    pub profile_name: Option<Seq<char>>,
    pub class: Option<u8>,
    pub policy_rules: Seq<Seq<char>>,
    pub raw: Seq<u8>,
}

impl View for ProfileMetadata {
    type V = MetadataModel;

    open spec fn view(&self) -> MetadataModel {
        MetadataModel {
            iccid: opt_text(self.iccid),
            service_provider_name: opt_text(self.service_provider_name),
            profile_name: opt_text(self.profile_name),
            class: self.class,
            policy_rules: texts(self.policy_rules@),
            raw: self.raw@,
        }
    }
}

/// Metadata that say nothing yet.
pub open spec fn blank_metadata() -> MetadataModel {
    MetadataModel {
        iccid: None,
        service_provider_name: None,
        profile_name: None,
        class: None,
        policy_rules: Seq::empty(),
        raw: Seq::empty(),
    }
}

impl Default for ProfileMetadata {
    fn default() -> (value: Self)
        ensures
            value@ == blank_metadata(),
    {
        let value = ProfileMetadata {
            iccid: None,
            service_provider_name: None,
            profile_name: None,
            class: None,
            policy_rules: Vec::new(),
            raw: Vec::new(),
        };
        proof {
            assert(value@ =~= blank_metadata());
        }
        value
    }
}

/// Whether a policy rule cannot be undone once installed.
pub open spec fn irreversible(rule: Seq<char>) -> bool {
    rule == "ppr1"@ || rule == "ppr2"@
}

impl ProfileMetadata {
    /// `ppr1` forbids disabling the profile, `ppr2` forbids deleting it.
    ///
    /// Either one is permanent once the profile is installed, and on hardware
    /// nobody can physically reach, a profile that cannot be disabled or
    /// deleted is a slot that is gone. Returned as a list rather than a
    /// boolean so a refusal can say which rule it refused.
    pub fn irreversible_policy_rules(&self) -> (rules: Vec<String>)
        ensures
            texts(rules@) == self@.policy_rules.filter(|rule: Seq<char>| irreversible(rule)),
    {
        let mut rules: Vec<String> = Vec::new();
        let mut i: usize = 0;
        let ghost all = texts(self.policy_rules@);
        let ghost keep = |rule: Seq<char>| irreversible(rule);
        proof {
            reveal(Seq::filter);
            assert(all.take(0) =~= Seq::empty());
            assert(texts(rules@) =~= all.take(0).filter(keep));
        }
        while i < self.policy_rules.len()
            invariant
                i <= self.policy_rules@.len(),
                all == texts(self.policy_rules@),
                keep == (|rule: Seq<char>| irreversible(rule)),
                texts(rules@) == all.take(i as int).filter(keep),
            decreases self.policy_rules@.len() - i,
        {
            let rule: &str = self.policy_rules[i].as_str();
            proof {
                reveal(Seq::filter);
                assert(all.take(i + 1).drop_last() =~= all.take(i as int));
                assert(all[i as int] == rule@);
            }
            if same_text(rule, "ppr1") || same_text(rule, "ppr2") {
                let ghost before = texts(rules@);
                rules.push(owned(rule));
                proof {
                    assert(texts(rules@) =~= before.push(rule@));
                }
            }
            i = i + 1;
        }
        proof {
            assert(all.take(i as int) =~= all);
        }
        rules
    }
}

/// Metadata with one element taken up.
pub open spec fn metadata_field(state: MetadataModel, element: ElementModel) -> Result<
    MetadataModel,
    Es10cFault,
> {
    let value = element.value;
    if element.tag == seq![TAG_ICCID] {
        Ok(MetadataModel { iccid: readable_iccid(value), ..state })
    } else if element.tag == seq![TAG_PROVIDER] {
        Ok(MetadataModel { service_provider_name: shown(value), ..state })
    } else if element.tag == seq![TAG_PROFILE_NAME] {
        Ok(MetadataModel { profile_name: shown(value), ..state })
    } else if element.tag == seq![TAG_PROFILE_CLASS] {
        Ok(MetadataModel { class: first_octet(value), ..state })
    } else if element.tag == seq![TAG_PROFILE_POLICY_RULES] {
        Ok(MetadataModel { policy_rules: bits_in(value, ppr_ids()), ..state })
    } else {
        Ok(state)
    }
}

/// How metadata are read.
pub open spec fn metadata_step() -> spec_fn(MetadataModel, ElementModel) -> Result<MetadataModel, Es10cFault> {
    |state: MetadataModel, element: ElementModel| metadata_field(state, element)
}

fn take_metadata_field(
    state: &mut ProfileMetadata,
    element: &Element,
) -> (done: Result<(), Es10cError>)
    requires
        element.value@.len() <= 0xffff_ffff,
    ensures
        match done {
            Ok(_) => metadata_field(
                old(state)@,
                element@,
            ) == Ok::<MetadataModel, Es10cFault>(final(state)@),
            Err(e) => metadata_field(old(state)@, element@) == Err::<MetadataModel, Es10cFault>(e@),
        },
{
    if tag_is(element.tag, TAG_ICCID) {
        state.iccid = try_iccid(element.value);
    } else if tag_is(element.tag, TAG_PROVIDER) {
        state.service_provider_name = text(element.value);
    } else if tag_is(element.tag, TAG_PROFILE_NAME) {
        state.profile_name = text(element.value);
    } else if tag_is(element.tag, TAG_PROFILE_CLASS) {
        state.class = first_of(element.value);
    } else if tag_is(element.tag, TAG_PROFILE_POLICY_RULES) {
        state.policy_rules = ppr_bits(element.value);
    }
    proof {
        assert(state@ =~= metadata_field(old(state)@, element@)->Ok_0);
    }
    Ok(())
}

fn read_metadata_fields(bytes: &[u8], state: &mut ProfileMetadata) -> (done: Result<(), Es10cError>)
    ensures
        match done {
            Ok(_) => walked(bytes@, old(state)@, metadata_step()) == Ok::<MetadataModel, Es10cFault>(
                final(state)@,
            ),
            Err(e) => walked(
                bytes@,
                old(state)@,
                metadata_step(),
            ) == Err::<MetadataModel, Es10cFault>(e@),
        },
{
    let mut rest: &[u8] = bytes;
    while rest.len() > 0
        invariant
            walked(rest@, state@, metadata_step()) == walked(bytes@, old(state)@, metadata_step()),
        decreases rest@.len(),
    {
        match read(rest) {
            Err(_) => return Err(Es10cError::Truncated),
            Ok(element) => {
                match take_metadata_field(state, &element) {
                    Ok(_) => {},
                    Err(e) => return Err(e),
                }
                rest = element.rest;
            },
        }
    }
    Ok(())
}

/// The metadata in a `StoreMetadataRequest`.
pub open spec fn metadata_in(bytes: Seq<u8>) -> Result<MetadataModel, Es10cFault> {
    match whole_of(bytes) {
        Err(e) => Err(e),
        Ok(whole) => match body_of(whole, function_tag(FN_STORE_METADATA)) {
            Err(e) => Err(e),
            Ok(body) => walked(
                body,
                MetadataModel { raw: whole, ..blank_metadata() },
                metadata_step(),
            ),
        },
    }
}

/// Decode the `profileMetadata` an SM-DP+ returns from `AuthenticateClient`.
pub fn parse_profile_metadata(bytes: &[u8]) -> (metadata: Result<ProfileMetadata, Es10cError>)
    ensures
        reads(metadata, metadata_in(bytes@)),
{
    let whole: &[u8] = match first_tlv(bytes) {
        Ok(whole) => whole,
        Err(e) => return Err(e),
    };
    let body: &[u8] = match expect_function(whole, FN_STORE_METADATA) {
        Ok(body) => body,
        Err(e) => return Err(e),
    };
    let mut metadata: ProfileMetadata = ProfileMetadata::default();
    metadata.raw = copy_of(whole);
    proof {
        assert(metadata@ =~= (MetadataModel { raw: whole@, ..blank_metadata() }));
    }
    match read_metadata_fields(body, &mut metadata) {
        Ok(_) => Ok(metadata),
        Err(e) => Err(e),
    }
}

// ---------------------------------------------------------------------------
// Bound Profile Packages
// ---------------------------------------------------------------------------

/// One piece of a Bound Profile Package as it has to reach the eUICC.
///
/// A BPP is not sent as one blob. SGP.22 section 5.7.5 splits it at fixed
/// points — the header plus the secure channel request, then each sequence
/// header, then each encrypted element on its own — and each piece is its own
/// `STORE DATA` chain with its own block counter. A correctly formed BPP cut
/// in the wrong places fails inside the secure channel, and the card reports
/// that as a security error rather than as a framing one.
#[derive(Clone, Debug, PartialEq, Eq)]
pub struct BppSegment {
    /// What this piece is, for a log that has to be read after the fact.
    pub label: String,
    pub bytes: Vec<u8>,
}

/// A segment, by what it says.
#[verifier::ext_equal]
pub struct SegmentModel {
    pub label: Seq<char>,
    pub bytes: Seq<u8>,
}

impl View for BppSegment {
    type V = SegmentModel;

    open spec fn view(&self) -> SegmentModel {
        SegmentModel { label: self.label@, bytes: self.bytes@ }
    }
}

/// The models of segments.
pub open spec fn segment_models(segments: Seq<BppSegment>) -> Seq<SegmentModel> {
    segments.map_values(|segment: BppSegment| segment@)
}

/// The octets of segments, one after the other.
pub open spec fn joined_segments(segments: Seq<SegmentModel>) -> Seq<u8>
    decreases segments.len(),
{
    if segments.len() == 0 {
        Seq::empty()
    } else {
        joined_segments(segments.drop_last()) + segments.last().bytes
    }
}

/// What a package that is being split has to go on with.
#[derive(Clone, Copy, Debug, PartialEq, Eq, Structural)]
pub enum BppPart {
    /// `A0`, the first sequence of `87`.
    First87,
    /// `A1`, the sequence of `88`.
    All88,
    /// `A2`, the second sequence of `87`, or `A3` where that is left out.
    Second87,
    /// `A3`, the sequence of `86`.
    All86,
    /// Nothing: the package is complete.
    End,
}

impl BppPart {
    /// What has to come behind an element with a tag, if that is in its place here.
    pub open spec fn after(self, tag: u8) -> Option<BppPart> {
        match self {
            BppPart::First87 => if tag == 0xa0 {
                Some(BppPart::All88)
            } else {
                None
            },
            BppPart::All88 => if tag == 0xa1 {
                Some(BppPart::Second87)
            } else {
                None
            },
            BppPart::Second87 => if tag == 0xa2 {
                Some(BppPart::All86)
            } else if tag == 0xa3 {
                Some(BppPart::End)
            } else {
                None
            },
            BppPart::All86 => if tag == 0xa3 {
                Some(BppPart::End)
            } else {
                None
            },
            BppPart::End => None,
        }
    }

    fn advance(self, tag: u8) -> (next: Option<BppPart>)
        ensures
            next == self.after(tag),
    {
        match self {
            BppPart::First87 if tag == 0xa0 => Some(BppPart::All88),
            BppPart::All88 if tag == 0xa1 => Some(BppPart::Second87),
            BppPart::Second87 if tag == 0xa2 => Some(BppPart::All86),
            BppPart::Second87 if tag == 0xa3 => Some(BppPart::End),
            BppPart::All86 if tag == 0xa3 => Some(BppPart::End),
            _ => None,
        }
    }

    /// The tags that may come next.
    pub open spec fn tags(self) -> Seq<u8> {
        match self {
            BppPart::First87 => seq![0xa0u8],
            BppPart::All88 => seq![0xa1u8],
            BppPart::Second87 => seq![0xa2u8, 0xa3u8],
            BppPart::All86 => seq![0xa3u8],
            BppPart::End => Seq::empty(),
        }
    }

    fn expected(self) -> (tags: Vec<u8>)
        ensures
            tags@ == self.tags(),
    {
        let mut tags: Vec<u8> = Vec::new();
        match self {
            BppPart::First87 => {
                tags.push(0xa0);
            },
            BppPart::All88 => {
                tags.push(0xa1);
            },
            BppPart::Second87 => {
                tags.push(0xa2);
                tags.push(0xa3);
            },
            BppPart::All86 => {
                tags.push(0xa3);
            },
            BppPart::End => {},
        }
        proof {
            assert(tags@ =~= self.tags());
        }
        tags
    }
}

/// A package that is being split: the tags of its elements and the segments, so
/// far.
#[verifier::ext_equal]
pub struct SplitModel {
    pub tags: Seq<u8>,
    pub segments: Seq<SegmentModel>,
}

struct Split {
    tags: Vec<u8>,
    segments: Vec<BppSegment>,
}

impl View for Split {
    type V = SplitModel;

    closed spec fn view(&self) -> SplitModel {
        SplitModel { tags: self.tags@, segments: segment_models(self.segments@) }
    }
}

/// What a member of a sequence is called.
pub open spec fn member_label(member: Seq<char>, index: nat) -> Seq<char> {
    member + "["@ + decimal(index) + "]"@
}

/// Segments with every element of a list as one more segment, numbered on
/// from `index`.
pub open spec fn members_in(
    bytes: Seq<u8>,
    member: Seq<char>,
    index: nat,
    segments: Seq<SegmentModel>,
) -> Result<Seq<SegmentModel>, Es10cFault>
    decreases bytes.len(),
{
    if bytes.len() == 0 {
        Ok(segments)
    } else {
        match element_in(bytes) {
            Err(_) => Err(cut_short()),
            Ok(element) => {
                proof {
                    lemma_element(bytes);
                }
                members_in(
                    rest_after(bytes),
                    member,
                    index + 1,
                    segments.push(
                        SegmentModel { label: member_label(member, index), bytes: element.whole },
                    ),
                )
            },
        }
    }
}

/// The tag and length octets of an element.
pub open spec fn header_of(element: ElementModel) -> Seq<u8> {
    element.whole.take(element.whole.len() - element.value.len())
}

/// A package with one more of its elements split: the sequences of `87` travel
/// whole; those of `88` and `86` as a header and one segment for each member.
pub open spec fn split_element(state: SplitModel, element: ElementModel) -> Result<
    SplitModel,
    Es10cFault,
> {
    if element.tag == seq![0xa0u8] {
        let segment = SegmentModel { label: "firstSequenceOf87"@, bytes: element.whole };
        Ok(SplitModel { tags: state.tags.push(0xa0), segments: state.segments.push(segment) })
    } else if element.tag == seq![0xa1u8] {
        let header = SegmentModel { label: "sequenceOf88 header"@, bytes: header_of(element) };
        match members_in(element.value, "88"@, 0, state.segments.push(header)) {
            Err(e) => Err(e),
            Ok(segments) => Ok(SplitModel { tags: state.tags.push(0xa1), segments }),
        }
    } else if element.tag == seq![0xa2u8] {
        let segment = SegmentModel { label: "secondSequenceOf87"@, bytes: element.whole };
        Ok(SplitModel { tags: state.tags.push(0xa2), segments: state.segments.push(segment) })
    } else if element.tag == seq![0xa3u8] {
        let header = SegmentModel { label: "sequenceOf86 header"@, bytes: header_of(element) };
        match members_in(element.value, "86"@, 0, state.segments.push(header)) {
            Err(e) => Err(e),
            Ok(segments) => Ok(SplitModel { tags: state.tags.push(0xa3), segments }),
        }
    } else {
        Err(
            Es10cFault::Tag {
                expected: seq![0xa0u8, 0xa1u8, 0xa2u8, 0xa3u8],
                actual: element.tag,
            },
        )
    }
}

/// What has to come behind elements with these tags, each in its place, or the
/// first that is out of place and what had to come there.
pub open spec fn placed(tags: Seq<u8>) -> Result<BppPart, (BppPart, u8)>
    decreases tags.len(),
{
    if tags.len() == 0 {
        Ok(BppPart::First87)
    } else {
        match placed(tags.drop_last()) {
            Err(e) => Err(e),
            Ok(next) => match next.after(tags.last()) {
                Some(then) => Ok(then),
                None => Err((next, tags.last())),
            },
        }
    }
}

/// Why elements with these tags are no package, if they are none: one that must be
/// there is not, or one is out of place.
pub open spec fn order_fault(tags: Seq<u8>) -> Option<Es10cFault> {
    if !tags.contains(0xa0u8) || !tags.contains(0xa1u8) || !tags.contains(0xa3u8) {
        Some(plain(Es10cError::MissingField { name: "boundProfilePackage element" }))
    } else {
        match placed(tags) {
            Ok(_) => None,
            Err((next, tag)) => Some(
                Es10cFault::Tag { expected: next.tags(), actual: seq![tag] },
            ),
        }
    }
}

/// How a package is split.
pub open spec fn split_step() -> spec_fn(SplitModel, ElementModel) -> Result<
    SplitModel,
    Es10cFault,
> {
    |state: SplitModel, element: ElementModel| split_element(state, element)
}

/// The segments of a Bound Profile Package.
pub open spec fn segments_in(bpp: Seq<u8>) -> Result<Seq<SegmentModel>, Es10cFault> {
    match body_of(bpp, function_tag(FN_BOUND_PROFILE_PACKAGE)) {
        Err(e) => Err(e),
        Ok(body) => match body_of(body, function_tag(FN_INITIALISE_SECURE_CHANNEL)) {
            Err(e) => Err(e),
            Ok(_) => {
                let first = SegmentModel {
                    label: "header+initialiseSecureChannelRequest"@,
                    bytes: header_of(element_in(bpp)->Ok_0) + whole_of(body)->Ok_0,
                };
                let start = SplitModel { tags: Seq::empty(), segments: seq![first] };
                match walked(rest_after(body), start, split_step()) {
                    Err(e) => Err(e),
                    Ok(split) => match order_fault(split.tags) {
                        Some(fault) => Err(fault),
                        None => Ok(split.segments),
                    },
                }
            },
        },
    }
}

fn push_segment(segments: &mut Vec<BppSegment>, label: String, bytes: &[u8])
    ensures
        segment_models(final(segments)@) == segment_models(old(segments)@).push(
            SegmentModel { label: label@, bytes: bytes@ },
        ),
{
    let segment: BppSegment = BppSegment { label, bytes: copy_of(bytes) };
    let ghost shown = segment@;
    segments.push(segment);
    proof {
        assert(shown =~= (SegmentModel { label: label@, bytes: bytes@ }));
        assert(segment_models(segments@) =~= segment_models(old(segments)@).push(shown));
    }
}

fn split_members(bytes: &[u8], member: &str, segments: &mut Vec<BppSegment>) -> (done: Result<
    (),
    Es10cError,
>)
    ensures
        match done {
            Ok(_) => members_in(bytes@, member@, 0, segment_models(old(segments)@)) == Ok::<
                Seq<SegmentModel>,
                Es10cFault,
            >(segment_models(final(segments)@)),
            Err(e) => members_in(bytes@, member@, 0, segment_models(old(segments)@)) == Err::<
                Seq<SegmentModel>,
                Es10cFault,
            >(e@),
        },
{
    let mut rest: &[u8] = bytes;
    let mut index: usize = 0;
    let total: usize = bytes.len();
    while rest.len() > 0
        invariant
            index + rest@.len() <= total,
            members_in(rest@, member@, index as nat, segment_models(segments@)) == members_in(
                bytes@,
                member@,
                0,
                segment_models(old(segments)@),
            ),
        decreases rest@.len(),
    {
        match read(rest) {
            Err(_) => return Err(Es10cError::Truncated),
            Ok(element) => {
                let mut label: String = String::new();
                label.append(member);
                label.append("[");
                push_decimal(&mut label, index as u64);
                label.append("]");
                proof {
                    assert(label@ =~= member_label(member@, index as nat));
                }
                push_segment(segments, label, element.whole);
                rest = element.rest;
                index = index + 1;
            },
        }
    }
    Ok(())
}

fn header_slice<'a>(element: &Element<'a>) -> (header: &'a [u8])
    requires
        element.value@.len() <= element.whole@.len(),
    ensures
        header@ == header_of(element@),
{
    let end: usize = element.whole.len() - element.value.len();
    proof {
        assert(element.whole@.subrange(0, end as int) =~= element.whole@.take(end as int));
    }
    &element.whole[0..end]
}

fn take_split(state: &mut Split, element: &Element) -> (done: Result<(), Es10cError>)
    requires
        element.value@.len() <= element.whole@.len(),
    ensures
        match done {
            Ok(_) => split_element(old(state)@, element@) == Ok::<SplitModel, Es10cFault>(
                final(state)@,
            ),
            Err(e) => split_element(old(state)@, element@) == Err::<SplitModel, Es10cFault>(e@),
        },
{
    if tag_is(element.tag, 0xa0) {
        state.tags.push(0xa0);
        push_segment(&mut state.segments, owned("firstSequenceOf87"), element.whole);
    } else if tag_is(element.tag, 0xa1) {
        state.tags.push(0xa1);
        push_segment(&mut state.segments, owned("sequenceOf88 header"), header_slice(element));
        match split_members(element.value, "88", &mut state.segments) {
            Ok(_) => {},
            Err(e) => return Err(e),
        }
    } else if tag_is(element.tag, 0xa2) {
        state.tags.push(0xa2);
        push_segment(&mut state.segments, owned("secondSequenceOf87"), element.whole);
    } else if tag_is(element.tag, 0xa3) {
        state.tags.push(0xa3);
        push_segment(&mut state.segments, owned("sequenceOf86 header"), header_slice(element));
        match split_members(element.value, "86", &mut state.segments) {
            Ok(_) => {},
            Err(e) => return Err(e),
        }
    } else {
        let mut expected: Vec<u8> = Vec::new();
        expected.push(0xa0);
        expected.push(0xa1);
        expected.push(0xa2);
        expected.push(0xa3);
        proof {
            assert(expected@ =~= seq![0xa0u8, 0xa1u8, 0xa2u8, 0xa3u8]);
        }
        return Err(unexpected_tag(&expected, element.tag));
    }
    proof {
        assert(state@ =~= split_element(old(state)@, element@)->Ok_0);
    }
    Ok(())
}

fn split_rest(bytes: &[u8], state: &mut Split) -> (done: Result<(), Es10cError>)
    ensures
        match done {
            Ok(_) => walked(bytes@, old(state)@, split_step()) == Ok::<SplitModel, Es10cFault>(
                final(state)@,
            ),
            Err(e) => walked(bytes@, old(state)@, split_step()) == Err::<SplitModel, Es10cFault>(
                e@,
            ),
        },
{
    let mut rest: &[u8] = bytes;
    while rest.len() > 0
        invariant
            walked(rest@, state@, split_step()) == walked(bytes@, old(state)@, split_step()),
        decreases rest@.len(),
    {
        match read(rest) {
            Err(_) => return Err(Es10cError::Truncated),
            Ok(element) => {
                proof {
                    lemma_element(rest@);
                }
                match take_split(state, &element) {
                    Ok(_) => {},
                    Err(e) => return Err(e),
                }
                rest = element.rest;
            },
        }
    }
    Ok(())
}

proof fn lemma_placed_prefix(tags: Seq<u8>, n: int)
    requires
        0 <= n <= tags.len(),
        placed(tags.take(n)) is Err,
    ensures
        placed(tags) == placed(tags.take(n)),
    decreases tags.len() - n,
{
    if n < tags.len() {
        assert(tags.take(n + 1).drop_last() =~= tags.take(n));
        lemma_placed_prefix(tags, n + 1);
    } else {
        assert(tags.take(n) =~= tags);
    }
}

fn holds_octet(list: &Vec<u8>, octet: u8) -> (yes: bool)
    ensures
        yes == list@.contains(octet),
{
    let mut i: usize = 0;
    while i < list.len()
        invariant
            i <= list@.len(),
            forall|j: int| 0 <= j < i ==> list@[j] != octet,
        decreases list@.len() - i,
    {
        if list[i] == octet {
            proof {
                assert(list@[i as int] == octet);
            }
            return true;
        }
        i = i + 1;
    }
    false
}

fn check_order(tags: &Vec<u8>) -> (fault: Option<Es10cError>)
    ensures
        match fault {
            Some(e) => order_fault(tags@) == Some(e@),
            None => order_fault(tags@) is None,
        },
{
    if !holds_octet(tags, 0xa0) || !holds_octet(tags, 0xa1) || !holds_octet(tags, 0xa3) {
        return Some(Es10cError::MissingField { name: "boundProfilePackage element" });
    }
    let mut next: BppPart = BppPart::First87;
    let mut i: usize = 0;
    proof {
        assert(tags@.take(0) =~= Seq::empty());
    }
    while i < tags.len()
        invariant
            i <= tags@.len(),
            tags@.contains(0xa0u8) && tags@.contains(0xa1u8) && tags@.contains(0xa3u8),
            placed(tags@.take(i as int)) == Ok::<BppPart, (BppPart, u8)>(next),
        decreases tags@.len() - i,
    {
        proof {
            assert(tags@.take(i + 1).drop_last() =~= tags@.take(i as int));
        }
        match next.advance(tags[i]) {
            Some(then) => {
                next = then;
            },
            None => {
                proof {
                    lemma_placed_prefix(tags@, i + 1);
                }
                return Some(unexpected_tag(&next.expected(), &one(tags[i])));
            },
        }
        i = i + 1;
    }
    proof {
        assert(tags@.take(i as int) =~= tags@);
    }
    None
}

/// Split a Bound Profile Package the way SGP.22 section 5.7.5 requires.
///
/// The order is fixed by the standard and by what the eUICC's secure
/// channel expects next, so this walks the structure rather than searching it:
/// the header and `BF23`, then the whole `A0`, then `A1`'s header followed by
/// each `88` on its own, then `A2` whole if it is there, then `A3`'s header
/// followed by each `86` on its own.
pub fn bound_profile_package_segments(bpp: &[u8]) -> (segments: Result<
    Vec<BppSegment>,
    Es10cError,
>)
    ensures
        match segments {
            Ok(s) => segments_in(bpp@) == Ok::<Seq<SegmentModel>, Es10cFault>(segment_models(s@)),
            Err(e) => segments_in(bpp@) == Err::<Seq<SegmentModel>, Es10cFault>(e@),
        },
{
    let package: Element = match read(bpp) {
        Ok(package) => package,
        Err(_) => return Err(Es10cError::Truncated),
    };
    if !tag_is_pair(package.tag, TAG_FUNCTION, FN_BOUND_PROFILE_PACKAGE) {
        return Err(
            unexpected_tag(&make_function_tag(FN_BOUND_PROFILE_PACKAGE), package.tag),
        );
    }
    let channel: Element = match read(package.value) {
        Ok(channel) => channel,
        Err(_) => return Err(Es10cError::Truncated),
    };
    if !tag_is_pair(channel.tag, TAG_FUNCTION, FN_INITIALISE_SECURE_CHANNEL) {
        return Err(
            unexpected_tag(&make_function_tag(FN_INITIALISE_SECURE_CHANNEL), channel.tag),
        );
    }
    proof {
        lemma_element(bpp@);
    }
    // The eUICC needs the outer length before it will accept anything else.
    let mut opening: Vec<u8> = copy_of(header_slice(&package));
    push_all(&mut opening, channel.whole);
    let mut state: Split = Split { tags: Vec::new(), segments: Vec::new() };
    push_segment(
        &mut state.segments,
        owned("header+initialiseSecureChannelRequest"),
        &opening,
    );
    proof {
        let first = SegmentModel {
            label: "header+initialiseSecureChannelRequest"@,
            bytes: header_of(element_in(bpp@)->Ok_0) + whole_of(package.value@)->Ok_0,
        };
        assert(state@.segments =~= seq![first]);
        assert(state@.tags =~= Seq::empty());
    }
    match split_rest(channel.rest, &mut state) {
        Ok(_) => {},
        Err(e) => return Err(e),
    }
    if let Some(fault) = check_order(&state.tags) {
        return Err(fault);
    }
    Ok(state.segments)
}

proof fn lemma_push_segment(segments: Seq<SegmentModel>, segment: SegmentModel)
    ensures
        joined_segments(segments.push(segment)) == joined_segments(segments) + segment.bytes,
{
    assert(segments.push(segment).drop_last() =~= segments);
}

proof fn lemma_members_join(
    bytes: Seq<u8>,
    member: Seq<char>,
    index: nat,
    segments: Seq<SegmentModel>,
)
    requires
        members_in(bytes, member, index, segments) is Ok,
    ensures
        joined_segments(members_in(bytes, member, index, segments)->Ok_0) == joined_segments(
            segments,
        ) + bytes,
    decreases bytes.len(),
{
    if bytes.len() == 0 {
        assert(joined_segments(segments) + bytes =~= joined_segments(segments));
    } else {
        lemma_element(bytes);
        let element = element_in(bytes)->Ok_0;
        let segment = SegmentModel { label: member_label(member, index), bytes: element.whole };
        lemma_members_join(rest_after(bytes), member, index + 1, segments.push(segment));
        lemma_push_segment(segments, segment);
        assert(joined_segments(segments) + bytes =~= joined_segments(segments) + element.whole
            + rest_after(bytes));
    }
}

proof fn lemma_split_element_joins(state: SplitModel, element: ElementModel)
    requires
        split_element(state, element) is Ok,
        element.value.len() <= element.whole.len(),
        element.whole.skip(element.whole.len() - element.value.len()) == element.value,
    ensures
        joined_segments(split_element(state, element)->Ok_0.segments) == joined_segments(
            state.segments,
        ) + element.whole,
{
    let n = element.whole.len() - element.value.len();
    assert(header_of(element) + element.value =~= element.whole);
    assert(seq![0xa0u8][0] == 0xa0 && seq![0xa1u8][0] == 0xa1);
    assert(seq![0xa2u8][0] == 0xa2 && seq![0xa3u8][0] == 0xa3);
    if element.tag == seq![0xa0u8] || element.tag == seq![0xa2u8] {
        let label = if element.tag == seq![0xa0u8] {
            "firstSequenceOf87"@
        } else {
            "secondSequenceOf87"@
        };
        lemma_push_segment(state.segments, SegmentModel { label, bytes: element.whole });
    } else {
        let label = if element.tag == seq![0xa1u8] {
            "sequenceOf88 header"@
        } else {
            "sequenceOf86 header"@
        };
        let member = if element.tag == seq![0xa1u8] {
            "88"@
        } else {
            "86"@
        };
        let header = SegmentModel { label, bytes: header_of(element) };
        lemma_push_segment(state.segments, header);
        lemma_members_join(element.value, member, 0, state.segments.push(header));
        assert(joined_segments(state.segments) + header_of(element) + element.value
            =~= joined_segments(state.segments) + element.whole);
    }
}

proof fn lemma_split_joins(bytes: Seq<u8>, state: SplitModel)
    requires
        walked(bytes, state, split_step()) is Ok,
    ensures
        joined_segments(walked(bytes, state, split_step())->Ok_0.segments) == joined_segments(
            state.segments,
        ) + bytes,
    decreases bytes.len(),
{
    if bytes.len() == 0 {
        assert(joined_segments(state.segments) + bytes =~= joined_segments(state.segments));
    } else {
        lemma_element(bytes);
        let element = element_in(bytes)->Ok_0;
        let next = split_element(state, element)->Ok_0;
        assert(split_step()(state, element) == split_element(state, element));
        lemma_split_element_joins(state, element);
        lemma_split_joins(rest_after(bytes), next);
        assert(joined_segments(state.segments) + bytes =~= joined_segments(state.segments)
            + element.whole + rest_after(bytes));
    }
}

/// The tags of a list of elements, as far as it can be read.
pub open spec fn tags_in(bytes: Seq<u8>) -> Seq<Seq<u8>>
    decreases bytes.len(),
{
    if bytes.len() == 0 {
        Seq::empty()
    } else {
        match element_in(bytes) {
            Err(_) => Seq::empty(),
            Ok(element) => {
                proof {
                    lemma_element(bytes);
                }
                seq![element.tag] + tags_in(rest_after(bytes))
            },
        }
    }
}

/// Single octets as tags.
pub open spec fn single_tags(tags: Seq<u8>) -> Seq<Seq<u8>> {
    tags.map_values(|tag: u8| seq![tag])
}

proof fn lemma_split_keeps_tags(bytes: Seq<u8>, state: SplitModel)
    requires
        walked(bytes, state, split_step()) is Ok,
    ensures
        single_tags(walked(bytes, state, split_step())->Ok_0.tags) == single_tags(state.tags)
            + tags_in(bytes),
    decreases bytes.len(),
{
    if bytes.len() == 0 {
        assert(single_tags(state.tags) + Seq::<Seq<u8>>::empty() =~= single_tags(state.tags));
    } else {
        lemma_element(bytes);
        let element = element_in(bytes)->Ok_0;
        let next = split_element(state, element)->Ok_0;
        assert(split_step()(state, element) == split_element(state, element));
        lemma_split_keeps_tags(rest_after(bytes), next);
        assert(single_tags(next.tags) =~= single_tags(state.tags).push(element.tag));
        assert(single_tags(state.tags) + tags_in(bytes) =~= single_tags(next.tags) + tags_in(
            rest_after(bytes),
        ));
    }
}

proof fn lemma_placed_tags(tags: Seq<u8>)
    requires
        placed(tags) is Ok,
    ensures
        match placed(tags)->Ok_0 {
            BppPart::First87 => tags == Seq::<u8>::empty(),
            BppPart::All88 => tags == seq![0xa0u8],
            BppPart::Second87 => tags == seq![0xa0u8, 0xa1u8],
            BppPart::All86 => tags == seq![0xa0u8, 0xa1u8, 0xa2u8],
            BppPart::End => tags == seq![0xa0u8, 0xa1u8, 0xa3u8] || tags == seq![
                0xa0u8,
                0xa1u8,
                0xa2u8,
                0xa3u8,
            ],
        },
    decreases tags.len(),
{
    if tags.len() > 0 {
        lemma_placed_tags(tags.drop_last());
        assert(tags =~= tags.drop_last().push(tags.last()));
        assert(Seq::<u8>::empty().push(0xa0) =~= seq![0xa0u8]);
        assert(seq![0xa0u8].push(0xa1) =~= seq![0xa0u8, 0xa1u8]);
        assert(seq![0xa0u8, 0xa1u8].push(0xa2) =~= seq![0xa0u8, 0xa1u8, 0xa2u8]);
        assert(seq![0xa0u8, 0xa1u8].push(0xa3) =~= seq![0xa0u8, 0xa1u8, 0xa3u8]);
        assert(seq![0xa0u8, 0xa1u8, 0xa2u8].push(0xa3) =~= seq![0xa0u8, 0xa1u8, 0xa2u8, 0xa3u8]);
    } else {
        assert(tags =~= Seq::empty());
    }
}

/// A package is only split where its parts are there in order: the first
/// sequence of `87`, that of `88`, the second of `87` where there is one, and that
/// of `86`, each once and nothing behind them.
pub proof fn law_a_package_is_whole_and_in_order(bpp: Seq<u8>)
    requires
        segments_in(bpp) is Ok,
    ensures
        ({
            let tags = tags_in(
                rest_after(body_of(bpp, function_tag(FN_BOUND_PROFILE_PACKAGE))->Ok_0),
            );
            tags == single_tags(seq![0xa0u8, 0xa1u8, 0xa3u8]) || tags == single_tags(
                seq![0xa0u8, 0xa1u8, 0xa2u8, 0xa3u8],
            )
        }),
{
    let body = body_of(bpp, function_tag(FN_BOUND_PROFILE_PACKAGE))->Ok_0;
    let first = SegmentModel {
        label: "header+initialiseSecureChannelRequest"@,
        bytes: header_of(element_in(bpp)->Ok_0) + whole_of(body)->Ok_0,
    };
    let start = SplitModel { tags: Seq::empty(), segments: seq![first] };
    let tags = walked(rest_after(body), start, split_step())->Ok_0.tags;
    lemma_split_keeps_tags(rest_after(body), start);
    assert(single_tags(Seq::empty()) + tags_in(rest_after(body)) =~= tags_in(rest_after(body)));
    lemma_placed_tags(tags);
    assert(tags.contains(0xa3u8));
    let at = tags.index_of(0xa3u8);
    assert(tags[at] == 0xa3);
}

proof fn lemma_one_segment(segment: SegmentModel)
    ensures
        joined_segments(seq![segment]) == segment.bytes,
{
    lemma_push_segment(Seq::empty(), segment);
    assert(Seq::<SegmentModel>::empty().push(segment) =~= seq![segment]);
    assert(Seq::<u8>::empty() + segment.bytes =~= segment.bytes);
}

/// A split package starts with its header and its first element, and what follows
/// is what the rest was split into.
proof fn lemma_split_start(bpp: Seq<u8>) -> (start: SplitModel)
    requires
        segments_in(bpp) is Ok,
    ensures
        ({
            let package = element_in(bpp)->Ok_0;
            let rest = rest_after(package.value);
            &&& element_in(bpp) is Ok
            &&& element_in(package.value) is Ok
            &&& joined_segments(start.segments) == header_of(package) + element_in(
                package.value,
            )->Ok_0.whole
            &&& walked(rest, start, split_step()) is Ok
            &&& segments_in(bpp)->Ok_0 == walked(rest, start, split_step())->Ok_0.segments
        }),
{
    let package = element_in(bpp)->Ok_0;
    let channel = element_in(package.value)->Ok_0;
    let first = SegmentModel {
        label: "header+initialiseSecureChannelRequest"@,
        bytes: header_of(package) + channel.whole,
    };
    lemma_one_segment(first);
    SplitModel { tags: Seq::empty(), segments: seq![first] }
}

/// The segments of a package, sent one after the other, are the package and
/// nothing else, up to the length its header declares.
pub proof fn law_segments_are_the_package(bpp: Seq<u8>)
    requires
        segments_in(bpp) is Ok,
    ensures
        joined_segments(segments_in(bpp)->Ok_0) == whole_of(bpp)->Ok_0,
{
    let start = lemma_split_start(bpp);
    let package = element_in(bpp)->Ok_0;
    let body = package.value;
    let channel = element_in(body)->Ok_0;
    let rest = rest_after(body);
    lemma_split_joins(rest, start);
    assert(header_of(package) + body =~= package.whole) by {
        lemma_element(bpp);
    }
    assert(body == channel.whole + rest) by {
        lemma_element(body);
    }
    assert((header_of(package) + channel.whole) + rest =~= header_of(package) + (channel.whole
        + rest));
}

// ---------------------------------------------------------------------------
// After the download
// ---------------------------------------------------------------------------

/// What the eUICC reports after the last BPP segment.
#[derive(Clone, Debug, PartialEq, Eq)]
pub struct InstallationResult {
    pub success: bool,
    /// The notification the card now owes the SM-DP+.
    pub sequence_number: Option<u64>,
    pub iccid: Option<String>,
    /// Which BPP command failed, when one did.
    pub bpp_command: Option<String>,
    pub error_reason: Option<String>,
    /// The whole `BF37` structure, which is also the notification to deliver.
    pub notification: Vec<u8>,
}

/// The result, by what its texts say.
#[verifier::ext_equal]
pub struct InstallationModel {
    pub success: bool,
    pub sequence_number: Option<u64>,
    pub iccid: Option<Seq<char>>,
    pub bpp_command: Option<Seq<char>>,
    pub error_reason: Option<Seq<char>>,
    pub notification: Seq<u8>,
}

impl View for InstallationResult {
    type V = InstallationModel;

    open spec fn view(&self) -> InstallationModel {
        InstallationModel {
            success: self.success,
            sequence_number: self.sequence_number,
            iccid: opt_text(self.iccid),
            bpp_command: opt_text(self.bpp_command),
            error_reason: opt_text(self.error_reason),
            notification: self.notification@,
        }
    }
}

/// A result that says nothing yet.
pub open spec fn blank_installation() -> InstallationModel {
    InstallationModel {
        success: false,
        sequence_number: None,
        iccid: None,
        bpp_command: None,
        error_reason: None,
        notification: Seq::empty(),
    }
}

impl Default for InstallationResult {
    fn default() -> (value: Self)
        ensures
            value@ == blank_installation(),
    {
        let value = InstallationResult {
            success: false,
            sequence_number: None,
            iccid: None,
            bpp_command: None,
            error_reason: None,
            notification: Vec::new(),
        };
        proof {
            assert(value@ =~= blank_installation());
        }
        value
    }
}

/// The ICCID in a tagged value, where there is one.
pub open spec fn optional_iccid(value: Option<Seq<u8>>) -> Option<Seq<char>> {
    match value {
        Some(v) => readable_iccid(v),
        None => None,
    }
}

/// The name of a code that may be absent.
pub open spec fn optional_name(code: Option<u64>, name: spec_fn(u64) -> &'static str) -> Option<
    Seq<char>,
> {
    match code {
        Some(c) => Some(name(c)@),
        None => None,
    }
}

/// What the final result of an installation says: that it succeeded, or which
/// command failed and why.
pub open spec fn final_result_in(value: Seq<u8>, known: InstallationModel) -> Result<
    InstallationModel,
    Es10cFault,
> {
    match element_in(value) {
        Err(_) => Err(cut_short()),
        Ok(element) => if element.tag == seq![TAG_CHOICE_OK] {
            Ok(InstallationModel { success: true, ..known })
        } else if element.tag == seq![TAG_CHOICE_ERROR] {
            match optional_integer(tagged_in(element.value, seq![0x80u8])) {
                Err(e) => Err(e),
                Ok(command) => match optional_integer(tagged_in(element.value, seq![0x81u8])) {
                    Err(e) => Err(e),
                    Ok(reason) => Ok(
                        InstallationModel {
                            bpp_command: optional_name(command, |c: u64| bpp_command_name(c)),
                            error_reason: optional_name(
                                reason,
                                |c: u64| installation_error_name(c),
                            ),
                            ..known
                        },
                    ),
                },
            }
        } else {
            Err(Es10cFault::Tag { expected: seq![TAG_CHOICE_OK], actual: element.tag })
        },
    }
}

/// The result in the data of a `ProfileInstallationResult`.
pub open spec fn result_data_in(whole: Seq<u8>, data: Seq<u8>) -> Result<
    InstallationModel,
    Es10cFault,
> {
    match tagged_in(data, function_tag(FN_NOTIFICATION_METADATA)) {
        None => Err(plain(Es10cError::MissingField { name: "notificationMetadata" })),
        Some(metadata) => match tagged_in(data, seq![TAG_FINAL_RESULT]) {
            None => Err(plain(Es10cError::MissingField { name: "finalResult" })),
            Some(outcome) => match optional_integer(tagged_in(metadata, seq![0x80u8])) {
                Err(e) => Err(e),
                Ok(sequence_number) => final_result_in(
                    outcome,
                    InstallationModel {
                        sequence_number,
                        iccid: optional_iccid(tagged_in(metadata, seq![TAG_ICCID])),
                        notification: whole,
                        ..blank_installation()
                    },
                ),
            },
        },
    }
}

/// The `ProfileInstallationResult` in an answer to the last segment.
pub open spec fn installation_in(response: Seq<u8>) -> Result<InstallationModel, Es10cFault> {
    match whole_of(response) {
        Err(e) => Err(e),
        Ok(whole) => match body_of(whole, function_tag(FN_INSTALLATION_RESULT)) {
            Err(e) => Err(e),
            Ok(body) => match body_of(body, function_tag(FN_INSTALLATION_RESULT_DATA)) {
                Err(e) => Err(e),
                Ok(data) => result_data_in(whole, data),
            },
        },
    }
}

fn read_final_result(value: &[u8], result: &mut InstallationResult) -> (done: Result<
    (),
    Es10cError,
>)
    ensures
        match done {
            Ok(_) => final_result_in(value@, old(result)@) == Ok::<InstallationModel, Es10cFault>(
                final(result)@,
            ),
            Err(e) => final_result_in(value@, old(result)@) == Err::<
                InstallationModel,
                Es10cFault,
            >(e@),
        },
{
    let element: Element = match read(value) {
        Ok(element) => element,
        Err(_) => return Err(Es10cError::Truncated),
    };
    if tag_is(element.tag, TAG_CHOICE_OK) {
        result.success = true;
    } else if tag_is(element.tag, TAG_CHOICE_ERROR) {
        let command: Option<u64> = match find_integer(element.value, 0x80) {
            Ok(command) => command,
            Err(e) => return Err(e),
        };
        let reason: Option<u64> = match find_integer(element.value, 0x81) {
            Ok(reason) => reason,
            Err(e) => return Err(e),
        };
        result.bpp_command = match command {
            Some(code) => Some(owned(bpp_command(code))),
            None => None,
        };
        result.error_reason = match reason {
            Some(code) => Some(owned(installation_error(code))),
            None => None,
        };
    } else {
        return Err(unexpected_tag(&one(TAG_CHOICE_OK), element.tag));
    }
    proof {
        assert(result@ =~= final_result_in(value@, old(result)@)->Ok_0);
    }
    Ok(())
}

/// Decode the `ProfileInstallationResult` the last BPP segment returns.
pub fn parse_installation_result(response: &[u8]) -> (result: Result<
    InstallationResult,
    Es10cError,
>)
    ensures
        reads(result, installation_in(response@)),
{
    let whole: &[u8] = match first_tlv(response) {
        Ok(whole) => whole,
        Err(e) => return Err(e),
    };
    let body: &[u8] = match expect_function(whole, FN_INSTALLATION_RESULT) {
        Ok(body) => body,
        Err(e) => return Err(e),
    };
    let data: &[u8] = match expect_function(body, FN_INSTALLATION_RESULT_DATA) {
        Ok(data) => data,
        Err(e) => return Err(e),
    };
    let metadata: &[u8] = match find_tag(data, &make_function_tag(FN_NOTIFICATION_METADATA)) {
        Some(metadata) => metadata,
        None => return Err(Es10cError::MissingField { name: "notificationMetadata" }),
    };
    let outcome: &[u8] = match find_tag(data, &one(TAG_FINAL_RESULT)) {
        Some(outcome) => outcome,
        None => return Err(Es10cError::MissingField { name: "finalResult" }),
    };
    let mut result: InstallationResult = InstallationResult::default();
    result.sequence_number = match find_integer(metadata, 0x80) {
        Ok(number) => number,
        Err(e) => return Err(e),
    };
    result.iccid = match find_tag(metadata, &one(TAG_ICCID)) {
        Some(value) => try_iccid(value),
        None => None,
    };
    result.notification = copy_of(whole);
    proof {
        let known = InstallationModel {
            sequence_number: result.sequence_number,
            iccid: optional_iccid(tagged_in(metadata@, seq![TAG_ICCID])),
            notification: whole@,
            ..blank_installation()
        };
        assert(result@ =~= known);
    }
    match read_final_result(outcome, &mut result) {
        Ok(_) => Ok(result),
        Err(e) => Err(e),
    }
}

/// The shortest big-endian encoding of a number, at least one octet.
pub open spec fn minimal_octets(value: nat) -> Seq<u8>
    decreases value,
{
    if value < 256 {
        seq![value as u8]
    } else {
        minimal_octets(value / 256).push((value % 256) as u8)
    }
}

fn minimal_integer(value: u64) -> (bytes: Vec<u8>)
    ensures
        bytes@ == minimal_octets(value as nat),
    decreases value,
{
    if value < 256 {
        one(value as u8)
    } else {
        let mut bytes: Vec<u8> = minimal_integer(value / 256);
        bytes.push((value % 256) as u8);
        bytes
    }
}

/// `RemoveNotificationFromList` of one sequence number.
pub open spec fn remove_request(sequence_number: u64) -> Seq<u8> {
    element_octets(
        function_tag(FN_NOTIFICATION_SENT),
        element_octets(seq![0x80u8], minimal_octets(sequence_number as nat)),
    )
}

/// ES10b `RemoveNotificationFromList` by sequence number.
pub fn remove_notification_payload(sequence_number: u64) -> (payload: Vec<u8>)
    ensures
        payload@ == remove_request(sequence_number),
{
    let number: Vec<u8> = wrap(&one(0x80), &minimal_integer(sequence_number));
    wrap(&make_function_tag(FN_NOTIFICATION_SENT), &number)
}

/// The number in a `RemoveNotificationFromList` answer or request.
pub open spec fn removal_in(response: Seq<u8>) -> Result<u64, Es10cFault> {
    match whole_of(response) {
        Err(e) => Err(e),
        Ok(whole) => match answer_value(whole, FN_NOTIFICATION_SENT, 0x80) {
            Err(e) => Err(e),
            Ok(value) => integer_in(value),
        },
    }
}

/// Read a `RemoveNotificationFromList` response: 0 means it is gone.
pub fn parse_remove_notification_response(response: &[u8]) -> (code: Result<u64, Es10cError>)
    ensures
        match code {
            Ok(n) => removal_in(response@) == Ok::<u64, Es10cFault>(n),
            Err(e) => removal_in(response@) == Err::<u64, Es10cFault>(e@),
        },
{
    let whole: &[u8] = match first_tlv(response) {
        Ok(whole) => whole,
        Err(e) => return Err(e),
    };
    match expect_answer(whole, FN_NOTIFICATION_SENT, 0x80) {
        Ok(value) => integer(value),
        Err(e) => Err(e),
    }
}

proof fn lemma_minimal_octets(value: nat, count: nat, limit: nat)
    requires
        1 <= count <= 8,
        value < limit,
        count == 1 ==> limit == 0x100,
        count == 2 ==> limit == 0x1_0000,
        count == 3 ==> limit == 0x100_0000,
        count == 4 ==> limit == 0x1_0000_0000,
        count == 5 ==> limit == 0x100_0000_0000,
        count == 6 ==> limit == 0x1_0000_0000_0000,
        count == 7 ==> limit == 0x100_0000_0000_0000,
        count == 8 ==> limit == 0x1_0000_0000_0000_0000,
    ensures
        1 <= minimal_octets(value).len() <= count,
        big_endian(minimal_octets(value)) == value,
    decreases count,
{
    if value < 256 {
        let bytes = seq![value as u8];
        assert(bytes.drop_last() =~= Seq::empty());
        assert(big_endian(bytes.drop_last()) == 0);
        assert(bytes.last() == value as u8);
    } else {
        lemma_minimal_octets(value / 256, (count - 1) as nat, limit / 256);
        let bytes = minimal_octets(value);
        assert(bytes.drop_last() =~= minimal_octets(value / 256));
        assert(bytes.last() == (value % 256) as u8);
    }
}

/// The number that a removal names is the number it was asked for.
pub proof fn law_removal_names_its_notification(sequence_number: u64)
    ensures
        removal_in(remove_request(sequence_number)) == Ok::<u64, Es10cFault>(sequence_number),
{
    let number = minimal_octets(sequence_number as nat);
    lemma_minimal_octets(sequence_number as nat, 8, 0x1_0000_0000_0000_0000);
    let inner = element_octets(seq![0x80u8], number);
    let whole = remove_request(sequence_number);
    assert(crate::ber::complete_tag(seq![0x80u8]));
    crate::ber::law_element_round_trip(seq![0x80u8], number, Seq::empty());
    assert(inner + Seq::<u8>::empty() =~= inner);
    let tag = function_tag(FN_NOTIFICATION_SENT);
    assert(crate::ber::tag_end(tag, 1) == Some(2int));
    assert(crate::ber::complete_tag(tag));
    crate::ber::law_element_round_trip(tag, inner, Seq::empty());
    assert(whole + Seq::<u8>::empty() =~= whole);
}

/// `CancelSession` of a transaction, for a reason.
pub open spec fn cancel_request(transaction_id: Seq<u8>, reason: CancelSessionReason) -> Seq<u8> {
    element_octets(
        function_tag(FN_CANCEL_SESSION),
        element_octets(seq![0x80u8], transaction_id) + element_octets(
            seq![0x81u8],
            seq![reason.code_of()],
        ),
    )
}

/// ES10b `CancelSession`.
///
/// The way out of a session that has been started and must not be finished.
/// Without it a refused download leaves the SM-DP+ holding a profile in a
/// state it will not hand out again for hours.
pub fn cancel_session_payload(transaction_id: &[u8], reason: CancelSessionReason) -> (payload: Vec<
    u8,
>)
    ensures
        payload@ == cancel_request(transaction_id@, reason),
{
    let mut body: Vec<u8> = wrap(&one(0x80), transaction_id);
    let code: Vec<u8> = wrap(&one(0x81), &one(reason.code()));
    push_all(&mut body, &code);
    wrap(&make_function_tag(FN_CANCEL_SESSION), &body)
}

/// Read a `CancelSession` response and return it verbatim for ES9+.
pub fn parse_cancel_session_response(response: &[u8]) -> (whole: Result<Vec<u8>, Es10cError>)
    ensures
        reads(whole, accepted_in(response@, DownloadStep::CancelSession)),
{
    accepted(response, DownloadStep::CancelSession)
}

} // verus!
