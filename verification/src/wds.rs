//! QMI Wireless Data Service: starting a packet session and reading what the
//! network granted.
//!
//! A packet data handle is only good while the QMI client that obtained it is
//! open: releasing the client ends the session.

use crate::octets::{le16, le32, le32_octets, push_le32, read_le16, read_le32};
use crate::text::{decimal, hex_eight, opt_str, push_decimal, push_hex_eight};
use crate::result::{expect_reply, reply_tlvs, ReplyFault, ResultError};
use crate::wire::{
    find_tlv, first_tlv, made, only_tlv, request_of_tlvs, tlv_models, unique_tlv, ClientAssignment, MessageId,
    MessageModel, QmiRequest, QmiResponse, ServiceId, Tlv, TlvLookupError, TlvModel,
    TransactionId, WireError,
};
use vstd::prelude::*;
use vstd::arithmetic::power2::pow2;
use vstd::utf8::encode_utf8;

verus! {

pub const START_NETWORK_INTERFACE: u16 = 0x0020;

pub const STOP_NETWORK_INTERFACE: u16 = 0x0021;

pub const GET_CURRENT_SETTINGS: u16 = 0x002d;

pub const REQ_APN: u8 = 0x14;

pub const REQ_AUTH_PREFERENCE: u8 = 0x16;

pub const REQ_USERNAME: u8 = 0x17;

pub const REQ_PASSWORD: u8 = 0x18;

pub const REQ_IP_FAMILY: u8 = 0x19;

pub const PACKET_DATA_HANDLE: u8 = 0x01;

pub const CALL_END_REASON: u8 = 0x10;

pub const REQUESTED_SETTINGS: u8 = 0x10;

pub const DNS_PRIMARY: u8 = 0x15;

pub const DNS_SECONDARY: u8 = 0x16;

pub const IPV4_ADDRESS: u8 = 0x1e;

pub const IPV4_GATEWAY: u8 = 0x20;

pub const IPV4_NETMASK: u8 = 0x21;

pub const MTU: u8 = 0x29;

/// Ask for every setting rather than naming the ones we want: the mask is a
/// hint that modems honour differently.
pub const ALL_SETTINGS: u32 = 0xffff_ffff;

/// The handle a started session is addressed by.
#[derive(Clone, Copy, Debug, PartialEq, Eq, Structural)]
pub struct PacketDataHandle(pub u32);

impl PacketDataHandle {
    pub fn new(value: u32) -> (handle: Self)
        ensures
            handle == PacketDataHandle(value),
    {
        PacketDataHandle(value)
    }

    pub fn as_u32(self) -> (value: u32)
        ensures
            value == self.0,
    {
        self.0
    }

    pub open spec fn text(self) -> Seq<char> {
        "0x"@ + hex_eight(self.0)
    }

    pub fn push_to(&self, out: &mut String)
        ensures
            final(out)@ == old(out)@ + self.text(),
    {
        out.append("0x");
        push_hex_eight(out, self.0);
        proof {
            assert(out@ =~= old(out)@ + self.text());
        }
    }

    pub fn to_string(&self) -> (text: String)
        ensures
            text@ == self.text(),
    {
        let mut text: String = String::new();
        self.push_to(&mut text);
        proof {
            assert(text@ =~= self.text());
        }
        text
    }
}

/// How the session authenticates, matching QMI's bitmask.
#[derive(Clone, Copy, Debug, PartialEq, Eq, Structural)]
pub enum AuthPreference {
    Unauthenticated,
    Pap,
    Chap,
    /// Both bits set: let the network choose.
    PapOrChap,
}

impl AuthPreference {
    pub open spec fn wire(self) -> u8 {
        match self {
            AuthPreference::Unauthenticated => 0x00,
            AuthPreference::Pap => 0x01,
            AuthPreference::Chap => 0x02,
            AuthPreference::PapOrChap => 0x03,
        }
    }

    pub fn bits(self) -> (value: u8)
        ensures
            value == self.wire(),
    {
        match self {
            AuthPreference::Unauthenticated => 0x00,
            AuthPreference::Pap => 0x01,
            AuthPreference::Chap => 0x02,
            AuthPreference::PapOrChap => 0x03,
        }
    }
}

/// What the network granted, as far as it said.
///
/// Every field is optional because a modem answers with the TLVs it has: a
/// session can come up with an address and no DNS, and reading that as a
/// failure would refuse a working link.
#[derive(Clone, Copy, Debug, PartialEq, Eq, Structural)]
pub struct Ipv4Settings {
    pub address: Option<u32>,
    pub gateway: Option<u32>,
    pub netmask: Option<u32>,
    pub dns_primary: Option<u32>,
    pub dns_secondary: Option<u32>,
    pub mtu: Option<u32>,
}

impl Default for Ipv4Settings {
    fn default() -> (settings: Self)
        ensures
            settings == (Ipv4Settings {
                address: None,
                gateway: None,
                netmask: None,
                dns_primary: None,
                dns_secondary: None,
                mtu: None,
            }),
    {
        Ipv4Settings {
            address: None,
            gateway: None,
            netmask: None,
            dns_primary: None,
            dns_secondary: None,
            mtu: None,
        }
    }
}

/// A mask of `length` ones followed by zeroes only.
pub open spec fn is_mask_of(mask: u32, length: int) -> bool {
    0 <= length <= 32 && mask + pow2((32 - length) as nat) == 0x1_0000_0000
}

impl Ipv4Settings {
    /// Netmask as a prefix length, for the `ip addr` form of the same fact. A
    /// mask with a hole in it is no netmask and has no prefix length.
    pub fn prefix_length(&self) -> (length: Option<u8>)
        ensures
            match length {
                Some(n) => self.netmask matches Some(mask) && is_mask_of(mask, n as int),
                None => match self.netmask {
                    Some(mask) => forall|n: int| !is_mask_of(mask, n),
                    None => true,
                },
            },
    {
        let mask: u32 = match self.netmask {
            Some(mask) => mask,
            None => return None,
        };
        let mut zeros: u8 = 0;
        let mut block: u64 = 1;
        proof {
            vstd::arithmetic::power2::lemma2_to64();
        }
        loop
            invariant
                self.netmask == Some(mask),
                zeros <= 32,
                block == pow2(zeros as nat),
                block <= 0x1_0000_0000,
                forall|n: int| 32 - zeros < n <= 32 ==> !is_mask_of(mask, n),
            decreases 32 - zeros,
        {
            if mask as u64 + block == 0x1_0000_0000 {
                return Some(32 - zeros);
            }
            if zeros == 32 {
                return None;
            }
            proof {
                vstd::arithmetic::power2::lemma_pow2_unfold((zeros + 1) as nat);
                vstd::arithmetic::power2::lemma2_to64();
                if zeros + 1 < 32 {
                    vstd::arithmetic::power2::lemma_pow2_strictly_increases((zeros + 1) as nat, 32);
                }
            }
            zeros = zeros + 1;
            block = block * 2;
        }
    }
}

/// The WDS service.
pub const WDS_SERVICE: u8 = 0x01;

/// A request of this service, or why the assignment cannot carry it.
pub open spec fn wds_request(
    assignment: ClientAssignment,
    transaction: TransactionId,
    message: MessageId,
    tlvs: Seq<TlvModel>,
) -> Result<MessageModel, WdsError> {
    if assignment.service != ServiceId(WDS_SERVICE) {
        Err(WdsError::UnexpectedService { actual: assignment.service })
    } else {
        match request_of_tlvs(
            ServiceId(WDS_SERVICE),
            assignment.client_id,
            transaction,
            message,
            tlvs,
        ) {
            Ok(m) => Ok(m),
            Err(e) => Err(WdsError::Wire(e)),
        }
    }
}

/// A refused answer as this service reports it.
pub open spec fn wds_fault(fault: ReplyFault) -> WdsError {
    match fault {
        ReplyFault::Service { actual } => WdsError::UnexpectedService { actual },
        ReplyFault::ControlClient => WdsError::Wire(
            WireError::ServiceRequiresAllocatedClient { service: ServiceId(WDS_SERVICE) },
        ),
        ReplyFault::Message { expected, actual } => WdsError::UnexpectedMessage {
            expected,
            actual,
        },
        ReplyFault::Result(e) => WdsError::Result(e),
    }
}

/// The TLVs of a successful answer of this service.
pub open spec fn wds_tlvs(response: MessageModel, message: u16) -> Result<
    Seq<TlvModel>,
    WdsError,
> {
    match reply_tlvs(response, ServiceId(WDS_SERVICE), MessageId(message)) {
        Ok(tlvs) => Ok(tlvs),
        Err(fault) => Err(wds_fault(fault)),
    }
}

fn expect_wds(response: &QmiResponse, message: u16) -> (tlvs: Result<Vec<Tlv>, WdsError>)
    ensures
        match tlvs {
            Ok(list) => wds_tlvs(response@, message) == Ok::<Seq<TlvModel>, WdsError>(
                tlv_models(list@),
            ),
            Err(e) => wds_tlvs(response@, message) == Err::<Seq<TlvModel>, WdsError>(e),
        },
{
    match expect_reply(response, ServiceId::wds(), MessageId::new(message)) {
        Ok(tlvs) => Ok(tlvs),
        Err(ReplyFault::Service { actual }) => Err(WdsError::UnexpectedService { actual }),
        Err(ReplyFault::ControlClient) => Err(
            WdsError::Wire(
                WireError::ServiceRequiresAllocatedClient { service: ServiceId::wds() },
            ),
        ),
        Err(ReplyFault::Message { expected, actual }) => Err(
            WdsError::UnexpectedMessage { expected, actual },
        ),
        Err(ReplyFault::Result(e)) => Err(WdsError::Result(e)),
    }
}

fn ensure_wds(assignment: ClientAssignment) -> (checked: Result<(), WdsError>)
    ensures
        checked == (if assignment.service != ServiceId(WDS_SERVICE) {
            Err::<(), WdsError>(WdsError::UnexpectedService { actual: assignment.service })
        } else {
            Ok(())
        }),
{
    if assignment.service() != ServiceId::wds() {
        return Err(WdsError::UnexpectedService { actual: assignment.service() });
    }
    Ok(())
}

fn request_with(
    assignment: ClientAssignment,
    transaction: TransactionId,
    message: MessageId,
    tlvs: &[Tlv],
) -> (request: Result<QmiRequest, WdsError>)
    ensures
        made(request, wds_request(assignment, transaction, message, tlv_models(tlvs@))),
{
    match ensure_wds(assignment) {
        Ok(_) => {},
        Err(e) => return Err(e),
    }
    match QmiRequest::from_tlvs(
        ServiceId::wds(),
        assignment.client_id(),
        transaction,
        message,
        tlvs,
    ) {
        Ok(request) => Ok(request),
        Err(e) => Err(WdsError::Wire(e)),
    }
}

/// A TLV whose value has to fit, or why it does not.
pub open spec fn text_tlv(kind: u8, text: Seq<char>) -> Result<TlvModel, WdsError> {
    let value = encode_utf8(text);
    if value.len() > 0xffff {
        Err(WdsError::Wire(WireError::TlvValueTooLarge { kind, actual: value.len() as usize }))
    } else {
        Ok(TlvModel { kind, value })
    }
}

/// A credential TLV, where there is a credential: an absent one and an empty
/// one are both left out.
pub open spec fn credential_tlv(kind: u8, text: Option<Seq<char>>) -> Result<
    Seq<TlvModel>,
    WdsError,
> {
    match text {
        Some(t) if t.len() > 0 => match text_tlv(kind, t) {
            Ok(tlv) => Ok(seq![tlv]),
            Err(e) => Err(e),
        },
        _ => Ok(Seq::empty()),
    }
}

/// The TLVs that start a session.
pub open spec fn start_tlvs(
    apn: Seq<char>,
    username: Option<Seq<char>>,
    password: Option<Seq<char>>,
    auth: AuthPreference,
) -> Result<Seq<TlvModel>, WdsError> {
    match text_tlv(REQ_APN, apn) {
        Err(e) => Err(e),
        Ok(apn_tlv) => match credential_tlv(REQ_USERNAME, username) {
            Err(e) => Err(e),
            Ok(user) => match credential_tlv(REQ_PASSWORD, password) {
                Err(e) => Err(e),
                Ok(pass) => Ok(
                    seq![apn_tlv, TlvModel { kind: REQ_IP_FAMILY, value: seq![4u8] }] + (if auth
                        != AuthPreference::Unauthenticated {
                        seq![TlvModel { kind: REQ_AUTH_PREFERENCE, value: seq![auth.wire()] }]
                    } else {
                        Seq::empty()
                    }) + user + pass,
                ),
            },
        },
    }
}

/// The request that starts a session.
pub open spec fn start_message(
    assignment: ClientAssignment,
    transaction: TransactionId,
    apn: Seq<char>,
    username: Option<Seq<char>>,
    password: Option<Seq<char>>,
    auth: AuthPreference,
) -> Result<MessageModel, WdsError> {
    if assignment.service != ServiceId(WDS_SERVICE) {
        Err(WdsError::UnexpectedService { actual: assignment.service })
    } else {
        match start_tlvs(apn, username, password, auth) {
            Err(e) => Err(e),
            Ok(tlvs) => wds_request(
                assignment,
                transaction,
                MessageId(START_NETWORK_INTERFACE),
                tlvs,
            ),
        }
    }
}

fn make_text_tlv(kind: u8, text: &str) -> (tlv: Result<Tlv, WdsError>)
    ensures
        match tlv {
            Ok(t) => text_tlv(kind, text@) == Ok::<TlvModel, WdsError>(t@),
            Err(e) => text_tlv(kind, text@) == Err::<TlvModel, WdsError>(e),
        },
{
    match Tlv::new(kind, crate::octets::copy_of(text.as_bytes())) {
        Ok(tlv) => Ok(tlv),
        Err(e) => Err(WdsError::Wire(e)),
    }
}

fn push_credential(tlvs: &mut Vec<Tlv>, kind: u8, text: Option<&str>) -> (pushed: Result<
    (),
    WdsError,
>)
    ensures
        match pushed {
            Ok(_) => credential_tlv(kind, opt_str(text)) matches Ok(more) && tlv_models(
                final(tlvs)@,
            ) == tlv_models(old(tlvs)@) + more,
            Err(e) => credential_tlv(kind, opt_str(text)) == Err::<Seq<TlvModel>, WdsError>(e),
        },
{
    proof {
        assert(tlv_models(tlvs@) + Seq::<TlvModel>::empty() =~= tlv_models(tlvs@));
    }
    match text {
        Some(t) => {
            if !t.is_empty() {
                match make_text_tlv(kind, t) {
                    Ok(tlv) => {
                        let ghost before = tlvs@;
                        tlvs.push(tlv);
                        proof {
                            assert(tlv_models(tlvs@) =~= tlv_models(before) + seq![tlv@]);
                        }
                    },
                    Err(e) => return Err(e),
                }
            }
        },
        None => {},
    }
    Ok(())
}

/// Build `StartNetworkInterface`.
///
/// Username and password are sent only when there is one, because an empty
/// credential TLV is not the same as no credential and some firmware treats it
/// as a request to authenticate with nothing.
pub fn start_request(
    assignment: ClientAssignment,
    transaction: TransactionId,
    apn: &str,
    username: Option<&str>,
    password: Option<&str>,
    auth: AuthPreference,
) -> (request: Result<QmiRequest, WdsError>)
    ensures
        made(
            request,
            start_message(
                assignment,
                transaction,
                apn@,
                opt_str(username),
                opt_str(password),
                auth,
            ),
        ),
{
    match ensure_wds(assignment) {
        Ok(_) => {},
        Err(e) => return Err(e),
    }
    let mut tlvs: Vec<Tlv> = Vec::new();
    let apn_tlv: Tlv = match make_text_tlv(REQ_APN, apn) {
        Ok(tlv) => tlv,
        Err(e) => return Err(e),
    };
    let ghost apn_model = apn_tlv@;
    tlvs.push(apn_tlv);
    let mut family: Vec<u8> = Vec::new();
    family.push(4);
    tlvs.push(Tlv { kind: REQ_IP_FAMILY, value: family });
    proof {
        assert(family@ =~= seq![4u8]);
        assert(tlv_models(tlvs@) =~= seq![
            apn_model,
            TlvModel { kind: REQ_IP_FAMILY, value: seq![4u8] },
        ]);
    }
    if auth != AuthPreference::Unauthenticated {
        let mut preference: Vec<u8> = Vec::new();
        preference.push(auth.bits());
        let ghost before = tlvs@;
        tlvs.push(Tlv { kind: REQ_AUTH_PREFERENCE, value: preference });
        proof {
            assert(preference@ =~= seq![auth.wire()]);
            assert(tlv_models(tlvs@) =~= tlv_models(before) + seq![
                TlvModel { kind: REQ_AUTH_PREFERENCE, value: seq![auth.wire()] },
            ]);
        }
    } else {
        proof {
            assert(tlv_models(tlvs@) + Seq::<TlvModel>::empty() =~= tlv_models(tlvs@));
        }
    }
    match push_credential(&mut tlvs, REQ_USERNAME, username) {
        Ok(_) => {},
        Err(e) => return Err(e),
    }
    match push_credential(&mut tlvs, REQ_PASSWORD, password) {
        Ok(_) => {},
        Err(e) => return Err(e),
    }
    request_with(assignment, transaction, MessageId::new(START_NETWORK_INTERFACE), &tlvs)
}

fn number_tlvs(kind: u8, value: u32) -> (tlvs: Vec<Tlv>)
    ensures
        tlv_models(tlvs@) == seq![TlvModel { kind, value: le32_octets(value) }],
{
    let mut bytes: Vec<u8> = Vec::new();
    push_le32(&mut bytes, value);
    let mut tlvs: Vec<Tlv> = Vec::new();
    tlvs.push(Tlv { kind, value: bytes });
    proof {
        assert(bytes@ =~= le32_octets(value));
        assert(tlv_models(tlvs@) =~= seq![TlvModel { kind, value: le32_octets(value) }]);
    }
    tlvs
}

/// What stops the session of a handle.
pub open spec fn stop_message(
    assignment: ClientAssignment,
    transaction: TransactionId,
    handle: u32,
) -> Result<MessageModel, WdsError> {
    wds_request(
        assignment,
        transaction,
        MessageId(STOP_NETWORK_INTERFACE),
        seq![TlvModel { kind: PACKET_DATA_HANDLE, value: le32_octets(handle) }],
    )
}

/// What asks for everything that was granted.
pub open spec fn settings_message(
    assignment: ClientAssignment,
    transaction: TransactionId,
) -> Result<MessageModel, WdsError> {
    wds_request(
        assignment,
        transaction,
        MessageId(GET_CURRENT_SETTINGS),
        seq![TlvModel { kind: REQUESTED_SETTINGS, value: le32_octets(ALL_SETTINGS) }],
    )
}

/// Build `StopNetworkInterface` for a handle.
pub fn stop_request(
    assignment: ClientAssignment,
    transaction: TransactionId,
    handle: PacketDataHandle,
) -> (request: Result<QmiRequest, WdsError>)
    ensures
        made(
            request,
            wds_request(
                assignment,
                transaction,
                MessageId(STOP_NETWORK_INTERFACE),
                seq![TlvModel { kind: PACKET_DATA_HANDLE, value: le32_octets(handle.0) }],
            ),
        ),
        made(request, stop_message(assignment, transaction, handle.0)),
{
    let tlvs: Vec<Tlv> = number_tlvs(PACKET_DATA_HANDLE, handle.as_u32());
    request_with(assignment, transaction, MessageId::new(STOP_NETWORK_INTERFACE), &tlvs)
}

/// Build `GetCurrentSettings`.
pub fn current_settings_request(
    assignment: ClientAssignment,
    transaction: TransactionId,
) -> (request: Result<QmiRequest, WdsError>)
    ensures
        made(
            request,
            wds_request(
                assignment,
                transaction,
                MessageId(GET_CURRENT_SETTINGS),
                seq![TlvModel { kind: REQUESTED_SETTINGS, value: le32_octets(ALL_SETTINGS) }],
            ),
        ),
        made(request, settings_message(assignment, transaction)),
{
    let tlvs: Vec<Tlv> = number_tlvs(REQUESTED_SETTINGS, ALL_SETTINGS);
    request_with(assignment, transaction, MessageId::new(GET_CURRENT_SETTINGS), &tlvs)
}

/// A four-octet number at the front of a value.
pub open spec fn number_field(value: Seq<u8>) -> Option<u32> {
    if value.len() < 4 {
        None
    } else {
        Some(le32(value[0], value[1], value[2], value[3]))
    }
}

/// The handle in the answer to a start.
pub open spec fn handle_in(response: MessageModel) -> Result<PacketDataHandle, WdsError> {
    match wds_tlvs(response, START_NETWORK_INTERFACE) {
        Err(e) => Err(e),
        Ok(tlvs) => match only_tlv(tlvs, PACKET_DATA_HANDLE) {
            Err(e) => Err(WdsError::Lookup(e)),
            Ok(value) => match number_field(value) {
                Some(n) => Ok(PacketDataHandle(n)),
                None => Err(
                    WdsError::Truncated {
                        field: "packet data handle",
                        actual: value.len() as usize,
                    },
                ),
            },
        },
    }
}

/// Read the handle out of a successful `StartNetworkInterface`.
pub fn parse_start(response: &QmiResponse) -> (handle: Result<PacketDataHandle, WdsError>)
    ensures
        handle == handle_in(response@),
{
    let tlvs: Vec<Tlv> = match expect_wds(response, START_NETWORK_INTERFACE) {
        Ok(tlvs) => tlvs,
        Err(e) => return Err(e),
    };
    let handle: &Tlv = match unique_tlv(&tlvs, PACKET_DATA_HANDLE) {
        Ok(tlv) => tlv,
        Err(e) => return Err(WdsError::Lookup(e)),
    };
    match read_u32(&handle.value) {
        Some(value) => Ok(PacketDataHandle::new(value)),
        None => Err(
            WdsError::Truncated { field: "packet data handle", actual: handle.value.len() },
        ),
    }
}

/// The reason in an answer, whatever its result says.
pub open spec fn call_end_reason_in(response: MessageModel) -> Option<u16> {
    match only_tlv(response.tlvs(), CALL_END_REASON) {
        Ok(value) if value.len() >= 2 => Some(le16(value[0], value[1])),
        _ => None,
    }
}

/// Why the network refused, when it said.
///
/// Read from the failure response rather than from the result code: the result
/// says "call failed" and this says which of forty reasons it was. Absent when
/// the modem did not send it.
pub fn parse_call_end_reason(response: &QmiResponse) -> (reason: Option<u16>)
    ensures
        reason == call_end_reason_in(response@),
{
    let tlvs: Vec<Tlv> = match response.tlvs() {
        Ok(tlvs) => tlvs,
        Err(_) => return None,
    };
    match unique_tlv(&tlvs, CALL_END_REASON) {
        Err(_) => None,
        Ok(reason) => {
            if reason.value.len() < 2 {
                return None;
            }
            Some(read_le16(reason.value[0], reason.value[1]))
        },
    }
}

/// One setting: the first TLV of its kind, where it is long enough.
pub open spec fn setting_in(tlvs: Seq<TlvModel>, kind: u8) -> Option<u32> {
    match first_tlv(tlvs, kind) {
        Some(value) => number_field(value),
        None => None,
    }
}

/// Whatever the network granted.
pub open spec fn settings_in(response: MessageModel) -> Result<Ipv4Settings, WdsError> {
    match wds_tlvs(response, GET_CURRENT_SETTINGS) {
        Err(e) => Err(e),
        Ok(tlvs) => Ok(
            Ipv4Settings {
                address: setting_in(tlvs, IPV4_ADDRESS),
                gateway: setting_in(tlvs, IPV4_GATEWAY),
                netmask: setting_in(tlvs, IPV4_NETMASK),
                dns_primary: setting_in(tlvs, DNS_PRIMARY),
                dns_secondary: setting_in(tlvs, DNS_SECONDARY),
                mtu: setting_in(tlvs, MTU),
            },
        ),
    }
}

/// Read whatever the network granted.
pub fn parse_current_settings(response: &QmiResponse) -> (settings: Result<Ipv4Settings, WdsError>)
    ensures
        settings == settings_in(response@),
{
    let tlvs: Vec<Tlv> = match expect_wds(response, GET_CURRENT_SETTINGS) {
        Ok(tlvs) => tlvs,
        Err(e) => return Err(e),
    };
    Ok(
        Ipv4Settings {
            address: read_setting(&tlvs, IPV4_ADDRESS),
            gateway: read_setting(&tlvs, IPV4_GATEWAY),
            netmask: read_setting(&tlvs, IPV4_NETMASK),
            dns_primary: read_setting(&tlvs, DNS_PRIMARY),
            dns_secondary: read_setting(&tlvs, DNS_SECONDARY),
            mtu: read_setting(&tlvs, MTU),
        },
    )
}

fn read_setting(tlvs: &[Tlv], kind: u8) -> (value: Option<u32>)
    ensures
        value == setting_in(tlv_models(tlvs@), kind),
{
    match find_tlv(tlvs, kind) {
        Some(tlv) => read_u32(&tlv.value),
        None => None,
    }
}

fn read_u32(value: &[u8]) -> (number: Option<u32>)
    ensures
        number == number_field(value@),
{
    if value.len() < 4 {
        return None;
    }
    Some(read_le32(value[0], value[1], value[2], value[3]))
}

/// Errors from encoding or decoding WDS messages.
#[allow(inconsistent_fields)]
#[derive(Clone, Copy, Debug, PartialEq, Eq)]
pub enum WdsError {
    Wire(WireError),
    Result(ResultError),
    Lookup(TlvLookupError),
    UnexpectedService { actual: ServiceId },
    UnexpectedMessage { expected: MessageId, actual: MessageId },
    Truncated { field: &'static str, actual: usize },
}

impl WdsError {
    pub open spec fn text(self) -> Seq<char> {
        match self {
            WdsError::Wire(error) => error.text(),
            WdsError::Result(error) => error.text(),
            WdsError::Lookup(error) => error.text(),
            WdsError::UnexpectedService { actual } => "expected WDS service, got "@ + actual.text(),
            WdsError::UnexpectedMessage { expected, actual } => "expected WDS message "@
                + expected.text() + ", got "@ + actual.text(),
            WdsError::Truncated { field, actual } => field@ + " is "@ + decimal(actual as nat)
                + " bytes, expected at least 4"@,
        }
    }

    pub fn push_to(&self, out: &mut String)
        ensures
            final(out)@ == old(out)@ + self.text(),
    {
        match self {
            WdsError::Wire(error) => {
                error.push_to(out);
            },
            WdsError::Result(error) => {
                error.push_to(out);
            },
            WdsError::Lookup(error) => {
                error.push_to(out);
            },
            WdsError::UnexpectedService { actual } => {
                out.append("expected WDS service, got ");
                actual.push_to(out);
            },
            WdsError::UnexpectedMessage { expected, actual } => {
                out.append("expected WDS message ");
                expected.push_to(out);
                out.append(", got ");
                actual.push_to(out);
            },
            WdsError::Truncated { field, actual } => {
                out.append(field);
                out.append(" is ");
                push_decimal(out, *actual as u64);
                out.append(" bytes, expected at least 4");
            },
        }
        proof {
            assert(out@ =~= old(out)@ + self.text());
        }
    }

    pub fn to_string(&self) -> (text: String)
        ensures
            text@ == self.text(),
    {
        let mut text: String = String::new();
        self.push_to(&mut text);
        proof {
            assert(text@ =~= self.text());
        }
        text
    }
}

} // verus!
