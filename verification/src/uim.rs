//! QMI User Identity Module service: logical channels, APDUs and card files.

use crate::octets::{copy_range, le16, le16_octets, push_all, push_le16, read_le16};
use crate::text::{
    all_digits, decimal, digit, hex_char, hex_digit_lower, hex_pair, is_digit, push_decimal,
    push_hex_pair, string_of, stripped_end,
};
use crate::result::{expect_reply, reply_tlvs, ReplyFault, ResultError};
use crate::wire::{
    made, only_tlv, request_of_tlvs, tlv_models, unique_tlv, ClientAssignment, MessageId,
    MessageModel, QmiRequest, QmiResponse, ServiceId, Tlv, TlvLookupError, TlvModel,
    TransactionId, WireError,
};
use vstd::prelude::*;

verus! {

pub const SEND_APDU: u16 = 0x003b;

pub const CLOSE_LOGICAL_CHANNEL: u16 = 0x003f;

pub const OPEN_LOGICAL_CHANNEL: u16 = 0x0042;

pub const READ_TRANSPARENT: u16 = 0x0020;

pub const SLOT_TLV: u8 = 0x01;

pub const APDU_COMMAND_TLV: u8 = 0x02;

pub const CHANNEL_TLV: u8 = 0x10;

pub const AID_TLV: u8 = 0x10;

pub const APDU_RESPONSE_TLV: u8 = 0x10;

pub const TERMINATE_APPLICATION_TLV: u8 = 0x13;

pub const SESSION_TLV: u8 = 0x01;

pub const FILE_TLV: u8 = 0x02;

pub const READ_INFO_TLV: u8 = 0x03;

pub const READ_RESULT_TLV: u8 = 0x11;

/// `EF_ICCID` sits directly under the MF, outside any application.
pub const EF_ICCID_FILE_ID: u16 = 0x2fe2;

/// The MF, which `EF_ICCID` sits under.
pub const MASTER_FILE_ID: u16 = 0x3f00;

/// The most `GET RESPONSE` rounds that one command may ask for. The longest
/// answer seen takes sixteen.
pub const MAX_GET_RESPONSE_ROUNDS: usize = 64;

/// GSMA SGP.22 ISD-R AID used to open an eUICC logical channel.
pub open spec fn isd_r() -> Seq<u8> {
    seq![
        0xa0u8,
        0x00u8,
        0x00u8,
        0x05u8,
        0x59u8,
        0x10u8,
        0x10u8,
        0xffu8,
        0xffu8,
        0xffu8,
        0xffu8,
        0x89u8,
        0x00u8,
        0x00u8,
        0x01u8,
        0x00u8,
    ]
}

pub fn isd_r_aid() -> (aid: [u8; 16])
    ensures
        aid@ == isd_r(),
{
    let aid: [u8; 16] = [
        0xa0,
        0x00,
        0x00,
        0x05,
        0x59,
        0x10,
        0x10,
        0xff,
        0xff,
        0xff,
        0xff,
        0x89,
        0x00,
        0x00,
        0x01,
        0x00,
    ];
    proof {
        assert(aid@ =~= isd_r());
    }
    aid
}

/// GlobalPlatform GET DATA for tag `5A` (EID).
pub open spec fn get_eid_command() -> Seq<u8> {
    seq![0x80u8, 0xcau8, 0x00u8, 0x5au8, 0x00u8]
}

pub fn get_eid_apdu() -> (apdu: [u8; 5])
    ensures
        apdu@ == get_eid_command(),
{
    let apdu: [u8; 5] = [0x80, 0xca, 0x00, 0x5a, 0x00];
    proof {
        assert(apdu@ =~= get_eid_command());
    }
    apdu
}

/// APDU status words plus any returned data bytes.
#[derive(Debug, PartialEq, Eq)]
pub struct ApduResponse {
    pub data: Vec<u8>,
    pub sw1: u8,
    pub sw2: u8,
}

/// What an APDU response holds.
#[verifier::ext_equal]
pub struct ApduModel {
    pub data: Seq<u8>,
    pub sw1: u8,
    pub sw2: u8,
}

impl View for ApduResponse {
    type V = ApduModel;

    open spec fn view(&self) -> ApduModel {
        ApduModel { data: self.data@, sw1: self.sw1, sw2: self.sw2 }
    }
}

impl Clone for ApduResponse {
    fn clone(&self) -> (copy: Self)
        ensures
            copy@ == self@,
    {
        ApduResponse {
            data: crate::octets::copy_of(&self.data),
            sw1: self.sw1,
            sw2: self.sw2,
        }
    }
}

impl ApduModel {
    pub open spec fn success(self) -> bool {
        self.sw1 == 0x90 && self.sw2 == 0x00
    }

    pub open spec fn more(self) -> bool {
        self.sw1 == 0x61
    }

    /// The command that fetches the rest.
    pub open spec fn fetch(self) -> Seq<u8> {
        seq![0x00u8, 0xc0u8, 0x00u8, 0x00u8, self.sw2]
    }
}

impl ApduResponse {
    pub fn is_success(&self) -> (yes: bool)
        ensures
            yes == self@.success(),
    {
        self.sw1 == 0x90 && self.sw2 == 0x00
    }

    pub fn needs_get_response(&self) -> (yes: bool)
        ensures
            yes == self@.more(),
    {
        self.sw1 == 0x61
    }

    pub fn get_response_apdu(&self) -> (apdu: Option<[u8; 5]>)
        ensures
            match apdu {
                Some(bytes) => self@.more() && bytes@ == self@.fetch(),
                None => !self@.more(),
            },
    {
        if self.needs_get_response() {
            let apdu: [u8; 5] = [0x00, 0xc0, 0x00, 0x00, self.sw2];
            proof {
                assert(apdu@ =~= self@.fetch());
            }
            Some(apdu)
        } else {
            None
        }
    }
}

/// An answer put together from what came before and the latest round.
pub open spec fn joined(before: Seq<u8>, round: ApduModel) -> ApduModel {
    ApduModel { data: before + round.data, sw1: round.sw1, sw2: round.sw2 }
}

/// Puts the data gathered so far in front of the latest round's.
pub fn join_rounds(before: &[u8], round: ApduResponse) -> (answer: ApduResponse)
    ensures
        answer@ == joined(before@, round@),
{
    let mut data: Vec<u8> = crate::octets::copy_of(before);
    push_all(&mut data, &round.data);
    ApduResponse { data, sw1: round.sw1, sw2: round.sw2 }
}

/// The UIM service.
pub const UIM_SERVICE: u8 = 0x0b;

/// A request of this service, or why the assignment cannot carry it.
pub open spec fn uim_request(
    assignment: ClientAssignment,
    transaction: TransactionId,
    message: MessageId,
    tlvs: Seq<TlvModel>,
) -> Result<MessageModel, UimError> {
    if assignment.service != ServiceId(UIM_SERVICE) {
        Err(UimError::UnexpectedService { actual: assignment.service })
    } else {
        match request_of_tlvs(
            ServiceId(UIM_SERVICE),
            assignment.client_id,
            transaction,
            message,
            tlvs,
        ) {
            Ok(m) => Ok(m),
            Err(e) => Err(UimError::Wire(e)),
        }
    }
}

/// A refused answer as this service reports it.
pub open spec fn uim_fault(fault: ReplyFault) -> UimError {
    match fault {
        ReplyFault::Service { actual } => UimError::UnexpectedService { actual },
        ReplyFault::ControlClient => UimError::Wire(
            WireError::ServiceRequiresAllocatedClient { service: ServiceId(UIM_SERVICE) },
        ),
        ReplyFault::Message { expected, actual } => UimError::UnexpectedMessage {
            expected,
            actual,
        },
        ReplyFault::Result(e) => UimError::Result(e),
    }
}

/// The TLVs of a successful answer of this service.
pub open spec fn uim_tlvs(response: MessageModel, message: u16) -> Result<
    Seq<TlvModel>,
    UimError,
> {
    match reply_tlvs(response, ServiceId(UIM_SERVICE), MessageId(message)) {
        Ok(tlvs) => Ok(tlvs),
        Err(fault) => Err(uim_fault(fault)),
    }
}

fn expect_uim(response: &QmiResponse, message: u16) -> (tlvs: Result<Vec<Tlv>, UimError>)
    ensures
        match tlvs {
            Ok(list) => uim_tlvs(response@, message) == Ok::<Seq<TlvModel>, UimError>(
                tlv_models(list@),
            ),
            Err(e) => uim_tlvs(response@, message) == Err::<Seq<TlvModel>, UimError>(e),
        },
{
    match expect_reply(response, ServiceId::uim(), MessageId::new(message)) {
        Ok(tlvs) => Ok(tlvs),
        Err(ReplyFault::Service { actual }) => Err(UimError::UnexpectedService { actual }),
        Err(ReplyFault::ControlClient) => Err(
            UimError::Wire(
                WireError::ServiceRequiresAllocatedClient { service: ServiceId::uim() },
            ),
        ),
        Err(ReplyFault::Message { expected, actual }) => Err(
            UimError::UnexpectedMessage { expected, actual },
        ),
        Err(ReplyFault::Result(e)) => Err(UimError::Result(e)),
    }
}

fn ensure_uim(assignment: ClientAssignment) -> (checked: Result<(), UimError>)
    ensures
        checked == (if assignment.service != ServiceId(UIM_SERVICE) {
            Err::<(), UimError>(UimError::UnexpectedService { actual: assignment.service })
        } else {
            Ok(())
        }),
{
    if assignment.service() != ServiceId::uim() {
        return Err(UimError::UnexpectedService { actual: assignment.service() });
    }
    Ok(())
}

fn request_with(
    assignment: ClientAssignment,
    transaction: TransactionId,
    message: MessageId,
    tlvs: &[Tlv],
) -> (request: Result<QmiRequest, UimError>)
    ensures
        made(request, uim_request(assignment, transaction, message, tlv_models(tlvs@))),
{
    match ensure_uim(assignment) {
        Ok(_) => {},
        Err(e) => return Err(e),
    }
    match QmiRequest::from_tlvs(
        ServiceId::uim(),
        assignment.client_id(),
        transaction,
        message,
        tlvs,
    ) {
        Ok(request) => Ok(request),
        Err(e) => Err(UimError::Wire(e)),
    }
}

fn one_octet(value: u8) -> (bytes: Vec<u8>)
    ensures
        bytes@ == seq![value],
{
    let mut bytes: Vec<u8> = Vec::new();
    bytes.push(value);
    proof {
        assert(bytes@ =~= seq![value]);
    }
    bytes
}

/// The request that opens an application on a slot.
pub open spec fn open_channel_message(
    assignment: ClientAssignment,
    transaction: TransactionId,
    slot: u8,
    aid: Seq<u8>,
) -> Result<MessageModel, UimError> {
    if assignment.service != ServiceId(UIM_SERVICE) {
        Err(UimError::UnexpectedService { actual: assignment.service })
    } else if aid.len() > 0xff {
        Err(UimError::AidTooLarge { actual: aid.len() as usize })
    } else {
        uim_request(
            assignment,
            transaction,
            MessageId(OPEN_LOGICAL_CHANNEL),
            seq![
                TlvModel { kind: AID_TLV, value: seq![aid.len() as u8] + aid },
                TlvModel { kind: SLOT_TLV, value: seq![slot] },
            ],
        )
    }
}

pub fn open_logical_channel_request(
    assignment: ClientAssignment,
    transaction: TransactionId,
    slot: u8,
    aid: &[u8],
) -> (request: Result<QmiRequest, UimError>)
    ensures
        made(request, open_channel_message(assignment, transaction, slot, aid@)),
{
    match ensure_uim(assignment) {
        Ok(_) => {},
        Err(e) => return Err(e),
    }
    if aid.len() > 0xff {
        return Err(UimError::AidTooLarge { actual: aid.len() });
    }
    let mut aid_value: Vec<u8> = one_octet(aid.len() as u8);
    push_all(&mut aid_value, aid);
    let mut tlvs: Vec<Tlv> = Vec::new();
    tlvs.push(Tlv { kind: AID_TLV, value: aid_value });
    tlvs.push(Tlv { kind: SLOT_TLV, value: one_octet(slot) });
    proof {
        assert(tlv_models(tlvs@) =~= seq![
            TlvModel { kind: AID_TLV, value: seq![aid@.len() as u8] + aid@ },
            TlvModel { kind: SLOT_TLV, value: seq![slot] },
        ]);
    }
    request_with(assignment, transaction, MessageId::new(OPEN_LOGICAL_CHANNEL), &tlvs)
}

/// The channel that an answer to an open names.
pub open spec fn opened_channel_in(response: MessageModel) -> Result<u8, UimError> {
    match uim_tlvs(response, OPEN_LOGICAL_CHANNEL) {
        Err(e) => Err(e),
        Ok(tlvs) => match only_tlv(tlvs, CHANNEL_TLV) {
            Err(e) => Err(UimError::Lookup(e)),
            Ok(value) => if value.len() == 0 {
                Err(UimError::TruncatedChannel)
            } else {
                Ok(value[0])
            },
        },
    }
}

pub fn parse_open_logical_channel(response: &QmiResponse) -> (channel: Result<u8, UimError>)
    ensures
        channel == opened_channel_in(response@),
{
    let tlvs: Vec<Tlv> = match expect_uim(response, OPEN_LOGICAL_CHANNEL) {
        Ok(tlvs) => tlvs,
        Err(e) => return Err(e),
    };
    match unique_tlv(&tlvs, CHANNEL_TLV) {
        Err(e) => Err(UimError::Lookup(e)),
        Ok(tlv) => {
            if tlv.value.len() == 0 {
                return Err(UimError::TruncatedChannel);
            }
            Ok(tlv.value[0])
        },
    }
}

/// The TLVs of a request that closes a channel.
pub open spec fn close_channel_tlvs(slot: u8, channel: u8) -> Seq<TlvModel> {
    seq![
        TlvModel { kind: SLOT_TLV, value: seq![slot] },
        TlvModel { kind: CHANNEL_TLV, value: seq![channel] },
        TlvModel { kind: TERMINATE_APPLICATION_TLV, value: seq![0x01u8] },
    ]
}

pub fn close_logical_channel_request(
    assignment: ClientAssignment,
    transaction: TransactionId,
    slot: u8,
    channel: u8,
) -> (request: Result<QmiRequest, UimError>)
    ensures
        made(
            request,
            uim_request(
                assignment,
                transaction,
                MessageId(CLOSE_LOGICAL_CHANNEL),
                close_channel_tlvs(slot, channel),
            ),
        ),
{
    let mut tlvs: Vec<Tlv> = Vec::new();
    tlvs.push(Tlv { kind: SLOT_TLV, value: one_octet(slot) });
    tlvs.push(Tlv { kind: CHANNEL_TLV, value: one_octet(channel) });
    tlvs.push(Tlv { kind: TERMINATE_APPLICATION_TLV, value: one_octet(0x01) });
    proof {
        assert(tlv_models(tlvs@) =~= close_channel_tlvs(slot, channel));
    }
    request_with(assignment, transaction, MessageId::new(CLOSE_LOGICAL_CHANNEL), &tlvs)
}

pub fn parse_close_logical_channel(response: &QmiResponse) -> (done: Result<(), UimError>)
    ensures
        match done {
            Ok(_) => uim_tlvs(response@, CLOSE_LOGICAL_CHANNEL) is Ok,
            Err(e) => uim_tlvs(response@, CLOSE_LOGICAL_CHANNEL) == Err::<Seq<TlvModel>, UimError>(
                e,
            ),
        },
{
    match expect_uim(response, CLOSE_LOGICAL_CHANNEL) {
        Ok(_) => Ok(()),
        Err(e) => Err(e),
    }
}

/// The request that sends one APDU. The command length has to fit sixteen
/// bits, and the TLV around it too.
pub open spec fn send_apdu_message(
    assignment: ClientAssignment,
    transaction: TransactionId,
    slot: u8,
    channel: u8,
    command: Seq<u8>,
) -> Result<MessageModel, UimError> {
    if assignment.service != ServiceId(UIM_SERVICE) {
        Err(UimError::UnexpectedService { actual: assignment.service })
    } else if command.len() > 0xffff {
        Err(UimError::ApduTooLarge { actual: command.len() as usize })
    } else {
        let value = le16_octets(command.len() as u16) + command;
        if value.len() > 0xffff {
            Err(
                UimError::Wire(
                    WireError::TlvValueTooLarge {
                        kind: APDU_COMMAND_TLV,
                        actual: value.len() as usize,
                    },
                ),
            )
        } else {
            uim_request(
                assignment,
                transaction,
                MessageId(SEND_APDU),
                seq![
                    TlvModel { kind: CHANNEL_TLV, value: seq![channel] },
                    TlvModel { kind: APDU_COMMAND_TLV, value },
                    TlvModel { kind: SLOT_TLV, value: seq![slot] },
                ],
            )
        }
    }
}

pub fn send_apdu_request(
    assignment: ClientAssignment,
    transaction: TransactionId,
    slot: u8,
    channel: u8,
    command: &[u8],
) -> (request: Result<QmiRequest, UimError>)
    ensures
        made(request, send_apdu_message(assignment, transaction, slot, channel, command@)),
{
    match ensure_uim(assignment) {
        Ok(_) => {},
        Err(e) => return Err(e),
    }
    if command.len() > 0xffff {
        return Err(UimError::ApduTooLarge { actual: command.len() });
    }
    let mut command_value: Vec<u8> = Vec::new();
    push_le16(&mut command_value, command.len() as u16);
    push_all(&mut command_value, command);
    proof {
        assert(command_value@ =~= le16_octets(command@.len() as u16) + command@);
    }
    let command_tlv: Tlv = match Tlv::new(APDU_COMMAND_TLV, command_value) {
        Ok(tlv) => tlv,
        Err(e) => return Err(UimError::Wire(e)),
    };
    let mut tlvs: Vec<Tlv> = Vec::new();
    tlvs.push(Tlv { kind: CHANNEL_TLV, value: one_octet(channel) });
    tlvs.push(command_tlv);
    tlvs.push(Tlv { kind: SLOT_TLV, value: one_octet(slot) });
    proof {
        assert(tlv_models(tlvs@) =~= seq![
            TlvModel { kind: CHANNEL_TLV, value: seq![channel] },
            TlvModel {
                kind: APDU_COMMAND_TLV,
                value: le16_octets(command@.len() as u16) + command@,
            },
            TlvModel { kind: SLOT_TLV, value: seq![slot] },
        ]);
    }
    request_with(assignment, transaction, MessageId::new(SEND_APDU), &tlvs)
}

/// A counted field: two octets of length, then that many octets.
pub open spec fn counted(value: Seq<u8>) -> Option<Seq<u8>> {
    if value.len() < 2 || value.len() < 2 + le16(value[0], value[1]) {
        None
    } else {
        Some(value.subrange(2, 2 + le16(value[0], value[1])))
    }
}

/// An APDU answer: data, then two status octets.
pub open spec fn rapdu_in(bytes: Seq<u8>) -> Result<ApduModel, UimError> {
    if bytes.len() < 2 {
        Err(UimError::TruncatedApdu { actual: bytes.len() as usize })
    } else {
        Ok(
            ApduModel {
                data: bytes.take(bytes.len() - 2),
                sw1: bytes[bytes.len() - 2],
                sw2: bytes[bytes.len() - 1],
            },
        )
    }
}

/// The APDU answer in a response.
pub open spec fn apdu_in(response: MessageModel) -> Result<ApduModel, UimError> {
    match uim_tlvs(response, SEND_APDU) {
        Err(e) => Err(e),
        Ok(tlvs) => match only_tlv(tlvs, APDU_RESPONSE_TLV) {
            Err(e) => Err(UimError::Lookup(e)),
            Ok(value) => match counted(value) {
                None => Err(UimError::TruncatedApdu { actual: value.len() as usize }),
                Some(bytes) => rapdu_in(bytes),
            },
        },
    }
}

pub fn parse_send_apdu(response: &QmiResponse) -> (answer: Result<ApduResponse, UimError>)
    ensures
        match answer {
            Ok(a) => apdu_in(response@) == Ok::<ApduModel, UimError>(a@),
            Err(e) => apdu_in(response@) == Err::<ApduModel, UimError>(e),
        },
{
    let tlvs: Vec<Tlv> = match expect_uim(response, SEND_APDU) {
        Ok(tlvs) => tlvs,
        Err(e) => return Err(e),
    };
    let tlv: &Tlv = match unique_tlv(&tlvs, APDU_RESPONSE_TLV) {
        Ok(tlv) => tlv,
        Err(e) => return Err(UimError::Lookup(e)),
    };
    match read_counted(&tlv.value) {
        None => Err(UimError::TruncatedApdu { actual: tlv.value.len() }),
        Some(bytes) => parse_rapdu(bytes),
    }
}

fn read_counted<'a>(value: &'a [u8]) -> (field: Option<&'a [u8]>)
    ensures
        match field {
            Some(bytes) => counted(value@) == Some(bytes@),
            None => counted(value@) is None,
        },
{
    if value.len() < 2 {
        return None;
    }
    let declared: usize = read_le16(value[0], value[1]) as usize;
    if value.len() < 2 + declared {
        return None;
    }
    Some(&value[2..2 + declared])
}

/// The sixteen octets of an EID, bare or under tag `5A`.
pub open spec fn eid_octets(data: Seq<u8>) -> Result<Seq<u8>, UimError> {
    if data.len() >= 2 && data[0] == 0x5a {
        if data.len() >= 2 + data[1] {
            Ok(data.subrange(2, 2 + data[1]))
        } else {
            Err(UimError::TruncatedEid)
        }
    } else if data.len() == 16 {
        Ok(data)
    } else {
        Err(UimError::MissingEidTag)
    }
}

/// Octets as base-sixteen digits, high nibble first.
pub open spec fn nibbles(bytes: Seq<u8>) -> Seq<char> {
    Seq::new(
        2 * bytes.len(),
        |i: int|
            if i % 2 == 0 {
                hex_char(bytes[i / 2] as int / 16)
            } else {
                hex_char(bytes[i / 2] as int % 16)
            },
    )
}

/// Octets as base-sixteen digits, low nibble first.
pub open spec fn swapped_nibbles(bytes: Seq<u8>) -> Seq<char> {
    Seq::new(
        2 * bytes.len(),
        |i: int|
            if i % 2 == 0 {
                hex_char(bytes[i / 2] as int % 16)
            } else {
                hex_char(bytes[i / 2] as int / 16)
            },
    )
}

/// The EID in an answer to GET DATA.
pub open spec fn eid_in(response: ApduModel) -> Result<Seq<char>, UimError> {
    if !response.success() && !response.more() {
        Err(UimError::ApduFailed { sw1: response.sw1, sw2: response.sw2 })
    } else {
        match eid_octets(response.data) {
            Err(e) => Err(e),
            Ok(bytes) => if bytes.len() != 16 {
                Err(UimError::UnexpectedEidLength { actual: bytes.len() as usize })
            } else {
                Ok(nibbles(bytes))
            },
        }
    }
}

/// Decode an EID from a GET DATA `5A` RAPDU. The value is 16 BCD bytes, shown
/// as 32 decimal digits.
pub fn parse_eid(response: &ApduResponse) -> (eid: Result<String, UimError>)
    ensures
        match eid {
            Ok(text) => eid_in(response@) == Ok::<Seq<char>, UimError>(text@),
            Err(e) => eid_in(response@) == Err::<Seq<char>, UimError>(e),
        },
{
    if !response.is_success() && !response.needs_get_response() {
        return Err(UimError::ApduFailed { sw1: response.sw1, sw2: response.sw2 });
    }
    let bytes: &[u8] = match eid_bytes(&response.data) {
        Ok(bytes) => bytes,
        Err(e) => return Err(e),
    };
    if bytes.len() != 16 {
        return Err(UimError::UnexpectedEidLength { actual: bytes.len() });
    }
    Ok(bcd_digits(bytes))
}

/// The TLVs of a request that reads a whole transparent file: the provisioning
/// session without an AID, the file and its parents, offset and length zero.
pub open spec fn read_file_message(
    assignment: ClientAssignment,
    transaction: TransactionId,
    file_id: u16,
    path: Seq<u16>,
) -> Result<MessageModel, UimError> {
    let file = file_value(file_id, path);
    if assignment.service != ServiceId(UIM_SERVICE) {
        Err(UimError::UnexpectedService { actual: assignment.service })
    } else if file.len() > 0xffff {
        Err(
            UimError::Wire(
                WireError::TlvValueTooLarge { kind: FILE_TLV, actual: file.len() as usize },
            ),
        )
    } else {
        uim_request(
            assignment,
            transaction,
            MessageId(READ_TRANSPARENT),
            seq![
                TlvModel { kind: SESSION_TLV, value: seq![0x00u8, 0x00u8] },
                TlvModel { kind: FILE_TLV, value: file },
                TlvModel { kind: READ_INFO_TLV, value: seq![0x00u8, 0x00u8, 0x00u8, 0x00u8] },
            ],
        )
    }
}

/// File identifiers in little-endian order, one after the other.
pub open spec fn path_octets(path: Seq<u16>) -> Seq<u8>
    decreases path.len(),
{
    if path.len() == 0 {
        Seq::empty()
    } else {
        path_octets(path.drop_last()) + le16_octets(path.last())
    }
}

/// A file: its identifier, the octet count of its path, the path.
pub open spec fn file_value(file_id: u16, path: Seq<u16>) -> Seq<u8> {
    le16_octets(file_id) + seq![(2 * path.len() % 256) as u8] + path_octets(path)
}

/// Read a transparent EF. `path` holds the parent DF identifiers, most
/// significant first; each is encoded little-endian on the wire.
pub fn read_transparent_request(
    assignment: ClientAssignment,
    transaction: TransactionId,
    file_id: u16,
    path: &[u16],
) -> (request: Result<QmiRequest, UimError>)
    ensures
        made(request, read_file_message(assignment, transaction, file_id, path@)),
{
    match ensure_uim(assignment) {
        Ok(_) => {},
        Err(e) => return Err(e),
    }
    let mut file: Vec<u8> = Vec::new();
    push_le16(&mut file, file_id);
    file.push((path.len() % 128) as u8 * 2);
    let ghost head = file@;
    let mut i: usize = 0;
    proof {
        assert(path@.take(0) =~= Seq::empty());
        assert(file@ =~= head + path_octets(path@.take(0)));
    }
    while i < path.len()
        invariant
            i <= path@.len(),
            file@ == head + path_octets(path@.take(i as int)),
        decreases path@.len() - i,
    {
        push_le16(&mut file, path[i]);
        proof {
            assert(path@.take(i + 1).drop_last() =~= path@.take(i as int));
            assert(file@ =~= head + path_octets(path@.take(i + 1)));
        }
        i = i + 1;
    }
    proof {
        assert(path@.take(i as int) =~= path@);
        assert(2 * path@.len() % 256 == 2 * (path@.len() % 128)) by (nonlinear_arith);
        assert(file@ =~= file_value(file_id, path@));
    }
    let file_tlv: Tlv = match Tlv::new(FILE_TLV, file) {
        Ok(tlv) => tlv,
        Err(e) => return Err(UimError::Wire(e)),
    };
    let mut session: Vec<u8> = Vec::new();
    session.push(0x00);
    session.push(0x00);
    let mut info: Vec<u8> = Vec::new();
    info.push(0x00);
    info.push(0x00);
    info.push(0x00);
    info.push(0x00);
    let mut tlvs: Vec<Tlv> = Vec::new();
    tlvs.push(Tlv { kind: SESSION_TLV, value: session });
    tlvs.push(file_tlv);
    tlvs.push(Tlv { kind: READ_INFO_TLV, value: info });
    proof {
        assert(session@ =~= seq![0x00u8, 0x00u8]);
        assert(info@ =~= seq![0x00u8, 0x00u8, 0x00u8, 0x00u8]);
        assert(tlv_models(tlvs@) =~= seq![
            TlvModel { kind: SESSION_TLV, value: seq![0x00u8, 0x00u8] },
            TlvModel { kind: FILE_TLV, value: file_value(file_id, path@) },
            TlvModel { kind: READ_INFO_TLV, value: seq![0x00u8, 0x00u8, 0x00u8, 0x00u8] },
        ]);
    }
    request_with(assignment, transaction, MessageId::new(READ_TRANSPARENT), &tlvs)
}

/// The octets of the file that was read.
pub open spec fn file_in(response: MessageModel) -> Result<Seq<u8>, UimError> {
    match uim_tlvs(response, READ_TRANSPARENT) {
        Err(e) => Err(e),
        Ok(tlvs) => match only_tlv(tlvs, READ_RESULT_TLV) {
            Err(e) => Err(UimError::Lookup(e)),
            Ok(value) => match counted(value) {
                None => Err(UimError::TruncatedReadResult { actual: value.len() as usize }),
                Some(bytes) => Ok(bytes),
            },
        },
    }
}

pub fn parse_read_transparent(response: &QmiResponse) -> (file: Result<Vec<u8>, UimError>)
    ensures
        match file {
            Ok(bytes) => file_in(response@) == Ok::<Seq<u8>, UimError>(bytes@),
            Err(e) => file_in(response@) == Err::<Seq<u8>, UimError>(e),
        },
{
    let tlvs: Vec<Tlv> = match expect_uim(response, READ_TRANSPARENT) {
        Ok(tlvs) => tlvs,
        Err(e) => return Err(e),
    };
    let tlv: &Tlv = match unique_tlv(&tlvs, READ_RESULT_TLV) {
        Ok(tlv) => tlv,
        Err(e) => return Err(UimError::Lookup(e)),
    };
    match read_counted(&tlv.value) {
        None => Err(UimError::TruncatedReadResult { actual: tlv.value.len() }),
        Some(bytes) => Ok(crate::octets::copy_of(bytes)),
    }
}

/// The digits of an ICCID: nibbles swapped, the filler at the end dropped.
/// Anything that is not all digits then is no ICCID.
pub open spec fn iccid_in(bytes: Seq<u8>) -> Result<Seq<char>, UimError> {
    let digits = stripped_end(swapped_nibbles(bytes), 'f');
    if digits.len() == 0 || !all_digits(digits) {
        Err(UimError::EmptyIccid)
    } else {
        Ok(digits)
    }
}

/// Decode `EF_ICCID`. Unlike the EID its nibbles are swapped per byte, and a
/// 19-digit ICCID is padded to 20 with a trailing `f`.
pub fn decode_iccid(bytes: &[u8]) -> (iccid: Result<String, UimError>)
    ensures
        match iccid {
            Ok(text) => iccid_in(bytes@) == Ok::<Seq<char>, UimError>(text@),
            Err(e) => iccid_in(bytes@) == Err::<Seq<char>, UimError>(e),
        },
{
    let mut digits: Vec<char> = Vec::new();
    let mut i: usize = 0;
    while i < bytes.len()
        invariant
            i <= bytes@.len(),
            digits@ =~= swapped_nibbles(bytes@.take(i as int)),
        decreases bytes@.len() - i,
    {
        let ghost before = digits@;
        digits.push(hex_digit_lower(bytes[i] % 16));
        digits.push(hex_digit_lower(bytes[i] / 16));
        proof {
            let now = swapped_nibbles(bytes@.take(i + 1));
            assert(digits@.len() == now.len());
            assert forall|k: int| 0 <= k < now.len() implies digits@[k] == now[k] by {
                if k < 2 * i {
                    assert(before[k] == swapped_nibbles(bytes@.take(i as int))[k]);
                    assert(bytes@.take(i as int)[k / 2] == bytes@.take(i + 1)[k / 2]);
                }
            }
            assert(digits@ =~= now);
        }
        i = i + 1;
    }
    proof {
        assert(bytes@.take(i as int) =~= bytes@);
    }
    let mut end: usize = digits.len();
    proof {
        assert(digits@.take(end as int) =~= digits@);
    }
    while end > 0 && digits[end - 1] == 'f'
        invariant
            end <= digits@.len(),
            stripped_end(digits@.take(end as int), 'f') == stripped_end(digits@, 'f'),
        decreases end,
    {
        proof {
            assert(digits@.take(end as int).drop_last() =~= digits@.take(end - 1));
        }
        end = end - 1;
    }
    proof {
        assert(digits@.subrange(0, end as int) =~= digits@.take(end as int));
    }
    let kept: &[char] = &digits.as_slice()[0..end];
    if kept.len() == 0 {
        return Err(UimError::EmptyIccid);
    }
    let mut k: usize = 0;
    while k < kept.len()
        invariant
            k <= kept@.len(),
            kept@ == stripped_end(swapped_nibbles(bytes@), 'f'),
            forall|j: int| 0 <= j < k ==> is_digit(#[trigger] kept@[j]),
        decreases kept@.len() - k,
    {
        if !digit(kept[k]) {
            return Err(UimError::EmptyIccid);
        }
        k = k + 1;
    }
    Ok(string_of(kept))
}

fn parse_rapdu(bytes: &[u8]) -> (answer: Result<ApduResponse, UimError>)
    ensures
        match answer {
            Ok(a) => rapdu_in(bytes@) == Ok::<ApduModel, UimError>(a@),
            Err(e) => rapdu_in(bytes@) == Err::<ApduModel, UimError>(e),
        },
{
    if bytes.len() < 2 {
        return Err(UimError::TruncatedApdu { actual: bytes.len() });
    }
    let split: usize = bytes.len() - 2;
    proof {
        assert(bytes@.subrange(0, split as int) =~= bytes@.take(split as int));
    }
    Ok(
        ApduResponse {
            data: copy_range(bytes, 0, split),
            sw1: bytes[split],
            sw2: bytes[split + 1],
        },
    )
}

fn eid_bytes<'a>(data: &'a [u8]) -> (bytes: Result<&'a [u8], UimError>)
    ensures
        match bytes {
            Ok(b) => eid_octets(data@) == Ok::<Seq<u8>, UimError>(b@),
            Err(e) => eid_octets(data@) == Err::<Seq<u8>, UimError>(e),
        },
{
    if data.len() >= 2 && data[0] == 0x5a {
        let length: usize = data[1] as usize;
        if data.len() >= 2 + length {
            return Ok(&data[2..2 + length]);
        }
        return Err(UimError::TruncatedEid);
    }
    if data.len() == 16 {
        return Ok(data);
    }
    Err(UimError::MissingEidTag)
}

/// Octets as lower-case digits, high nibble first.
pub fn bcd_digits(bytes: &[u8]) -> (digits: String)
    ensures
        digits@ == nibbles(bytes@),
{
    let mut digits: String = String::new();
    let mut i: usize = 0;
    while i < bytes.len()
        invariant
            i <= bytes@.len(),
            digits@ =~= nibbles(bytes@.take(i as int)),
        decreases bytes@.len() - i,
    {
        let ghost before = digits@;
        digits.push(hex_digit_lower(bytes[i] / 16));
        digits.push(hex_digit_lower(bytes[i] % 16));
        proof {
            let now = nibbles(bytes@.take(i + 1));
            assert forall|k: int| 0 <= k < now.len() implies digits@[k] == now[k] by {
                if k < 2 * i {
                    assert(before[k] == nibbles(bytes@.take(i as int))[k]);
                    assert(bytes@.take(i as int)[k / 2] == bytes@.take(i + 1)[k / 2]);
                }
            }
            assert(digits@ =~= now);
        }
        i = i + 1;
    }
    proof {
        assert(bytes@.take(i as int) =~= bytes@);
    }
    digits
}

/// Errors from encoding or decoding UIM messages.
#[allow(inconsistent_fields)]
#[derive(Clone, Copy, Debug, PartialEq, Eq, Structural)]
pub enum UimError {
    Wire(WireError),
    Result(ResultError),
    Lookup(TlvLookupError),
    UnexpectedService { actual: ServiceId },
    UnexpectedMessage { expected: MessageId, actual: MessageId },
    AidTooLarge { actual: usize },
    ApduTooLarge { actual: usize },
    TruncatedChannel,
    TruncatedApdu { actual: usize },
    TruncatedEid,
    MissingEidTag,
    UnexpectedEidLength { actual: usize },
    TruncatedReadResult { actual: usize },
    EmptyIccid,
    ApduFailed { sw1: u8, sw2: u8 },
}

impl UimError {
    pub open spec fn text(self) -> Seq<char> {
        match self {
            UimError::Wire(error) => error.text(),
            UimError::Result(error) => error.text(),
            UimError::Lookup(error) => error.text(),
            UimError::UnexpectedService { actual } => "expected UIM service, got "@ + actual.text(),
            UimError::UnexpectedMessage { expected, actual } => "expected UIM message "@
                + expected.text() + ", got "@ + actual.text(),
            UimError::AidTooLarge { actual } => "AID is "@ + decimal(actual as nat)
                + " bytes, above the u8 UIM limit"@,
            UimError::ApduTooLarge { actual } => "APDU is "@ + decimal(actual as nat)
                + " bytes, above the u16 UIM limit"@,
            UimError::TruncatedChannel => "logical channel TLV is empty"@,
            UimError::TruncatedApdu { actual } => "APDU response TLV has "@
                + decimal(actual as nat) + " bytes"@,
            UimError::TruncatedEid => "EID TLV is truncated"@,
            UimError::MissingEidTag => "APDU response does not contain an EID"@,
            UimError::UnexpectedEidLength { actual } => "EID has "@ + decimal(actual as nat)
                + " bytes, expected 16"@,
            UimError::TruncatedReadResult { actual } => "read result TLV has "@
                + decimal(actual as nat) + " bytes"@,
            UimError::EmptyIccid => "EF_ICCID is empty or not numeric"@,
            UimError::ApduFailed { sw1, sw2 } => "APDU failed with SW "@ + hex_pair(sw1)
                + hex_pair(sw2),
        }
    }

    pub fn push_to(&self, out: &mut String)
        ensures
            final(out)@ == old(out)@ + self.text(),
    {
        match self {
            UimError::Wire(error) => {
                error.push_to(out);
            },
            UimError::Result(error) => {
                error.push_to(out);
            },
            UimError::Lookup(error) => {
                error.push_to(out);
            },
            UimError::UnexpectedService { actual } => {
                out.append("expected UIM service, got ");
                actual.push_to(out);
            },
            UimError::UnexpectedMessage { expected, actual } => {
                out.append("expected UIM message ");
                expected.push_to(out);
                out.append(", got ");
                actual.push_to(out);
            },
            UimError::AidTooLarge { actual } => {
                out.append("AID is ");
                push_decimal(out, *actual as u64);
                out.append(" bytes, above the u8 UIM limit");
            },
            UimError::ApduTooLarge { actual } => {
                out.append("APDU is ");
                push_decimal(out, *actual as u64);
                out.append(" bytes, above the u16 UIM limit");
            },
            UimError::TruncatedChannel => {
                out.append("logical channel TLV is empty");
            },
            UimError::TruncatedApdu { actual } => {
                out.append("APDU response TLV has ");
                push_decimal(out, *actual as u64);
                out.append(" bytes");
            },
            UimError::TruncatedEid => {
                out.append("EID TLV is truncated");
            },
            UimError::MissingEidTag => {
                out.append("APDU response does not contain an EID");
            },
            UimError::UnexpectedEidLength { actual } => {
                out.append("EID has ");
                push_decimal(out, *actual as u64);
                out.append(" bytes, expected 16");
            },
            UimError::TruncatedReadResult { actual } => {
                out.append("read result TLV has ");
                push_decimal(out, *actual as u64);
                out.append(" bytes");
            },
            UimError::EmptyIccid => {
                out.append("EF_ICCID is empty or not numeric");
            },
            UimError::ApduFailed { sw1, sw2 } => {
                out.append("APDU failed with SW ");
                push_hex_pair(out, *sw1);
                push_hex_pair(out, *sw2);
            },
        }
        proof {
            assert(out@ =~= old(out)@ + self.text());
        }
    }

    pub fn to_string(&self) -> (text: String)
        ensures
            text@ == self.text(),
    {
        let mut text: String = String::new();
        self.push_to(&mut text);
        proof {
            assert(text@ =~= self.text());
        }
        text
    }
}

} // verus!
