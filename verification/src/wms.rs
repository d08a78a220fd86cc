//! QMI Wireless Messaging Service: listing, reading, sending and deleting SMS.

use crate::octets::{
    copy_range, le16, le16_octets, le32, le32_octets, push_all, push_le16, push_le32, read_le16,
    read_le32,
};
use crate::text::{decimal, push_decimal};
use crate::result::{expect_reply, reply_tlvs, ReplyFault, ResultError};
use crate::wire::{
    made, only_tlv, request_of_tlvs, tlv_models, unique_tlv, ClientAssignment, MessageId,
    MessageModel, QmiRequest, QmiResponse, ServiceId, Tlv, TlvLookupError, TlvModel,
    TransactionId, WireError,
};
use vstd::prelude::*;

verus! {

pub const RAW_SEND: u16 = 0x0020;

pub const RAW_READ: u16 = 0x0022;

pub const DELETE: u16 = 0x0024;

pub const LIST_MESSAGES: u16 = 0x0031;

pub const STORAGE_TLV: u8 = 0x01;

pub const LIST_RESULT_TLV: u8 = 0x01;

pub const RAW_MESSAGE_TLV: u8 = 0x01;

pub const MESSAGE_MODE_TLV: u8 = 0x10;

pub const MESSAGE_TAG_TLV: u8 = 0x11;

pub const DELETE_INDEX_TLV: u8 = 0x10;

pub const DELETE_MODE_TLV: u8 = 0x12;

pub const SEND_MESSAGE_ID_TLV: u8 = 0x01;

/// WMS storage type. UIM is the SIM/USIM store used for received SMS.
#[derive(Clone, Copy, Debug, PartialEq, Eq, Structural)]
pub enum StorageType {
    Uim,
    Nv,
}

impl StorageType {
    pub open spec fn wire(self) -> u8 {
        match self {
            StorageType::Uim => 0,
            StorageType::Nv => 1,
        }
    }

    pub fn as_u8(self) -> (value: u8)
        ensures
            value == self.wire(),
    {
        match self {
            StorageType::Uim => 0,
            StorageType::Nv => 1,
        }
    }
}

/// GSM/WCDMA vs CDMA transfer mode.
#[derive(Clone, Copy, Debug, PartialEq, Eq, Structural)]
pub enum MessageMode {
    Cdma,
    Gw,
}

impl MessageMode {
    pub open spec fn wire(self) -> u8 {
        match self {
            MessageMode::Cdma => 0,
            MessageMode::Gw => 1,
        }
    }

    pub fn as_u8(self) -> (value: u8)
        ensures
            value == self.wire(),
    {
        match self {
            MessageMode::Cdma => 0,
            MessageMode::Gw => 1,
        }
    }
}

/// Tag returned in a list or read. The request tag is never trusted.
#[derive(Clone, Copy, Debug, PartialEq, Eq, Structural)]
pub enum MessageTag {
    MtRead,
    MtUnread,
    MoSent,
    MoUnsent,
    Unknown(u8),
}

impl MessageTag {
    pub open spec fn of_wire(value: u8) -> MessageTag {
        if value == 0 {
            MessageTag::MtRead
        } else if value == 1 {
            MessageTag::MtUnread
        } else if value == 2 {
            MessageTag::MoSent
        } else if value == 3 {
            MessageTag::MoUnsent
        } else {
            MessageTag::Unknown(value)
        }
    }

    pub open spec fn wire(self) -> u8 {
        match self {
            MessageTag::MtRead => 0,
            MessageTag::MtUnread => 1,
            MessageTag::MoSent => 2,
            MessageTag::MoUnsent => 3,
            MessageTag::Unknown(value) => value,
        }
    }

    /// Received, whether read yet or not.
    pub open spec fn received(self) -> bool {
        self is MtRead || self is MtUnread
    }

    pub fn from_wire(value: u8) -> (tag: Self)
        ensures
            tag == MessageTag::of_wire(value),
    {
        match value {
            0 => MessageTag::MtRead,
            1 => MessageTag::MtUnread,
            2 => MessageTag::MoSent,
            3 => MessageTag::MoUnsent,
            other => MessageTag::Unknown(other),
        }
    }

    pub fn as_u8(self) -> (value: u8)
        ensures
            value == self.wire(),
    {
        match self {
            MessageTag::MtRead => 0,
            MessageTag::MtUnread => 1,
            MessageTag::MoSent => 2,
            MessageTag::MoUnsent => 3,
            MessageTag::Unknown(value) => value,
        }
    }

    pub fn is_mobile_terminated(self) -> (yes: bool)
        ensures
            yes == self.received(),
    {
        matches!(self, MessageTag::MtRead | MessageTag::MtUnread)
    }

    fn is_known(self) -> (yes: bool)
        ensures
            yes == !(self is Unknown),
    {
        !matches!(self, MessageTag::Unknown(_))
    }
}

/// Every wire value survives being read and written back.
pub proof fn law_message_tag_round_trip(value: u8)
    ensures
        MessageTag::of_wire(value).wire() == value,
{
}

/// One storage entry as returned by `QMI_WMS_LIST_MESSAGES`, with the store
/// that was listed: the same index in the other store is another message.
#[derive(Clone, Copy, Debug, PartialEq, Eq, Structural)]
pub struct ListedMessage {
    pub index: u32,
    pub tag: MessageTag,
    pub storage: StorageType,
}

/// Raw PDU plus the tag when the modem sends one along.
#[derive(Debug, PartialEq, Eq)]
pub struct RawMessage {
    pub tag: Option<MessageTag>,
    pub format: u8,
    pub pdu: Vec<u8>,
}

/// What a raw message holds.
#[verifier::ext_equal]
pub struct RawMessageModel {
    pub tag: Option<MessageTag>,
    pub format: u8,
    pub pdu: Seq<u8>,
}

impl View for RawMessage {
    type V = RawMessageModel;

    open spec fn view(&self) -> RawMessageModel {
        RawMessageModel { tag: self.tag, format: self.format, pdu: self.pdu@ }
    }
}

impl Clone for RawMessage {
    fn clone(&self) -> (copy: Self)
        ensures
            copy@ == self@,
    {
        RawMessage { tag: self.tag, format: self.format, pdu: crate::octets::copy_of(&self.pdu) }
    }
}

/// The WMS service.
pub const WMS_SERVICE: u8 = 0x05;

/// A request of this service, or why the assignment cannot carry it.
pub open spec fn wms_request(
    assignment: ClientAssignment,
    transaction: TransactionId,
    message: MessageId,
    tlvs: Seq<TlvModel>,
) -> Result<MessageModel, WmsError> {
    if assignment.service != ServiceId(WMS_SERVICE) {
        Err(WmsError::UnexpectedService { actual: assignment.service })
    } else {
        match request_of_tlvs(
            ServiceId(WMS_SERVICE),
            assignment.client_id,
            transaction,
            message,
            tlvs,
        ) {
            Ok(m) => Ok(m),
            Err(e) => Err(WmsError::Wire(e)),
        }
    }
}

/// A refused answer as this service reports it.
pub open spec fn wms_fault(fault: ReplyFault) -> WmsError {
    match fault {
        ReplyFault::Service { actual } => WmsError::UnexpectedService { actual },
        ReplyFault::ControlClient => WmsError::Wire(
            WireError::ServiceRequiresAllocatedClient { service: ServiceId(WMS_SERVICE) },
        ),
        ReplyFault::Message { expected, actual } => WmsError::UnexpectedMessage {
            expected,
            actual,
        },
        ReplyFault::Result(e) => WmsError::Result(e),
    }
}

/// The TLVs of a successful answer of this service.
pub open spec fn wms_tlvs(response: MessageModel, message: u16) -> Result<
    Seq<TlvModel>,
    WmsError,
> {
    match reply_tlvs(response, ServiceId(WMS_SERVICE), MessageId(message)) {
        Ok(tlvs) => Ok(tlvs),
        Err(fault) => Err(wms_fault(fault)),
    }
}

fn expect_wms(response: &QmiResponse, message: u16) -> (tlvs: Result<Vec<Tlv>, WmsError>)
    ensures
        match tlvs {
            Ok(list) => wms_tlvs(response@, message) == Ok::<Seq<TlvModel>, WmsError>(
                tlv_models(list@),
            ),
            Err(e) => wms_tlvs(response@, message) == Err::<Seq<TlvModel>, WmsError>(e),
        },
{
    match expect_reply(response, ServiceId::wms(), MessageId::new(message)) {
        Ok(tlvs) => Ok(tlvs),
        Err(ReplyFault::Service { actual }) => Err(WmsError::UnexpectedService { actual }),
        Err(ReplyFault::ControlClient) => Err(
            WmsError::Wire(
                WireError::ServiceRequiresAllocatedClient { service: ServiceId::wms() },
            ),
        ),
        Err(ReplyFault::Message { expected, actual }) => Err(
            WmsError::UnexpectedMessage { expected, actual },
        ),
        Err(ReplyFault::Result(e)) => Err(WmsError::Result(e)),
    }
}

fn ensure_wms(assignment: ClientAssignment) -> (checked: Result<(), WmsError>)
    ensures
        checked == (if assignment.service != ServiceId(WMS_SERVICE) {
            Err::<(), WmsError>(WmsError::UnexpectedService { actual: assignment.service })
        } else {
            Ok(())
        }),
{
    if assignment.service() != ServiceId::wms() {
        return Err(WmsError::UnexpectedService { actual: assignment.service() });
    }
    Ok(())
}

fn request_with(
    assignment: ClientAssignment,
    transaction: TransactionId,
    message: MessageId,
    tlvs: &[Tlv],
) -> (request: Result<QmiRequest, WmsError>)
    ensures
        made(request, wms_request(assignment, transaction, message, tlv_models(tlvs@))),
{
    match ensure_wms(assignment) {
        Ok(_) => {},
        Err(e) => return Err(e),
    }
    match QmiRequest::from_tlvs(
        ServiceId::wms(),
        assignment.client_id(),
        transaction,
        message,
        tlvs,
    ) {
        Ok(request) => Ok(request),
        Err(e) => Err(WmsError::Wire(e)),
    }
}

fn one_octet(value: u8) -> (bytes: Vec<u8>)
    ensures
        bytes@ == seq![value],
{
    let mut bytes: Vec<u8> = Vec::new();
    bytes.push(value);
    proof {
        assert(bytes@ =~= seq![value]);
    }
    bytes
}

pub fn list_messages_request(
    assignment: ClientAssignment,
    transaction: TransactionId,
    storage: StorageType,
    tag: MessageTag,
    mode: MessageMode,
) -> (request: Result<QmiRequest, WmsError>)
    ensures
        made(
            request,
            wms_request(
                assignment,
                transaction,
                MessageId(LIST_MESSAGES),
                seq![
                    TlvModel { kind: STORAGE_TLV, value: seq![storage.wire()] },
                    TlvModel { kind: MESSAGE_TAG_TLV, value: seq![tag.wire()] },
                    TlvModel { kind: MESSAGE_MODE_TLV, value: seq![mode.wire()] },
                ],
            ),
        ),
{
    let mut tlvs: Vec<Tlv> = Vec::new();
    tlvs.push(Tlv { kind: STORAGE_TLV, value: one_octet(storage.as_u8()) });
    tlvs.push(Tlv { kind: MESSAGE_TAG_TLV, value: one_octet(tag.as_u8()) });
    tlvs.push(Tlv { kind: MESSAGE_MODE_TLV, value: one_octet(mode.as_u8()) });
    proof {
        assert(tlv_models(tlvs@) =~= seq![
            TlvModel { kind: STORAGE_TLV, value: seq![storage.wire()] },
            TlvModel { kind: MESSAGE_TAG_TLV, value: seq![tag.wire()] },
            TlvModel { kind: MESSAGE_MODE_TLV, value: seq![mode.wire()] },
        ]);
    }
    request_with(assignment, transaction, MessageId::new(LIST_MESSAGES), &tlvs)
}

/// One listed entry: four octets of index, one of tag.
pub open spec fn listed_at(value: Seq<u8>, entry: int, storage: StorageType) -> ListedMessage {
    let at = 4 + 5 * entry;
    ListedMessage {
        index: le32(value[at], value[at + 1], value[at + 2], value[at + 3]),
        tag: MessageTag::of_wire(value[at + 4]),
        storage,
    }
}

/// A listing: a count and that many entries. Octets beyond the last counted
/// entry are ignored.
pub open spec fn list_in(value: Seq<u8>, storage: StorageType) -> Result<
    Seq<ListedMessage>,
    WmsError,
> {
    if value.len() < 4 {
        Err(WmsError::TruncatedList { actual: value.len() as usize })
    } else {
        let count = le32(value[0], value[1], value[2], value[3]);
        if 4 + 5 * count > value.len() {
            Err(WmsError::TruncatedList { actual: value.len() as usize })
        } else {
            Ok(Seq::new(count as nat, |entry: int| listed_at(value, entry, storage)))
        }
    }
}

/// The messages that an answer lists; none where it has no list TLV.
pub open spec fn messages_in(response: MessageModel, storage: StorageType) -> Result<
    Seq<ListedMessage>,
    WmsError,
> {
    match wms_tlvs(response, LIST_MESSAGES) {
        Err(e) => Err(e),
        Ok(tlvs) => match only_tlv(tlvs, LIST_RESULT_TLV) {
            Err(TlvLookupError::Missing { .. }) => Ok(Seq::empty()),
            Err(e) => Err(WmsError::Lookup(e)),
            Ok(value) => list_in(value, storage),
        },
    }
}

/// Reads the answer to a listing of `storage`.
pub fn parse_list_messages(response: &QmiResponse, storage: StorageType) -> (messages: Result<
    Vec<ListedMessage>,
    WmsError,
>)
    ensures
        match messages {
            Ok(list) => messages_in(response@, storage) == Ok::<Seq<ListedMessage>, WmsError>(
                list@,
            ),
            Err(e) => messages_in(response@, storage) == Err::<Seq<ListedMessage>, WmsError>(e),
        },
{
    let tlvs: Vec<Tlv> = match expect_wms(response, LIST_MESSAGES) {
        Ok(tlvs) => tlvs,
        Err(e) => return Err(e),
    };
    match unique_tlv(&tlvs, LIST_RESULT_TLV) {
        Err(TlvLookupError::Missing { .. }) => Ok(Vec::new()),
        Err(e) => Err(WmsError::Lookup(e)),
        Ok(tlv) => parse_list_payload(&tlv.value, storage),
    }
}

/// The entries whose returned tag says that they were received, in order.
pub open spec fn received_only(messages: Seq<ListedMessage>) -> Seq<ListedMessage> {
    messages.filter(|m: ListedMessage| m.tag.received())
}

/// Keep only MT entries. EC20 ignores the list-tag request argument and mixes
/// in sent/draft rows; callers must filter on the returned tag.
pub fn retain_mobile_terminated(messages: &[ListedMessage]) -> (kept: Vec<ListedMessage>)
    ensures
        kept@ == received_only(messages@),
{
    let mut kept: Vec<ListedMessage> = Vec::new();
    let mut i: usize = 0;
    proof {
        reveal(Seq::filter);
        assert(messages@.take(0) =~= Seq::empty());
        assert(kept@ =~= received_only(messages@.take(0)));
    }
    while i < messages.len()
        invariant
            i <= messages@.len(),
            kept@ == received_only(messages@.take(i as int)),
        decreases messages@.len() - i,
    {
        proof {
            reveal(Seq::filter);
            assert(messages@.take(i + 1).drop_last() =~= messages@.take(i as int));
            assert(messages@.take(i + 1).last() == messages@[i as int]);
        }
        if messages[i].tag.is_mobile_terminated() {
            kept.push(messages[i]);
        }
        i = i + 1;
    }
    proof {
        assert(messages@.take(i as int) =~= messages@);
    }
    kept
}

pub fn raw_read_request(
    assignment: ClientAssignment,
    transaction: TransactionId,
    storage: StorageType,
    index: u32,
    mode: MessageMode,
) -> (request: Result<QmiRequest, WmsError>)
    ensures
        made(
            request,
            wms_request(
                assignment,
                transaction,
                MessageId(RAW_READ),
                seq![
                    TlvModel {
                        kind: STORAGE_TLV,
                        value: seq![storage.wire()] + le32_octets(index),
                    },
                    TlvModel { kind: MESSAGE_MODE_TLV, value: seq![mode.wire()] },
                ],
            ),
        ),
{
    let mut storage_value: Vec<u8> = one_octet(storage.as_u8());
    push_le32(&mut storage_value, index);
    let mut tlvs: Vec<Tlv> = Vec::new();
    tlvs.push(Tlv { kind: STORAGE_TLV, value: storage_value });
    tlvs.push(Tlv { kind: MESSAGE_MODE_TLV, value: one_octet(mode.as_u8()) });
    proof {
        assert(tlv_models(tlvs@) =~= seq![
            TlvModel { kind: STORAGE_TLV, value: seq![storage.wire()] + le32_octets(index) },
            TlvModel { kind: MESSAGE_MODE_TLV, value: seq![mode.wire()] },
        ]);
    }
    request_with(assignment, transaction, MessageId::new(RAW_READ), &tlvs)
}

/// The raw message in a value. Modems differ in whether the tag leads it: the
/// untagged reading wins where its length fits, then the tagged one where its
/// tag is known and its length fits, and a value that fits neither is taken
/// as an untagged PDU that runs to the end.
pub open spec fn raw_message_in(value: Seq<u8>) -> Result<RawMessageModel, WmsError> {
    if value.len() < 3 {
        Err(WmsError::TruncatedRawMessage { actual: value.len() as usize })
    } else if le16(value[1], value[2]) <= value.len() - 3 {
        Ok(
            RawMessageModel {
                tag: None,
                format: value[0],
                pdu: value.subrange(3, 3 + le16(value[1], value[2])),
            },
        )
    } else if value.len() >= 4 && !(MessageTag::of_wire(value[0]) is Unknown) && le16(
        value[2],
        value[3],
    ) <= value.len() - 4 {
        Ok(
            RawMessageModel {
                tag: Some(MessageTag::of_wire(value[0])),
                format: value[1],
                pdu: value.subrange(4, 4 + le16(value[2], value[3])),
            },
        )
    } else {
        Ok(RawMessageModel { tag: None, format: value[0], pdu: value.skip(3) })
    }
}

/// The message that a read answers with.
pub open spec fn raw_read_in(response: MessageModel) -> Result<RawMessageModel, WmsError> {
    match wms_tlvs(response, RAW_READ) {
        Err(e) => Err(e),
        Ok(tlvs) => match only_tlv(tlvs, RAW_MESSAGE_TLV) {
            Err(e) => Err(WmsError::Lookup(e)),
            Ok(value) => raw_message_in(value),
        },
    }
}

pub fn parse_raw_read(response: &QmiResponse) -> (message: Result<RawMessage, WmsError>)
    ensures
        match message {
            Ok(m) => raw_read_in(response@) == Ok::<RawMessageModel, WmsError>(m@),
            Err(e) => raw_read_in(response@) == Err::<RawMessageModel, WmsError>(e),
        },
{
    let tlvs: Vec<Tlv> = match expect_wms(response, RAW_READ) {
        Ok(tlvs) => tlvs,
        Err(e) => return Err(e),
    };
    match unique_tlv(&tlvs, RAW_MESSAGE_TLV) {
        Ok(tlv) => parse_raw_message_value(&tlv.value),
        Err(e) => Err(WmsError::Lookup(e)),
    }
}

/// A submit: format, length and PDU in one TLV. The PDU length has to fit
/// sixteen bits, and the TLV around it too.
pub open spec fn raw_send_message(
    assignment: ClientAssignment,
    transaction: TransactionId,
    format: u8,
    pdu: Seq<u8>,
) -> Result<MessageModel, WmsError> {
    if assignment.service != ServiceId(WMS_SERVICE) {
        Err(WmsError::UnexpectedService { actual: assignment.service })
    } else if pdu.len() > 0xffff {
        Err(WmsError::PduTooLarge { actual: pdu.len() as usize })
    } else {
        let value = seq![format] + le16_octets(pdu.len() as u16) + pdu;
        if value.len() > 0xffff {
            Err(
                WmsError::Wire(
                    WireError::TlvValueTooLarge {
                        kind: RAW_MESSAGE_TLV,
                        actual: value.len() as usize,
                    },
                ),
            )
        } else {
            wms_request(
                assignment,
                transaction,
                MessageId(RAW_SEND),
                seq![TlvModel { kind: RAW_MESSAGE_TLV, value }],
            )
        }
    }
}

pub fn raw_send_request(
    assignment: ClientAssignment,
    transaction: TransactionId,
    format: u8,
    pdu: &[u8],
) -> (request: Result<QmiRequest, WmsError>)
    ensures
        made(request, raw_send_message(assignment, transaction, format, pdu@)),
{
    match ensure_wms(assignment) {
        Ok(_) => {},
        Err(e) => return Err(e),
    }
    if pdu.len() > 0xffff {
        return Err(WmsError::PduTooLarge { actual: pdu.len() });
    }
    let mut value: Vec<u8> = one_octet(format);
    push_le16(&mut value, pdu.len() as u16);
    push_all(&mut value, pdu);
    let tlv: Tlv = match Tlv::new(RAW_MESSAGE_TLV, value) {
        Ok(tlv) => tlv,
        Err(e) => return Err(WmsError::Wire(e)),
    };
    let mut tlvs: Vec<Tlv> = Vec::new();
    tlvs.push(tlv);
    proof {
        assert(tlv_models(tlvs@) =~= seq![
            TlvModel {
                kind: RAW_MESSAGE_TLV,
                value: seq![format] + le16_octets(pdu@.len() as u16) + pdu@,
            },
        ]);
    }
    request_with(assignment, transaction, MessageId::new(RAW_SEND), &tlvs)
}

/// The message reference in the answer to a submit, where there is one.
pub open spec fn raw_send_in(response: MessageModel) -> Result<Option<u16>, WmsError> {
    match wms_tlvs(response, RAW_SEND) {
        Err(e) => Err(e),
        Ok(tlvs) => match only_tlv(tlvs, SEND_MESSAGE_ID_TLV) {
            Err(TlvLookupError::Missing { .. }) => Ok(None),
            Err(e) => Err(WmsError::Lookup(e)),
            Ok(value) => if value.len() >= 2 {
                Ok(Some(le16(value[0], value[1])))
            } else {
                Err(WmsError::TruncatedMessageId { actual: value.len() as usize })
            },
        },
    }
}

pub fn parse_raw_send(response: &QmiResponse) -> (reference: Result<Option<u16>, WmsError>)
    ensures
        reference == raw_send_in(response@),
{
    let tlvs: Vec<Tlv> = match expect_wms(response, RAW_SEND) {
        Ok(tlvs) => tlvs,
        Err(e) => return Err(e),
    };
    match unique_tlv(&tlvs, SEND_MESSAGE_ID_TLV) {
        Err(TlvLookupError::Missing { .. }) => Ok(None),
        Err(e) => Err(WmsError::Lookup(e)),
        Ok(tlv) => {
            if tlv.value.len() >= 2 {
                Ok(Some(read_le16(tlv.value[0], tlv.value[1])))
            } else {
                Err(WmsError::TruncatedMessageId { actual: tlv.value.len() })
            }
        },
    }
}

pub fn delete_by_index_request(
    assignment: ClientAssignment,
    transaction: TransactionId,
    storage: StorageType,
    index: u32,
    mode: MessageMode,
) -> (request: Result<QmiRequest, WmsError>)
    ensures
        made(
            request,
            wms_request(
                assignment,
                transaction,
                MessageId(DELETE),
                seq![
                    TlvModel { kind: STORAGE_TLV, value: seq![storage.wire()] },
                    TlvModel { kind: DELETE_INDEX_TLV, value: le32_octets(index) },
                    TlvModel { kind: DELETE_MODE_TLV, value: seq![mode.wire()] },
                ],
            ),
        ),
{
    let mut index_value: Vec<u8> = Vec::new();
    push_le32(&mut index_value, index);
    let mut tlvs: Vec<Tlv> = Vec::new();
    tlvs.push(Tlv { kind: STORAGE_TLV, value: one_octet(storage.as_u8()) });
    tlvs.push(Tlv { kind: DELETE_INDEX_TLV, value: index_value });
    tlvs.push(Tlv { kind: DELETE_MODE_TLV, value: one_octet(mode.as_u8()) });
    proof {
        assert(index_value@ =~= le32_octets(index));
        assert(tlv_models(tlvs@) =~= seq![
            TlvModel { kind: STORAGE_TLV, value: seq![storage.wire()] },
            TlvModel { kind: DELETE_INDEX_TLV, value: le32_octets(index) },
            TlvModel { kind: DELETE_MODE_TLV, value: seq![mode.wire()] },
        ]);
    }
    request_with(assignment, transaction, MessageId::new(DELETE), &tlvs)
}

pub fn parse_delete(response: &QmiResponse) -> (done: Result<(), WmsError>)
    ensures
        match done {
            Ok(_) => wms_tlvs(response@, DELETE) is Ok,
            Err(e) => wms_tlvs(response@, DELETE) == Err::<Seq<TlvModel>, WmsError>(e),
        },
{
    match expect_wms(response, DELETE) {
        Ok(_) => Ok(()),
        Err(e) => Err(e),
    }
}

fn parse_list_payload(value: &[u8], storage: StorageType) -> (messages: Result<
    Vec<ListedMessage>,
    WmsError,
>)
    ensures
        match messages {
            Ok(list) => list_in(value@, storage) == Ok::<Seq<ListedMessage>, WmsError>(list@),
            Err(e) => list_in(value@, storage) == Err::<Seq<ListedMessage>, WmsError>(e),
        },
{
    if value.len() < 4 {
        return Err(WmsError::TruncatedList { actual: value.len() });
    }
    let count: u32 = read_le32(value[0], value[1], value[2], value[3]);
    let mut messages: Vec<ListedMessage> = Vec::new();
    let mut done: u32 = 0;
    let mut offset: usize = 4;
    while done < count
        invariant
            value@.len() >= 4,
            count == le32(value@[0], value@[1], value@[2], value@[3]),
            done <= count,
            offset == 4 + 5 * done,
            offset <= value@.len(),
            messages@ == Seq::new(done as nat, |entry: int| listed_at(value@, entry, storage)),
        decreases count - done,
    {
        if value.len() - offset < 5 {
            return Err(WmsError::TruncatedList { actual: value.len() });
        }
        let index: u32 = read_le32(
            value[offset],
            value[offset + 1],
            value[offset + 2],
            value[offset + 3],
        );
        let tag: MessageTag = MessageTag::from_wire(value[offset + 4]);
        messages.push(ListedMessage { index, tag, storage });
        offset = offset + 5;
        done = done + 1;
        proof {
            assert(messages@ =~= Seq::new(
                done as nat,
                |entry: int| listed_at(value@, entry, storage),
            ));
        }
    }
    Ok(messages)
}

fn parse_raw_message_value(value: &[u8]) -> (message: Result<RawMessage, WmsError>)
    ensures
        match message {
            Ok(m) => raw_message_in(value@) == Ok::<RawMessageModel, WmsError>(m@),
            Err(e) => raw_message_in(value@) == Err::<RawMessageModel, WmsError>(e),
        },
{
    if value.len() < 3 {
        return Err(WmsError::TruncatedRawMessage { actual: value.len() });
    }
    let untagged: usize = read_le16(value[1], value[2]) as usize;
    if untagged <= value.len() - 3 {
        return Ok(
            RawMessage { tag: None, format: value[0], pdu: copy_range(value, 3, 3 + untagged) },
        );
    }
    if value.len() >= 4 {
        let tagged: usize = read_le16(value[2], value[3]) as usize;
        let tag: MessageTag = MessageTag::from_wire(value[0]);
        if tag.is_known() && tagged <= value.len() - 4 {
            return Ok(
                RawMessage {
                    tag: Some(tag),
                    format: value[1],
                    pdu: copy_range(value, 4, 4 + tagged),
                },
            );
        }
    }
    proof {
        assert(value@.subrange(3, value@.len() as int) =~= value@.skip(3));
    }
    Ok(RawMessage { tag: None, format: value[0], pdu: copy_range(value, 3, value.len()) })
}

/// Errors from encoding or decoding WMS messages.
#[allow(inconsistent_fields)]
#[derive(Clone, Copy, Debug, PartialEq, Eq, Structural)]
pub enum WmsError {
    Wire(WireError),
    Result(ResultError),
    Lookup(TlvLookupError),
    UnexpectedService { actual: ServiceId },
    UnexpectedMessage { expected: MessageId, actual: MessageId },
    TruncatedList { actual: usize },
    TruncatedRawMessage { actual: usize },
    TruncatedMessageId { actual: usize },
    PduTooLarge { actual: usize },
}

impl WmsError {
    pub open spec fn text(self) -> Seq<char> {
        match self {
            WmsError::Wire(error) => error.text(),
            WmsError::Result(error) => error.text(),
            WmsError::Lookup(error) => error.text(),
            WmsError::UnexpectedService { actual } => "expected WMS service, got "@ + actual.text(),
            WmsError::UnexpectedMessage { expected, actual } => "expected WMS message "@
                + expected.text() + ", got "@ + actual.text(),
            WmsError::TruncatedList { actual } => "WMS message list TLV has "@
                + decimal(actual as nat) + " bytes"@,
            WmsError::TruncatedRawMessage { actual } => "WMS raw message TLV has "@
                + decimal(actual as nat) + " bytes"@,
            WmsError::TruncatedMessageId { actual } => "WMS send message ID has "@
                + decimal(actual as nat) + " bytes"@,
            WmsError::PduTooLarge { actual } => "SMS PDU is "@ + decimal(actual as nat)
                + " bytes, above the u16 WMS limit"@,
        }
    }

    pub fn push_to(&self, out: &mut String)
        ensures
            final(out)@ == old(out)@ + self.text(),
    {
        match self {
            WmsError::Wire(error) => {
                error.push_to(out);
            },
            WmsError::Result(error) => {
                error.push_to(out);
            },
            WmsError::Lookup(error) => {
                error.push_to(out);
            },
            WmsError::UnexpectedService { actual } => {
                out.append("expected WMS service, got ");
                actual.push_to(out);
            },
            WmsError::UnexpectedMessage { expected, actual } => {
                out.append("expected WMS message ");
                expected.push_to(out);
                out.append(", got ");
                actual.push_to(out);
            },
            WmsError::TruncatedList { actual } => {
                out.append("WMS message list TLV has ");
                push_decimal(out, *actual as u64);
                out.append(" bytes");
            },
            WmsError::TruncatedRawMessage { actual } => {
                out.append("WMS raw message TLV has ");
                push_decimal(out, *actual as u64);
                out.append(" bytes");
            },
            WmsError::TruncatedMessageId { actual } => {
                out.append("WMS send message ID has ");
                push_decimal(out, *actual as u64);
                out.append(" bytes");
            },
            WmsError::PduTooLarge { actual } => {
                out.append("SMS PDU is ");
                push_decimal(out, *actual as u64);
                out.append(" bytes, above the u16 WMS limit");
            },
        }
        proof {
            assert(out@ =~= old(out)@ + self.text());
        }
    }

    pub fn to_string(&self) -> (text: String)
        ensures
            text@ == self.text(),
    {
        let mut text: String = String::new();
        self.push_to(&mut text);
        proof {
            assert(text@ =~= self.text());
        }
        text
    }
}

} // verus!
