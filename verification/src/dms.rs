//! QMI Device Management Service: identity and operating mode.

use crate::text::{decimal, hex_pair, opt_text, push_decimal, push_hex_pair, utf8_text};
use crate::result::{expect_reply, reply_tlvs, ReplyFault, ResultError};
use crate::wire::{
    made, only_tlv, request_of_tlvs, tlv_models, unique_tlv, ClientAssignment, MessageId,
    MessageModel, QmiRequest, QmiResponse, ServiceId, Tlv, TlvLookupError, TlvModel,
    TransactionId, WireError,
};
use vstd::prelude::*;
use vstd::utf8::{decode_utf8, valid_utf8};

verus! {

pub const GET_MANUFACTURER: u16 = 0x0021;

pub const GET_MODEL_ID: u16 = 0x0022;

pub const GET_DEVICE_REV_ID: u16 = 0x0023;

pub const GET_DEVICE_SERIAL_NUMBERS: u16 = 0x0025;

pub const GET_OPERATING_MODE: u16 = 0x002d;

pub const SET_OPERATING_MODE: u16 = 0x002e;

pub const STRING_MANUFACTURER: u8 = 0x01;

pub const STRING_MODEL: u8 = 0x01;

pub const STRING_DEVICE_REV: u8 = 0x01;

pub const STRING_IMEI: u8 = 0x11;

pub const STRING_ESN: u8 = 0x10;

pub const STRING_MEID: u8 = 0x12;

pub const OPERATING_MODE: u8 = 0x01;

/// Identifiers returned by `QMI_DMS_GET_DEVICE_SERIAL_NUMBERS`.
#[derive(Clone, Debug, PartialEq, Eq)]
pub struct DeviceSerialNumbers {
    pub imei: Option<String>,
    pub esn: Option<String>,
    pub meid: Option<String>,
}

/// What the identifiers say.
#[verifier::ext_equal]
pub struct SerialNumbersModel {
    pub imei: Option<Seq<char>>,
    pub esn: Option<Seq<char>>,
    pub meid: Option<Seq<char>>,
}

impl View for DeviceSerialNumbers {
    type V = SerialNumbersModel;

    open spec fn view(&self) -> SerialNumbersModel {
        SerialNumbersModel {
            imei: opt_text(self.imei),
            esn: opt_text(self.esn),
            meid: opt_text(self.meid),
        }
    }
}

/// Firmware identity returned by `QMI_DMS_GET_DEVICE_REV_ID`.
#[derive(Clone, Debug, PartialEq, Eq)]
pub struct DeviceRevision {
    pub device_rev_id: String,
}

/// QMI DMS operating mode values used by radio on/off and reset.
#[derive(Clone, Copy, Debug, PartialEq, Eq, Structural)]
pub enum OperatingMode {
    Online,
    LowPower,
    FactoryTest,
    Offline,
    Resetting,
    ShuttingDown,
    PersistentLowPower,
    ModeOnlyLowPower,
    Unknown(u8),
}

impl OperatingMode {
    pub open spec fn of_wire(value: u8) -> OperatingMode {
        if value == 0 {
            OperatingMode::Online
        } else if value == 1 {
            OperatingMode::LowPower
        } else if value == 2 {
            OperatingMode::FactoryTest
        } else if value == 3 {
            OperatingMode::Offline
        } else if value == 4 {
            OperatingMode::Resetting
        } else if value == 5 {
            OperatingMode::ShuttingDown
        } else if value == 6 {
            OperatingMode::PersistentLowPower
        } else if value == 7 {
            OperatingMode::ModeOnlyLowPower
        } else {
            OperatingMode::Unknown(value)
        }
    }

    pub open spec fn wire(self) -> u8 {
        match self {
            OperatingMode::Online => 0,
            OperatingMode::LowPower => 1,
            OperatingMode::FactoryTest => 2,
            OperatingMode::Offline => 3,
            OperatingMode::Resetting => 4,
            OperatingMode::ShuttingDown => 5,
            OperatingMode::PersistentLowPower => 6,
            OperatingMode::ModeOnlyLowPower => 7,
            OperatingMode::Unknown(value) => value,
        }
    }

    pub fn from_wire(value: u8) -> (mode: Self)
        ensures
            mode == OperatingMode::of_wire(value),
    {
        match value {
            0 => OperatingMode::Online,
            1 => OperatingMode::LowPower,
            2 => OperatingMode::FactoryTest,
            3 => OperatingMode::Offline,
            4 => OperatingMode::Resetting,
            5 => OperatingMode::ShuttingDown,
            6 => OperatingMode::PersistentLowPower,
            7 => OperatingMode::ModeOnlyLowPower,
            other => OperatingMode::Unknown(other),
        }
    }

    pub fn as_u8(self) -> (value: u8)
        ensures
            value == self.wire(),
    {
        match self {
            OperatingMode::Online => 0,
            OperatingMode::LowPower => 1,
            OperatingMode::FactoryTest => 2,
            OperatingMode::Offline => 3,
            OperatingMode::Resetting => 4,
            OperatingMode::ShuttingDown => 5,
            OperatingMode::PersistentLowPower => 6,
            OperatingMode::ModeOnlyLowPower => 7,
            OperatingMode::Unknown(value) => value,
        }
    }
}

/// Every wire value survives being read and written back.
pub proof fn law_operating_mode_round_trip(value: u8)
    ensures
        OperatingMode::of_wire(value).wire() == value,
{
}

/// The DMS service.
pub const DMS_SERVICE: u8 = 0x02;

/// A request of this service, or why the assignment cannot carry it.
pub open spec fn dms_request(
    assignment: ClientAssignment,
    transaction: TransactionId,
    message: MessageId,
    tlvs: Seq<TlvModel>,
) -> Result<MessageModel, DmsError> {
    if assignment.service != ServiceId(DMS_SERVICE) {
        Err(DmsError::UnexpectedService { actual: assignment.service })
    } else {
        match request_of_tlvs(
            ServiceId(DMS_SERVICE),
            assignment.client_id,
            transaction,
            message,
            tlvs,
        ) {
            Ok(m) => Ok(m),
            Err(e) => Err(DmsError::Wire(e)),
        }
    }
}

/// A refused answer as this service reports it.
pub open spec fn dms_fault(fault: ReplyFault) -> DmsError {
    match fault {
        ReplyFault::Service { actual } => DmsError::UnexpectedService { actual },
        ReplyFault::ControlClient => DmsError::Wire(
            WireError::ServiceRequiresAllocatedClient { service: ServiceId(DMS_SERVICE) },
        ),
        ReplyFault::Message { expected, actual } => DmsError::UnexpectedMessage {
            expected,
            actual,
        },
        ReplyFault::Result(e) => DmsError::Result(e),
    }
}

/// The TLVs of a successful answer of this service.
pub open spec fn dms_tlvs(response: MessageModel, message: u16) -> Result<
    Seq<TlvModel>,
    DmsError,
> {
    match reply_tlvs(response, ServiceId(DMS_SERVICE), MessageId(message)) {
        Ok(tlvs) => Ok(tlvs),
        Err(fault) => Err(dms_fault(fault)),
    }
}

fn expect_dms(response: &QmiResponse, message: u16) -> (tlvs: Result<Vec<Tlv>, DmsError>)
    ensures
        match tlvs {
            Ok(list) => dms_tlvs(response@, message) == Ok::<Seq<TlvModel>, DmsError>(
                tlv_models(list@),
            ),
            Err(e) => dms_tlvs(response@, message) == Err::<Seq<TlvModel>, DmsError>(e),
        },
{
    match expect_reply(response, ServiceId::dms(), MessageId::new(message)) {
        Ok(tlvs) => Ok(tlvs),
        Err(ReplyFault::Service { actual }) => Err(DmsError::UnexpectedService { actual }),
        Err(ReplyFault::ControlClient) => Err(
            DmsError::Wire(
                WireError::ServiceRequiresAllocatedClient { service: ServiceId::dms() },
            ),
        ),
        Err(ReplyFault::Message { expected, actual }) => Err(
            DmsError::UnexpectedMessage { expected, actual },
        ),
        Err(ReplyFault::Result(e)) => Err(DmsError::Result(e)),
    }
}

fn ensure_dms(assignment: ClientAssignment) -> (checked: Result<(), DmsError>)
    ensures
        checked == (if assignment.service != ServiceId(DMS_SERVICE) {
            Err::<(), DmsError>(DmsError::UnexpectedService { actual: assignment.service })
        } else {
            Ok(())
        }),
{
    if assignment.service() != ServiceId::dms() {
        return Err(DmsError::UnexpectedService { actual: assignment.service() });
    }
    Ok(())
}

fn request_with(
    assignment: ClientAssignment,
    transaction: TransactionId,
    message: MessageId,
    tlvs: &[Tlv],
) -> (request: Result<QmiRequest, DmsError>)
    ensures
        made(request, dms_request(assignment, transaction, message, tlv_models(tlvs@))),
{
    match ensure_dms(assignment) {
        Ok(_) => {},
        Err(e) => return Err(e),
    }
    match QmiRequest::from_tlvs(
        ServiceId::dms(),
        assignment.client_id(),
        transaction,
        message,
        tlvs,
    ) {
        Ok(request) => Ok(request),
        Err(e) => Err(DmsError::Wire(e)),
    }
}

/// Builds an empty DMS request for the allocated client.
pub fn empty_request(
    assignment: ClientAssignment,
    transaction: TransactionId,
    message_id: MessageId,
) -> (request: Result<QmiRequest, DmsError>)
    ensures
        made(request, dms_request(assignment, transaction, message_id, Seq::empty())),
{
    let tlvs: Vec<Tlv> = Vec::new();
    proof {
        assert(tlv_models(tlvs@) =~= Seq::empty());
    }
    request_with(assignment, transaction, message_id, &tlvs)
}

pub fn get_serial_numbers_request(assignment: ClientAssignment, transaction: TransactionId) -> (request: Result<
    QmiRequest,
    DmsError,
>)
    ensures
        made(
            request,
            dms_request(
                assignment,
                transaction,
                MessageId(GET_DEVICE_SERIAL_NUMBERS),
                Seq::empty(),
            ),
        ),
{
    empty_request(assignment, transaction, MessageId::new(GET_DEVICE_SERIAL_NUMBERS))
}

pub fn get_revision_request(assignment: ClientAssignment, transaction: TransactionId) -> (request: Result<
    QmiRequest,
    DmsError,
>)
    ensures
        made(
            request,
            dms_request(assignment, transaction, MessageId(GET_DEVICE_REV_ID), Seq::empty()),
        ),
{
    empty_request(assignment, transaction, MessageId::new(GET_DEVICE_REV_ID))
}

pub fn get_model_request(assignment: ClientAssignment, transaction: TransactionId) -> (request: Result<
    QmiRequest,
    DmsError,
>)
    ensures
        made(
            request,
            dms_request(assignment, transaction, MessageId(GET_MODEL_ID), Seq::empty()),
        ),
{
    empty_request(assignment, transaction, MessageId::new(GET_MODEL_ID))
}

pub fn get_manufacturer_request(assignment: ClientAssignment, transaction: TransactionId) -> (request: Result<
    QmiRequest,
    DmsError,
>)
    ensures
        made(
            request,
            dms_request(assignment, transaction, MessageId(GET_MANUFACTURER), Seq::empty()),
        ),
{
    empty_request(assignment, transaction, MessageId::new(GET_MANUFACTURER))
}

pub fn get_operating_mode_request(assignment: ClientAssignment, transaction: TransactionId) -> (request: Result<
    QmiRequest,
    DmsError,
>)
    ensures
        made(
            request,
            dms_request(assignment, transaction, MessageId(GET_OPERATING_MODE), Seq::empty()),
        ),
{
    empty_request(assignment, transaction, MessageId::new(GET_OPERATING_MODE))
}

pub fn set_operating_mode_request(
    assignment: ClientAssignment,
    transaction: TransactionId,
    mode: OperatingMode,
) -> (request: Result<QmiRequest, DmsError>)
    ensures
        made(
            request,
            dms_request(
                assignment,
                transaction,
                MessageId(SET_OPERATING_MODE),
                seq![TlvModel { kind: OPERATING_MODE, value: seq![mode.wire()] }],
            ),
        ),
{
    let mut value: Vec<u8> = Vec::new();
    value.push(mode.as_u8());
    let mut tlvs: Vec<Tlv> = Vec::new();
    tlvs.push(Tlv { kind: OPERATING_MODE, value });
    proof {
        assert(value@ =~= seq![mode.wire()]);
        assert(tlv_models(tlvs@) =~= seq![
            TlvModel { kind: OPERATING_MODE, value: seq![mode.wire()] },
        ]);
    }
    request_with(assignment, transaction, MessageId::new(SET_OPERATING_MODE), &tlvs)
}

/// The octets before the first zero.
pub open spec fn before_nul(bytes: Seq<u8>) -> Seq<u8>
    decreases bytes.len(),
{
    if bytes.len() == 0 || bytes[0] == 0 {
        Seq::empty()
    } else {
        seq![bytes[0]] + before_nul(bytes.skip(1))
    }
}

/// A text field: UTF-8 up to the first zero octet.
pub open spec fn text_field(bytes: Seq<u8>, kind: u8) -> Result<Seq<char>, DmsError> {
    if valid_utf8(before_nul(bytes)) {
        Ok(decode_utf8(before_nul(bytes)))
    } else {
        Err(DmsError::InvalidUtf8 { kind })
    }
}

/// A text TLV that may be absent.
pub open spec fn optional_text(tlvs: Seq<TlvModel>, kind: u8) -> Result<
    Option<Seq<char>>,
    DmsError,
> {
    match only_tlv(tlvs, kind) {
        Ok(value) => match text_field(value, kind) {
            Ok(text) => Ok(Some(text)),
            Err(e) => Err(e),
        },
        Err(TlvLookupError::Missing { .. }) => Ok(None),
        Err(e) => Err(DmsError::Lookup(e)),
    }
}

/// A text TLV that has to be there.
pub open spec fn required_text(tlvs: Seq<TlvModel>, kind: u8) -> Result<Seq<char>, DmsError> {
    match optional_text(tlvs, kind) {
        Ok(Some(text)) => Ok(text),
        Ok(None) => Err(DmsError::Lookup(TlvLookupError::Missing { kind })),
        Err(e) => Err(e),
    }
}

/// What a serial-number answer says.
pub open spec fn serial_numbers_in(response: MessageModel) -> Result<SerialNumbersModel, DmsError> {
    match dms_tlvs(response, GET_DEVICE_SERIAL_NUMBERS) {
        Err(e) => Err(e),
        Ok(tlvs) => match optional_text(tlvs, STRING_IMEI) {
            Err(e) => Err(e),
            Ok(imei) => match optional_text(tlvs, STRING_ESN) {
                Err(e) => Err(e),
                Ok(esn) => match optional_text(tlvs, STRING_MEID) {
                    Err(e) => Err(e),
                    Ok(meid) => Ok(SerialNumbersModel { imei, esn, meid }),
                },
            },
        },
    }
}

/// The text of an answer whose whole content is one required text TLV.
pub open spec fn text_answer_in(response: MessageModel, message: u16, kind: u8) -> Result<
    Seq<char>,
    DmsError,
> {
    match dms_tlvs(response, message) {
        Err(e) => Err(e),
        Ok(tlvs) => required_text(tlvs, kind),
    }
}

pub fn parse_serial_numbers(response: &QmiResponse) -> (serials: Result<
    DeviceSerialNumbers,
    DmsError,
>)
    ensures
        match serials {
            Ok(s) => serial_numbers_in(response@) == Ok::<SerialNumbersModel, DmsError>(s@),
            Err(e) => serial_numbers_in(response@) == Err::<SerialNumbersModel, DmsError>(e),
        },
{
    let tlvs: Vec<Tlv> = match expect_dms(response, GET_DEVICE_SERIAL_NUMBERS) {
        Ok(tlvs) => tlvs,
        Err(e) => return Err(e),
    };
    let imei: Option<String> = match optional_string(&tlvs, STRING_IMEI) {
        Ok(text) => text,
        Err(e) => return Err(e),
    };
    let esn: Option<String> = match optional_string(&tlvs, STRING_ESN) {
        Ok(text) => text,
        Err(e) => return Err(e),
    };
    let meid: Option<String> = match optional_string(&tlvs, STRING_MEID) {
        Ok(text) => text,
        Err(e) => return Err(e),
    };
    Ok(DeviceSerialNumbers { imei, esn, meid })
}

pub fn parse_revision(response: &QmiResponse) -> (revision: Result<DeviceRevision, DmsError>)
    ensures
        match revision {
            Ok(r) => text_answer_in(response@, GET_DEVICE_REV_ID, STRING_DEVICE_REV) == Ok::<
                Seq<char>,
                DmsError,
            >(r.device_rev_id@),
            Err(e) => text_answer_in(response@, GET_DEVICE_REV_ID, STRING_DEVICE_REV) == Err::<
                Seq<char>,
                DmsError,
            >(e),
        },
{
    match text_answer(response, GET_DEVICE_REV_ID, STRING_DEVICE_REV) {
        Ok(device_rev_id) => Ok(DeviceRevision { device_rev_id }),
        Err(e) => Err(e),
    }
}

pub fn parse_model(response: &QmiResponse) -> (model: Result<String, DmsError>)
    ensures
        match model {
            Ok(text) => text_answer_in(response@, GET_MODEL_ID, STRING_MODEL) == Ok::<
                Seq<char>,
                DmsError,
            >(text@),
            Err(e) => text_answer_in(response@, GET_MODEL_ID, STRING_MODEL) == Err::<
                Seq<char>,
                DmsError,
            >(e),
        },
{
    text_answer(response, GET_MODEL_ID, STRING_MODEL)
}

pub fn parse_manufacturer(response: &QmiResponse) -> (manufacturer: Result<String, DmsError>)
    ensures
        match manufacturer {
            Ok(text) => text_answer_in(response@, GET_MANUFACTURER, STRING_MANUFACTURER) == Ok::<
                Seq<char>,
                DmsError,
            >(text@),
            Err(e) => text_answer_in(response@, GET_MANUFACTURER, STRING_MANUFACTURER) == Err::<
                Seq<char>,
                DmsError,
            >(e),
        },
{
    text_answer(response, GET_MANUFACTURER, STRING_MANUFACTURER)
}

/// The mode that an answer reports: exactly one octet.
pub open spec fn operating_mode_in(response: MessageModel) -> Result<OperatingMode, DmsError> {
    match dms_tlvs(response, GET_OPERATING_MODE) {
        Err(e) => Err(e),
        Ok(tlvs) => match only_tlv(tlvs, OPERATING_MODE) {
            Err(e) => Err(DmsError::Lookup(e)),
            Ok(value) => if value.len() != 1 {
                Err(DmsError::MalformedOperatingMode { actual: value.len() as usize })
            } else {
                Ok(OperatingMode::of_wire(value[0]))
            },
        },
    }
}

pub fn parse_operating_mode(response: &QmiResponse) -> (mode: Result<OperatingMode, DmsError>)
    ensures
        mode == operating_mode_in(response@),
{
    let tlvs: Vec<Tlv> = match expect_dms(response, GET_OPERATING_MODE) {
        Ok(tlvs) => tlvs,
        Err(e) => return Err(e),
    };
    let tlv: &Tlv = match unique_tlv(&tlvs, OPERATING_MODE) {
        Ok(tlv) => tlv,
        Err(e) => return Err(DmsError::Lookup(e)),
    };
    if tlv.value.len() != 1 {
        return Err(DmsError::MalformedOperatingMode { actual: tlv.value.len() });
    }
    Ok(OperatingMode::from_wire(tlv.value[0]))
}

pub fn parse_set_operating_mode(response: &QmiResponse) -> (done: Result<(), DmsError>)
    ensures
        match done {
            Ok(_) => dms_tlvs(response@, SET_OPERATING_MODE) is Ok,
            Err(e) => dms_tlvs(response@, SET_OPERATING_MODE) == Err::<Seq<TlvModel>, DmsError>(e),
        },
{
    match expect_dms(response, SET_OPERATING_MODE) {
        Ok(_) => Ok(()),
        Err(e) => Err(e),
    }
}

fn text_answer(response: &QmiResponse, message: u16, kind: u8) -> (text: Result<String, DmsError>)
    ensures
        match text {
            Ok(t) => text_answer_in(response@, message, kind) == Ok::<Seq<char>, DmsError>(t@),
            Err(e) => text_answer_in(response@, message, kind) == Err::<Seq<char>, DmsError>(e),
        },
{
    match expect_dms(response, message) {
        Ok(tlvs) => required_string(&tlvs, kind),
        Err(e) => Err(e),
    }
}

fn required_string(tlvs: &[Tlv], kind: u8) -> (text: Result<String, DmsError>)
    ensures
        match text {
            Ok(t) => required_text(tlv_models(tlvs@), kind) == Ok::<Seq<char>, DmsError>(t@),
            Err(e) => required_text(tlv_models(tlvs@), kind) == Err::<Seq<char>, DmsError>(e),
        },
{
    match optional_string(tlvs, kind) {
        Ok(Some(text)) => Ok(text),
        Ok(None) => Err(DmsError::Lookup(TlvLookupError::Missing { kind })),
        Err(e) => Err(e),
    }
}

fn optional_string(tlvs: &[Tlv], kind: u8) -> (text: Result<Option<String>, DmsError>)
    ensures
        match text {
            Ok(t) => optional_text(tlv_models(tlvs@), kind) == Ok::<Option<Seq<char>>, DmsError>(
                opt_text(t),
            ),
            Err(e) => optional_text(tlv_models(tlvs@), kind) == Err::<Option<Seq<char>>, DmsError>(
                e,
            ),
        },
{
    match unique_tlv(tlvs, kind) {
        Ok(tlv) => match decode_string(&tlv.value, kind) {
            Ok(text) => Ok(Some(text)),
            Err(e) => Err(e),
        },
        Err(TlvLookupError::Missing { .. }) => Ok(None),
        Err(e) => Err(DmsError::Lookup(e)),
    }
}

fn decode_string(bytes: &[u8], kind: u8) -> (text: Result<String, DmsError>)
    ensures
        match text {
            Ok(t) => text_field(bytes@, kind) == Ok::<Seq<char>, DmsError>(t@),
            Err(e) => text_field(bytes@, kind) == Err::<Seq<char>, DmsError>(e),
        },
{
    let mut end: usize = 0;
    proof {
        assert(bytes@.take(0) + before_nul(bytes@.skip(0)) =~= before_nul(bytes@)) by {
            assert(bytes@.skip(0) =~= bytes@);
        }
    }
    while end < bytes.len() && bytes[end] != 0
        invariant
            end <= bytes@.len(),
            bytes@.take(end as int) + before_nul(bytes@.skip(end as int)) == before_nul(bytes@),
        decreases bytes@.len() - end,
    {
        proof {
            let rest = bytes@.skip(end as int);
            assert(rest.skip(1) =~= bytes@.skip(end + 1));
            assert(bytes@.take(end + 1) =~= bytes@.take(end as int) + seq![rest[0]]);
            assert(bytes@.take(end + 1) + before_nul(bytes@.skip(end + 1)) =~= bytes@.take(
                end as int,
            ) + (seq![rest[0]] + before_nul(rest.skip(1))));
        }
        end = end + 1;
    }
    proof {
        assert(bytes@.take(end as int) + Seq::<u8>::empty() =~= bytes@.take(end as int));
        assert(bytes@.subrange(0, end as int) =~= bytes@.take(end as int));
    }
    match utf8_text(&bytes[0..end]) {
        Some(text) => Ok(text),
        None => Err(DmsError::InvalidUtf8 { kind }),
    }
}

/// Errors from encoding or decoding DMS messages.
#[allow(inconsistent_fields)]
#[derive(Clone, Copy, Debug, PartialEq, Eq, Structural)]
pub enum DmsError {
    Wire(WireError),
    Result(ResultError),
    Lookup(TlvLookupError),
    UnexpectedService { actual: ServiceId },
    UnexpectedMessage { expected: MessageId, actual: MessageId },
    InvalidUtf8 { kind: u8 },
    MalformedOperatingMode { actual: usize },
}

impl DmsError {
    pub open spec fn text(self) -> Seq<char> {
        match self {
            DmsError::Wire(error) => error.text(),
            DmsError::Result(error) => error.text(),
            DmsError::Lookup(error) => error.text(),
            DmsError::UnexpectedService { actual } => "expected DMS service, got "@ + actual.text(),
            DmsError::UnexpectedMessage { expected, actual } => "expected DMS message "@
                + expected.text() + ", got "@ + actual.text(),
            DmsError::InvalidUtf8 { kind } => "DMS TLV 0x"@ + hex_pair(kind)
                + " is not valid UTF-8"@,
            DmsError::MalformedOperatingMode { actual } => "operating mode TLV has "@
                + decimal(actual as nat) + " bytes, expected one"@,
        }
    }

    pub fn push_to(&self, out: &mut String)
        ensures
            final(out)@ == old(out)@ + self.text(),
    {
        match self {
            DmsError::Wire(error) => {
                error.push_to(out);
            },
            DmsError::Result(error) => {
                error.push_to(out);
            },
            DmsError::Lookup(error) => {
                error.push_to(out);
            },
            DmsError::UnexpectedService { actual } => {
                out.append("expected DMS service, got ");
                actual.push_to(out);
            },
            DmsError::UnexpectedMessage { expected, actual } => {
                out.append("expected DMS message ");
                expected.push_to(out);
                out.append(", got ");
                actual.push_to(out);
            },
            DmsError::InvalidUtf8 { kind } => {
                out.append("DMS TLV 0x");
                push_hex_pair(out, *kind);
                out.append(" is not valid UTF-8");
            },
            DmsError::MalformedOperatingMode { actual } => {
                out.append("operating mode TLV has ");
                push_decimal(out, *actual as u64);
                out.append(" bytes, expected one");
            },
        }
        proof {
            assert(out@ =~= old(out)@ + self.text());
        }
    }

    pub fn to_string(&self) -> (text: String)
        ensures
            text@ == self.text(),
    {
        let mut text: String = String::new();
        self.push_to(&mut text);
        proof {
            assert(text@ =~= self.text());
        }
        text
    }
}

} // verus!
