//! QMI Network Access Service: registration and cell location.

use crate::octets::{le16, le32, read_le16, read_le32};
use crate::text::{decimal, push_decimal};
use crate::result::{expect_reply, reply_tlvs, ReplyFault, ResultError};
use crate::wire::{
    made, only_tlv, request_of_tlvs, tlv_models, unique_tlv, ClientAssignment, MessageId,
    MessageModel, QmiRequest, QmiResponse, ServiceId, Tlv, TlvLookupError, TlvModel,
    TransactionId, WireError,
};
use vstd::prelude::*;

verus! {

pub const GET_SERVING_SYSTEM: u16 = 0x0024;

pub const GET_CELL_LOCATION_INFO: u16 = 0x0043;

pub const SERVING_SYSTEM: u8 = 0x01;

pub const CURRENT_PLMN: u8 = 0x12;

pub const LTE_INTRAFREQUENCY: u8 = 0x13;

/// QMI NAS registration_state values from the serving-system TLV.
#[derive(Clone, Copy, Debug, PartialEq, Eq, Structural)]
pub enum NasRegistrationState {
    NotRegistered,
    Registered,
    Searching,
    Denied,
    Unknown(u8),
}

impl NasRegistrationState {
    pub open spec fn of_wire(value: u8) -> NasRegistrationState {
        if value == 0 {
            NasRegistrationState::NotRegistered
        } else if value == 1 {
            NasRegistrationState::Registered
        } else if value == 2 {
            NasRegistrationState::Searching
        } else if value == 3 {
            NasRegistrationState::Denied
        } else {
            NasRegistrationState::Unknown(value)
        }
    }

    pub open spec fn wire(self) -> u8 {
        match self {
            NasRegistrationState::NotRegistered => 0,
            NasRegistrationState::Registered => 1,
            NasRegistrationState::Searching => 2,
            NasRegistrationState::Denied => 3,
            NasRegistrationState::Unknown(value) => value,
        }
    }

    pub fn from_wire(value: u8) -> (state: Self)
        ensures
            state == NasRegistrationState::of_wire(value),
    {
        match value {
            0 => NasRegistrationState::NotRegistered,
            1 => NasRegistrationState::Registered,
            2 => NasRegistrationState::Searching,
            3 => NasRegistrationState::Denied,
            other => NasRegistrationState::Unknown(other),
        }
    }

    pub fn as_u8(self) -> (value: u8)
        ensures
            value == self.wire(),
    {
        match self {
            NasRegistrationState::NotRegistered => 0,
            NasRegistrationState::Registered => 1,
            NasRegistrationState::Searching => 2,
            NasRegistrationState::Denied => 3,
            NasRegistrationState::Unknown(value) => value,
        }
    }

    pub fn is_registered(self) -> (yes: bool)
        ensures
            yes == (self is Registered),
    {
        matches!(self, NasRegistrationState::Registered)
    }
}

/// Every wire value survives being read and written back.
pub proof fn law_registration_state_round_trip(value: u8)
    ensures
        NasRegistrationState::of_wire(value).wire() == value,
{
}

/// Parsed `QMI_NAS_GET_SERVING_SYSTEM` body.
#[derive(Clone, Copy, Debug, PartialEq, Eq, Structural)]
pub struct ServingSystem {
    pub registration_state: NasRegistrationState,
    pub ps_attached: bool,
    pub radio_interface: Option<u8>,
    pub mcc: Option<u16>,
    pub mnc: Option<u16>,
}

/// Parsed LTE intra-frequency cell from `QMI_NAS_GET_CELL_LOCATION_INFO`.
#[derive(Clone, Debug, PartialEq, Eq)]
pub struct LteCellLocation {
    pub mcc: String,
    pub mnc: String,
    pub tac: u16,
    pub global_cell_id: u32,
    pub earfcn: u16,
}

/// What a cell location says.
#[verifier::ext_equal]
pub struct CellModel {
    pub mcc: Seq<char>,
    pub mnc: Seq<char>,
    pub tac: u16,
    pub global_cell_id: u32,
    pub earfcn: u16,
}

impl View for LteCellLocation {
    type V = CellModel;

    open spec fn view(&self) -> CellModel {
        CellModel {
            mcc: self.mcc@,
            mnc: self.mnc@,
            tac: self.tac,
            global_cell_id: self.global_cell_id,
            earfcn: self.earfcn,
        }
    }
}

impl LteCellLocation {
    pub fn is_complete(&self) -> (yes: bool)
        ensures
            yes == (self.mcc@.len() != 0 && self.mnc@.len() != 0 && self.global_cell_id != 0),
    {
        !self.mcc.as_str().is_empty() && !self.mnc.as_str().is_empty() && self.global_cell_id != 0
    }
}

/// Parsed cell-location response. Other RATs can be added without changing
/// the arbitration contract.
#[derive(Clone, Debug, PartialEq, Eq)]
pub struct CellLocationInfo {
    pub lte: Option<LteCellLocation>,
}

impl Default for CellLocationInfo {
    fn default() -> (info: Self)
        ensures
            info.lte is None,
    {
        CellLocationInfo { lte: None }
    }
}

/// The NAS service.
pub const NAS_SERVICE: u8 = 0x03;

/// A request of this service, or why the assignment cannot carry it.
pub open spec fn nas_request(
    assignment: ClientAssignment,
    transaction: TransactionId,
    message: MessageId,
    tlvs: Seq<TlvModel>,
) -> Result<MessageModel, NasError> {
    if assignment.service != ServiceId(NAS_SERVICE) {
        Err(NasError::UnexpectedService { actual: assignment.service })
    } else {
        match request_of_tlvs(
            ServiceId(NAS_SERVICE),
            assignment.client_id,
            transaction,
            message,
            tlvs,
        ) {
            Ok(m) => Ok(m),
            Err(e) => Err(NasError::Wire(e)),
        }
    }
}

/// A refused answer as this service reports it.
pub open spec fn nas_fault(fault: ReplyFault) -> NasError {
    match fault {
        ReplyFault::Service { actual } => NasError::UnexpectedService { actual },
        ReplyFault::ControlClient => NasError::Wire(
            WireError::ServiceRequiresAllocatedClient { service: ServiceId(NAS_SERVICE) },
        ),
        ReplyFault::Message { expected, actual } => NasError::UnexpectedMessage {
            expected,
            actual,
        },
        ReplyFault::Result(e) => NasError::Result(e),
    }
}

/// The TLVs of a successful answer of this service.
pub open spec fn nas_tlvs(response: MessageModel, message: u16) -> Result<
    Seq<TlvModel>,
    NasError,
> {
    match reply_tlvs(response, ServiceId(NAS_SERVICE), MessageId(message)) {
        Ok(tlvs) => Ok(tlvs),
        Err(fault) => Err(nas_fault(fault)),
    }
}

fn expect_nas(response: &QmiResponse, message: u16) -> (tlvs: Result<Vec<Tlv>, NasError>)
    ensures
        match tlvs {
            Ok(list) => nas_tlvs(response@, message) == Ok::<Seq<TlvModel>, NasError>(
                tlv_models(list@),
            ),
            Err(e) => nas_tlvs(response@, message) == Err::<Seq<TlvModel>, NasError>(e),
        },
{
    match expect_reply(response, ServiceId::nas(), MessageId::new(message)) {
        Ok(tlvs) => Ok(tlvs),
        Err(ReplyFault::Service { actual }) => Err(NasError::UnexpectedService { actual }),
        Err(ReplyFault::ControlClient) => Err(
            NasError::Wire(
                WireError::ServiceRequiresAllocatedClient { service: ServiceId::nas() },
            ),
        ),
        Err(ReplyFault::Message { expected, actual }) => Err(
            NasError::UnexpectedMessage { expected, actual },
        ),
        Err(ReplyFault::Result(e)) => Err(NasError::Result(e)),
    }
}

fn ensure_nas(assignment: ClientAssignment) -> (checked: Result<(), NasError>)
    ensures
        checked == (if assignment.service != ServiceId(NAS_SERVICE) {
            Err::<(), NasError>(NasError::UnexpectedService { actual: assignment.service })
        } else {
            Ok(())
        }),
{
    if assignment.service() != ServiceId::nas() {
        return Err(NasError::UnexpectedService { actual: assignment.service() });
    }
    Ok(())
}

fn request_with(
    assignment: ClientAssignment,
    transaction: TransactionId,
    message: MessageId,
    tlvs: &[Tlv],
) -> (request: Result<QmiRequest, NasError>)
    ensures
        made(request, nas_request(assignment, transaction, message, tlv_models(tlvs@))),
{
    match ensure_nas(assignment) {
        Ok(_) => {},
        Err(e) => return Err(e),
    }
    match QmiRequest::from_tlvs(
        ServiceId::nas(),
        assignment.client_id(),
        transaction,
        message,
        tlvs,
    ) {
        Ok(request) => Ok(request),
        Err(e) => Err(NasError::Wire(e)),
    }
}

pub fn empty_request(
    assignment: ClientAssignment,
    transaction: TransactionId,
    message_id: MessageId,
) -> (request: Result<QmiRequest, NasError>)
    ensures
        made(request, nas_request(assignment, transaction, message_id, Seq::empty())),
{
    let tlvs: Vec<Tlv> = Vec::new();
    proof {
        assert(tlv_models(tlvs@) =~= Seq::empty());
    }
    request_with(assignment, transaction, message_id, &tlvs)
}

/// What the serving-system TLV and the PLMN TLV say together. The PLMN is
/// optional: one that is missing, repeated or short says nothing.
pub open spec fn serving_system_in(response: MessageModel) -> Result<ServingSystem, NasError> {
    match nas_tlvs(response, GET_SERVING_SYSTEM) {
        Err(e) => Err(e),
        Ok(tlvs) => match only_tlv(tlvs, SERVING_SYSTEM) {
            Err(e) => Err(NasError::Lookup(e)),
            Ok(value) => if value.len() < 3 {
                Err(NasError::TruncatedServingSystem { actual: value.len() as usize })
            } else {
                Ok(
                    ServingSystem {
                        registration_state: NasRegistrationState::of_wire(value[0]),
                        ps_attached: value[2] == 1,
                        radio_interface: if value.len() >= 6 && value[4] > 0 && value.len() >= 5
                            + value[4] {
                            Some(value[5])
                        } else {
                            None
                        },
                        mcc: match only_tlv(tlvs, CURRENT_PLMN) {
                            Ok(plmn) if plmn.len() >= 4 => Some(le16(plmn[0], plmn[1])),
                            _ => None,
                        },
                        mnc: match only_tlv(tlvs, CURRENT_PLMN) {
                            Ok(plmn) if plmn.len() >= 4 => Some(le16(plmn[2], plmn[3])),
                            _ => None,
                        },
                    },
                )
            },
        },
    }
}

pub fn parse_serving_system(response: &QmiResponse) -> (serving: Result<ServingSystem, NasError>)
    ensures
        serving == serving_system_in(response@),
{
    let tlvs: Vec<Tlv> = match expect_nas(response, GET_SERVING_SYSTEM) {
        Ok(tlvs) => tlvs,
        Err(e) => return Err(e),
    };
    let serving: &Tlv = match unique_tlv(&tlvs, SERVING_SYSTEM) {
        Ok(tlv) => tlv,
        Err(e) => return Err(NasError::Lookup(e)),
    };
    if serving.value.len() < 3 {
        return Err(NasError::TruncatedServingSystem { actual: serving.value.len() });
    }
    let radio_interface: Option<u8> = if serving.value.len() >= 6 {
        let count: usize = serving.value[4] as usize;
        if count > 0 && serving.value.len() >= 5 + count {
            Some(serving.value[5])
        } else {
            None
        }
    } else {
        None
    };
    let mut mcc: Option<u16> = None;
    let mut mnc: Option<u16> = None;
    match unique_tlv(&tlvs, CURRENT_PLMN) {
        Ok(plmn) => {
            if plmn.value.len() >= 4 {
                mcc = Some(read_le16(plmn.value[0], plmn.value[1]));
                mnc = Some(read_le16(plmn.value[2], plmn.value[3]));
            }
        },
        Err(_) => {},
    }
    Ok(
        ServingSystem {
            registration_state: NasRegistrationState::from_wire(serving.value[0]),
            ps_attached: serving.value[2] == 1,
            radio_interface,
            mcc,
            mnc,
        },
    )
}

/// The country code in a packed PLMN, digit by digit.
pub open spec fn plmn_mcc(plmn: Seq<u8>) -> Seq<char> {
    decimal((plmn[0] % 16) as nat) + decimal((plmn[0] / 16) as nat) + decimal(
        (plmn[1] % 16) as nat,
    )
}

/// The network code in a packed PLMN: two digits, and a third unless its
/// nibble is the filler.
pub open spec fn plmn_mnc(plmn: Seq<u8>) -> Seq<char> {
    let two = decimal((plmn[2] % 16) as nat) + decimal((plmn[2] / 16) as nat);
    if plmn[1] / 16 == 15 {
        two
    } else {
        two + decimal((plmn[1] / 16) as nat)
    }
}

/// The LTE cell in an answer. A TLV that is absent or short is no cell; no
/// cell at all is an error.
pub open spec fn cell_in(response: MessageModel) -> Result<CellModel, NasError> {
    match nas_tlvs(response, GET_CELL_LOCATION_INFO) {
        Err(e) => Err(e),
        Ok(tlvs) => match only_tlv(tlvs, LTE_INTRAFREQUENCY) {
            Ok(value) => if value.len() >= 18 {
                Ok(
                    CellModel {
                        mcc: plmn_mcc(value.subrange(1, 4)),
                        mnc: plmn_mnc(value.subrange(1, 4)),
                        tac: le16(value[4], value[5]),
                        global_cell_id: le32(value[6], value[7], value[8], value[9]),
                        earfcn: le16(value[10], value[11]),
                    },
                )
            } else {
                Err(NasError::NoCellLocation)
            },
            Err(TlvLookupError::Missing { .. }) => Err(NasError::NoCellLocation),
            Err(e) => Err(NasError::Lookup(e)),
        },
    }
}

pub fn parse_cell_location(response: &QmiResponse) -> (info: Result<CellLocationInfo, NasError>)
    ensures
        match info {
            Ok(i) => i.lte matches Some(cell) && cell_in(response@) == Ok::<CellModel, NasError>(
                cell@,
            ),
            Err(e) => cell_in(response@) == Err::<CellModel, NasError>(e),
        },
{
    let tlvs: Vec<Tlv> = match expect_nas(response, GET_CELL_LOCATION_INFO) {
        Ok(tlvs) => tlvs,
        Err(e) => return Err(e),
    };
    let mut info: CellLocationInfo = CellLocationInfo::default();
    match unique_tlv(&tlvs, LTE_INTRAFREQUENCY) {
        Ok(lte) => {
            if lte.value.len() >= 18 {
                let (mcc, mnc) = match decode_bcd_plmn(&lte.value.as_slice()[1..4]) {
                    Ok(pair) => pair,
                    Err(e) => return Err(e),
                };
                info.lte = Some(
                    LteCellLocation {
                        mcc,
                        mnc,
                        tac: read_le16(lte.value[4], lte.value[5]),
                        global_cell_id: read_le32(
                            lte.value[6],
                            lte.value[7],
                            lte.value[8],
                            lte.value[9],
                        ),
                        earfcn: read_le16(lte.value[10], lte.value[11]),
                    },
                );
            }
        },
        Err(TlvLookupError::Missing { .. }) => {},
        Err(e) => return Err(NasError::Lookup(e)),
    }
    if info.lte.is_none() {
        return Err(NasError::NoCellLocation);
    }
    Ok(info)
}

fn decode_bcd_plmn(plmn: &[u8]) -> (codes: Result<(String, String), NasError>)
    ensures
        match codes {
            Ok((mcc, mnc)) => plmn@.len() >= 3 && mcc@ == plmn_mcc(plmn@) && mnc@ == plmn_mnc(
                plmn@,
            ),
            Err(e) => plmn@.len() < 3 && e == (NasError::TruncatedPlmn {
                actual: plmn@.len() as usize,
            }),
        },
{
    if plmn.len() < 3 {
        return Err(NasError::TruncatedPlmn { actual: plmn.len() });
    }
    let mut mcc: String = String::new();
    push_decimal(&mut mcc, (plmn[0] % 16) as u64);
    push_decimal(&mut mcc, (plmn[0] / 16) as u64);
    push_decimal(&mut mcc, (plmn[1] % 16) as u64);
    let mut mnc: String = String::new();
    push_decimal(&mut mnc, (plmn[2] % 16) as u64);
    push_decimal(&mut mnc, (plmn[2] / 16) as u64);
    if plmn[1] / 16 != 15 {
        push_decimal(&mut mnc, (plmn[1] / 16) as u64);
    }
    proof {
        assert(mcc@ =~= plmn_mcc(plmn@));
        assert(mnc@ =~= plmn_mnc(plmn@));
    }
    Ok((mcc, mnc))
}

/// Errors from encoding or decoding NAS messages.
#[allow(inconsistent_fields)]
#[derive(Clone, Copy, Debug, PartialEq, Eq, Structural)]
pub enum NasError {
    Wire(WireError),
    Result(ResultError),
    Lookup(TlvLookupError),
    UnexpectedService { actual: ServiceId },
    UnexpectedMessage { expected: MessageId, actual: MessageId },
    TruncatedServingSystem { actual: usize },
    TruncatedPlmn { actual: usize },
    NoCellLocation,
}

impl NasError {
    pub open spec fn text(self) -> Seq<char> {
        match self {
            NasError::Wire(error) => error.text(),
            NasError::Result(error) => error.text(),
            NasError::Lookup(error) => error.text(),
            NasError::UnexpectedService { actual } => "expected NAS service, got "@ + actual.text(),
            NasError::UnexpectedMessage { expected, actual } => "expected NAS message "@
                + expected.text() + ", got "@ + actual.text(),
            NasError::TruncatedServingSystem { actual } => "serving system TLV has "@
                + decimal(actual as nat) + " bytes, expected at least 3"@,
            NasError::TruncatedPlmn { actual } => "PLMN encoding has "@ + decimal(actual as nat)
                + " bytes, expected 3"@,
            NasError::NoCellLocation => "cell location response has no usable RAT TLV"@,
        }
    }

    pub fn push_to(&self, out: &mut String)
        ensures
            final(out)@ == old(out)@ + self.text(),
    {
        match self {
            NasError::Wire(error) => {
                error.push_to(out);
            },
            NasError::Result(error) => {
                error.push_to(out);
            },
            NasError::Lookup(error) => {
                error.push_to(out);
            },
            NasError::UnexpectedService { actual } => {
                out.append("expected NAS service, got ");
                actual.push_to(out);
            },
            NasError::UnexpectedMessage { expected, actual } => {
                out.append("expected NAS message ");
                expected.push_to(out);
                out.append(", got ");
                actual.push_to(out);
            },
            NasError::TruncatedServingSystem { actual } => {
                out.append("serving system TLV has ");
                push_decimal(out, *actual as u64);
                out.append(" bytes, expected at least 3");
            },
            NasError::TruncatedPlmn { actual } => {
                out.append("PLMN encoding has ");
                push_decimal(out, *actual as u64);
                out.append(" bytes, expected 3");
            },
            NasError::NoCellLocation => {
                out.append("cell location response has no usable RAT TLV");
            },
        }
        proof {
            assert(out@ =~= old(out)@ + self.text());
        }
    }

    pub fn to_string(&self) -> (text: String)
        ensures
            text@ == self.text(),
    {
        let mut text: String = String::new();
        self.push_to(&mut text);
        proof {
            assert(text@ =~= self.text());
        }
        text
    }
}

} // verus!
