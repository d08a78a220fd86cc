//! The standard QMI result TLV, and the checks that every service response
//! goes through before its own TLVs are read.

use crate::octets::{le16, read_le16};
use crate::text::{decimal, push_decimal};
use crate::wire::{
    only_tlv, tlv_models, unique_tlv, ClientId, MessageId, MessageModel, QmiResponse, ServiceId,
    Tlv, TlvLookupError, TlvModel,
};
use vstd::prelude::*;

verus! {

/// Standard QMI result TLV (`0x02`): two little-endian `u16` values.
#[derive(Clone, Copy, Debug, PartialEq, Eq, Structural)]
pub struct QmiResult {
    pub result: u16,
    pub error: u16,
}

/// The kind of the result TLV.
pub const RESULT_TLV: u8 = 0x02;

/// The result that a TLV list reports.
pub open spec fn result_in(tlvs: Seq<TlvModel>) -> Result<QmiResult, ResultError> {
    match only_tlv(tlvs, RESULT_TLV) {
        Err(e) => Err(ResultError::Lookup(e)),
        Ok(value) => if value.len() != 4 {
            Err(ResultError::Malformed { actual: value.len() as usize })
        } else {
            Ok(QmiResult { result: le16(value[0], value[1]), error: le16(value[2], value[3]) })
        },
    }
}

/// Why a result is not a success, if it is not one.
pub open spec fn result_fault(result: QmiResult) -> Option<ResultError> {
    if result.result != 0 {
        Some(ResultError::ModemRejected { result: result.result, error: result.error })
    } else if result.error != 0 {
        Some(ResultError::SuccessWithErrorCode { error: result.error })
    } else {
        None
    }
}

impl QmiResult {
    pub fn from_tlvs(tlvs: &[Tlv]) -> (result: Result<Self, ResultError>)
        ensures
            result == result_in(tlv_models(tlvs@)),
    {
        let tlv: &Tlv = match unique_tlv(tlvs, RESULT_TLV) {
            Ok(tlv) => tlv,
            Err(e) => return Err(ResultError::Lookup(e)),
        };
        if tlv.value.len() != 4 {
            return Err(ResultError::Malformed { actual: tlv.value.len() });
        }
        Ok(
            QmiResult {
                result: read_le16(tlv.value[0], tlv.value[1]),
                error: read_le16(tlv.value[2], tlv.value[3]),
            },
        )
    }

    pub fn is_success(self) -> (yes: bool)
        ensures
            yes == (result_fault(self) is None),
    {
        self.result == 0 && self.error == 0
    }

    pub fn check(self) -> (checked: Result<(), ResultError>)
        ensures
            match checked {
                Ok(_) => result_fault(self) is None,
                Err(e) => result_fault(self) == Some(e),
            },
    {
        if self.result != 0 {
            return Err(ResultError::ModemRejected { result: self.result, error: self.error });
        }
        if self.error != 0 {
            return Err(ResultError::SuccessWithErrorCode { error: self.error });
        }
        Ok(())
    }
}

/// Why a response is not the successful answer to one service request.
#[allow(inconsistent_fields)]
#[derive(Clone, Copy, Debug, PartialEq, Eq, Structural)]
pub enum ReplyFault {
    Service { actual: ServiceId },
    ControlClient,
    Message { expected: MessageId, actual: MessageId },
    Result(ResultError),
}

/// The TLVs of a successful answer from `service` to `message`.
pub open spec fn reply_tlvs(
    response: MessageModel,
    service: ServiceId,
    message: MessageId,
) -> Result<Seq<TlvModel>, ReplyFault> {
    if response.service != service {
        Err(ReplyFault::Service { actual: response.service })
    } else if response.client == ClientId(0) {
        Err(ReplyFault::ControlClient)
    } else if response.message != message {
        Err(ReplyFault::Message { expected: message, actual: response.message })
    } else {
        match result_in(response.tlvs()) {
            Err(e) => Err(ReplyFault::Result(e)),
            Ok(result) => match result_fault(result) {
                Some(e) => Err(ReplyFault::Result(e)),
                None => Ok(response.tlvs()),
            },
        }
    }
}

/// Checks service, client, message and result, in that order, and hands out
/// the TLVs.
pub fn expect_reply(response: &QmiResponse, service: ServiceId, message: MessageId) -> (tlvs: Result<
    Vec<Tlv>,
    ReplyFault,
>)
    ensures
        match tlvs {
            Ok(list) => reply_tlvs(response@, service, message) == Ok::<Seq<TlvModel>, ReplyFault>(
                tlv_models(list@),
            ),
            Err(e) => reply_tlvs(response@, service, message) == Err::<Seq<TlvModel>, ReplyFault>(
                e,
            ),
        },
{
    if response.service() != service {
        return Err(ReplyFault::Service { actual: response.service() });
    }
    if response.client_id() == ClientId::control() {
        return Err(ReplyFault::ControlClient);
    }
    if response.message_id() != message {
        return Err(ReplyFault::Message { expected: message, actual: response.message_id() });
    }
    let read = response.tlvs();
    let tlvs: Vec<Tlv> = match read {
        Ok(tlvs) => tlvs,
        // Decoding a response has already decoded its TLVs.
        Err(_) => Vec::new(),
    };
    match QmiResult::from_tlvs(&tlvs) {
        Err(e) => Err(ReplyFault::Result(e)),
        Ok(result) => match result.check() {
            Err(e) => Err(ReplyFault::Result(e)),
            Ok(_) => Ok(tlvs),
        },
    }
}

/// Errors from the standard QMI result TLV.
#[derive(Clone, Copy, Debug, PartialEq, Eq, Structural)]
pub enum ResultError {
    Lookup(TlvLookupError),
    Malformed { actual: usize },
    ModemRejected { result: u16, error: u16 },
    SuccessWithErrorCode { error: u16 },
}

impl ResultError {
    pub open spec fn text(self) -> Seq<char> {
        match self {
            ResultError::Lookup(error) => error.text(),
            ResultError::Malformed { actual } => "QMI result TLV has "@ + decimal(actual as nat)
                + " bytes, expected four"@,
            ResultError::ModemRejected { result, error } => "QMI request rejected with result "@
                + decimal(result as nat) + " error "@ + decimal(error as nat),
            ResultError::SuccessWithErrorCode { error } => "QMI result reports success with error code "@
                + decimal(error as nat),
        }
    }

    pub fn push_to(&self, out: &mut String)
        ensures
            final(out)@ == old(out)@ + self.text(),
    {
        match self {
            ResultError::Lookup(error) => {
                error.push_to(out);
            },
            ResultError::Malformed { actual } => {
                out.append("QMI result TLV has ");
                push_decimal(out, *actual as u64);
                out.append(" bytes, expected four");
            },
            ResultError::ModemRejected { result, error } => {
                out.append("QMI request rejected with result ");
                push_decimal(out, *result as u64);
                out.append(" error ");
                push_decimal(out, *error as u64);
            },
            ResultError::SuccessWithErrorCode { error } => {
                out.append("QMI result reports success with error code ");
                push_decimal(out, *error as u64);
            },
        }
        proof {
            assert(out@ =~= old(out)@ + self.text());
        }
    }

    pub fn to_string(&self) -> (text: String)
        ensures
            text@ == self.text(),
    {
        let mut text: String = String::new();
        self.push_to(&mut text);
        proof {
            assert(text@ =~= self.text());
        }
        text
    }
}

} // verus!
