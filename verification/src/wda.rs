//! Telling the modem which framing the data path uses.
//!
//! The host's `raw_ip` switch sets the framing on the host side only. The modem
//! has its own idea, and its default is 802.3. With the two disagreeing every
//! packet is dropped in both directions while everything else looks perfect, so
//! the modem has to be told, and what it settled on has to be read back.

use crate::octets::{le32, le32_octets, push_le32, read_le32};
use crate::wire::{
    find_tlv, first_tlv, made, request_of_tlvs, tlv_models, ClientAssignment, MessageId,
    MessageModel, QmiRequest, QmiResponse, ServiceId, Tlv, TlvModel, TransactionId, WireError,
};
use vstd::prelude::*;

verus! {

pub const SET_DATA_FORMAT: u16 = 0x0020;

/// The Wireless Data Administrative service.
pub const WDA_SERVICE: u8 = 0x1a;

/// Link layer protocol, TLV 0x11 of the request and of the response.
pub const LINK_LAYER_PROTOCOL: u8 = 0x11;

/// The framings a modem will agree to.
#[derive(Clone, Copy, Debug, PartialEq, Eq, Structural)]
pub enum LinkLayer {
    /// The default, and the one that does not work with `raw_ip=Y`.
    Ethernet,
    RawIp,
}

impl LinkLayer {
    pub open spec fn wire(self) -> u32 {
        match self {
            LinkLayer::Ethernet => 1,
            LinkLayer::RawIp => 2,
        }
    }

    pub open spec fn of_wire(value: u32) -> Option<LinkLayer> {
        if value == 1 {
            Some(LinkLayer::Ethernet)
        } else if value == 2 {
            Some(LinkLayer::RawIp)
        } else {
            None
        }
    }

    /// The wire value. A u32, little endian, which is the shape this TLV
    /// takes -- a single byte here is accepted by some firmware and silently
    /// ignored by the rest.
    pub fn bits(self) -> (value: u32)
        ensures
            value == self.wire(),
    {
        match self {
            LinkLayer::Ethernet => 1,
            LinkLayer::RawIp => 2,
        }
    }

    pub fn from_bits(value: u32) -> (layer: Option<Self>)
        ensures
            layer == LinkLayer::of_wire(value),
    {
        match value {
            1 => Some(LinkLayer::Ethernet),
            2 => Some(LinkLayer::RawIp),
            _ => None,
        }
    }
}

/// A framing read back from its wire value is the framing that was sent.
pub proof fn law_link_layer_round_trip(layer: LinkLayer)
    ensures
        LinkLayer::of_wire(layer.wire()) == Some(layer),
{
}

/// The request that sets a framing.
pub open spec fn data_format_message(
    assignment: ClientAssignment,
    transaction: TransactionId,
    link_layer: LinkLayer,
) -> Result<MessageModel, WdaError> {
    if assignment.service != ServiceId(WDA_SERVICE) {
        Err(WdaError::WrongService)
    } else {
        match request_of_tlvs(
            ServiceId(WDA_SERVICE),
            assignment.client_id,
            transaction,
            MessageId(SET_DATA_FORMAT),
            seq![TlvModel { kind: LINK_LAYER_PROTOCOL, value: le32_octets(link_layer.wire()) }],
        ) {
            Ok(m) => Ok(m),
            Err(e) => Err(WdaError::Wire(e)),
        }
    }
}

/// Build `SetDataFormat`.
pub fn set_data_format_request(
    assignment: ClientAssignment,
    transaction: TransactionId,
    link_layer: LinkLayer,
) -> (request: Result<QmiRequest, WdaError>)
    ensures
        made(request, data_format_message(assignment, transaction, link_layer)),
{
    if assignment.service() != ServiceId::wda() {
        return Err(WdaError::WrongService);
    }
    let mut value: Vec<u8> = Vec::new();
    push_le32(&mut value, link_layer.bits());
    let mut tlvs: Vec<Tlv> = Vec::new();
    tlvs.push(Tlv { kind: LINK_LAYER_PROTOCOL, value });
    proof {
        assert(value@ =~= le32_octets(link_layer.wire()));
        assert(tlv_models(tlvs@) =~= seq![
            TlvModel { kind: LINK_LAYER_PROTOCOL, value: le32_octets(link_layer.wire()) },
        ]);
    }
    match QmiRequest::from_tlvs(
        ServiceId::wda(),
        assignment.client_id(),
        transaction,
        MessageId::new(SET_DATA_FORMAT),
        &tlvs,
    ) {
        Ok(request) => Ok(request),
        Err(e) => Err(WdaError::Wire(e)),
    }
}

/// The framing that an answer names.
pub open spec fn data_format_in(response: MessageModel) -> Option<LinkLayer> {
    match first_tlv(response.tlvs(), LINK_LAYER_PROTOCOL) {
        Some(value) if value.len() >= 4 => LinkLayer::of_wire(
            le32(value[0], value[1], value[2], value[3]),
        ),
        _ => None,
    }
}

/// What the modem says it settled on.
///
/// Read back rather than assumed: a modem is free to answer success and keep
/// the framing it had.
pub fn parse_data_format(response: &QmiResponse) -> (layer: Option<LinkLayer>)
    ensures
        layer == data_format_in(response@),
{
    let tlvs: Vec<Tlv> = match response.tlvs() {
        Ok(tlvs) => tlvs,
        Err(_) => return None,
    };
    match find_tlv(&tlvs, LINK_LAYER_PROTOCOL) {
        None => None,
        Some(tlv) => {
            if tlv.value.len() < 4 {
                return None;
            }
            LinkLayer::from_bits(
                read_le32(tlv.value[0], tlv.value[1], tlv.value[2], tlv.value[3]),
            )
        },
    }
}

/// Errors from building a WDA request.
#[derive(Clone, Copy, Debug, PartialEq, Eq, Structural)]
pub enum WdaError {
    WrongService,
    Wire(WireError),
}

impl WdaError {
    pub open spec fn text(self) -> Seq<char> {
        match self {
            WdaError::WrongService => "not a WDA client"@,
            WdaError::Wire(error) => error.text(),
        }
    }

    pub fn push_to(&self, out: &mut String)
        ensures
            final(out)@ == old(out)@ + self.text(),
    {
        match self {
            WdaError::WrongService => {
                out.append("not a WDA client");
            },
            WdaError::Wire(error) => {
                error.push_to(out);
            },
        }
        proof {
            assert(out@ =~= old(out)@ + self.text());
        }
    }

    pub fn to_string(&self) -> (text: String)
        ensures
            text@ == self.text(),
    {
        let mut text: String = String::new();
        self.push_to(&mut text);
        proof {
            assert(text@ =~= self.text());
        }
        text
    }
}

} // verus!
