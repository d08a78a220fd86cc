//! What one physical modem can be asked, whatever carries the question.

use crate::domain::{evidence_models, Bearer, EvidenceModel, RegistrationEvidence};
use crate::session::SessionError;
use crate::wms::{ListedMessage, RawMessage, RawMessageModel, StorageType};
use vstd::prelude::*;

verus! {

/// How a modem control channel is reached. Implementations must not share a
/// channel across devices.
#[derive(Clone, Copy, Debug, PartialEq, Eq, Structural)]
pub enum TransportKind {
    Qmi,
    At,
    Mbim,
    Pcsc,
}

impl TransportKind {
    pub open spec fn name(self) -> &'static str {
        match self {
            TransportKind::Qmi => "qmi",
            TransportKind::At => "at",
            TransportKind::Mbim => "mbim",
            TransportKind::Pcsc => "pcsc",
        }
    }

    pub fn as_str(self) -> (name: &'static str)
        ensures
            name == self.name(),
    {
        match self {
            TransportKind::Qmi => "qmi",
            TransportKind::At => "at",
            TransportKind::Mbim => "mbim",
            TransportKind::Pcsc => "pcsc",
        }
    }
}

/// Port-level errors. Unsupported variants keep the discovery chain moving.
#[allow(inconsistent_fields)]
#[derive(Clone, Debug, PartialEq, Eq)]
pub enum PortError {
    Unsupported(TransportKind),
    Session(String),
    MissingImei,
    PlanUnavailable(String),
}

/// What an error says.
#[allow(inconsistent_fields)]
pub enum PortFault {
    Unsupported(TransportKind),
    Session(Seq<char>),
    MissingImei,
    PlanUnavailable(Seq<char>),
}

impl View for PortError {
    type V = PortFault;

    open spec fn view(&self) -> PortFault {
        match *self {
            PortError::Unsupported(e) => PortFault::Unsupported(e),
            PortError::Session(e) => PortFault::Session(e@),
            PortError::MissingImei => PortFault::MissingImei,
            PortError::PlanUnavailable(e) => PortFault::PlanUnavailable(e@),
        }
    }
}

impl PortFault {
    /// What the error says.
    pub open spec fn text(self) -> Seq<char> {
        match self {
            PortFault::Unsupported(e) => e.name()@ + " transport is not implemented"@,
            PortFault::Session(e) => e,
            PortFault::MissingImei => "modem did not return an IMEI"@,
            PortFault::PlanUnavailable(e) => "no SMS bearer: "@ + e,
        }
    }
}

impl PortError {
    pub fn push_to(&self, out: &mut String)
        ensures
            final(out)@ == old(out)@ + self@.text(),
    {
        match self {
            PortError::Unsupported(e) => {
                out.append(e.as_str());
                out.append(" transport is not implemented");
            },
            PortError::Session(e) => {
                out.append(e.as_str());
            },
            PortError::MissingImei => {
                out.append("modem did not return an IMEI");
            },
            PortError::PlanUnavailable(e) => {
                out.append("no SMS bearer: ");
                out.append(e.as_str());
            },
        }
        proof {
            assert(out@ =~= old(out)@ + self@.text());
        }
    }

    pub fn to_string(&self) -> (text: String)
        ensures
            text@ == self@.text(),
    {
        let mut text: String = String::new();
        self.push_to(&mut text);
        proof {
            assert(text@ =~= self@.text());
        }
        text
    }
}

impl PortError {
    /// A failure of a session, as a failure of the port.
    pub fn from_session(error: SessionError) -> (result: Self)
        ensures
            result@ == PortFault::Session(error@.text()),
    {
        PortError::Session(error.to_string())
    }
}

/// What a port answered, or why it did not, by what it says.
pub open spec fn answered<R: View>(result: Result<R, PortError>) -> Result<R::V, PortFault> {
    match result {
        Ok(value) => Ok(value@),
        Err(e) => Err(e@),
    }
}

/// That a port did what it was asked, or why it did not.
pub open spec fn done(result: Result<(), PortError>) -> Result<(), PortFault> {
    match result {
        Ok(_) => Ok(()),
        Err(e) => Err(e@),
    }
}

/// Evidence, or why there is none, by what it says.
pub open spec fn shown(result: Result<Vec<RegistrationEvidence>, PortError>) -> Result<
    Seq<EvidenceModel>,
    PortFault,
> {
    match result {
        Ok(list) => Ok(evidence_models(list@)),
        Err(e) => Err(e@),
    }
}

/// One physical modem. Tests inject a fake; production uses QMI first.
///
/// What a modem is and does is stated over a model of the implementation's own
/// choosing: each function of the model says what the modem answers and what it
/// is afterwards.
pub trait ModemPort: Sized {
    type Model;

    spec fn model(&self) -> Self::Model;

    spec fn kind_of(model: Self::Model) -> TransportKind;

    spec fn identified(model: Self::Model) -> (Result<Seq<char>, PortFault>, Self::Model);

    spec fn versioned(model: Self::Model) -> (Result<Seq<char>, PortFault>, Self::Model);

    spec fn registered(model: Self::Model) -> (Result<Seq<EvidenceModel>, PortFault>, Self::Model);

    spec fn listed(model: Self::Model) -> (Result<Seq<ListedMessage>, PortFault>, Self::Model);

    spec fn read(model: Self::Model, storage: StorageType, index: u32) -> (
        Result<RawMessageModel, PortFault>,
        Self::Model,
    );

    spec fn deleted(model: Self::Model, storage: StorageType, index: u32) -> (
        Result<(), PortFault>,
        Self::Model,
    );

    spec fn sent(model: Self::Model, bearer: Bearer, pdu: Seq<u8>) -> (
        Result<(), PortFault>,
        Self::Model,
    );

    fn transport_kind(&self) -> (kind: TransportKind)
        ensures
            kind == Self::kind_of(self.model()),
    ;

    fn imei(&mut self) -> (imei: Result<String, PortError>)
        ensures
            (answered(imei), final(self).model()) == Self::identified(old(self).model()),
    ;

    fn firmware(&mut self) -> (firmware: Result<String, PortError>)
        ensures
            (answered(firmware), final(self).model()) == Self::versioned(old(self).model()),
    ;

    fn registration_evidence(&mut self) -> (evidence: Result<Vec<RegistrationEvidence>, PortError>)
        ensures
            (shown(evidence), final(self).model()) == Self::registered(old(self).model()),
    ;

    /// Every stored message, from every store the modem keeps them in.
    ///
    /// Both stores, not just the SIM. A modem decides for itself where a
    /// received message goes, and some put them in their own memory — so a
    /// reader that only looked at the SIM saw an empty inbox while messages sat
    /// on the device.
    fn list_sms(&mut self) -> (listed: Result<Vec<ListedMessage>, PortError>)
        ensures
            (answered(listed), final(self).model()) == Self::listed(old(self).model()),
    ;

    /// Reads a window of storage slots directly, reporting the inbound messages
    /// found in them.
    ///
    /// A listing is not always complete: some firmware lists unread messages
    /// only, so a message anyone has marked read cannot be named by any
    /// listing. Reading the slot finds it. A window rather than the whole store
    /// because a read costs real time on a serial-speed control channel.
    ///
    /// The default finds nothing, which is the right answer for a transport
    /// whose listing is already complete.
    fn sweep_slots(&mut self, first: u32, count: u32) -> (found: Result<
        Vec<ListedMessage>,
        PortError,
    >)
        default_ensures
            final(self).model() == old(self).model(),
            answered(found) == Ok::<Seq<ListedMessage>, PortFault>(Seq::empty()),
    {
        let found: Vec<ListedMessage> = Vec::new();
        proof {
            assert(found@ =~= Seq::empty());
        }
        Ok(found)
    }

    /// Reads one message from the store it was listed in. Indexes are per
    /// store, so the same number means a different message in the other one.
    fn read_sms(&mut self, storage: StorageType, index: u32) -> (raw: Result<
        RawMessage,
        PortError,
    >)
        ensures
            (answered(raw), final(self).model()) == Self::read(
                old(self).model(),
                storage,
                index,
            ),
    ;

    fn delete_sms(&mut self, storage: StorageType, index: u32) -> (result: Result<(), PortError>)
        ensures
            (done(result), final(self).model()) == Self::deleted(
                old(self).model(),
                storage,
                index,
            ),
    ;

    fn send_pdu(&mut self, pdu: &[u8]) -> (result: Result<(), PortError>)
        ensures
            (done(result), final(self).model()) == Self::sent(
                old(self).model(),
                Bearer::Cellular,
                pdu@,
            ),
    {
        self.send_on(Bearer::Cellular, pdu)
    }

    fn send_on(&mut self, bearer: Bearer, pdu: &[u8]) -> (result: Result<(), PortError>)
        ensures
            (done(result), final(self).model()) == Self::sent(old(self).model(), bearer, pdu@),
    ;
}

/// A transport that exists in the discovery chain but is not implemented yet.
pub struct UnsupportedPort {
    kind: TransportKind,
}

impl UnsupportedPort {
    pub fn at() -> (port: Self)
        ensures
            port.model() == TransportKind::At,
    {
        UnsupportedPort { kind: TransportKind::At }
    }

    pub fn mbim() -> (port: Self)
        ensures
            port.model() == TransportKind::Mbim,
    {
        UnsupportedPort { kind: TransportKind::Mbim }
    }

    pub fn pcsc() -> (port: Self)
        ensures
            port.model() == TransportKind::Pcsc,
    {
        UnsupportedPort { kind: TransportKind::Pcsc }
    }
}

impl ModemPort for UnsupportedPort {
    type Model = TransportKind;

    closed spec fn model(&self) -> TransportKind {
        self.kind
    }

    open spec fn kind_of(model: TransportKind) -> TransportKind {
        model
    }

    open spec fn identified(model: TransportKind) -> (
        Result<Seq<char>, PortFault>,
        TransportKind,
    ) {
        (Err(PortFault::Unsupported(model)), model)
    }

    open spec fn versioned(model: TransportKind) -> (
        Result<Seq<char>, PortFault>,
        TransportKind,
    ) {
        (Err(PortFault::Unsupported(model)), model)
    }

    open spec fn registered(model: TransportKind) -> (
        Result<Seq<EvidenceModel>, PortFault>,
        TransportKind,
    ) {
        (Err(PortFault::Unsupported(model)), model)
    }

    open spec fn listed(model: TransportKind) -> (
        Result<Seq<ListedMessage>, PortFault>,
        TransportKind,
    ) {
        (Err(PortFault::Unsupported(model)), model)
    }

    open spec fn read(model: TransportKind, storage: StorageType, index: u32) -> (
        Result<RawMessageModel, PortFault>,
        TransportKind,
    ) {
        (Err(PortFault::Unsupported(model)), model)
    }

    open spec fn deleted(model: TransportKind, storage: StorageType, index: u32) -> (
        Result<(), PortFault>,
        TransportKind,
    ) {
        (Err(PortFault::Unsupported(model)), model)
    }

    open spec fn sent(model: TransportKind, bearer: Bearer, pdu: Seq<u8>) -> (
        Result<(), PortFault>,
        TransportKind,
    ) {
        (Err(PortFault::Unsupported(model)), model)
    }

    fn transport_kind(&self) -> (kind: TransportKind) {
        self.kind
    }

    fn imei(&mut self) -> (result: Result<String, PortError>) {
        Err(PortError::Unsupported(self.kind))
    }

    fn firmware(&mut self) -> (result: Result<String, PortError>) {
        Err(PortError::Unsupported(self.kind))
    }

    fn registration_evidence(&mut self) -> (result: Result<Vec<RegistrationEvidence>, PortError>) {
        Err(PortError::Unsupported(self.kind))
    }

    fn list_sms(&mut self) -> (result: Result<Vec<ListedMessage>, PortError>) {
        Err(PortError::Unsupported(self.kind))
    }

    fn read_sms(&mut self, _storage: StorageType, _index: u32) -> (result: Result<RawMessage, PortError>) {
        Err(PortError::Unsupported(self.kind))
    }

    fn delete_sms(&mut self, _storage: StorageType, _index: u32) -> (result: Result<(), PortError>) {
        Err(PortError::Unsupported(self.kind))
    }

    fn send_on(&mut self, _bearer: Bearer, _pdu: &[u8]) -> (result: Result<(), PortError>) {
        Err(PortError::Unsupported(self.kind))
    }

}

} // verus!
