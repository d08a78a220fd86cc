//! QMI sessions: a client that sequences well-formed requests and correlated
//! responses over any transport.

use crate::dms::{
    operating_mode_in, serial_numbers_in, text_answer_in, DeviceRevision, DeviceSerialNumbers,
    DmsError, OperatingMode, SerialNumbersModel,
};
use crate::es10c::{Es10cError, Es10cFault};
use crate::es9p::{Es9pError, Es9pFault};
use crate::nas::{
    cell_in, serving_system_in, CellLocationInfo, CellModel, NasError, ServingSystem,
};
use crate::octets::le32_octets;
use crate::result::{result_fault, result_in, QmiResult, ResultError, RESULT_TLV};
use crate::uim::{apdu_in, iccid_in, ApduModel, ApduResponse, UimError};
use crate::wire::{
    address_fault, allocation_in, allocation_request, matched, only_tlv, request_frame, response_in,
    unique_tlv, AllocationError, ClientAllocationRequest, ClientAssignment, ClientId,
    ClientRegistry, ClientRegistryError, CorrelationError, MessageId, MessageModel,
    PendingTransactions, QmiRequest, QmiResponse, ServiceId, Tlv, TlvLookupError, TlvModel,
    TransactionId, TransactionKey, WireError,
};
use crate::wms::{
    ListedMessage, MessageMode, MessageTag, RawMessage, RawMessageModel, StorageType, WmsError,
};
use vstd::prelude::*;

verus! {

/// CTL message that asks the modem to resynchronize control state.
pub const CTL_SYNC: u16 = 0x0027;

/// Transport, correlation, and service errors from a QMI session.
#[allow(inconsistent_fields)]
#[derive(Clone, Debug, PartialEq, Eq)]
pub enum SessionError {
    Transport(String),
    /// The character device stopped having a modem behind it.
    ///
    /// Separate from `Transport` because the caller has to act differently:
    /// a transfer that failed can be retried, while a module that left the
    /// bus after the request was written may already have carried it out.
    /// `awaiting_response` is what says which of those two happened.
    Disconnected { device: String, awaiting_response: bool },
    Wire(WireError),
    Correlation(CorrelationError),
    Allocation(AllocationError),
    Registry(ClientRegistryError),
    Result(ResultError),
    Lookup(TlvLookupError),
    Dms(DmsError),
    Nas(NasError),
    Wms(WmsError),
    Uim(UimError),
    Es10c(Es10cError),
    /// An ES9+ exchange with an SM-DP+ failed.
    ///
    /// Carried through rather than flattened into `Transport`: a download runs
    /// over two very different links, and "the server refused the matching
    /// id" and "the modem stopped answering" need different next steps.
    Es9p(Es9pError),
    UnexpectedSyncResponse { service: ServiceId, client: ClientId, message: MessageId },
}

/// What an error says.
#[allow(inconsistent_fields)]
pub enum SessionFault {
    Transport(Seq<char>),
    Disconnected { device: Seq<char>, awaiting_response: bool },
    Wire(WireError),
    Correlation(CorrelationError),
    Allocation(AllocationError),
    Registry(ClientRegistryError),
    Result(ResultError),
    Lookup(TlvLookupError),
    Dms(DmsError),
    Nas(NasError),
    Wms(WmsError),
    Uim(UimError),
    Es10c(Es10cFault),
    Es9p(Es9pFault),
    UnexpectedSyncResponse { service: ServiceId, client: ClientId, message: MessageId },
}

impl View for SessionError {
    type V = SessionFault;

    open spec fn view(&self) -> SessionFault {
        match *self {
            SessionError::Transport(e) => SessionFault::Transport(e@),
            SessionError::Disconnected { device, awaiting_response } => SessionFault::Disconnected {
                device: device@,
                awaiting_response,
            },
            SessionError::Wire(e) => SessionFault::Wire(e),
            SessionError::Correlation(e) => SessionFault::Correlation(e),
            SessionError::Allocation(e) => SessionFault::Allocation(e),
            SessionError::Registry(e) => SessionFault::Registry(e),
            SessionError::Result(e) => SessionFault::Result(e),
            SessionError::Lookup(e) => SessionFault::Lookup(e),
            SessionError::Dms(e) => SessionFault::Dms(e),
            SessionError::Nas(e) => SessionFault::Nas(e),
            SessionError::Wms(e) => SessionFault::Wms(e),
            SessionError::Uim(e) => SessionFault::Uim(e),
            SessionError::Es10c(e) => SessionFault::Es10c(e@),
            SessionError::Es9p(e) => SessionFault::Es9p(e@),
            SessionError::UnexpectedSyncResponse { service, client, message } => SessionFault::UnexpectedSyncResponse {
                service,
                client,
                message,
            },
        }
    }
}

impl SessionFault {
    /// What the error says.
    pub open spec fn text(self) -> Seq<char> {
        match self {
            SessionFault::Transport(e) => "QMI transport error: "@ + e,
            SessionFault::Disconnected { device, awaiting_response } => device + (if awaiting_response {
                " left the bus while the modem was answering; the request had already been handed over"@
            } else {
                " left the bus before the request was written"@
            }),
            SessionFault::Wire(e) => e.text(),
            SessionFault::Correlation(e) => e.text(),
            SessionFault::Allocation(e) => e.text(),
            SessionFault::Registry(e) => e.text(),
            SessionFault::Result(e) => e.text(),
            SessionFault::Lookup(e) => e.text(),
            SessionFault::Dms(e) => e.text(),
            SessionFault::Nas(e) => e.text(),
            SessionFault::Wms(e) => e.text(),
            SessionFault::Uim(e) => e.text(),
            SessionFault::Es10c(e) => e.text(),
            SessionFault::Es9p(e) => e.text(),
            SessionFault::UnexpectedSyncResponse { service, client, message } => "unexpected CTL sync response service "@
                + service.text() + " client "@ + client.text() + " message "@ + message.text(),
        }
    }
}

impl SessionError {
    pub fn push_to(&self, out: &mut String)
        ensures
            final(out)@ == old(out)@ + self@.text(),
    {
        match self {
            SessionError::Transport(e) => {
                out.append("QMI transport error: ");
                out.append(e.as_str());
            },
            SessionError::Disconnected { device, awaiting_response } => {
                out.append(device.as_str());
                if *awaiting_response {
                    out.append(
                        " left the bus while the modem was answering; the request had already been handed over",
                    );
                } else {
                    out.append(" left the bus before the request was written");
                }
            },
            SessionError::Wire(e) => {
                e.push_to(out);
            },
            SessionError::Correlation(e) => {
                e.push_to(out);
            },
            SessionError::Allocation(e) => {
                e.push_to(out);
            },
            SessionError::Registry(e) => {
                e.push_to(out);
            },
            SessionError::Result(e) => {
                e.push_to(out);
            },
            SessionError::Lookup(e) => {
                e.push_to(out);
            },
            SessionError::Dms(e) => {
                e.push_to(out);
            },
            SessionError::Nas(e) => {
                e.push_to(out);
            },
            SessionError::Wms(e) => {
                e.push_to(out);
            },
            SessionError::Uim(e) => {
                e.push_to(out);
            },
            SessionError::Es10c(e) => {
                e.push_to(out);
            },
            SessionError::Es9p(e) => {
                e.push_to(out);
            },
            SessionError::UnexpectedSyncResponse { service, client, message } => {
                out.append("unexpected CTL sync response service ");
                service.push_to(out);
                out.append(" client ");
                client.push_to(out);
                out.append(" message ");
                message.push_to(out);
            },
        }
        proof {
            assert(out@ =~= old(out)@ + self@.text());
        }
    }

    pub fn to_string(&self) -> (text: String)
        ensures
            text@ == self@.text(),
    {
        let mut text: String = String::new();
        self.push_to(&mut text);
        proof {
            assert(text@ =~= self@.text());
        }
        text
    }
}

impl SessionError {
    pub fn transport(message: &str) -> (error: Self)
        ensures
            error@ == SessionFault::Transport(message@),
    {
        SessionError::Transport(crate::text::owned(message))
    }

    /// True when the module went away with a request already in its hands.
    ///
    /// The only caller that must branch on this is the one that sends SMS.
    /// Everything else here is a read and can simply be tried again; a
    /// submit cannot, because repeating it is how one message becomes two.
    pub fn left_the_bus_after_the_request(&self) -> (yes: bool)
        ensures
            yes == (self@ matches SessionFault::Disconnected { awaiting_response, .. }
                && awaiting_response),
    {
        match self {
            SessionError::Disconnected { awaiting_response, .. } => *awaiting_response,
            _ => false,
        }
    }
}

// ---------------------------------------------------------------------------
// The transport
// ---------------------------------------------------------------------------

/// What a transport does, seen over its whole life: the answers it has still
/// to give, the next one first, and the frames it was handed, the last one
/// last.
pub struct LinkModel {
    pub answers: spec_fn(nat) -> Result<Seq<u8>, SessionFault>,
    pub sent: Seq<Seq<u8>>,
}

/// One exchange: the frame goes out and the next answer comes back.
pub open spec fn exchanged(link: LinkModel, frame: Seq<u8>) -> (
    Result<Seq<u8>, SessionFault>,
    LinkModel,
) {
    (
        (link.answers)(0),
        LinkModel {
            answers: |n: nat| (link.answers)(n + 1),
            sent: link.sent.push(frame),
        },
    )
}

/// An answer, by what it says.
pub open spec fn answer_model(answer: Result<Vec<u8>, SessionError>) -> Result<
    Seq<u8>,
    SessionFault,
> {
    match answer {
        Ok(frame) => Ok(frame@),
        Err(e) => Err(e@),
    }
}

/// Byte-level QMI transport. Implementations own device I/O; this crate only
/// sequences well-formed requests and correlated responses.
pub trait QmiTransport {
    spec fn link(&self) -> LinkModel;

    fn transact(&mut self, request: &[u8]) -> (answer: Result<Vec<u8>, SessionError>)
        ensures
            (answer_model(answer), final(self).link()) == exchanged(old(self).link(), request@),
    ;
}

// ---------------------------------------------------------------------------
// The client
// ---------------------------------------------------------------------------

/// A request/response QMI client that tracks control and service transactions.
pub struct QmiClient<T> {
    transport: T,
    pending: PendingTransactions,
    clients: ClientRegistry,
    next_control_transaction: u8,
    next_service_transaction: u16,
}

/// A client, by what it knows and what its transport does.
pub struct ClientModel {
    pub link: LinkModel,
    pub pending: Map<TransactionKey, MessageId>,
    pub clients: Map<ServiceId, ClientId>,
    pub next_control: u8,
    pub next_service: u16,
}

impl<T: QmiTransport> View for QmiClient<T> {
    type V = ClientModel;

    closed spec fn view(&self) -> ClientModel {
        ClientModel {
            link: self.transport.link(),
            pending: self.pending@,
            clients: self.clients@,
            next_control: self.next_control_transaction,
            next_service: self.next_service_transaction,
        }
    }
}

/// A call came out as it should, and left the client as it should.
pub open spec fn ran<A: View>(
    result: Result<A, SessionError>,
    after: ClientModel,
    wanted: (Result<A::V, SessionFault>, ClientModel),
) -> bool {
    after == wanted.1 && match (result, wanted.0) {
        (Ok(r), Ok(w)) => r@ == w,
        (Err(e), Err(f)) => e@ == f,
        _ => false,
    }
}

/// As `ran`, for results that stand for themselves.
pub open spec fn ran_to<A>(
    result: Result<A, SessionError>,
    after: ClientModel,
    wanted: (Result<A, SessionFault>, ClientModel),
) -> bool {
    after == wanted.1 && match (result, wanted.0) {
        (Ok(r), Ok(w)) => r == w,
        (Err(e), Err(f)) => e@ == f,
        _ => false,
    }
}

/// The control transaction that comes up, and the client after it. Numbers run
/// from 1 to 255 and around.
pub open spec fn control_transaction(client: ClientModel) -> (TransactionId, ClientModel) {
    (
        TransactionId(client.next_control as u16),
        ClientModel {
            next_control: if client.next_control == 255 {
                1
            } else {
                (client.next_control + 1) as u8
            },
            ..client
        },
    )
}

/// The service transaction that comes up, and the client after it. Numbers run
/// from 1 to 65535 and around.
pub open spec fn service_transaction(client: ClientModel) -> (TransactionId, ClientModel) {
    (
        TransactionId(client.next_service),
        ClientModel {
            next_service: if client.next_service == 65535 {
                1
            } else {
                (client.next_service + 1) as u16
            },
            ..client
        },
    )
}

/// One request and its answer. A transaction that is still open is not reused;
/// one whose transfer failed is given up; an answer has to match one that is
/// open.
pub open spec fn round_trip(client: ClientModel, request: MessageModel) -> (
    Result<MessageModel, SessionFault>,
    ClientModel,
) {
    let key = request.key();
    if client.pending.contains_key(key) {
        (Err(SessionFault::Correlation(CorrelationError::DuplicateTransaction(key))), client)
    } else {
        let open = client.pending.insert(key, request.message);
        let (answer, link) = exchanged(client.link, request_frame(request));
        match answer {
            Err(e) => (Err(e), ClientModel { link, pending: open.remove(key), ..client }),
            Ok(frame) => match response_in(frame) {
                Err(e) => (
                    Err(SessionFault::Wire(e)),
                    ClientModel { link, pending: open.remove(key), ..client },
                ),
                Ok(response) => match matched(open, response) {
                    Err(e) => (
                        Err(SessionFault::Correlation(e)),
                        ClientModel { link, pending: open, ..client },
                    ),
                    Ok(_) => (
                        Ok(response),
                        ClientModel { link, pending: open.remove(response.key()), ..client },
                    ),
                },
            },
        }
    }
}

/// What allocating a client ID for a service comes to.
pub open spec fn allocated(client: ClientModel, service: ServiceId) -> (
    Result<ClientAssignment, SessionFault>,
    ClientModel,
) {
    if client.clients.contains_key(service) {
        (
            Err(SessionFault::Registry(ClientRegistryError::AlreadyAssigned { service })),
            client,
        )
    } else {
        let (transaction, numbered) = control_transaction(client);
        if service == ServiceId(0) {
            (
                Err(SessionFault::Allocation(AllocationError::ControlServiceCannotBeAllocated)),
                numbered,
            )
        } else {
            let (answer, after) = round_trip(numbered, allocation_request(service, transaction));
            match answer {
                Err(e) => (Err(e), after),
                Ok(response) => match allocation_in(service, transaction, response) {
                    Err(e) => (Err(SessionFault::Allocation(e)), after),
                    Ok(assignment) => (
                        Ok(assignment),
                        ClientModel {
                            clients: after.clients.insert(service, assignment.client_id),
                            ..after
                        },
                    ),
                },
            }
        }
    }
}

/// The client ID to use for a service: the known one, or a new one.
pub open spec fn assigned(client: ClientModel, service: ServiceId) -> (
    Result<ClientAssignment, SessionFault>,
    ClientModel,
) {
    if client.clients.contains_key(service) {
        let client_id = client.clients[service];
        if service == ServiceId(0) {
            (Err(SessionFault::Wire(WireError::ControlServiceCannotHaveAssignment)), client)
        } else {
            match address_fault(service, client_id) {
                Some(e) => (Err(SessionFault::Wire(e)), client),
                None => (Ok(ClientAssignment { service, client_id }), client),
            }
        }
    } else {
        allocated(client, service)
    }
}

/// What a service call starts with: a client ID and a transaction.
pub open spec fn begun(client: ClientModel, service: ServiceId) -> (
    Result<(ClientAssignment, TransactionId), SessionFault>,
    ClientModel,
) {
    let (assignment, after) = assigned(client, service);
    match assignment {
        Err(e) => (Err(e), after),
        Ok(a) => {
            let (transaction, numbered) = service_transaction(after);
            (Ok((a, transaction)), numbered)
        },
    }
}

/// A service call: the request that `build` makes, and the answer to it.
pub open spec fn called(
    client: ClientModel,
    service: ServiceId,
    build: spec_fn(ClientAssignment, TransactionId) -> Result<MessageModel, SessionFault>,
) -> (Result<MessageModel, SessionFault>, ClientModel) {
    let (start, after) = begun(client, service);
    match start {
        Err(e) => (Err(e), after),
        Ok((assignment, transaction)) => match build(assignment, transaction) {
            Err(e) => (Err(e), after),
            Ok(request) => round_trip(after, request),
        },
    }
}

/// A service call whose answer is read by `parse`.
pub open spec fn call_read<A>(
    client: ClientModel,
    service: ServiceId,
    build: spec_fn(ClientAssignment, TransactionId) -> Result<MessageModel, SessionFault>,
    parse: spec_fn(MessageModel) -> Result<A, SessionFault>,
) -> (Result<A, SessionFault>, ClientModel) {
    let (answer, after) = called(client, service, build);
    match answer {
        Err(e) => (Err(e), after),
        Ok(response) => (parse(response), after),
    }
}

/// A reading of the DMS service as a session reports it.
pub open spec fn by_dms<A>(reading: Result<A, DmsError>) -> Result<A, SessionFault> {
    match reading {
        Ok(value) => Ok(value),
        Err(e) => Err(SessionFault::Dms(e)),
    }
}

/// A DMS answer that only has to be a success.
pub open spec fn dms_done(tlvs: Result<Seq<TlvModel>, DmsError>) -> Result<(), SessionFault> {
    match tlvs {
        Ok(_) => Ok(()),
        Err(e) => Err(SessionFault::Dms(e)),
    }
}

/// A reading of the NAS service as a session reports it.
pub open spec fn by_nas<A>(reading: Result<A, NasError>) -> Result<A, SessionFault> {
    match reading {
        Ok(value) => Ok(value),
        Err(e) => Err(SessionFault::Nas(e)),
    }
}

/// A reading of the WMS service as a session reports it.
pub open spec fn by_wms<A>(reading: Result<A, WmsError>) -> Result<A, SessionFault> {
    match reading {
        Ok(value) => Ok(value),
        Err(e) => Err(SessionFault::Wms(e)),
    }
}

/// A WMS answer that only has to be a success.
pub open spec fn wms_done(tlvs: Result<Seq<TlvModel>, WmsError>) -> Result<(), SessionFault> {
    match tlvs {
        Ok(_) => Ok(()),
        Err(e) => Err(SessionFault::Wms(e)),
    }
}

/// A reading of the UIM service as a session reports it.
pub open spec fn by_uim<A>(reading: Result<A, UimError>) -> Result<A, SessionFault> {
    match reading {
        Ok(value) => Ok(value),
        Err(e) => Err(SessionFault::Uim(e)),
    }
}

/// A UIM answer that only has to be a success.
pub open spec fn uim_done(tlvs: Result<Seq<TlvModel>, UimError>) -> Result<(), SessionFault> {
    match tlvs {
        Ok(_) => Ok(()),
        Err(e) => Err(SessionFault::Uim(e)),
    }
}

/// The ICCID in the answer to a reading of `EF_ICCID`.
pub open spec fn iccid_file_in(response: MessageModel) -> Result<Seq<char>, UimError> {
    match crate::uim::file_in(response) {
        Err(e) => Err(e),
        Ok(bytes) => iccid_in(bytes),
    }
}

/// What reading the serial numbers comes to.
pub open spec fn serial_numbers_on(client: ClientModel) -> (
    Result<SerialNumbersModel, SessionFault>,
    ClientModel,
) {
    call_read(
        client,
        ServiceId(crate::dms::DMS_SERVICE),
        |a: ClientAssignment, t: TransactionId|
            by_dms(
                crate::dms::dms_request(
                    a,
                    t,
                    MessageId(crate::dms::GET_DEVICE_SERIAL_NUMBERS),
                    Seq::empty(),
                ),
            ),
        |r: MessageModel| by_dms(serial_numbers_in(r)),
    )
}

/// What reading the firmware revision comes to.
pub open spec fn revision_on(client: ClientModel) -> (
    Result<Seq<char>, SessionFault>,
    ClientModel,
) {
    call_read(
        client,
        ServiceId(crate::dms::DMS_SERVICE),
        |a: ClientAssignment, t: TransactionId|
            by_dms(
                crate::dms::dms_request(
                    a,
                    t,
                    MessageId(crate::dms::GET_DEVICE_REV_ID),
                    Seq::empty(),
                ),
            ),
        |r: MessageModel|
            by_dms(text_answer_in(r, crate::dms::GET_DEVICE_REV_ID, crate::dms::STRING_DEVICE_REV)),
    )
}

/// What reading the model comes to.
pub open spec fn model_on(client: ClientModel) -> (
    Result<Seq<char>, SessionFault>,
    ClientModel,
) {
    call_read(
        client,
        ServiceId(crate::dms::DMS_SERVICE),
        |a: ClientAssignment, t: TransactionId|
            by_dms(
                crate::dms::dms_request(a, t, MessageId(crate::dms::GET_MODEL_ID), Seq::empty()),
            ),
        |r: MessageModel|
            by_dms(text_answer_in(r, crate::dms::GET_MODEL_ID, crate::dms::STRING_MODEL)),
    )
}

/// What reading the manufacturer comes to.
pub open spec fn manufacturer_on(client: ClientModel) -> (
    Result<Seq<char>, SessionFault>,
    ClientModel,
) {
    call_read(
        client,
        ServiceId(crate::dms::DMS_SERVICE),
        |a: ClientAssignment, t: TransactionId|
            by_dms(
                crate::dms::dms_request(
                    a,
                    t,
                    MessageId(crate::dms::GET_MANUFACTURER),
                    Seq::empty(),
                ),
            ),
        |r: MessageModel|
            by_dms(
                text_answer_in(r, crate::dms::GET_MANUFACTURER, crate::dms::STRING_MANUFACTURER),
            ),
    )
}

/// What reading the operating mode comes to.
pub open spec fn operating_mode_on(client: ClientModel) -> (
    Result<OperatingMode, SessionFault>,
    ClientModel,
) {
    call_read(
        client,
        ServiceId(crate::dms::DMS_SERVICE),
        |a: ClientAssignment, t: TransactionId|
            by_dms(
                crate::dms::dms_request(
                    a,
                    t,
                    MessageId(crate::dms::GET_OPERATING_MODE),
                    Seq::empty(),
                ),
            ),
        |r: MessageModel| by_dms(operating_mode_in(r)),
    )
}

/// What setting the operating mode comes to.
pub open spec fn mode_set_on(client: ClientModel, mode: OperatingMode) -> (
    Result<(), SessionFault>,
    ClientModel,
) {
    call_read(
        client,
        ServiceId(crate::dms::DMS_SERVICE),
        |a: ClientAssignment, t: TransactionId|
            by_dms(
                crate::dms::dms_request(
                    a,
                    t,
                    MessageId(crate::dms::SET_OPERATING_MODE),
                    seq![TlvModel { kind: crate::dms::OPERATING_MODE, value: seq![mode.wire()] }],
                ),
            ),
        |r: MessageModel| dms_done(crate::dms::dms_tlvs(r, crate::dms::SET_OPERATING_MODE)),
    )
}

/// What reading the serving system comes to.
pub open spec fn serving_system_on(client: ClientModel) -> (
    Result<ServingSystem, SessionFault>,
    ClientModel,
) {
    call_read(
        client,
        ServiceId(crate::nas::NAS_SERVICE),
        |a: ClientAssignment, t: TransactionId|
            by_nas(
                crate::nas::nas_request(
                    a,
                    t,
                    MessageId(crate::nas::GET_SERVING_SYSTEM),
                    Seq::empty(),
                ),
            ),
        |r: MessageModel| by_nas(serving_system_in(r)),
    )
}

/// What reading the serving cell comes to.
pub open spec fn cell_location_on(client: ClientModel) -> (
    Result<CellModel, SessionFault>,
    ClientModel,
) {
    call_read(
        client,
        ServiceId(crate::nas::NAS_SERVICE),
        |a: ClientAssignment, t: TransactionId|
            by_nas(
                crate::nas::nas_request(
                    a,
                    t,
                    MessageId(crate::nas::GET_CELL_LOCATION_INFO),
                    Seq::empty(),
                ),
            ),
        |r: MessageModel| by_nas(cell_in(r)),
    )
}

/// What listing stored messages comes to.
pub open spec fn messages_listed_on(client: ClientModel, storage: StorageType, tag: MessageTag, mode: MessageMode) -> (
    Result<Seq<ListedMessage>, SessionFault>,
    ClientModel,
) {
    call_read(
        client,
        ServiceId(crate::wms::WMS_SERVICE),
        |a: ClientAssignment, t: TransactionId|
            by_wms(
                crate::wms::wms_request(
                    a,
                    t,
                    MessageId(crate::wms::LIST_MESSAGES),
                    seq![
                        TlvModel { kind: crate::wms::STORAGE_TLV, value: seq![storage.wire()] },
                        TlvModel { kind: crate::wms::MESSAGE_TAG_TLV, value: seq![tag.wire()] },
                        TlvModel { kind: crate::wms::MESSAGE_MODE_TLV, value: seq![mode.wire()] }
                    ],
                ),
            ),
        |r: MessageModel| by_wms(crate::wms::messages_in(r, storage)),
    )
}

/// What reading a stored message comes to.
pub open spec fn message_read_on(client: ClientModel, storage: StorageType, index: u32, mode: MessageMode) -> (
    Result<RawMessageModel, SessionFault>,
    ClientModel,
) {
    call_read(
        client,
        ServiceId(crate::wms::WMS_SERVICE),
        |a: ClientAssignment, t: TransactionId|
            by_wms(
                crate::wms::wms_request(
                    a,
                    t,
                    MessageId(crate::wms::RAW_READ),
                    seq![
                        TlvModel {
                            kind: crate::wms::STORAGE_TLV,
                            value: seq![storage.wire()] + le32_octets(index),
                        },
                        TlvModel { kind: crate::wms::MESSAGE_MODE_TLV, value: seq![mode.wire()] }
                    ],
                ),
            ),
        |r: MessageModel| by_wms(crate::wms::raw_read_in(r)),
    )
}

/// What submitting a message comes to.
pub open spec fn message_sent_on(client: ClientModel, format: u8, pdu: Seq<u8>) -> (
    Result<Option<u16>, SessionFault>,
    ClientModel,
) {
    call_read(
        client,
        ServiceId(crate::wms::WMS_SERVICE),
        |a: ClientAssignment, t: TransactionId|
            by_wms(crate::wms::raw_send_message(a, t, format, pdu)),
        |r: MessageModel| by_wms(crate::wms::raw_send_in(r)),
    )
}

/// What deleting a stored message comes to.
pub open spec fn message_deleted_on(client: ClientModel, storage: StorageType, index: u32, mode: MessageMode) -> (
    Result<(), SessionFault>,
    ClientModel,
) {
    call_read(
        client,
        ServiceId(crate::wms::WMS_SERVICE),
        |a: ClientAssignment, t: TransactionId|
            by_wms(
                crate::wms::wms_request(
                    a,
                    t,
                    MessageId(crate::wms::DELETE),
                    seq![
                        TlvModel { kind: crate::wms::STORAGE_TLV, value: seq![storage.wire()] },
                        TlvModel { kind: crate::wms::DELETE_INDEX_TLV, value: le32_octets(index) },
                        TlvModel { kind: crate::wms::DELETE_MODE_TLV, value: seq![mode.wire()] }
                    ],
                ),
            ),
        |r: MessageModel| wms_done(crate::wms::wms_tlvs(r, crate::wms::DELETE)),
    )
}

/// What opening a logical channel comes to.
pub open spec fn channel_opened_on(client: ClientModel, slot: u8, aid: Seq<u8>) -> (
    Result<u8, SessionFault>,
    ClientModel,
) {
    call_read(
        client,
        ServiceId(crate::uim::UIM_SERVICE),
        |a: ClientAssignment, t: TransactionId|
            by_uim(crate::uim::open_channel_message(a, t, slot, aid)),
        |r: MessageModel| by_uim(crate::uim::opened_channel_in(r)),
    )
}

/// What closing a logical channel comes to.
pub open spec fn channel_closed_on(client: ClientModel, slot: u8, channel: u8) -> (
    Result<(), SessionFault>,
    ClientModel,
) {
    call_read(
        client,
        ServiceId(crate::uim::UIM_SERVICE),
        |a: ClientAssignment, t: TransactionId|
            by_uim(
                crate::uim::uim_request(
                    a,
                    t,
                    MessageId(crate::uim::CLOSE_LOGICAL_CHANNEL),
                    crate::uim::close_channel_tlvs(slot, channel),
                ),
            ),
        |r: MessageModel| uim_done(crate::uim::uim_tlvs(r, crate::uim::CLOSE_LOGICAL_CHANNEL)),
    )
}

/// What sending one APDU comes to.
pub open spec fn apdu_sent_on(client: ClientModel, slot: u8, channel: u8, command: Seq<u8>) -> (
    Result<ApduModel, SessionFault>,
    ClientModel,
) {
    call_read(
        client,
        ServiceId(crate::uim::UIM_SERVICE),
        |a: ClientAssignment, t: TransactionId|
            by_uim(crate::uim::send_apdu_message(a, t, slot, channel, command)),
        |r: MessageModel| by_uim(apdu_in(r)),
    )
}

/// What reading the ICCID comes to.
pub open spec fn iccid_on(client: ClientModel) -> (
    Result<Seq<char>, SessionFault>,
    ClientModel,
) {
    call_read(
        client,
        ServiceId(crate::uim::UIM_SERVICE),
        |a: ClientAssignment, t: TransactionId|
            by_uim(
                crate::uim::read_file_message(
                    a,
                    t,
                    crate::uim::EF_ICCID_FILE_ID,
                    seq![crate::uim::MASTER_FILE_ID],
                ),
            ),
        |r: MessageModel| by_uim(iccid_file_in(r)),
    )
}

/// What reading a transparent file comes to.
pub open spec fn file_on(client: ClientModel, file_id: u16, path: Seq<u16>) -> (
    Result<Seq<u8>, SessionFault>,
    ClientModel,
) {
    call_read(
        client,
        ServiceId(crate::uim::UIM_SERVICE),
        |a: ClientAssignment, t: TransactionId|
            by_uim(crate::uim::read_file_message(a, t, file_id, path)),
        |r: MessageModel| by_uim(crate::uim::file_in(r)),
    )
}

/// What a `QMICTL_SYNC` answer means. Some firmware omits TLVs on a successful
/// sync: an answer without any says nothing against it. Any other has to hold a
/// result TLV, and that a success.
pub open spec fn sync_in(response: MessageModel) -> Result<(), SessionFault> {
    if response.service != ServiceId(0) || response.client != ClientId(0) || response.message
        != MessageId(CTL_SYNC) {
        Err(
            SessionFault::UnexpectedSyncResponse {
                service: response.service,
                client: response.client,
                message: response.message,
            },
        )
    } else if response.tlvs().len() == 0 {
        Ok(())
    } else {
        match only_tlv(response.tlvs(), RESULT_TLV) {
            Err(e) => Err(SessionFault::Lookup(e)),
            Ok(_) => match result_in(response.tlvs()) {
                Err(e) => Err(SessionFault::Result(e)),
                Ok(result) => match result_fault(result) {
                    Some(e) => Err(SessionFault::Result(e)),
                    None => Ok(()),
                },
            },
        }
    }
}

/// The `QMICTL_SYNC` request.
pub open spec fn sync_message(transaction: TransactionId) -> MessageModel {
    MessageModel {
        service: ServiceId(0),
        client: ClientId(0),
        transaction,
        message: MessageId(CTL_SYNC),
        payload: Seq::empty(),
    }
}

/// Whether an answer confirms a sync: it holds a result TLV, and that a success.
pub open spec fn sync_confirmed(response: MessageModel) -> Result<(), SessionFault> {
    match sync_in(response) {
        Err(e) => Err(e),
        Ok(_) => match only_tlv(response.tlvs(), RESULT_TLV) {
            Err(e) => Err(SessionFault::Lookup(e)),
            Ok(_) => Ok(()),
        },
    }
}

/// What resynchronizing the control state comes to.
pub open spec fn synced_on(client: ClientModel) -> (Result<(), SessionFault>, ClientModel) {
    let (transaction, numbered) = control_transaction(client);
    let (answer, after) = round_trip(numbered, sync_message(transaction));
    match answer {
        Err(e) => (Err(e), after),
        Ok(response) => (sync_confirmed(response), after),
    }
}

/// `QMICTL_SYNC` request/response helpers.
pub struct SyncRequest {
    transaction: TransactionId,
}

impl SyncRequest {
    pub closed spec fn transaction_of(self) -> TransactionId {
        self.transaction
    }

    #[verifier::type_invariant]
    spec fn checked(self) -> bool {
        self.transaction.0 <= 0xff
    }

    pub fn new(transaction: TransactionId) -> (request: Result<Self, SessionError>)
        ensures
            match request {
                Ok(r) => transaction.0 <= 0xff && r.transaction_of() == transaction,
                Err(e) => transaction.0 > 0xff && e@ == SessionFault::Wire(
                    WireError::ControlTransactionOutOfRange { transaction },
                ),
            },
    {
        if transaction.as_u16() > 0xff {
            return Err(
                SessionError::Wire(WireError::ControlTransactionOutOfRange { transaction }),
            );
        }
        Ok(SyncRequest { transaction })
    }

    pub fn to_qmi_request(&self) -> (request: Result<QmiRequest, SessionError>)
        ensures
            request matches Ok(r) && r@ == sync_message(self.transaction_of())
                && r@.well_formed(),
    {
        proof {
            use_type_invariant(self);
        }
        let payload: Vec<u8> = Vec::new();
        proof {
            assert(payload@ =~= Seq::empty());
        }
        match QmiRequest::new(
            ServiceId::control(),
            ClientId::control(),
            self.transaction,
            MessageId::new(CTL_SYNC),
            payload,
        ) {
            Ok(request) => Ok(request),
            Err(e) => Err(SessionError::Wire(e)),
        }
    }

    /// Takes an answer without TLVs, which some firmware gives on success, or one
    /// with a successful result TLV.
    pub fn accept(response: &QmiResponse) -> (accepted: Result<(), SessionError>)
        ensures
            match accepted {
                Ok(_) => sync_in(response@) is Ok,
                Err(e) => sync_in(response@) == Err::<(), SessionFault>(e@),
            },
    {
        if response.service() != ServiceId::control() || response.client_id()
            != ClientId::control() || response.message_id() != MessageId::new(CTL_SYNC) {
            return Err(
                SessionError::UnexpectedSyncResponse {
                    service: response.service(),
                    client: response.client_id(),
                    message: response.message_id(),
                },
            );
        }
        let tlvs: Vec<Tlv> = match response.tlvs() {
            Ok(tlvs) => tlvs,
            Err(e) => return Err(SessionError::Wire(e)),
        };
        if tlvs.len() == 0 {
            return Ok(());
        }
        match unique_tlv(&tlvs, RESULT_TLV) {
            Err(e) => Err(SessionError::Lookup(e)),
            Ok(_) => match QmiResult::from_tlvs(&tlvs) {
                Err(e) => Err(SessionError::Result(e)),
                Ok(result) => match result.check() {
                    Ok(_) => Ok(()),
                    Err(e) => Err(SessionError::Result(e)),
                },
            },
        }
    }
}

impl<T: QmiTransport> QmiClient<T> {
    pub fn new(transport: T) -> (client: Self)
        ensures
            client@ == (ClientModel {
                link: transport.link(),
                pending: Map::empty(),
                clients: Map::empty(),
                next_control: 1,
                next_service: 1,
            }),
    {
        QmiClient {
            transport,
            pending: PendingTransactions::default(),
            clients: ClientRegistry::default(),
            next_control_transaction: 1,
            next_service_transaction: 1,
        }
    }

    pub fn client_for(&self, service: ServiceId) -> (client: Option<ClientId>)
        ensures
            client == (if self@.clients.contains_key(service) {
                Some(self@.clients[service])
            } else {
                None
            }),
    {
        self.clients.client_for(service)
    }

    /// Sends `QMICTL_SYNC` and requires a successful result TLV.
    pub fn sync(&mut self) -> (done: Result<(), SessionError>)
        ensures
            ran_to(done, final(self)@, synced_on(old(self)@)),
    {
        let transaction: TransactionId = self.allocate_control_transaction();
        let sync: SyncRequest = match SyncRequest::new(transaction) {
            Ok(sync) => sync,
            Err(e) => return Err(e),
        };
        let request: QmiRequest = match sync.to_qmi_request() {
            Ok(request) => request,
            Err(e) => return Err(e),
        };
        let response: QmiResponse = match self.round_trip(&request) {
            Ok(response) => response,
            Err(e) => return Err(e),
        };
        match SyncRequest::accept(&response) {
            Ok(_) => {},
            Err(e) => return Err(e),
        }
        let tlvs: Vec<Tlv> = match response.tlvs() {
            Ok(tlvs) => tlvs,
            Err(e) => return Err(SessionError::Wire(e)),
        };
        match unique_tlv(&tlvs, RESULT_TLV) {
            Ok(_) => Ok(()),
            Err(e) => Err(SessionError::Lookup(e)),
        }
    }

    /// Allocates a client ID for `service` and remembers it locally.
    pub fn allocate(&mut self, service: ServiceId) -> (assignment: Result<
        ClientAssignment,
        SessionError,
    >)
        ensures
            ran_to(assignment, final(self)@, allocated(old(self)@, service)),
    {
        if self.clients.client_for(service).is_some() {
            return Err(
                SessionError::Registry(ClientRegistryError::AlreadyAssigned { service }),
            );
        }
        let transaction: TransactionId = self.allocate_control_transaction();
        let allocation: ClientAllocationRequest = match ClientAllocationRequest::new(
            service,
            transaction,
        ) {
            Ok(allocation) => allocation,
            Err(e) => return Err(SessionError::Allocation(e)),
        };
        let request: QmiRequest = match allocation.to_qmi_request() {
            Ok(request) => request,
            Err(e) => return Err(SessionError::Allocation(e)),
        };
        let response: QmiResponse = match self.round_trip(&request) {
            Ok(response) => response,
            Err(e) => return Err(e),
        };
        let assignment: ClientAssignment = match allocation.accept(&response) {
            Ok(assignment) => assignment,
            Err(e) => return Err(SessionError::Allocation(e)),
        };
        match self.clients.install(assignment) {
            Ok(_) => Ok(assignment),
            Err(e) => Err(SessionError::Registry(e)),
        }
    }

    pub fn get_serial_numbers(&mut self) -> (result: Result<
        DeviceSerialNumbers,
        SessionError,
    >)
        ensures
            ran(result, final(self)@, serial_numbers_on(old(self)@)),
    {
        let (assignment, transaction) = match self.begin(ServiceId::dms()) {
            Ok(start) => start,
            Err(e) => return Err(e),
        };
        let request: QmiRequest = match crate::dms::get_serial_numbers_request(assignment, transaction) {
            Ok(request) => request,
            Err(e) => return Err(SessionError::Dms(e)),
        };
        let response: QmiResponse = match self.round_trip(&request) {
            Ok(response) => response,
            Err(e) => return Err(e),
        };
        match crate::dms::parse_serial_numbers(&response) {
            Ok(value) => Ok(value),
            Err(e) => Err(SessionError::Dms(e)),
        }
    }

    pub fn get_revision(&mut self) -> (result: Result<
        DeviceRevision,
        SessionError,
    >)
        ensures
            ({
                let wanted = revision_on(old(self)@);
                final(self)@ == wanted.1 && match result {
                    Ok(v) => wanted.0 == Ok::<Seq<char>, SessionFault>(v.device_rev_id@),
                    Err(e) => wanted.0 == Err::<Seq<char>, SessionFault>(e@),
                }
            }),
    {
        let (assignment, transaction) = match self.begin(ServiceId::dms()) {
            Ok(start) => start,
            Err(e) => return Err(e),
        };
        let request: QmiRequest = match crate::dms::get_revision_request(assignment, transaction) {
            Ok(request) => request,
            Err(e) => return Err(SessionError::Dms(e)),
        };
        let response: QmiResponse = match self.round_trip(&request) {
            Ok(response) => response,
            Err(e) => return Err(e),
        };
        match crate::dms::parse_revision(&response) {
            Ok(value) => Ok(value),
            Err(e) => Err(SessionError::Dms(e)),
        }
    }

    pub fn get_model(&mut self) -> (result: Result<
        String,
        SessionError,
    >)
        ensures
            ran(result, final(self)@, model_on(old(self)@)),
    {
        let (assignment, transaction) = match self.begin(ServiceId::dms()) {
            Ok(start) => start,
            Err(e) => return Err(e),
        };
        let request: QmiRequest = match crate::dms::get_model_request(assignment, transaction) {
            Ok(request) => request,
            Err(e) => return Err(SessionError::Dms(e)),
        };
        let response: QmiResponse = match self.round_trip(&request) {
            Ok(response) => response,
            Err(e) => return Err(e),
        };
        match crate::dms::parse_model(&response) {
            Ok(value) => Ok(value),
            Err(e) => Err(SessionError::Dms(e)),
        }
    }

    pub fn get_manufacturer(&mut self) -> (result: Result<
        String,
        SessionError,
    >)
        ensures
            ran(result, final(self)@, manufacturer_on(old(self)@)),
    {
        let (assignment, transaction) = match self.begin(ServiceId::dms()) {
            Ok(start) => start,
            Err(e) => return Err(e),
        };
        let request: QmiRequest = match crate::dms::get_manufacturer_request(assignment, transaction) {
            Ok(request) => request,
            Err(e) => return Err(SessionError::Dms(e)),
        };
        let response: QmiResponse = match self.round_trip(&request) {
            Ok(response) => response,
            Err(e) => return Err(e),
        };
        match crate::dms::parse_manufacturer(&response) {
            Ok(value) => Ok(value),
            Err(e) => Err(SessionError::Dms(e)),
        }
    }

    pub fn get_operating_mode(&mut self) -> (result: Result<
        OperatingMode,
        SessionError,
    >)
        ensures
            ran_to(result, final(self)@, operating_mode_on(old(self)@)),
    {
        let (assignment, transaction) = match self.begin(ServiceId::dms()) {
            Ok(start) => start,
            Err(e) => return Err(e),
        };
        let request: QmiRequest = match crate::dms::get_operating_mode_request(assignment, transaction) {
            Ok(request) => request,
            Err(e) => return Err(SessionError::Dms(e)),
        };
        let response: QmiResponse = match self.round_trip(&request) {
            Ok(response) => response,
            Err(e) => return Err(e),
        };
        match crate::dms::parse_operating_mode(&response) {
            Ok(value) => Ok(value),
            Err(e) => Err(SessionError::Dms(e)),
        }
    }

    pub fn set_operating_mode(&mut self, mode: OperatingMode) -> (result: Result<
        (),
        SessionError,
    >)
        ensures
            ran_to(result, final(self)@, mode_set_on(old(self)@, mode)),
    {
        let (assignment, transaction) = match self.begin(ServiceId::dms()) {
            Ok(start) => start,
            Err(e) => return Err(e),
        };
        let request: QmiRequest = match crate::dms::set_operating_mode_request(assignment, transaction, mode) {
            Ok(request) => request,
            Err(e) => return Err(SessionError::Dms(e)),
        };
        let response: QmiResponse = match self.round_trip(&request) {
            Ok(response) => response,
            Err(e) => return Err(e),
        };
        match crate::dms::parse_set_operating_mode(&response) {
            Ok(value) => Ok(value),
            Err(e) => Err(SessionError::Dms(e)),
        }
    }

    pub fn get_serving_system(&mut self) -> (result: Result<
        ServingSystem,
        SessionError,
    >)
        ensures
            ran_to(result, final(self)@, serving_system_on(old(self)@)),
    {
        let (assignment, transaction) = match self.begin(ServiceId::nas()) {
            Ok(start) => start,
            Err(e) => return Err(e),
        };
        let request: QmiRequest = match crate::nas::empty_request(assignment, transaction, MessageId::new(crate::nas::GET_SERVING_SYSTEM)) {
            Ok(request) => request,
            Err(e) => return Err(SessionError::Nas(e)),
        };
        let response: QmiResponse = match self.round_trip(&request) {
            Ok(response) => response,
            Err(e) => return Err(e),
        };
        match crate::nas::parse_serving_system(&response) {
            Ok(value) => Ok(value),
            Err(e) => Err(SessionError::Nas(e)),
        }
    }

    pub fn get_cell_location(&mut self) -> (result: Result<
        CellLocationInfo,
        SessionError,
    >)
        ensures
            ({
                let wanted = cell_location_on(old(self)@);
                final(self)@ == wanted.1 && match result {
                    Ok(v) => v.lte matches Some(cell) && wanted.0 == Ok::<CellModel, SessionFault>(cell@),
                    Err(e) => wanted.0 == Err::<CellModel, SessionFault>(e@),
                }
            }),
    {
        let (assignment, transaction) = match self.begin(ServiceId::nas()) {
            Ok(start) => start,
            Err(e) => return Err(e),
        };
        let request: QmiRequest = match crate::nas::empty_request(assignment, transaction, MessageId::new(crate::nas::GET_CELL_LOCATION_INFO)) {
            Ok(request) => request,
            Err(e) => return Err(SessionError::Nas(e)),
        };
        let response: QmiResponse = match self.round_trip(&request) {
            Ok(response) => response,
            Err(e) => return Err(e),
        };
        match crate::nas::parse_cell_location(&response) {
            Ok(value) => Ok(value),
            Err(e) => Err(SessionError::Nas(e)),
        }
    }

    pub fn list_sms(&mut self, storage: StorageType, tag: MessageTag, mode: MessageMode) -> (result: Result<
        Vec<ListedMessage>,
        SessionError,
    >)
        ensures
            ran(result, final(self)@, messages_listed_on(old(self)@, storage, tag, mode)),
    {
        let (assignment, transaction) = match self.begin(ServiceId::wms()) {
            Ok(start) => start,
            Err(e) => return Err(e),
        };
        let request: QmiRequest = match crate::wms::list_messages_request(assignment, transaction, storage, tag, mode) {
            Ok(request) => request,
            Err(e) => return Err(SessionError::Wms(e)),
        };
        let response: QmiResponse = match self.round_trip(&request) {
            Ok(response) => response,
            Err(e) => return Err(e),
        };
        match crate::wms::parse_list_messages(&response, storage) {
            Ok(value) => Ok(value),
            Err(e) => Err(SessionError::Wms(e)),
        }
    }

    pub fn read_sms(&mut self, storage: StorageType, index: u32, mode: MessageMode) -> (result: Result<
        RawMessage,
        SessionError,
    >)
        ensures
            ran(result, final(self)@, message_read_on(old(self)@, storage, index, mode)),
    {
        let (assignment, transaction) = match self.begin(ServiceId::wms()) {
            Ok(start) => start,
            Err(e) => return Err(e),
        };
        let request: QmiRequest = match crate::wms::raw_read_request(assignment, transaction, storage, index, mode) {
            Ok(request) => request,
            Err(e) => return Err(SessionError::Wms(e)),
        };
        let response: QmiResponse = match self.round_trip(&request) {
            Ok(response) => response,
            Err(e) => return Err(e),
        };
        match crate::wms::parse_raw_read(&response) {
            Ok(value) => Ok(value),
            Err(e) => Err(SessionError::Wms(e)),
        }
    }

    pub fn send_sms(&mut self, format: u8, pdu: &[u8]) -> (result: Result<
        Option<u16>,
        SessionError,
    >)
        ensures
            ran_to(result, final(self)@, message_sent_on(old(self)@, format, pdu@)),
    {
        let (assignment, transaction) = match self.begin(ServiceId::wms()) {
            Ok(start) => start,
            Err(e) => return Err(e),
        };
        let request: QmiRequest = match crate::wms::raw_send_request(assignment, transaction, format, pdu) {
            Ok(request) => request,
            Err(e) => return Err(SessionError::Wms(e)),
        };
        let response: QmiResponse = match self.round_trip(&request) {
            Ok(response) => response,
            Err(e) => return Err(e),
        };
        match crate::wms::parse_raw_send(&response) {
            Ok(value) => Ok(value),
            Err(e) => Err(SessionError::Wms(e)),
        }
    }

    pub fn delete_sms(&mut self, storage: StorageType, index: u32, mode: MessageMode) -> (result: Result<
        (),
        SessionError,
    >)
        ensures
            ran_to(result, final(self)@, message_deleted_on(old(self)@, storage, index, mode)),
    {
        let (assignment, transaction) = match self.begin(ServiceId::wms()) {
            Ok(start) => start,
            Err(e) => return Err(e),
        };
        let request: QmiRequest = match crate::wms::delete_by_index_request(assignment, transaction, storage, index, mode) {
            Ok(request) => request,
            Err(e) => return Err(SessionError::Wms(e)),
        };
        let response: QmiResponse = match self.round_trip(&request) {
            Ok(response) => response,
            Err(e) => return Err(e),
        };
        match crate::wms::parse_delete(&response) {
            Ok(value) => Ok(value),
            Err(e) => Err(SessionError::Wms(e)),
        }
    }

    pub fn open_logical_channel(&mut self, slot: u8, aid: &[u8]) -> (result: Result<
        u8,
        SessionError,
    >)
        ensures
            ran_to(result, final(self)@, channel_opened_on(old(self)@, slot, aid@)),
    {
        let (assignment, transaction) = match self.begin(ServiceId::uim()) {
            Ok(start) => start,
            Err(e) => return Err(e),
        };
        let request: QmiRequest = match crate::uim::open_logical_channel_request(assignment, transaction, slot, aid) {
            Ok(request) => request,
            Err(e) => return Err(SessionError::Uim(e)),
        };
        let response: QmiResponse = match self.round_trip(&request) {
            Ok(response) => response,
            Err(e) => return Err(e),
        };
        match crate::uim::parse_open_logical_channel(&response) {
            Ok(value) => Ok(value),
            Err(e) => Err(SessionError::Uim(e)),
        }
    }

    pub fn close_logical_channel(&mut self, slot: u8, channel: u8) -> (result: Result<
        (),
        SessionError,
    >)
        ensures
            ran_to(result, final(self)@, channel_closed_on(old(self)@, slot, channel)),
    {
        let (assignment, transaction) = match self.begin(ServiceId::uim()) {
            Ok(start) => start,
            Err(e) => return Err(e),
        };
        let request: QmiRequest = match crate::uim::close_logical_channel_request(assignment, transaction, slot, channel) {
            Ok(request) => request,
            Err(e) => return Err(SessionError::Uim(e)),
        };
        let response: QmiResponse = match self.round_trip(&request) {
            Ok(response) => response,
            Err(e) => return Err(e),
        };
        match crate::uim::parse_close_logical_channel(&response) {
            Ok(value) => Ok(value),
            Err(e) => Err(SessionError::Uim(e)),
        }
    }

    pub fn send_apdu(&mut self, slot: u8, channel: u8, command: &[u8]) -> (result: Result<
        ApduResponse,
        SessionError,
    >)
        ensures
            ran(result, final(self)@, apdu_sent_on(old(self)@, slot, channel, command@)),
    {
        let (assignment, transaction) = match self.begin(ServiceId::uim()) {
            Ok(start) => start,
            Err(e) => return Err(e),
        };
        let request: QmiRequest = match crate::uim::send_apdu_request(assignment, transaction, slot, channel, command) {
            Ok(request) => request,
            Err(e) => return Err(SessionError::Uim(e)),
        };
        let response: QmiResponse = match self.round_trip(&request) {
            Ok(response) => response,
            Err(e) => return Err(e),
        };
        match crate::uim::parse_send_apdu(&response) {
            Ok(value) => Ok(value),
            Err(e) => Err(SessionError::Uim(e)),
        }
    }

    fn read_file(&mut self, file_id: u16, path: &[u16]) -> (result: Result<
        Vec<u8>,
        SessionError,
    >)
        ensures
            ran(result, final(self)@, file_on(old(self)@, file_id, path@)),
    {
        let (assignment, transaction) = match self.begin(ServiceId::uim()) {
            Ok(start) => start,
            Err(e) => return Err(e),
        };
        let request: QmiRequest = match crate::uim::read_transparent_request(
            assignment,
            transaction,
            file_id,
            path,
        ) {
            Ok(request) => request,
            Err(e) => return Err(SessionError::Uim(e)),
        };
        let response: QmiResponse = match self.round_trip(&request) {
            Ok(response) => response,
            Err(e) => return Err(e),
        };
        match crate::uim::parse_read_transparent(&response) {
            Ok(bytes) => Ok(bytes),
            Err(e) => Err(SessionError::Uim(e)),
        }
    }

    /// Read `EF_IMSI`, which says whose subscription the card carries. The caller
    /// says under which identifier and path the card keeps it, and gets the octets
    /// of the file as the card has them.
    ///
    /// This is the home network. The serving system reports where the modem is
    /// registered, which on a roaming card is somebody else entirely — so one
    /// cannot stand in for the other.
    pub fn read_imsi(&mut self, file_id: u16, path: &[u16]) -> (result: Result<
        Vec<u8>,
        SessionError,
    >)
        ensures
            ran(result, final(self)@, file_on(old(self)@, file_id, path@)),
    {
        self.read_file(file_id, path)
    }

    /// Read `EF_AD`, whose fourth byte says how many digits of the IMSI are the
    /// MNC. The caller says under which identifier and path the card keeps it.
    ///
    /// Returned raw rather than decoded, so that there is a single statement of
    /// what its fourth byte means.
    ///
    /// Basic channel, like `read_imsi`: session type 0x00 with an empty AID. Opening a logical
    /// channel for a read-only file would put this in contention with the
    /// eUICC's ISD-R session for nothing.
    pub fn read_ef_ad(&mut self, file_id: u16, path: &[u16]) -> (result: Result<
        Vec<u8>,
        SessionError,
    >)
        ensures
            ran(result, final(self)@, file_on(old(self)@, file_id, path@)),
    {
        self.read_file(file_id, path)
    }

    /// Read `EF_ICCID` from the active profile. On an eUICC this changes when
    /// a different profile is enabled, so it identifies the SIM in use rather
    /// than the chip.
    pub fn read_iccid(&mut self) -> (result: Result<
        String,
        SessionError,
    >)
        ensures
            ran(result, final(self)@, iccid_on(old(self)@)),
    {
        let (assignment, transaction) = match self.begin(ServiceId::uim()) {
            Ok(start) => start,
            Err(e) => return Err(e),
        };
        let path: [u16; 1] = [crate::uim::MASTER_FILE_ID];
        proof {
            assert(path@ =~= seq![crate::uim::MASTER_FILE_ID]);
        }
        let request: QmiRequest = match crate::uim::read_transparent_request(
            assignment,
            transaction,
            crate::uim::EF_ICCID_FILE_ID,
            &path,
        ) {
            Ok(request) => request,
            Err(e) => return Err(SessionError::Uim(e)),
        };
        let response: QmiResponse = match self.round_trip(&request) {
            Ok(response) => response,
            Err(e) => return Err(e),
        };
        let bytes: Vec<u8> = match crate::uim::parse_read_transparent(&response) {
            Ok(bytes) => bytes,
            Err(e) => return Err(SessionError::Uim(e)),
        };
        match crate::uim::decode_iccid(&bytes) {
            Ok(iccid) => Ok(iccid),
            Err(e) => Err(SessionError::Uim(e)),
        }
    }

    fn assignment(&mut self, service: ServiceId) -> (assignment: Result<
        ClientAssignment,
        SessionError,
    >)
        ensures
            ran_to(assignment, final(self)@, assigned(old(self)@, service)),
    {
        if let Some(client_id) = self.clients.client_for(service) {
            return match ClientAssignment::new(service, client_id) {
                Ok(assignment) => Ok(assignment),
                Err(e) => Err(SessionError::Wire(e)),
            };
        }
        self.allocate(service)
    }

    fn begin(&mut self, service: ServiceId) -> (start: Result<
        (ClientAssignment, TransactionId),
        SessionError,
    >)
        ensures
            ran_to(start, final(self)@, begun(old(self)@, service)),
    {
        match self.assignment(service) {
            Err(e) => Err(e),
            Ok(assignment) => {
                let transaction: TransactionId = self.allocate_service_transaction();
                Ok((assignment, transaction))
            },
        }
    }

    fn round_trip(&mut self, request: &QmiRequest) -> (response: Result<QmiResponse, SessionError>)
        ensures
            match response {
                Ok(r) => round_trip(old(self)@, request@) == (
                    Ok::<MessageModel, SessionFault>(r@),
                    final(self)@,
                ),
                Err(e) => round_trip(old(self)@, request@) == (
                    Err::<MessageModel, SessionFault>(e@),
                    final(self)@,
                ),
            },
    {
        let key: TransactionKey = match self.pending.register(request) {
            Ok(key) => key,
            Err(e) => return Err(SessionError::Correlation(e)),
        };
        let frame: Vec<u8> = request.encode();
        let raw: Vec<u8> = match self.transport.transact(&frame) {
            Ok(raw) => raw,
            Err(error) => {
                self.pending.discard(key);
                return Err(error);
            },
        };
        let response: QmiResponse = match QmiResponse::decode(&raw) {
            Ok(response) => response,
            Err(error) => {
                self.pending.discard(key);
                return Err(SessionError::Wire(error));
            },
        };
        match self.pending.resolve(&response) {
            Ok(_) => Ok(response),
            Err(error) => Err(SessionError::Correlation(error)),
        }
    }

    fn allocate_control_transaction(&mut self) -> (transaction: TransactionId)
        ensures
            (transaction, final(self)@) == control_transaction(old(self)@),
    {
        let current: u8 = self.next_control_transaction;
        self.next_control_transaction = if current == 255 {
            1
        } else {
            current + 1
        };
        TransactionId::new(current as u16)
    }

    fn allocate_service_transaction(&mut self) -> (transaction: TransactionId)
        ensures
            (transaction, final(self)@) == service_transaction(old(self)@),
    {
        let current: u16 = self.next_service_transaction;
        self.next_service_transaction = if current == 65535 {
            1
        } else {
            current + 1
        };
        TransactionId::new(current)
    }
}

// ---------------------------------------------------------------------------
// Laws
// ---------------------------------------------------------------------------

/// Where nothing else is open, an accepted answer is the answer to the request
/// that was sent: the same service, client, transaction and message. Whether
/// it was accepted or not, one frame went out, and once it was, or once the
/// transfer failed, nothing is left open.
pub proof fn law_an_answer_is_to_its_request(client: ClientModel, request: MessageModel)
    requires
        client.pending == Map::<TransactionKey, MessageId>::empty(),
    ensures
        ({
            let (answer, after) = round_trip(client, request);
            &&& answer matches Ok(response) ==> response.key() == request.key()
                && response.message == request.message && after.pending == client.pending
            &&& (client.link.answers)(0) is Err ==> answer is Err && after.pending
                == client.pending
            &&& after.link.sent == client.link.sent.push(request_frame(request))
        }),
{
    let open = client.pending.insert(request.key(), request.message);
    assert(open.remove(request.key()) =~= client.pending);
}

/// A sync is only taken as done on a result: an answer that holds no result TLV,
/// or more than one, or one that is no success, is an error.
pub proof fn law_only_a_result_confirms_a_sync(response: MessageModel)
    ensures
        sync_confirmed(response) is Ok ==> {
            &&& only_tlv(response.tlvs(), RESULT_TLV) is Ok
            &&& result_in(response.tlvs()) matches Ok(result) && result_fault(result) is None
        },
{
    if response.tlvs().len() == 0 {
        assert(only_tlv(response.tlvs(), RESULT_TLV) is Err);
    }
}

/// A control transaction is never zero and never wider than one octet, and two
/// in a row are never the same; service transactions are never zero either.
pub proof fn law_transactions_are_usable(client: ClientModel)
    requires
        client.next_control >= 1,
        client.next_service >= 1,
    ensures
        1 <= control_transaction(client).0.0 <= 0xff,
        control_transaction(client).1.next_control >= 1,
        control_transaction(client).1.next_control != client.next_control,
        service_transaction(client).0.0 >= 1,
        service_transaction(client).1.next_service >= 1,
        service_transaction(client).1.next_service != client.next_service,
{
}

/// A client ID that was allocated once is used from then on: nothing is asked
/// of the modem again.
pub proof fn law_an_allocated_client_is_kept(client: ClientModel, service: ServiceId)
    requires
        allocated(client, service).0 is Ok,
    ensures
        ({
            let after = allocated(client, service).1;
            &&& after.clients.contains_key(service)
            &&& assigned(after, service) == (
                Ok::<ClientAssignment, SessionFault>(allocated(client, service).0->Ok_0),
                after,
            )
        }),
{
    let (transaction, numbered) = control_transaction(client);
    let (answer, after) = round_trip(numbered, allocation_request(service, transaction));
    let assignment = allocation_in(service, transaction, answer->Ok_0)->Ok_0;
    assert(assignment.service == service);
    assert(assignment.client_id != ClientId(0));
}

} // verus!
