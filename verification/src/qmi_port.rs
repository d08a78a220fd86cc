//! A QMI client as a modem.

use crate::domain::{
    evidence_models, opt_plmn, Bearer, EvidenceModel, Plmn, PlmnModel, RegistrationEvidence,
};
use crate::nas::{NasRegistrationState, ServingSystem};
use crate::port::{ModemPort, PortError, PortFault, TransportKind};
use crate::session::{
    cell_location_on, message_deleted_on, message_read_on, message_sent_on, messages_listed_on,
    revision_on, serial_numbers_on, serving_system_on, ClientModel, QmiClient, QmiTransport,
    SessionFault,
};
use crate::text::{decimal, owned, push_decimal, push_three_digits, three_digits};
use crate::wms::{
    ListedMessage, MessageMode, MessageTag, RawMessage, RawMessageModel, StorageType,
};
use vstd::prelude::*;

verus! {

pub const GSM_WCDMA_FORMAT: u8 = 0x06;

/// What a session did, as what a port did.
pub open spec fn ported<R>(result: (Result<R, SessionFault>, ClientModel)) -> (
    Result<R, PortFault>,
    ClientModel,
) {
    (
        match result.0 {
            Ok(value) => Ok(value),
            Err(e) => Err(PortFault::Session(e.text())),
        },
        result.1,
    )
}

fn in_three_digits(n: u16) -> (text: String)
    ensures
        text@ == three_digits(n as nat),
{
    let mut text: String = String::new();
    push_three_digits(&mut text, n as u64);
    proof {
        assert(text@ =~= three_digits(n as nat));
    }
    text
}

/// The network that a serving system names, if it names one.
pub open spec fn serving_plmn(serving: ServingSystem) -> Option<PlmnModel> {
    match (serving.mcc, serving.mnc) {
        (Some(mcc), Some(mnc)) => if mcc != 0 {
            Some(PlmnModel { mcc: three_digits(mcc as nat), mnc: decimal(mnc as nat) })
        } else {
            None
        },
        _ => None,
    }
}

fn plmn_of(serving: &ServingSystem) -> (plmn: Option<Plmn>)
    ensures
        opt_plmn(plmn) == serving_plmn(*serving),
{
    match (serving.mcc, serving.mnc) {
        (Some(mcc), Some(mnc)) => {
            if mcc != 0 {
                let mut digits: String = String::new();
                push_decimal(&mut digits, mnc as u64);
                proof {
                    assert(digits@ =~= decimal(mnc as nat));
                }
                Some(Plmn::new(in_three_digits(mcc), digits))
            } else {
                None
            }
        },
        _ => None,
    }
}

/// What a serving system speaks for.
pub open spec fn serving_evidence(result: Result<ServingSystem, SessionFault>) -> Seq<
    EvidenceModel,
> {
    match result {
        Err(_) => Seq::empty(),
        Ok(serving) => seq![
            EvidenceModel::ServingSystem {
                registered: serving.registration_state == NasRegistrationState::Registered,
                plmn: serving_plmn(serving),
            },
        ],
    }
}

/// What a cell speaks for.
pub open spec fn cell_evidence(result: Result<crate::nas::CellModel, SessionFault>) -> Seq<
    EvidenceModel,
> {
    match result {
        Err(_) => Seq::empty(),
        Ok(cell) => seq![
            EvidenceModel::CellLocation {
                plmn: Some(PlmnModel { mcc: cell.mcc, mnc: cell.mnc }),
                global_cell_id: Some(cell.global_cell_id),
            },
        ],
    }
}

/// What speaks for a module being registered: whatever of the two questions was
/// answered.
pub open spec fn evidence_on(client: ClientModel) -> (Seq<EvidenceModel>, ClientModel) {
    let (serving, c1) = serving_system_on(client);
    let (cell, c2) = cell_location_on(c1);
    (serving_evidence(serving) + cell_evidence(cell), c2)
}

/// Whether a list names a message: indexes are per store.
pub open spec fn names(list: Seq<ListedMessage>, message: ListedMessage) -> bool {
    exists|i: int|
        0 <= i < list.len() && (#[trigger] list[i]).storage == message.storage && list[i].index
            == message.index
}

/// A list, and what another one adds to it: each message once.
pub open spec fn merged(list: Seq<ListedMessage>, found: Seq<ListedMessage>) -> Seq<ListedMessage>
    decreases found.len(),
{
    if found.len() == 0 {
        list
    } else if names(list, found[0]) {
        merged(list, found.skip(1))
    } else {
        merged(list.push(found[0]), found.skip(1))
    }
}

/// One listing, merged into what was listed so far. One that is refused adds
/// nothing.
pub open spec fn listed_into(
    client: ClientModel,
    list: Seq<ListedMessage>,
    storage: StorageType,
    tag: MessageTag,
) -> (Seq<ListedMessage>, ClientModel) {
    let (found, after) = messages_listed_on(client, storage, tag, MessageMode::Gw);
    (
        match found {
            Ok(found) => merged(list, found),
            Err(_) => list,
        },
        after,
    )
}

/// Every stored message: both stores, read and unread alike.
pub open spec fn all_listed_on(client: ClientModel) -> (Seq<ListedMessage>, ClientModel) {
    let (l1, c1) = listed_into(client, Seq::empty(), StorageType::Uim, MessageTag::MtUnread);
    let (l2, c2) = listed_into(c1, l1, StorageType::Uim, MessageTag::MtRead);
    let (l3, c3) = listed_into(c2, l2, StorageType::Nv, MessageTag::MtUnread);
    listed_into(c3, l3, StorageType::Nv, MessageTag::MtRead)
}

fn is_named(list: &Vec<ListedMessage>, message: &ListedMessage) -> (yes: bool)
    ensures
        yes == names(list@, *message),
{
    let mut i: usize = 0;
    while i < list.len()
        invariant
            i <= list@.len(),
            forall|j: int|
                0 <= j < i ==> !((#[trigger] list@[j]).storage == message.storage && list@[j].index
                    == message.index),
        decreases list@.len() - i,
    {
        if list[i].storage == message.storage && list[i].index == message.index {
            return true;
        }
        i = i + 1;
    }
    false
}

fn merge(list: &mut Vec<ListedMessage>, found: &Vec<ListedMessage>)
    ensures
        final(list)@ == merged(old(list)@, found@),
{
    let mut i: usize = 0;
    proof {
        assert(found@.skip(0) =~= found@);
    }
    while i < found.len()
        invariant
            i <= found@.len(),
            merged(list@, found@.skip(i as int)) == merged(old(list)@, found@),
        decreases found@.len() - i,
    {
        proof {
            assert(found@.skip(i as int)[0] == found@[i as int]);
            assert(found@.skip(i as int).skip(1) =~= found@.skip(i + 1));
        }
        if !is_named(list, &found[i]) {
            list.push(found[i]);
        }
        i = i + 1;
    }
}

impl<T: QmiTransport> QmiClient<T> {
    fn list_into(&mut self, list: &mut Vec<ListedMessage>, storage: StorageType, tag: MessageTag)
        ensures
            (final(list)@, final(self)@) == listed_into(old(self)@, old(list)@, storage, tag),
    {
        match QmiClient::list_sms(self, storage, tag, MessageMode::Gw) {
            Ok(found) => merge(list, &found),
            Err(_) => {},
        }
    }
}

/// The refusal of a bearer that is not the cellular one.
pub open spec fn no_bearer(bearer: Bearer) -> PortFault {
    PortFault::Session("QMI WMS cannot send on "@ + bearer.text()@)
}

impl<T: QmiTransport> ModemPort for QmiClient<T> {
    type Model = ClientModel;

    open spec fn model(&self) -> ClientModel {
        self@
    }

    open spec fn kind_of(model: ClientModel) -> TransportKind {
        TransportKind::Qmi
    }

    open spec fn identified(model: ClientModel) -> (Result<Seq<char>, PortFault>, ClientModel) {
        let (numbers, after) = serial_numbers_on(model);
        (
            match numbers {
                Err(e) => Err(PortFault::Session(e.text())),
                Ok(numbers) => match numbers.imei {
                    Some(imei) => Ok(imei),
                    None => Err(PortFault::MissingImei),
                },
            },
            after,
        )
    }

    open spec fn versioned(model: ClientModel) -> (Result<Seq<char>, PortFault>, ClientModel) {
        ported(revision_on(model))
    }

    open spec fn registered(model: ClientModel) -> (
        Result<Seq<EvidenceModel>, PortFault>,
        ClientModel,
    ) {
        let (evidence, after) = evidence_on(model);
        (Ok(evidence), after)
    }

    open spec fn listed(model: ClientModel) -> (
        Result<Seq<ListedMessage>, PortFault>,
        ClientModel,
    ) {
        let (list, after) = all_listed_on(model);
        (Ok(list), after)
    }

    open spec fn read(model: ClientModel, storage: StorageType, index: u32) -> (
        Result<RawMessageModel, PortFault>,
        ClientModel,
    ) {
        ported(message_read_on(model, storage, index, MessageMode::Gw))
    }

    open spec fn deleted(model: ClientModel, storage: StorageType, index: u32) -> (
        Result<(), PortFault>,
        ClientModel,
    ) {
        ported(message_deleted_on(model, storage, index, MessageMode::Gw))
    }

    open spec fn sent(model: ClientModel, bearer: Bearer, pdu: Seq<u8>) -> (
        Result<(), PortFault>,
        ClientModel,
    ) {
        match bearer {
            Bearer::Cellular => {
                let (sent, after) = message_sent_on(model, GSM_WCDMA_FORMAT, pdu);
                (
                    match sent {
                        Ok(_) => Ok(()),
                        Err(e) => Err(PortFault::Session(e.text())),
                    },
                    after,
                )
            },
            Bearer::Other(_) => (Err(no_bearer(bearer)), model),
        }
    }

    fn transport_kind(&self) -> (kind: TransportKind) {
        TransportKind::Qmi
    }

    fn imei(&mut self) -> (imei: Result<String, PortError>) {
        match self.get_serial_numbers() {
            Err(e) => Err(PortError::from_session(e)),
            Ok(numbers) => match numbers.imei {
                Some(imei) => Ok(imei),
                None => Err(PortError::MissingImei),
            },
        }
    }

    fn firmware(&mut self) -> (firmware: Result<String, PortError>) {
        match self.get_revision() {
            Err(e) => Err(PortError::from_session(e)),
            Ok(revision) => Ok(revision.device_rev_id),
        }
    }

    fn registration_evidence(&mut self) -> (evidence: Result<
        Vec<RegistrationEvidence>,
        PortError,
    >) {
        let mut evidence: Vec<RegistrationEvidence> = Vec::new();
        let ghost (serving_result, c1) = serving_system_on(self@);
        let ghost (cell_result, c2) = cell_location_on(c1);
        proof {
            assert(evidence_models(evidence@) =~= Seq::empty());
        }
        if let Ok(serving) = self.get_serving_system() {
            let plmn: Option<Plmn> = plmn_of(&serving);
            evidence.push(
                RegistrationEvidence::ServingSystem {
                    registered: serving.registration_state == NasRegistrationState::Registered,
                    plmn,
                },
            );
        }
        proof {
            assert(evidence_models(evidence@) =~= serving_evidence(serving_result));
        }
        let ghost first = evidence_models(evidence@);
        if let Ok(info) = self.get_cell_location() {
            if let Some(lte) = info.lte {
                evidence.push(
                    RegistrationEvidence::CellLocation {
                        plmn: Some(Plmn::new(lte.mcc, lte.mnc)),
                        global_cell_id: Some(lte.global_cell_id),
                    },
                );
            }
        }
        proof {
            assert(evidence_models(evidence@) =~= first + cell_evidence(cell_result));
        }
        Ok(evidence)
    }

    // Both stores because the modem chooses where a received message lands, and
    // both tags because the read flag belongs to the modem and can be flipped by
    // anyone holding a serial port. A store or tag that cannot be listed is
    // skipped rather than failing the pass, and a modem that ignores the tag
    // answers both queries with the same rows, so each message counts once.
    fn list_sms(&mut self) -> (listed: Result<Vec<ListedMessage>, PortError>) {
        let mut listed: Vec<ListedMessage> = Vec::new();
        proof {
            assert(listed@ =~= Seq::empty());
        }
        self.list_into(&mut listed, StorageType::Uim, MessageTag::MtUnread);
        self.list_into(&mut listed, StorageType::Uim, MessageTag::MtRead);
        self.list_into(&mut listed, StorageType::Nv, MessageTag::MtUnread);
        self.list_into(&mut listed, StorageType::Nv, MessageTag::MtRead);
        Ok(listed)
    }

    fn read_sms(&mut self, storage: StorageType, index: u32) -> (raw: Result<
        RawMessage,
        PortError,
    >) {
        match QmiClient::read_sms(self, storage, index, MessageMode::Gw) {
            Ok(raw) => Ok(raw),
            Err(e) => Err(PortError::from_session(e)),
        }
    }

    fn delete_sms(&mut self, storage: StorageType, index: u32) -> (result: Result<
        (),
        PortError,
    >) {
        match QmiClient::delete_sms(self, storage, index, MessageMode::Gw) {
            Ok(_) => Ok(()),
            Err(e) => Err(PortError::from_session(e)),
        }
    }

    fn send_on(&mut self, bearer: Bearer, pdu: &[u8]) -> (result: Result<(), PortError>) {
        match bearer {
            Bearer::Cellular => match self.send_sms(GSM_WCDMA_FORMAT, pdu) {
                Ok(_) => Ok(()),
                Err(e) => Err(PortError::from_session(e)),
            },
            Bearer::Other(_) => {
                let mut text: String = owned("QMI WMS cannot send on ");
                text.append(bearer.name());
                Err(PortError::Session(text))
            },
        }
    }
}

proof fn lemma_merged(list: Seq<ListedMessage>, found: Seq<ListedMessage>)
    requires
        each_once(list),
    ensures
        each_once(merged(list, found)),
    decreases found.len(),
{
    if found.len() > 0 {
        if !names(list, found[0]) {
            lemma_merged(list.push(found[0]), found.skip(1));
        } else {
            lemma_merged(list, found.skip(1));
        }
    }
}

/// Whether no message stands twice in a list.
pub open spec fn each_once(list: Seq<ListedMessage>) -> bool {
    forall|i: int, j: int|
        0 <= i < j < list.len() ==> (#[trigger] list[i]).storage != (#[trigger] list[j]).storage
            || list[i].index != list[j].index
}

/// A message is listed once, whatever the modem makes of the tags it is asked
/// for: reading one twice in a pass would store it twice.
pub proof fn law_a_message_is_listed_once(client: ClientModel)
    ensures
        each_once(all_listed_on(client).0),
{
    let (l1, c1) = listed_into(client, Seq::empty(), StorageType::Uim, MessageTag::MtUnread);
    let (l2, c2) = listed_into(c1, l1, StorageType::Uim, MessageTag::MtRead);
    let (l3, c3) = listed_into(c2, l2, StorageType::Nv, MessageTag::MtUnread);
    let f1 = messages_listed_on(client, StorageType::Uim, MessageTag::MtUnread, MessageMode::Gw).0;
    let f2 = messages_listed_on(c1, StorageType::Uim, MessageTag::MtRead, MessageMode::Gw).0;
    let f3 = messages_listed_on(c2, StorageType::Nv, MessageTag::MtUnread, MessageMode::Gw).0;
    let f4 = messages_listed_on(c3, StorageType::Nv, MessageTag::MtRead, MessageMode::Gw).0;
    if f1 is Ok {
        lemma_merged(Seq::empty(), f1->Ok_0);
    }
    if f2 is Ok {
        lemma_merged(l1, f2->Ok_0);
    }
    if f3 is Ok {
        lemma_merged(l2, f3->Ok_0);
    }
    if f4 is Ok {
        lemma_merged(l3, f4->Ok_0);
    }
}

} // verus!
