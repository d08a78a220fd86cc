//! An in-memory modem.

use crate::domain::{
    copy_evidence, evidence_models, Bearer, EvidenceModel, RegistrationEvidence,
};
use crate::octets::copy_of;
use crate::port::{ModemPort, PortError, PortFault, TransportKind};
use crate::text::{decimal, owned, push_decimal};
use crate::wms::{ListedMessage, MessageTag, RawMessage, RawMessageModel, StorageType};
use vstd::prelude::*;

verus! {

#[derive(Clone, Debug)]
struct FakeSms {
    listed: ListedMessage,
    raw: RawMessage,
}

/// In-memory modem used by hardware-layer tests. It keeps one store, and takes
/// every store that it is asked about for that one.
#[derive(Clone, Debug)]
pub struct FakeModem {
    pub imei: String,
    pub firmware: String,
    pub evidence: Vec<RegistrationEvidence>,
    messages: Vec<FakeSms>,
    reads: Vec<u32>,
    deletes: Vec<u32>,
    radio_on: bool,
    fail_bearers: Vec<Bearer>,
    sent: Vec<(Bearer, Vec<u8>)>,
}

/// What an in-memory modem holds and was asked.
#[verifier::ext_equal]
pub struct FakeModel {
    pub imei: Seq<char>,
    pub firmware: Seq<char>,
    pub evidence: Seq<EvidenceModel>,
    pub messages: Seq<(ListedMessage, RawMessageModel)>,
    pub reads: Seq<u32>,
    pub deletes: Seq<u32>,
    pub radio_on: bool,
    pub fail_bearers: Seq<Bearer>,
    pub sent: Seq<(Bearer, Seq<u8>)>,
}

spec fn sms_models(list: Seq<FakeSms>) -> Seq<(ListedMessage, RawMessageModel)> {
    list.map_values(|sms: FakeSms| (sms.listed, sms.raw@))
}

/// What was sent, by what it holds.
pub open spec fn sent_models(list: Seq<(Bearer, Vec<u8>)>) -> Seq<(Bearer, Seq<u8>)> {
    list.map_values(|sent: (Bearer, Vec<u8>)| (sent.0, sent.1@))
}

impl View for FakeModem {
    type V = FakeModel;

    closed spec fn view(&self) -> FakeModel {
        FakeModel {
            imei: self.imei@,
            firmware: self.firmware@,
            evidence: evidence_models(self.evidence@),
            messages: sms_models(self.messages@),
            reads: self.reads@,
            deletes: self.deletes@,
            radio_on: self.radio_on,
            fail_bearers: self.fail_bearers@,
            sent: sent_models(self.sent@),
        }
    }
}

impl FakeModem {
    pub fn new(imei: &str, firmware: &str) -> (modem: Self)
        ensures
            modem@ == (FakeModel {
                imei: imei@,
                firmware: firmware@,
                evidence: Seq::empty(),
                messages: Seq::empty(),
                reads: Seq::empty(),
                deletes: Seq::empty(),
                radio_on: true,
                fail_bearers: Seq::empty(),
                sent: Seq::empty(),
            }),
    {
        let modem = FakeModem {
            imei: owned(imei),
            firmware: owned(firmware),
            evidence: Vec::new(),
            messages: Vec::new(),
            reads: Vec::new(),
            deletes: Vec::new(),
            radio_on: true,
            fail_bearers: Vec::new(),
            sent: Vec::new(),
        };
        proof {
            assert(modem@ =~= (FakeModel {
                imei: imei@,
                firmware: firmware@,
                evidence: Seq::empty(),
                messages: Seq::empty(),
                reads: Seq::empty(),
                deletes: Seq::empty(),
                radio_on: true,
                fail_bearers: Seq::empty(),
                sent: Seq::empty(),
            }));
        }
        modem
    }

    pub fn fail_on(&mut self, bearer: Bearer)
        ensures
            final(self)@ == (FakeModel {
                fail_bearers: old(self)@.fail_bearers.push(bearer),
                ..old(self)@
            }),
    {
        self.fail_bearers.push(bearer);
    }

    pub fn sent(&self) -> (sent: &[(Bearer, Vec<u8>)])
        ensures
            sent_models(sent@) == self@.sent,
    {
        &self.sent
    }

    pub fn push_sms(&mut self, index: u32, tag: MessageTag, pdu: Vec<u8>)
        ensures
            final(self)@ == (FakeModel {
                messages: old(self)@.messages.push(
                    (
                        ListedMessage { index, tag, storage: StorageType::Uim },
                        RawMessageModel { tag: Some(tag), format: 0x06, pdu: pdu@ },
                    ),
                ),
                ..old(self)@
            }),
    {
        let sms = FakeSms {
            listed: ListedMessage { index, tag, storage: StorageType::Uim },
            raw: RawMessage { tag: Some(tag), format: 0x06, pdu },
        };
        let ghost shown = (sms.listed, sms.raw@);
        self.messages.push(sms);
        proof {
            assert(sms_models(self.messages@) =~= sms_models(old(self).messages@).push(shown));
        }
    }

    pub fn reads(&self) -> (reads: &[u32])
        ensures
            reads@ == self@.reads,
    {
        &self.reads
    }

    pub fn deletes(&self) -> (deletes: &[u32])
        ensures
            deletes@ == self@.deletes,
    {
        &self.deletes
    }

    pub fn radio_on(&self) -> (on: bool)
        ensures
            on == self@.radio_on,
    {
        self.radio_on
    }

    pub fn set_radio_on(&mut self, on: bool)
        ensures
            final(self)@ == (FakeModel { radio_on: on, ..old(self)@ }),
    {
        self.radio_on = on;
    }

    fn is_deleted(&self, index: u32) -> (yes: bool)
        ensures
            yes == self@.deletes.contains(index),
    {
        let mut i: usize = 0;
        while i < self.deletes.len()
            invariant
                i <= self.deletes@.len(),
                forall|j: int| 0 <= j < i ==> self.deletes@[j] != index,
            decreases self.deletes@.len() - i,
        {
            if self.deletes[i] == index {
                proof {
                    assert(self@.deletes[i as int] == index);
                }
                return true;
            }
            i = i + 1;
        }
        false
    }

    fn fails(&self, bearer: Bearer) -> (yes: bool)
        ensures
            yes == failing(self@.fail_bearers, bearer),
    {
        let mut i: usize = 0;
        while i < self.fail_bearers.len()
            invariant
                i <= self.fail_bearers@.len(),
                forall|j: int| 0 <= j < i ==> !(#[trigger] self.fail_bearers@[j]).same(bearer),
            decreases self.fail_bearers@.len() - i,
        {
            if self.fail_bearers[i].is(bearer) {
                proof {
                    assert(self@.fail_bearers[i as int].same(bearer));
                }
                return true;
            }
            i = i + 1;
        }
        false
    }
}

/// Whether a bearer is among those that fail.
pub open spec fn failing(bearers: Seq<Bearer>, bearer: Bearer) -> bool {
    exists|i: int| 0 <= i < bearers.len() && (#[trigger] bearers[i]).same(bearer)
}

/// The messages that were not deleted.
pub open spec fn left_over(
    messages: Seq<(ListedMessage, RawMessageModel)>,
    deletes: Seq<u32>,
) -> Seq<ListedMessage>
    decreases messages.len(),
{
    if messages.len() == 0 {
        Seq::empty()
    } else if deletes.contains(messages.last().0.index) {
        left_over(messages.drop_last(), deletes)
    } else {
        left_over(messages.drop_last(), deletes).push(messages.last().0)
    }
}

/// The first message of an index.
pub open spec fn message_of(messages: Seq<(ListedMessage, RawMessageModel)>, index: u32) -> Option<
    RawMessageModel,
>
    decreases messages.len(),
{
    if messages.len() == 0 {
        None
    } else if messages[0].0.index == index {
        Some(messages[0].1)
    } else {
        message_of(messages.skip(1), index)
    }
}

impl ModemPort for FakeModem {
    type Model = FakeModel;

    open spec fn model(&self) -> FakeModel {
        self@
    }

    open spec fn kind_of(model: FakeModel) -> TransportKind {
        TransportKind::Qmi
    }

    open spec fn identified(model: FakeModel) -> (Result<Seq<char>, PortFault>, FakeModel) {
        (Ok(model.imei), model)
    }

    open spec fn versioned(model: FakeModel) -> (Result<Seq<char>, PortFault>, FakeModel) {
        (Ok(model.firmware), model)
    }

    open spec fn registered(model: FakeModel) -> (
        Result<Seq<EvidenceModel>, PortFault>,
        FakeModel,
    ) {
        (Ok(model.evidence), model)
    }

    open spec fn listed(model: FakeModel) -> (Result<Seq<ListedMessage>, PortFault>, FakeModel) {
        (Ok(left_over(model.messages, model.deletes)), model)
    }

    open spec fn read(model: FakeModel, storage: StorageType, index: u32) -> (
        Result<RawMessageModel, PortFault>,
        FakeModel,
    ) {
        (
            match message_of(model.messages, index) {
                Some(raw) => Ok(raw),
                None => Err(
                    PortFault::Session("no SMS at index "@ + decimal(index as nat)),
                ),
            },
            FakeModel { reads: model.reads.push(index), ..model },
        )
    }

    open spec fn deleted(model: FakeModel, storage: StorageType, index: u32) -> (
        Result<(), PortFault>,
        FakeModel,
    ) {
        (Ok(()), FakeModel { deletes: model.deletes.push(index), ..model })
    }

    open spec fn sent(model: FakeModel, bearer: Bearer, pdu: Seq<u8>) -> (
        Result<(), PortFault>,
        FakeModel,
    ) {
        if failing(model.fail_bearers, bearer) {
            (Err(PortFault::Session(bearer.text()@ + " send failed"@)), model)
        } else {
            (Ok(()), FakeModel { sent: model.sent.push((bearer, pdu)), ..model })
        }
    }

    fn transport_kind(&self) -> (kind: TransportKind) {
        TransportKind::Qmi
    }

    fn imei(&mut self) -> (imei: Result<String, PortError>) {
        Ok(owned(self.imei.as_str()))
    }

    fn firmware(&mut self) -> (firmware: Result<String, PortError>) {
        Ok(owned(self.firmware.as_str()))
    }

    fn registration_evidence(&mut self) -> (evidence: Result<
        Vec<RegistrationEvidence>,
        PortError,
    >) {
        let mut list: Vec<RegistrationEvidence> = Vec::new();
        let mut i: usize = 0;
        while i < self.evidence.len()
            invariant
                i <= self.evidence@.len(),
                list@.len() == i,
                self@ == old(self)@,
                self.evidence@ == old(self).evidence@,
                forall|j: int| 0 <= j < i ==> (#[trigger] list@[j])@ == self.evidence@[j]@,
            decreases self.evidence@.len() - i,
        {
            list.push(copy_evidence(&self.evidence[i]));
            i = i + 1;
        }
        proof {
            assert(evidence_models(list@) =~= evidence_models(self.evidence@));
        }
        Ok(list)
    }

    fn list_sms(&mut self) -> (listed: Result<Vec<ListedMessage>, PortError>) {
        let ghost all = self@.messages;
        let mut listed: Vec<ListedMessage> = Vec::new();
        let mut i: usize = 0;
        proof {
            assert(all.take(0) =~= Seq::empty());
            assert(listed@ =~= Seq::empty());
        }
        while i < self.messages.len()
            invariant
                i <= self.messages@.len(),
                self@ == old(self)@,
                all == self@.messages,
                all == sms_models(self.messages@),
                listed@ == left_over(all.take(i as int), self@.deletes),
            decreases self.messages@.len() - i,
        {
            proof {
                assert(all.take(i + 1).drop_last() =~= all.take(i as int));
                assert(all.take(i + 1).last().0 == self.messages@[i as int].listed);
            }
            if !self.is_deleted(self.messages[i].listed.index) {
                listed.push(self.messages[i].listed);
            }
            i = i + 1;
        }
        proof {
            assert(all.take(i as int) =~= all);
        }
        Ok(listed)
    }

    fn read_sms(&mut self, _storage: StorageType, index: u32) -> (raw: Result<
        RawMessage,
        PortError,
    >) {
        self.reads.push(index);
        let ghost all = self@.messages;
        let mut i: usize = 0;
        proof {
            assert(all.skip(0) =~= all);
        }
        while i < self.messages.len()
            invariant
                i <= self.messages@.len(),
                self@ == (FakeModel { reads: old(self)@.reads.push(index), ..old(self)@ }),
                all == self@.messages,
                all == sms_models(self.messages@),
                message_of(all.skip(i as int), index) == message_of(all, index),
            decreases self.messages@.len() - i,
        {
            proof {
                assert(all.skip(i as int)[0] == (
                    self.messages@[i as int].listed,
                    self.messages@[i as int].raw@,
                ));
                assert(all.skip(i as int).skip(1) =~= all.skip(i + 1));
            }
            if self.messages[i].listed.index == index {
                return Ok(self.messages[i].raw.clone());
            }
            i = i + 1;
        }
        let mut text: String = owned("no SMS at index ");
        push_decimal(&mut text, index as u64);
        Err(PortError::Session(text))
    }

    fn delete_sms(&mut self, _storage: StorageType, index: u32) -> (result: Result<
        (),
        PortError,
    >) {
        self.deletes.push(index);
        Ok(())
    }

    fn send_on(&mut self, bearer: Bearer, pdu: &[u8]) -> (result: Result<(), PortError>) {
        if self.fails(bearer) {
            let mut text: String = owned(bearer.name());
            text.append(" send failed");
            return Err(PortError::Session(text));
        }
        self.sent.push((bearer, copy_of(pdu)));
        proof {
            assert(sent_models(self.sent@) =~= sent_models(old(self).sent@).push((bearer, pdu@)));
        }
        Ok(())
    }
}

} // verus!
