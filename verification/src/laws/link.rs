//! What a service call puts on the link, octet by octet, and what it takes from
//! the answer.

use crate::dms::{text_field, OperatingMode};
use crate::domain::Bearer;
use crate::octets::{le16, le16_octets, le32, le32_octets};
use crate::port::ModemPort;
use crate::session::{
    allocated, apdu_sent_on, begun, by_dms, by_wms, cell_location_on, channel_closed_on,
    channel_opened_on, file_on, iccid_on, manufacturer_on, message_deleted_on, message_read_on,
    message_sent_on, messages_listed_on, mode_set_on, model_on, operating_mode_on, revision_on,
    round_trip, serial_numbers_on, serving_system_on, synced_on, ClientModel, QmiClient,
    QmiTransport, SessionFault,
};
use crate::uim::{joined, ApduModel};
use crate::wire::{
    allocation_in, law_fitting_tlvs_make_a_request, release_message, request_frame, tlv_octets,
    tlvs_octets, ClientAssignment, ClientId, MessageId, MessageModel, ServiceId, TlvModel,
    TransactionId, TransactionKey,
};
use crate::wms::{list_in, MessageMode, MessageTag, RawMessageModel, StorageType};
use vstd::prelude::*;

verus! {

/// One typed value: its kind, the length of the value with the low octet first,
/// and the value.
pub open spec fn typed(kind: u8, value: Seq<u8>) -> Seq<u8> {
    seq![kind, (value.len() % 256) as u8, (value.len() / 256) as u8] + value
}

/// A service request as it crosses the link. The first length counts all that
/// stands behind the marker octet, the second one the body.
pub open spec fn asking(
    service: u8,
    client: u8,
    transaction: u16,
    message: int,
    body: Seq<u8>,
) -> Seq<u8> {
    seq![
        0x01u8,
        ((body.len() + 12) % 256) as u8,
        ((body.len() + 12) / 256) as u8,
        0x00u8,
        service,
        client,
        0x00u8,
        (transaction % 256) as u8,
        (transaction / 256) as u8,
        (message % 256) as u8,
        (message / 256) as u8,
        (body.len() % 256) as u8,
        (body.len() / 256) as u8,
    ] + body
}

/// The client has an ID for the service, and the transaction that comes up is
/// not open.
pub open spec fn ready(client: ClientModel, service: u8, id: u8) -> bool {
    &&& service != 0
    &&& id != 0
    &&& client.clients.contains_key(ServiceId(service))
    &&& client.clients[ServiceId(service)] == ClientId(id)
    &&& !client.pending.contains_key(
        TransactionKey {
            service: ServiceId(service),
            client_id: ClientId(id),
            transaction: TransactionId(client.next_service),
        },
    )
}

/// What was sent is one frame more than before: the request of that service
/// and message, with that body.
pub open spec fn asked_once(
    before: ClientModel,
    after: ClientModel,
    service: u8,
    id: u8,
    message: int,
    body: Seq<u8>,
) -> bool {
    after.link.sent == before.link.sent.push(
        asking(service, id, before.next_service, message, body),
    )
}

/// Three typed values, one behind the other.
pub proof fn lemma_three_typed(a: TlvModel, b: TlvModel, c: TlvModel)
    requires
        a.value.len() <= 65535,
        b.value.len() <= 65535,
        c.value.len() <= 65535,
    ensures
        tlvs_octets(seq![a]) == typed(a.kind, a.value),
        tlvs_octets(seq![a, b]) == typed(a.kind, a.value) + typed(b.kind, b.value),
        tlvs_octets(seq![a, b, c]) == typed(a.kind, a.value) + typed(b.kind, b.value) + typed(
            c.kind,
            c.value,
        ),
{
    reveal_with_fuel(tlvs_octets, 2);
    assert(seq![a].drop_last() =~= Seq::<TlvModel>::empty());
    assert(seq![a, b].drop_last() =~= seq![a]);
    assert(seq![a, b, c].drop_last() =~= seq![a, b]);
    assert(tlvs_octets(seq![a]) =~= tlv_octets(a));
    assert(tlv_octets(a) =~= typed(a.kind, a.value));
    assert(tlv_octets(b) =~= typed(b.kind, b.value));
    assert(tlv_octets(c) =~= typed(c.kind, c.value));
}

/// Rows of typed values follow one another.
pub proof fn lemma_octets_join(first: Seq<TlvModel>, second: Seq<TlvModel>)
    ensures
        tlvs_octets(first + second) == tlvs_octets(first) + tlvs_octets(second),
    decreases second.len(),
{
    if second.len() == 0 {
        assert(first + second =~= first);
        assert(tlvs_octets(first) + tlvs_octets(second) =~= tlvs_octets(first));
    } else {
        lemma_octets_join(first, second.drop_last());
        assert((first + second).drop_last() =~= first + second.drop_last());
        assert(tlvs_octets(first + second) =~= tlvs_octets(first) + tlvs_octets(second));
    }
}

/// The frame of a request of a service.
pub proof fn lemma_frame(service: u8, id: u8, transaction: u16, message: u16, tlvs: Seq<TlvModel>)
    requires
        service != 0,
        tlvs_octets(tlvs).len() <= 65523,
    ensures
        request_frame(
            MessageModel {
                service: ServiceId(service),
                client: ClientId(id),
                transaction: TransactionId(transaction),
                message: MessageId(message),
                payload: tlvs_octets(tlvs),
            },
        ) == asking(service, id, transaction, message as int, tlvs_octets(tlvs)),
{
    assert(request_frame(
        MessageModel {
            service: ServiceId(service),
            client: ClientId(id),
            transaction: TransactionId(transaction),
            message: MessageId(message),
            payload: tlvs_octets(tlvs),
        },
    ) =~= asking(service, id, transaction, message as int, tlvs_octets(tlvs)));
}

/// A request of a few typed values can be made, and this is its frame.
pub proof fn lemma_request(client: ClientModel, service: u8, id: u8, message: u16, tlvs: Seq<TlvModel>)
    requires
        ready(client, service, id),
        tlvs_octets(tlvs).len() <= 65523,
    ensures
        ({
            let request = MessageModel {
                service: ServiceId(service),
                client: ClientId(id),
                transaction: TransactionId(client.next_service),
                message: MessageId(message),
                payload: tlvs_octets(tlvs),
            };
            &&& crate::wire::request_of_tlvs(
                ServiceId(service),
                ClientId(id),
                TransactionId(client.next_service),
                MessageId(message),
                tlvs,
            ) == Ok::<MessageModel, crate::wire::WireError>(request)
            &&& request_frame(request) == asking(
                service,
                id,
                client.next_service,
                message as int,
                tlvs_octets(tlvs),
            )
            &&& begun(client, ServiceId(service)).0 == Ok::<
                (ClientAssignment, TransactionId),
                SessionFault,
            >(
                (
                    ClientAssignment { service: ServiceId(service), client_id: ClientId(id) },
                    TransactionId(client.next_service),
                ),
            )
            &&& round_trip(begun(client, ServiceId(service)).1, request).1.link.sent
                == client.link.sent.push(request_frame(request))
        }),
{
    law_fitting_tlvs_make_a_request(
        ServiceId(service),
        ClientId(id),
        TransactionId(client.next_service),
        MessageId(message),
        tlvs,
    );
    let request = MessageModel {
        service: ServiceId(service),
        client: ClientId(id),
        transaction: TransactionId(client.next_service),
        message: MessageId(message),
        payload: tlvs_octets(tlvs),
    };
    assert(request_frame(request) =~= asking(
        service,
        id,
        client.next_service,
        message as int,
        tlvs_octets(tlvs),
    ));
}

/// Nothing that was sent is taken back.
pub open spec fn log_kept(before: ClientModel, after: ClientModel) -> bool {
    before.link.sent.is_prefix_of(after.link.sent)
}

pub proof fn lemma_log_kept(a: ClientModel, b: ClientModel, c: ClientModel)
    requires
        log_kept(a, b),
        log_kept(b, c),
    ensures
        log_kept(a, c),
{
    assert(a.link.sent =~= c.link.sent.take(a.link.sent.len() as int));
}

pub proof fn lemma_begun_keeps_the_log(client: ClientModel, service: ServiceId)
    ensures
        log_kept(client, begun(client, service).1),
{
    lemma_log_is_its_own(client);
    if !client.clients.contains_key(service) && service != ServiceId(0) {
        let (transaction, numbered) = crate::session::control_transaction(client);
        let request = crate::wire::allocation_request(service, transaction);
        lemma_round_trip_keeps_the_log(numbered, request);
    }
}

proof fn lemma_log_is_its_own(client: ClientModel)
    ensures
        log_kept(client, client),
{
    assert(client.link.sent =~= client.link.sent.take(client.link.sent.len() as int));
}

pub proof fn lemma_round_trip_keeps_the_log(client: ClientModel, request: MessageModel)
    ensures
        log_kept(client, round_trip(client, request).1),
{
    lemma_log_is_its_own(client);
    let log = client.link.sent.push(request_frame(request));
    assert(client.link.sent =~= log.take(client.link.sent.len() as int));
}

pub proof fn lemma_apdu_keeps_the_log(client: ClientModel, slot: u8, channel: u8, apdu: Seq<u8>)
    ensures
        log_kept(client, apdu_sent_on(client, slot, channel, apdu).1),
{
    let service = ServiceId(crate::uim::UIM_SERVICE);
    lemma_begun_keeps_the_log(client, service);
    let (start, after) = begun(client, service);
    if let Ok((assignment, transaction)) = start {
        let built = crate::uim::send_apdu_message(assignment, transaction, slot, channel, apdu);
        if let Ok(request) = built {
            lemma_round_trip_keeps_the_log(after, request);
            lemma_log_kept(client, after, round_trip(after, request).1);
        }
    }
}

/// The body of a request that hands a card an APDU.
pub open spec fn to_the_card(slot: u8, channel: u8, apdu: Seq<u8>) -> Seq<u8> {
    typed(0x10, seq![channel]) + typed(
        0x02,
        seq![(apdu.len() % 256) as u8, (apdu.len() / 256) as u8] + apdu,
    ) + typed(0x01, seq![slot])
}

/// An APDU goes to the card as one UIM request: the channel, then the counted
/// APDU, then the slot, each under its own type.
pub proof fn law_an_apdu_is_one_request(
    client: ClientModel,
    id: u8,
    slot: u8,
    channel: u8,
    apdu: Seq<u8>,
)
    requires
        ready(client, 0x0b, id),
        apdu.len() <= 65000,
    ensures
        asked_once(
            client,
            apdu_sent_on(client, slot, channel, apdu).1,
            0x0b,
            id,
            0x3b,
            to_the_card(slot, channel, apdu),
        ),
{
    let a = TlvModel { kind: 0x10, value: seq![channel] };
    let b = TlvModel {
        kind: 0x02,
        value: seq![(apdu.len() % 256) as u8, (apdu.len() / 256) as u8] + apdu,
    };
    let c = TlvModel { kind: 0x01, value: seq![slot] };
    lemma_three_typed(a, b, c);
    lemma_request(client, 0x0b, id, 0x3b, seq![a, b, c]);
    assert(crate::octets::le16_octets(apdu.len() as u16) + apdu =~= b.value);
}

/// Opening a logical channel names the application and the slot.
pub proof fn law_a_channel_is_opened_to_its_application(
    client: ClientModel,
    id: u8,
    slot: u8,
    aid: Seq<u8>,
)
    requires
        ready(client, 0x0b, id),
        aid.len() <= 255,
    ensures
        asked_once(
            client,
            channel_opened_on(client, slot, aid).1,
            0x0b,
            id,
            0x42,
            typed(0x10, seq![aid.len() as u8] + aid) + typed(0x01, seq![slot]),
        ),
{
    let a = TlvModel { kind: 0x10, value: seq![aid.len() as u8] + aid };
    let b = TlvModel { kind: 0x01, value: seq![slot] };
    lemma_three_typed(a, b, b);
    lemma_request(client, 0x0b, id, 0x42, seq![a, b]);
}

/// Closing a logical channel names the slot and the channel, and ends the
/// application on it.
pub proof fn law_a_channel_is_closed_by_its_number(
    client: ClientModel,
    id: u8,
    slot: u8,
    channel: u8,
)
    requires
        ready(client, 0x0b, id),
    ensures
        asked_once(
            client,
            channel_closed_on(client, slot, channel).1,
            0x0b,
            id,
            0x3f,
            typed(0x01, seq![slot]) + typed(0x10, seq![channel]) + typed(0x13, seq![0x01u8]),
        ),
{
    let a = TlvModel { kind: 0x01, value: seq![slot] };
    let b = TlvModel { kind: 0x10, value: seq![channel] };
    let c = TlvModel { kind: 0x13, value: seq![0x01u8] };
    lemma_three_typed(a, b, c);
    lemma_request(client, 0x0b, id, 0x3f, seq![a, b, c]);
    assert(crate::uim::close_channel_tlvs(slot, channel) =~= seq![a, b, c]);
}

/// The octet that stands for a message store.
pub open spec fn store_octet(storage: StorageType) -> u8 {
    match storage {
        StorageType::Uim => 0,
        StorageType::Nv => 1,
    }
}

/// The octet that stands for the kind of a message.
pub open spec fn tag_octet(tag: MessageTag) -> u8 {
    match tag {
        MessageTag::MtRead => 0,
        MessageTag::MtUnread => 1,
        MessageTag::MoSent => 2,
        MessageTag::MoUnsent => 3,
        MessageTag::Unknown(value) => value,
    }
}

/// The octet that stands for the system a message belongs to.
pub open spec fn mode_number(mode: MessageMode) -> u8 {
    match mode {
        MessageMode::Cdma => 0,
        MessageMode::Gw => 1,
    }
}

/// Reading a stored message names its store and its index, low octet first.
pub proof fn law_a_message_is_read_by_its_index(
    client: ClientModel,
    id: u8,
    storage: StorageType,
    index: u32,
    mode: MessageMode,
)
    requires
        ready(client, 0x05, id),
    ensures
        asked_once(
            client,
            message_read_on(client, storage, index, mode).1,
            0x05,
            id,
            0x22,
            typed(
                0x01,
                seq![
                    store_octet(storage),
                    (index % 256) as u8,
                    (index / 256 % 256) as u8,
                    (index / 65536 % 256) as u8,
                    (index / 16777216) as u8,
                ],
            ) + typed(0x10, seq![mode_number(mode)]),
        ),
{
    let a = TlvModel {
        kind: 0x01,
        value: seq![
            store_octet(storage),
            (index % 256) as u8,
            (index / 256 % 256) as u8,
            (index / 65536 % 256) as u8,
            (index / 16777216) as u8,
        ],
    };
    let b = TlvModel { kind: 0x10, value: seq![mode_number(mode)] };
    lemma_three_typed(a, b, b);
    lemma_request(client, 0x05, id, 0x22, seq![a, b]);
    assert(seq![storage.wire()] + crate::octets::le32_octets(index) =~= a.value);
}

/// Deleting a stored message names its store and its index, low octet first.
pub proof fn law_a_message_is_deleted_by_its_index(
    client: ClientModel,
    id: u8,
    storage: StorageType,
    index: u32,
    mode: MessageMode,
)
    requires
        ready(client, 0x05, id),
    ensures
        asked_once(
            client,
            message_deleted_on(client, storage, index, mode).1,
            0x05,
            id,
            0x24,
            typed(0x01, seq![store_octet(storage)]) + typed(
                0x10,
                seq![
                    (index % 256) as u8,
                    (index / 256 % 256) as u8,
                    (index / 65536 % 256) as u8,
                    (index / 16777216) as u8,
                ],
            ) + typed(0x12, seq![mode_number(mode)]),
        ),
{
    let a = TlvModel { kind: 0x01, value: seq![store_octet(storage)] };
    let b = TlvModel {
        kind: 0x10,
        value: seq![
            (index % 256) as u8,
            (index / 256 % 256) as u8,
            (index / 65536 % 256) as u8,
            (index / 16777216) as u8,
        ],
    };
    let c = TlvModel { kind: 0x12, value: seq![mode_number(mode)] };
    lemma_three_typed(a, b, c);
    lemma_request(client, 0x05, id, 0x24, seq![a, b, c]);
    assert(crate::octets::le32_octets(index) =~= b.value);
}

/// A submitted PDU goes out whole, behind its format and its length.
pub proof fn law_a_message_is_submitted_whole(
    client: ClientModel,
    id: u8,
    format: u8,
    pdu: Seq<u8>,
)
    requires
        ready(client, 0x05, id),
        pdu.len() <= 65000,
    ensures
        asked_once(
            client,
            message_sent_on(client, format, pdu).1,
            0x05,
            id,
            0x20,
            typed(
                0x01,
                seq![format, (pdu.len() % 256) as u8, (pdu.len() / 256) as u8] + pdu,
            ),
        ),
{
    let a = TlvModel {
        kind: 0x01,
        value: seq![format, (pdu.len() % 256) as u8, (pdu.len() / 256) as u8] + pdu,
    };
    lemma_three_typed(a, a, a);
    lemma_request(client, 0x05, id, 0x20, seq![a]);
    assert(seq![format] + crate::octets::le16_octets(pdu.len() as u16) + pdu =~= a.value);
}

/// A listing names the store, which messages, and the mode.
pub proof fn law_a_listing_names_its_store(
    client: ClientModel,
    id: u8,
    storage: StorageType,
    tag: MessageTag,
    mode: MessageMode,
)
    requires
        ready(client, 0x05, id),
    ensures
        asked_once(
            client,
            messages_listed_on(client, storage, tag, mode).1,
            0x05,
            id,
            0x31,
            typed(0x01, seq![store_octet(storage)]) + typed(0x11, seq![tag_octet(tag)]) + typed(
                0x10,
                seq![mode_number(mode)],
            ),
        ),
{
    let a = TlvModel { kind: 0x01, value: seq![store_octet(storage)] };
    let b = TlvModel { kind: 0x11, value: seq![tag_octet(tag)] };
    let c = TlvModel { kind: 0x10, value: seq![mode_number(mode)] };
    lemma_three_typed(a, b, c);
    lemma_request(client, 0x05, id, 0x31, seq![a, b, c]);
}

/// The modem's identity, mode and network are each asked for by their own
/// message and nothing else.
pub proof fn law_readings_are_asked_for_by_their_message(client: ClientModel, dms: u8, nas: u8)
    requires
        ready(client, 0x02, dms),
        ready(client, 0x03, nas),
    ensures
        asked_once(client, manufacturer_on(client).1, 0x02, dms, 0x21, Seq::empty()),
        asked_once(client, model_on(client).1, 0x02, dms, 0x22, Seq::empty()),
        asked_once(client, revision_on(client).1, 0x02, dms, 0x23, Seq::empty()),
        asked_once(client, serial_numbers_on(client).1, 0x02, dms, 0x25, Seq::empty()),
        asked_once(client, operating_mode_on(client).1, 0x02, dms, 0x2d, Seq::empty()),
        asked_once(client, serving_system_on(client).1, 0x03, nas, 0x24, Seq::empty()),
        asked_once(client, cell_location_on(client).1, 0x03, nas, 0x43, Seq::empty()),
{
    let none = Seq::<TlvModel>::empty();
    assert(tlvs_octets(none) =~= Seq::<u8>::empty());
    lemma_request(client, 0x02, dms, 0x21, none);
    lemma_request(client, 0x02, dms, 0x22, none);
    lemma_request(client, 0x02, dms, 0x23, none);
    lemma_request(client, 0x02, dms, 0x25, none);
    lemma_request(client, 0x02, dms, 0x2d, none);
    lemma_request(client, 0x03, nas, 0x24, none);
    lemma_request(client, 0x03, nas, 0x43, none);
}

/// The octet of an operating mode that may be asked for.
pub open spec fn mode_octet(mode: OperatingMode) -> u8 {
    match mode {
        OperatingMode::Online => 0,
        OperatingMode::LowPower => 1,
        OperatingMode::FactoryTest => 2,
        OperatingMode::Offline => 3,
        OperatingMode::Resetting => 4,
        OperatingMode::ShuttingDown => 5,
        OperatingMode::PersistentLowPower => 6,
        OperatingMode::ModeOnlyLowPower => 7,
        OperatingMode::Unknown(value) => value,
    }
}

/// A mode is set by its octet.
pub proof fn law_a_mode_is_set_by_its_octet(client: ClientModel, id: u8, mode: OperatingMode)
    requires
        ready(client, 0x02, id),
    ensures
        asked_once(
            client,
            mode_set_on(client, mode).1,
            0x02,
            id,
            0x2e,
            typed(0x01, seq![mode_octet(mode)]),
        ),
{
    let a = TlvModel { kind: 0x01, value: seq![mode_octet(mode)] };
    lemma_three_typed(a, a, a);
    lemma_request(client, 0x02, id, 0x2e, seq![a]);
    assert(mode.wire() == mode_octet(mode));
}

/// The ICCID is read from file `2FE2` under the master file `3F00`: the whole
/// of it, from the start, in the default session.
pub proof fn law_the_iccid_is_read_from_its_file(client: ClientModel, id: u8)
    requires
        ready(client, 0x0b, id),
    ensures
        asked_once(
            client,
            iccid_on(client).1,
            0x0b,
            id,
            0x20,
            typed(0x01, seq![0x00u8, 0x00u8]) + typed(
                0x02,
                seq![0xe2u8, 0x2fu8, 0x02u8, 0x00u8, 0x3fu8],
            ) + typed(0x03, seq![0x00u8, 0x00u8, 0x00u8, 0x00u8]),
        ),
        iccid_on(client).1 == file_on(client, 0x2fe2, seq![0x3f00u16]).1,
{
    let a = TlvModel { kind: 0x01, value: seq![0x00u8, 0x00u8] };
    let b = TlvModel { kind: 0x02, value: seq![0xe2u8, 0x2fu8, 0x02u8, 0x00u8, 0x3fu8] };
    let c = TlvModel { kind: 0x03, value: seq![0x00u8, 0x00u8, 0x00u8, 0x00u8] };
    lemma_three_typed(a, b, c);
    lemma_request(client, 0x0b, id, 0x20, seq![a, b, c]);
    let path = seq![0x3f00u16];
    reveal_with_fuel(crate::uim::path_octets, 2);
    assert(path.drop_last() =~= Seq::<u16>::empty());
    assert(crate::uim::file_value(0x2fe2, path) =~= b.value);
}

/// A transparent file is read by its identifier and by the directories above
/// it, each with its low octet first and in the order they were given.
pub proof fn law_a_file_is_read_by_its_path(client: ClientModel, id: u8, file: u16, path: Seq<u16>)
    requires
        ready(client, 0x0b, id),
        path.len() <= 100,
    ensures
        ({
            let steps = Seq::new(
                2 * path.len(),
                |i: int|
                    if i % 2 == 0 {
                        (path[i / 2] % 256) as u8
                    } else {
                        (path[i / 2] / 256) as u8
                    },
            );
            asked_once(
                client,
                file_on(client, file, path).1,
                0x0b,
                id,
                0x20,
                typed(0x01, seq![0x00u8, 0x00u8]) + typed(
                    0x02,
                    seq![(file % 256) as u8, (file / 256) as u8, (2 * path.len()) as u8] + steps,
                ) + typed(0x03, seq![0x00u8, 0x00u8, 0x00u8, 0x00u8]),
            )
        }),
{
    let steps = Seq::new(
        2 * path.len(),
        |i: int|
            if i % 2 == 0 {
                (path[i / 2] % 256) as u8
            } else {
                (path[i / 2] / 256) as u8
            },
    );
    lemma_path(path);
    let a = TlvModel { kind: 0x01, value: seq![0x00u8, 0x00u8] };
    let b = TlvModel {
        kind: 0x02,
        value: seq![(file % 256) as u8, (file / 256) as u8, (2 * path.len()) as u8] + steps,
    };
    let c = TlvModel { kind: 0x03, value: seq![0x00u8, 0x00u8, 0x00u8, 0x00u8] };
    lemma_three_typed(a, b, c);
    lemma_request(client, 0x0b, id, 0x20, seq![a, b, c]);
    assert(crate::uim::path_octets(path) =~= steps);
    assert(crate::uim::file_value(file, path) =~= b.value);
}

proof fn lemma_path(path: Seq<u16>)
    ensures
        crate::uim::path_octets(path).len() == 2 * path.len(),
        forall|i: int|
            0 <= i < 2 * path.len() ==> #[trigger] crate::uim::path_octets(path)[i] == if i % 2
                == 0 {
                (path[i / 2] % 256) as u8
            } else {
                (path[i / 2] / 256) as u8
            },
    decreases path.len(),
{
    if path.len() > 0 {
        lemma_path(path.drop_last());
    }
}

// ---------------------------------------------------------------------------
// Answers
// ---------------------------------------------------------------------------

/// An answer as it crosses the link.
pub open spec fn answering(
    service: u8,
    client: u8,
    transaction: u16,
    message: int,
    body: Seq<u8>,
) -> Seq<u8> {
    seq![
        0x01u8,
        ((body.len() + 12) % 256) as u8,
        ((body.len() + 12) / 256) as u8,
        0x80u8,
        service,
        client,
        0x02u8,
        (transaction % 256) as u8,
        (transaction / 256) as u8,
        (message % 256) as u8,
        (message / 256) as u8,
        (body.len() % 256) as u8,
        (body.len() / 256) as u8,
    ] + body
}

/// The typed value that says a request was carried out.
pub open spec fn done() -> Seq<u8> {
    seq![0x02u8, 0x04u8, 0x00u8, 0x00u8, 0x00u8, 0x00u8, 0x00u8]
}

/// The answer that the link gives next, to the call that comes next.
pub open spec fn answers_next(
    client: ClientModel,
    service: u8,
    id: u8,
    message: int,
    body: Seq<u8>,
) -> bool {
    (client.link.answers)(0) == Ok::<Seq<u8>, SessionFault>(
        answering(service, id, client.next_service, message, done() + body),
    )
}

/// What a call makes of an answer that says the request was carried out.
pub proof fn lemma_heard(
    client: ClientModel,
    service: u8,
    id: u8,
    message: u16,
    sent: Seq<TlvModel>,
    found: Seq<TlvModel>,
)
    requires
        ready(client, service, id),
        tlvs_octets(sent).len() <= 65523,
        tlvs_octets(found).len() <= 65000,
        answers_next(client, service, id, message as int, tlvs_octets(found)),
    ensures
        ({
            let request = MessageModel {
                service: ServiceId(service),
                client: ClientId(id),
                transaction: TransactionId(client.next_service),
                message: MessageId(message),
                payload: tlvs_octets(sent),
            };
            let all = seq![TlvModel { kind: 0x02, value: seq![0u8, 0u8, 0u8, 0u8] }] + found;
            let response = MessageModel { payload: tlvs_octets(all), ..request };
            &&& round_trip(begun(client, ServiceId(service)).1, request).0 == Ok::<
                MessageModel,
                SessionFault,
            >(response)
            &&& response.tlvs() == all
            &&& found.filter(|t: TlvModel| t.kind == 0x02).len() == 0
                ==> crate::result::reply_tlvs(response, ServiceId(service), MessageId(message))
                == Ok::<Seq<TlvModel>, crate::result::ReplyFault>(all)
        }),
{
    let request = MessageModel {
        service: ServiceId(service),
        client: ClientId(id),
        transaction: TransactionId(client.next_service),
        message: MessageId(message),
        payload: tlvs_octets(sent),
    };
    let success = TlvModel { kind: 0x02, value: seq![0u8, 0u8, 0u8, 0u8] };
    let all = seq![success] + found;
    let response = MessageModel { payload: tlvs_octets(all), ..request };
    lemma_request(client, service, id, message, sent);
    lemma_all_octets(success, found);
    lemma_three_typed(success, success, success);
    assert(typed(0x02, success.value) =~= done());
    law_fitting_tlvs_make_a_request(
        ServiceId(service),
        ClientId(id),
        TransactionId(client.next_service),
        MessageId(message),
        all,
    );
    assert(response.well_formed());
    crate::wire::law_response_round_trip(response);
    assert(crate::wire::response_frame(response) =~= answering(
        service,
        id,
        client.next_service,
        message as int,
        done() + tlvs_octets(found),
    ));
    let kept = |t: TlvModel| t.kind == 0x02;
    lemma_one_filter(success, kept);
    Seq::filter_distributes_over_add(seq![success], found, kept);
    if found.filter(|t: TlvModel| t.kind == 0x02).len() == 0 {
        assert(all.filter(kept) =~= seq![success]);
        assert(crate::wire::only_tlv(all, 0x02) == Ok::<Seq<u8>, crate::wire::TlvLookupError>(
            success.value,
        ));
    }
}

proof fn lemma_one_filter(tlv: TlvModel, keep: spec_fn(TlvModel) -> bool)
    ensures
        seq![tlv].filter(keep) == if keep(tlv) {
            seq![tlv]
        } else {
            Seq::empty()
        },
{
    reveal(Seq::filter);
    assert(seq![tlv].drop_last() =~= Seq::<TlvModel>::empty());
    assert(Seq::<TlvModel>::empty().filter(keep) =~= Seq::<TlvModel>::empty());
    assert(seq![tlv].filter(keep) =~= if keep(tlv) {
        seq![tlv]
    } else {
        Seq::empty()
    });
}

proof fn lemma_all_octets(first: TlvModel, more: Seq<TlvModel>)
    ensures
        tlvs_octets(seq![first] + more) == tlv_octets(first) + tlvs_octets(more),
    decreases more.len(),
{
    reveal_with_fuel(tlvs_octets, 2);
    if more.len() == 0 {
        assert(seq![first] + more =~= seq![first]);
        assert(seq![first].drop_last() =~= Seq::<TlvModel>::empty());
        assert(tlvs_octets(seq![first] + more) =~= tlv_octets(first) + tlvs_octets(more));
    } else {
        lemma_all_octets(first, more.drop_last());
        assert((seq![first] + more).drop_last() =~= seq![first] + more.drop_last());
        assert(tlvs_octets(seq![first] + more) =~= tlv_octets(first) + tlvs_octets(more));
    }
}

/// The only value of a kind beside the success of an answer.
pub proof fn lemma_only(found: TlvModel, kind: u8)
    ensures
        ({
            let success = TlvModel { kind: 0x02, value: seq![0u8, 0u8, 0u8, 0u8] };
            &&& found.kind != 0x02 ==> seq![found].filter(|t: TlvModel| t.kind == 0x02).len() == 0
            &&& kind == found.kind && kind != 0x02 ==> crate::wire::only_tlv(
                seq![success] + seq![found],
                kind,
            ) == Ok::<Seq<u8>, crate::wire::TlvLookupError>(found.value)
        }),
{
    let success = TlvModel { kind: 0x02, value: seq![0u8, 0u8, 0u8, 0u8] };
    let keep = |t: TlvModel| t.kind == kind;
    lemma_one_filter(success, keep);
    lemma_one_filter(found, keep);
    lemma_one_filter(found, |t: TlvModel| t.kind == 0x02);
    Seq::filter_distributes_over_add(seq![success], seq![found], keep);
    if kind == found.kind && kind != 0x02 {
        assert((seq![success] + seq![found]).filter(keep) =~= seq![found]);
    }
}

/// The only value of a kind beside the success of an answer and another value.
pub proof fn lemma_only_two(one: TlvModel, two: TlvModel, kind: u8)
    requires
        one.kind != 0x02,
        two.kind != 0x02,
        one.kind != two.kind,
    ensures
        ({
            let success = TlvModel { kind: 0x02, value: seq![0u8, 0u8, 0u8, 0u8] };
            &&& seq![one, two].filter(|t: TlvModel| t.kind == 0x02).len() == 0
            &&& kind == one.kind ==> crate::wire::only_tlv(
                seq![success] + seq![one, two],
                kind,
            ) == Ok::<Seq<u8>, crate::wire::TlvLookupError>(one.value)
            &&& kind == two.kind ==> crate::wire::only_tlv(
                seq![success] + seq![one, two],
                kind,
            ) == Ok::<Seq<u8>, crate::wire::TlvLookupError>(two.value)
        }),
{
    let success = TlvModel { kind: 0x02, value: seq![0u8, 0u8, 0u8, 0u8] };
    let keep = |t: TlvModel| t.kind == kind;
    let result = |t: TlvModel| t.kind == 0x02;
    lemma_one_filter(success, keep);
    lemma_one_filter(one, keep);
    lemma_one_filter(two, keep);
    lemma_one_filter(one, result);
    lemma_one_filter(two, result);
    assert(seq![one] + seq![two] =~= seq![one, two]);
    Seq::filter_distributes_over_add(seq![one], seq![two], keep);
    Seq::filter_distributes_over_add(seq![one], seq![two], result);
    Seq::filter_distributes_over_add(seq![success], seq![one, two], keep);
    assert(seq![one, two].filter(result) =~= Seq::<TlvModel>::empty());
    if kind == one.kind {
        assert((seq![success] + seq![one, two]).filter(keep) =~= seq![one]);
    } else if kind == two.kind {
        assert((seq![success] + seq![one, two]).filter(keep) =~= seq![two]);
    }
}

/// The success of an answer is found beside another value.
pub proof fn lemma_success_alone(success: TlvModel, found: TlvModel)
    requires
        success.kind == 0x02,
        found.kind != 0x02,
    ensures
        crate::wire::only_tlv(seq![success] + seq![found], 0x02) == Ok::<
            Seq<u8>,
            crate::wire::TlvLookupError,
        >(success.value),
{
    let keep = |t: TlvModel| t.kind == 0x02;
    lemma_one_filter(success, keep);
    lemma_one_filter(found, keep);
    Seq::filter_distributes_over_add(seq![success], seq![found], keep);
    assert((seq![success] + seq![found]).filter(keep) =~= seq![success]);
}

/// What the card answered is what comes back: all its data, and the two status
/// octets behind it.
pub proof fn law_a_card_is_heard_whole(
    client: ClientModel,
    id: u8,
    slot: u8,
    channel: u8,
    apdu: Seq<u8>,
    data: Seq<u8>,
    sw1: u8,
    sw2: u8,
)
    requires
        ready(client, 0x0b, id),
        apdu.len() <= 65000,
        data.len() <= 60000,
        answers_next(
            client,
            0x0b,
            id,
            0x3b,
            typed(
                0x10,
                seq![((data.len() + 2) % 256) as u8, ((data.len() + 2) / 256) as u8] + data + seq![
                    sw1,
                    sw2,
                ],
            ),
        ),
    ensures
        apdu_sent_on(client, slot, channel, apdu).0 == Ok::<ApduModel, SessionFault>(
            ApduModel { data, sw1, sw2 },
        ),
{
    let a = TlvModel { kind: 0x10, value: seq![channel] };
    let b = TlvModel {
        kind: 0x02,
        value: seq![(apdu.len() % 256) as u8, (apdu.len() / 256) as u8] + apdu,
    };
    let c = TlvModel { kind: 0x01, value: seq![slot] };
    lemma_three_typed(a, b, c);
    lemma_request(client, 0x0b, id, 0x3b, seq![a, b, c]);
    assert(crate::octets::le16_octets(apdu.len() as u16) + apdu =~= b.value);
    let value = seq![((data.len() + 2) % 256) as u8, ((data.len() + 2) / 256) as u8] + data + seq![
        sw1,
        sw2,
    ];
    let found = TlvModel { kind: 0x10, value };
    lemma_three_typed(found, found, found);
    lemma_only(found, 0x10);
    lemma_heard(client, 0x0b, id, 0x3b, seq![a, b, c], seq![found]);
    assert(crate::octets::le16(value[0], value[1]) == data.len() + 2);
    let bytes = value.subrange(2, 2 + data.len() as int + 2);
    assert(bytes =~= data + seq![sw1, sw2]);
    assert(bytes.take(bytes.len() - 2) =~= data);
}

/// The channel that the card opened is the one that comes back.
pub proof fn law_the_opened_channel_comes_back(
    client: ClientModel,
    id: u8,
    slot: u8,
    aid: Seq<u8>,
    channel: u8,
)
    requires
        ready(client, 0x0b, id),
        aid.len() <= 255,
        answers_next(client, 0x0b, id, 0x42, typed(0x10, seq![channel])),
    ensures
        channel_opened_on(client, slot, aid).0 == Ok::<u8, SessionFault>(channel),
{
    let a = TlvModel { kind: 0x10, value: seq![aid.len() as u8] + aid };
    let b = TlvModel { kind: 0x01, value: seq![slot] };
    lemma_three_typed(a, b, b);
    lemma_request(client, 0x0b, id, 0x42, seq![a, b]);
    let found = TlvModel { kind: 0x10, value: seq![channel] };
    lemma_three_typed(found, found, found);
    lemma_only(found, 0x10);
    lemma_heard(client, 0x0b, id, 0x42, seq![a, b], seq![found]);
}

/// A stored message comes back as it is stored: its tag, its format and all of
/// its PDU.
pub proof fn law_a_stored_message_comes_back(
    client: ClientModel,
    id: u8,
    storage: StorageType,
    index: u32,
    mode: MessageMode,
    tag: u8,
    format: u8,
    pdu: Seq<u8>,
)
    requires
        ready(client, 0x05, id),
        tag < 4,
        pdu.len() < 256,
        format + 256 * pdu.len() > 1 + pdu.len(),
        answers_next(
            client,
            0x05,
            id,
            0x22,
            typed(0x01, seq![tag, format, pdu.len() as u8, 0x00u8] + pdu),
        ),
    ensures
        message_read_on(client, storage, index, mode).0 == Ok::<RawMessageModel, SessionFault>(
            RawMessageModel {
                tag: Some(
                    if tag == 0 {
                        MessageTag::MtRead
                    } else if tag == 1 {
                        MessageTag::MtUnread
                    } else if tag == 2 {
                        MessageTag::MoSent
                    } else {
                        MessageTag::MoUnsent
                    },
                ),
                format,
                pdu,
            },
        ),
{
    let a = TlvModel {
        kind: 0x01,
        value: seq![
            store_octet(storage),
            (index % 256) as u8,
            (index / 256 % 256) as u8,
            (index / 65536 % 256) as u8,
            (index / 16777216) as u8,
        ],
    };
    let b = TlvModel { kind: 0x10, value: seq![mode_number(mode)] };
    lemma_three_typed(a, b, b);
    lemma_request(client, 0x05, id, 0x22, seq![a, b]);
    assert(seq![storage.wire()] + crate::octets::le32_octets(index) =~= a.value);
    let value = seq![tag, format, pdu.len() as u8, 0x00u8] + pdu;
    let found = TlvModel { kind: 0x01, value };
    lemma_three_typed(found, found, found);
    lemma_only(found, 0x01);
    lemma_heard(client, 0x05, id, 0x22, seq![a, b], seq![found]);
    assert(value.subrange(4, 4 + pdu.len() as int) =~= pdu);
}

/// The reference that the network gave a submitted message comes back.
pub proof fn law_the_reference_of_a_message_comes_back(
    client: ClientModel,
    id: u8,
    format: u8,
    pdu: Seq<u8>,
    reference: u16,
)
    requires
        ready(client, 0x05, id),
        pdu.len() <= 60000,
        answers_next(
            client,
            0x05,
            id,
            0x20,
            typed(0x01, seq![(reference % 256) as u8, (reference / 256) as u8]),
        ),
    ensures
        message_sent_on(client, format, pdu).0 == Ok::<Option<u16>, SessionFault>(Some(reference)),
{
    let a = TlvModel {
        kind: 0x01,
        value: seq![format, (pdu.len() % 256) as u8, (pdu.len() / 256) as u8] + pdu,
    };
    lemma_three_typed(a, a, a);
    lemma_request(client, 0x05, id, 0x20, seq![a]);
    assert(seq![format] + crate::octets::le16_octets(pdu.len() as u16) + pdu =~= a.value);
    let found = TlvModel {
        kind: 0x01,
        value: seq![(reference % 256) as u8, (reference / 256) as u8],
    };
    lemma_three_typed(found, found, found);
    lemma_only(found, 0x01);
    lemma_heard(client, 0x05, id, 0x20, seq![a], seq![found]);
}

/// The mode that a modem says it is in is the one that comes back.
pub proof fn law_the_mode_comes_back(client: ClientModel, id: u8, mode: OperatingMode)
    requires
        ready(client, 0x02, id),
        mode matches OperatingMode::Unknown(value) ==> value > 7,
        answers_next(client, 0x02, id, 0x2d, typed(0x01, seq![mode_octet(mode)])),
    ensures
        operating_mode_on(client).0 == Ok::<OperatingMode, SessionFault>(mode),
{
    let none = Seq::<TlvModel>::empty();
    assert(tlvs_octets(none) =~= Seq::<u8>::empty());
    lemma_request(client, 0x02, id, 0x2d, none);
    let found = TlvModel { kind: 0x01, value: seq![mode_octet(mode)] };
    lemma_three_typed(found, found, found);
    lemma_only(found, 0x01);
    lemma_heard(client, 0x02, id, 0x2d, none, seq![found]);
}

/// What a modem says it is comes back from the answer to that question, under
/// `01`: the maker, the model and the revision.
pub proof fn law_the_texts_of_a_modem_come_back(client: ClientModel, id: u8, text: Seq<u8>)
    requires
        ready(client, 0x02, id),
        text.len() <= 1000,
    ensures
        answers_next(client, 0x02, id, 0x21, typed(0x01, text)) ==> manufacturer_on(client).0
            == by_dms(text_field(text, 0x01)),
        answers_next(client, 0x02, id, 0x22, typed(0x01, text)) ==> model_on(client).0 == by_dms(
            text_field(text, 0x01),
        ),
        answers_next(client, 0x02, id, 0x23, typed(0x01, text)) ==> revision_on(client).0
            == by_dms(text_field(text, 0x01)),
{
    let none = Seq::<TlvModel>::empty();
    assert(tlvs_octets(none) =~= Seq::<u8>::empty());
    let found = TlvModel { kind: 0x01, value: text };
    lemma_three_typed(found, found, found);
    lemma_only(found, 0x01);
    if answers_next(client, 0x02, id, 0x21, typed(0x01, text)) {
        lemma_request(client, 0x02, id, 0x21, none);
        lemma_heard(client, 0x02, id, 0x21, none, seq![found]);
    }
    if answers_next(client, 0x02, id, 0x22, typed(0x01, text)) {
        lemma_request(client, 0x02, id, 0x22, none);
        lemma_heard(client, 0x02, id, 0x22, none, seq![found]);
    }
    if answers_next(client, 0x02, id, 0x23, typed(0x01, text)) {
        lemma_request(client, 0x02, id, 0x23, none);
        lemma_heard(client, 0x02, id, 0x23, none, seq![found]);
    }
}

/// The IMEI is the text under `11` of the serial numbers, whatever stands under
/// `10`.
pub proof fn law_the_imei_comes_back(client: ClientModel, id: u8, esn: Seq<u8>, imei: Seq<u8>)
    requires
        ready(client, 0x02, id),
        esn.len() <= 1000,
        imei.len() <= 1000,
        text_field(esn, 0x10) is Ok,
        text_field(imei, 0x11) is Ok,
        answers_next(client, 0x02, id, 0x25, typed(0x10, esn) + typed(0x11, imei)),
    ensures
        serial_numbers_on(client).0 matches Ok(numbers) && {
            &&& numbers.imei == Some(text_field(imei, 0x11)->Ok_0)
            &&& numbers.esn == Some(text_field(esn, 0x10)->Ok_0)
            &&& numbers.meid is None
        },
{
    let none = Seq::<TlvModel>::empty();
    assert(tlvs_octets(none) =~= Seq::<u8>::empty());
    let one = TlvModel { kind: 0x10, value: esn };
    let two = TlvModel { kind: 0x11, value: imei };
    lemma_three_typed(one, two, two);
    lemma_only_two(one, two, 0x10);
    lemma_only_two(one, two, 0x11);
    lemma_request(client, 0x02, id, 0x25, none);
    lemma_heard(client, 0x02, id, 0x25, none, seq![one, two]);
    lemma_no_third(one, two, 0x12);
}

proof fn lemma_no_third(one: TlvModel, two: TlvModel, kind: u8)
    requires
        one.kind != kind,
        two.kind != kind,
        kind != 0x02,
    ensures
        ({
            let success = TlvModel { kind: 0x02, value: seq![0u8, 0u8, 0u8, 0u8] };
            crate::wire::only_tlv(seq![success] + seq![one, two], kind) == Err::<
                Seq<u8>,
                crate::wire::TlvLookupError,
            >(crate::wire::TlvLookupError::Missing { kind })
        }),
{
    let success = TlvModel { kind: 0x02, value: seq![0u8, 0u8, 0u8, 0u8] };
    let keep = |t: TlvModel| t.kind == kind;
    lemma_one_filter(success, keep);
    lemma_one_filter(one, keep);
    lemma_one_filter(two, keep);
    assert(seq![one] + seq![two] =~= seq![one, two]);
    Seq::filter_distributes_over_add(seq![one], seq![two], keep);
    Seq::filter_distributes_over_add(seq![success], seq![one, two], keep);
    assert((seq![success] + seq![one, two]).filter(keep) =~= Seq::<TlvModel>::empty());
}

/// What a listing answers comes back as the messages of the store that was
/// asked for.
pub proof fn law_a_listing_comes_back(
    client: ClientModel,
    id: u8,
    storage: StorageType,
    tag: MessageTag,
    mode: MessageMode,
    value: Seq<u8>,
)
    requires
        ready(client, 0x05, id),
        value.len() <= 60000,
        answers_next(client, 0x05, id, 0x31, typed(0x01, value)),
    ensures
        messages_listed_on(client, storage, tag, mode).0 == by_wms(list_in(value, storage)),
{
    let a = TlvModel { kind: 0x01, value: seq![store_octet(storage)] };
    let b = TlvModel { kind: 0x11, value: seq![tag_octet(tag)] };
    let c = TlvModel { kind: 0x10, value: seq![mode_number(mode)] };
    lemma_three_typed(a, b, c);
    lemma_request(client, 0x05, id, 0x31, seq![a, b, c]);
    let found = TlvModel { kind: 0x01, value };
    lemma_three_typed(found, found, found);
    lemma_only(found, 0x01);
    lemma_heard(client, 0x05, id, 0x31, seq![a, b, c], seq![found]);
}

/// A file comes back whole, behind its length.
pub proof fn law_a_file_comes_back(client: ClientModel, id: u8, file: u16, path: Seq<u16>, content: Seq<u8>)
    requires
        ready(client, 0x0b, id),
        path.len() <= 100,
        content.len() <= 60000,
        answers_next(
            client,
            0x0b,
            id,
            0x20,
            typed(
                0x11,
                seq![(content.len() % 256) as u8, (content.len() / 256) as u8] + content,
            ),
        ),
    ensures
        file_on(client, file, path).0 == Ok::<Seq<u8>, SessionFault>(content),
{
    lemma_path(path);
    let a = TlvModel { kind: 0x01, value: seq![0x00u8, 0x00u8] };
    let b = TlvModel { kind: 0x02, value: crate::uim::file_value(file, path) };
    let c = TlvModel { kind: 0x03, value: seq![0x00u8, 0x00u8, 0x00u8, 0x00u8] };
    lemma_three_typed(a, b, c);
    lemma_request(client, 0x0b, id, 0x20, seq![a, b, c]);
    let value = seq![(content.len() % 256) as u8, (content.len() / 256) as u8] + content;
    let found = TlvModel { kind: 0x11, value };
    lemma_three_typed(found, found, found);
    lemma_only(found, 0x11);
    lemma_heard(client, 0x0b, id, 0x20, seq![a, b, c], seq![found]);
    assert(crate::octets::le16(value[0], value[1]) == content.len());
    assert(value.subrange(2, 2 + content.len() as int) =~= content);
}

// ---------------------------------------------------------------------------
// The control service
// ---------------------------------------------------------------------------

/// A request of the control service as it crosses the link: its transaction is
/// one octet.
pub open spec fn controlling(transaction: u8, message: int, body: Seq<u8>) -> Seq<u8> {
    seq![
        0x01u8,
        ((body.len() + 11) % 256) as u8,
        ((body.len() + 11) / 256) as u8,
        0x00u8,
        0x00u8,
        0x00u8,
        0x00u8,
        transaction,
        (message % 256) as u8,
        (message / 256) as u8,
        (body.len() % 256) as u8,
        (body.len() / 256) as u8,
    ] + body
}

/// The control transaction that comes up is not open.
pub open spec fn control_ready(client: ClientModel) -> bool {
    !client.pending.contains_key(
        TransactionKey {
            service: ServiceId(0),
            client_id: ClientId(0),
            transaction: TransactionId(client.next_control as u16),
        },
    )
}

proof fn lemma_control_frame(transaction: u8, message: u16, payload: Seq<u8>)
    requires
        payload.len() <= 1000,
    ensures
        request_frame(
            MessageModel {
                service: ServiceId(0),
                client: ClientId(0),
                transaction: TransactionId(transaction as u16),
                message: MessageId(message),
                payload,
            },
        ) == controlling(transaction, message as int, payload),
{
    assert(request_frame(
        MessageModel {
            service: ServiceId(0),
            client: ClientId(0),
            transaction: TransactionId(transaction as u16),
            message: MessageId(message),
            payload,
        },
    ) =~= controlling(transaction, message as int, payload));
}

/// A resynchronisation is one control request without a body.
pub proof fn law_a_resynchronisation_is_one_request(client: ClientModel)
    requires
        control_ready(client),
    ensures
        synced_on(client).1.link.sent == client.link.sent.push(
            controlling(client.next_control, 0x27, Seq::empty()),
        ),
{
    lemma_control_frame(client.next_control, 0x27, Seq::empty());
}

/// A client ID is asked for by the number of its service.
pub proof fn law_a_client_is_asked_for_by_its_service(client: ClientModel, service: u8)
    requires
        control_ready(client),
        service != 0,
        !client.clients.contains_key(ServiceId(service)),
    ensures
        allocated(client, ServiceId(service)).1.link.sent == client.link.sent.push(
            controlling(client.next_control, 0x22, typed(0x01, seq![service])),
        ),
{
    let a = TlvModel { kind: 0x01, value: seq![service] };
    lemma_three_typed(a, a, a);
    lemma_control_frame(client.next_control, 0x22, typed(0x01, seq![service]));
}

/// A client ID is given back by its service and itself.
pub proof fn law_a_client_is_given_back_by_its_number(service: u8, id: u8, transaction: u8)
    ensures
        request_frame(
            release_message(
                ClientAssignment { service: ServiceId(service), client_id: ClientId(id) },
                TransactionId(transaction as u16),
            ),
        ) == controlling(transaction, 0x23, typed(0x01, seq![service, id])),
{
    let a = TlvModel { kind: 0x01, value: seq![service, id] };
    lemma_three_typed(a, a, a);
    lemma_control_frame(transaction, 0x23, typed(0x01, seq![service, id]));
}

/// A client ID that the modem grants for the service that was asked for is the
/// one that is used, and one granted for another service is not.
pub proof fn law_a_granted_client_is_taken(service: u8, transaction: u16, granted: u8, id: u8)
    requires
        id != 0,
    ensures
        ({
            let success = TlvModel { kind: 0x02, value: seq![0u8, 0u8, 0u8, 0u8] };
            let found = TlvModel { kind: 0x01, value: seq![granted, id] };
            let response = MessageModel {
                service: ServiceId(0),
                client: ClientId(0),
                transaction: TransactionId(transaction),
                message: MessageId(0x22),
                payload: tlvs_octets(seq![success] + seq![found]),
            };
            let taken = allocation_in(ServiceId(service), TransactionId(transaction), response);
            &&& granted == service ==> taken == Ok::<ClientAssignment, crate::wire::AllocationError>(
                ClientAssignment { service: ServiceId(service), client_id: ClientId(id) },
            )
            &&& granted != service ==> taken is Err
        }),
{
    let success = TlvModel { kind: 0x02, value: seq![0u8, 0u8, 0u8, 0u8] };
    let found = TlvModel { kind: 0x01, value: seq![granted, id] };
    lemma_only(found, 0x01);
    lemma_success_alone(success, found);
    crate::wire::law_tlvs_round_trip(seq![success] + seq![found]);
}

/// Numbers of service calls go up by one, and start again at one.
pub proof fn law_calls_are_numbered_in_order(client: ClientModel, id: u8, slot: u8, channel: u8, apdu: Seq<u8>)
    requires
        ready(client, 0x0b, id),
        apdu.len() <= 65000,
    ensures
        apdu_sent_on(client, slot, channel, apdu).1.next_service == if client.next_service == 65535 {
            1int
        } else {
            client.next_service + 1
        },
        apdu_sent_on(client, slot, channel, apdu).1.clients == client.clients,
{
}

// ---------------------------------------------------------------------------
// Status words
// ---------------------------------------------------------------------------

/// `9000` is the only success, `61xx` the only sign of more, and what more there
/// is is fetched by `00 C0 00 00 xx`; what was gathered stands in front.
pub proof fn law_status_words_are_read(answer: ApduModel, gathered: Seq<u8>)
    ensures
        answer.success() <==> answer.sw1 == 0x90 && answer.sw2 == 0x00,
        answer.more() <==> answer.sw1 == 0x61,
        answer.fetch() == seq![0x00u8, 0xc0u8, 0x00u8, 0x00u8, answer.sw2],
        joined(gathered, answer).data == gathered + answer.data,
        joined(gathered, answer).sw1 == answer.sw1,
        joined(gathered, answer).sw2 == answer.sw2,
{
}

/// Octets of a number, the low one first.
pub proof fn law_low_octets_go_first(short: u16, long: u32)
    ensures
        ({
            let two = le16_octets(short);
            let four = le32_octets(long);
            &&& two.len() == 2 && two[0] + 256 * two[1] == short
            &&& four.len() == 4
            &&& four[0] + 256 * four[1] + 65536 * four[2] + 16777216 * four[3] == long
            &&& le16(two[0], two[1]) == short
            &&& le32(four[0], four[1], four[2], four[3]) == long
        }),
{
}

// ---------------------------------------------------------------------------
// The port
// ---------------------------------------------------------------------------

/// A message that is handed to the module goes out on the cellular bearer only,
/// as a PDU of format 6; stored messages are read and deleted in the 3GPP mode.
pub proof fn law_the_port_speaks_3gpp<T: QmiTransport>(
    client: ClientModel,
    id: u8,
    pdu: Seq<u8>,
    storage: StorageType,
    index: u32,
    bearer: Bearer,
)
    requires
        ready(client, 0x05, id),
        pdu.len() <= 60000,
    ensures
        asked_once(
            client,
            <QmiClient<T> as ModemPort>::sent(client, Bearer::Cellular, pdu).1,
            0x05,
            id,
            0x20,
            typed(0x01, seq![0x06u8, (pdu.len() % 256) as u8, (pdu.len() / 256) as u8] + pdu),
        ),
        bearer != Bearer::Cellular ==> <QmiClient<T> as ModemPort>::sent(client, bearer, pdu).0
            is Err && <QmiClient<T> as ModemPort>::sent(client, bearer, pdu).1 == client,
        <QmiClient<T> as ModemPort>::read(client, storage, index).1 == message_read_on(
            client,
            storage,
            index,
            MessageMode::Gw,
        ).1,
        <QmiClient<T> as ModemPort>::deleted(client, storage, index).1 == message_deleted_on(
            client,
            storage,
            index,
            MessageMode::Gw,
        ).1,
{
    law_a_message_is_submitted_whole(client, id, 0x06, pdu);
}

} // verus!
