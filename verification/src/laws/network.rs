//! What a module says of the network around it, and what is read from it.

use crate::laws::link::{
    answers_next, asking, lemma_frame, lemma_heard, lemma_octets_join, lemma_only, lemma_only_two,
    lemma_request, lemma_success_alone, lemma_three_typed, ready, typed,
};
use crate::nas::{plmn_mcc, plmn_mnc, NasRegistrationState};
use crate::session::{cell_location_on, serving_system_on, ClientModel};
use crate::wda::{data_format_in, data_format_message, LinkLayer};
use crate::wds::{
    credential_tlv, handle_in, settings_in, settings_message, start_message, start_tlvs,
    stop_message, AuthPreference,
};
use crate::wire::{
    law_fitting_tlvs_make_a_request, request_frame, tlvs_octets, ClientAssignment, ClientId,
    MessageId, MessageModel, ServiceId, TlvModel, TransactionId,
};
use vstd::prelude::*;
use vstd::utf8::encode_utf8;

verus! {

/// A network identity packed two digits to an octet: the country code's first
/// two digits, its third one below the network code's third, then the network
/// code's first two. A network code of two digits leaves its place filled.
pub open spec fn packed_network(mcc: Seq<int>, mnc: Seq<int>) -> Seq<u8> {
    seq![
        (mcc[0] + 16 * mcc[1]) as u8,
        (mcc[2] + 16 * (if mnc.len() == 3 {
            mnc[2]
        } else {
            15
        })) as u8,
        (mnc[0] + 16 * mnc[1]) as u8,
    ]
}

/// Three digits of a country and two or three of a network.
pub open spec fn network_digits(mcc: Seq<int>, mnc: Seq<int>) -> bool {
    &&& mcc.len() == 3
    &&& mnc.len() == 2 || mnc.len() == 3
    &&& forall|i: int| 0 <= i < mcc.len() ==> 0 <= #[trigger] mcc[i] < 10
    &&& forall|i: int| 0 <= i < mnc.len() ==> 0 <= #[trigger] mnc[i] < 10
}

/// A text spells digits, one character each.
pub open spec fn spells(text: Seq<char>, digits: Seq<int>) -> bool {
    &&& text.len() == digits.len()
    &&& forall|i: int| 0 <= i < digits.len() ==> #[trigger] text[i] as int == 48 + digits[i]
}

/// What was packed is what is read: country and network code come back digit
/// for digit, and a network code keeps its length.
pub proof fn law_a_packed_network_reads_back(mcc: Seq<int>, mnc: Seq<int>)
    requires
        network_digits(mcc, mnc),
    ensures
        spells(plmn_mcc(packed_network(mcc, mnc)), mcc),
        spells(plmn_mnc(packed_network(mcc, mnc)), mnc),
{
    assert(0 <= mcc[0] < 10 && 0 <= mcc[1] < 10 && 0 <= mcc[2] < 10);
    assert(0 <= mnc[0] < 10 && 0 <= mnc[1] < 10);
    if mnc.len() == 3 {
        assert(0 <= mnc[2] < 10);
    }
    let plmn = packed_network(mcc, mnc);
    assert(plmn[0] % 16 == mcc[0] && plmn[0] / 16 == mcc[1] && plmn[1] % 16 == mcc[2]);
    assert(plmn[2] % 16 == mnc[0] && plmn[2] / 16 == mnc[1]);
}

/// What a modem says of the serving system is what comes back: the state, the
/// attachment to packet data, the first radio interface, and the two codes of
/// the network with their low octets first.
pub proof fn law_the_serving_system_comes_back(
    client: ClientModel,
    id: u8,
    state: u8,
    circuit: u8,
    packet: u8,
    selected: u8,
    radio: u8,
    mcc: u16,
    mnc: u16,
)
    requires
        ready(client, 0x03, id),
        answers_next(
            client,
            0x03,
            id,
            0x24,
            typed(0x01, seq![state, circuit, packet, selected, 0x01u8, radio]) + typed(
                0x12,
                seq![
                    (mcc % 256) as u8,
                    (mcc / 256) as u8,
                    (mnc % 256) as u8,
                    (mnc / 256) as u8,
                ],
            ),
        ),
    ensures
        serving_system_on(client).0 matches Ok(system) && {
            &&& system.registration_state == match state {
                0 => NasRegistrationState::NotRegistered,
                1 => NasRegistrationState::Registered,
                2 => NasRegistrationState::Searching,
                3 => NasRegistrationState::Denied,
                _ => NasRegistrationState::Unknown(state),
            }
            &&& system.ps_attached <==> packet == 1
            &&& system.radio_interface == Some(radio)
            &&& system.mcc == Some(mcc)
            &&& system.mnc == Some(mnc)
        },
{
    let none = Seq::<TlvModel>::empty();
    assert(tlvs_octets(none) =~= Seq::<u8>::empty());
    lemma_request(client, 0x03, id, 0x24, none);
    let one = TlvModel {
        kind: 0x01,
        value: seq![state, circuit, packet, selected, 0x01u8, radio],
    };
    let two = TlvModel {
        kind: 0x12,
        value: seq![(mcc % 256) as u8, (mcc / 256) as u8, (mnc % 256) as u8, (mnc / 256) as u8],
    };
    lemma_three_typed(one, two, two);
    lemma_only_two(one, two, 0x01);
    lemma_only_two(one, two, 0x12);
    lemma_heard(client, 0x03, id, 0x24, none, seq![one, two]);
}

/// What a modem says of its cell is what comes back: the network digit for
/// digit, and the area, the cell and the frequency with their low octets first.
pub proof fn law_the_cell_comes_back(
    client: ClientModel,
    id: u8,
    idle: u8,
    mcc: Seq<int>,
    mnc: Seq<int>,
    tac: u16,
    cell: u32,
    earfcn: u16,
    rest: Seq<u8>,
)
    requires
        ready(client, 0x03, id),
        network_digits(mcc, mnc),
        6 <= rest.len() <= 1000,
        answers_next(
            client,
            0x03,
            id,
            0x43,
            typed(
                0x13,
                seq![idle] + packed_network(mcc, mnc) + seq![
                    (tac % 256) as u8,
                    (tac / 256) as u8,
                    (cell % 256) as u8,
                    (cell / 256 % 256) as u8,
                    (cell / 65536 % 256) as u8,
                    (cell / 16777216) as u8,
                    (earfcn % 256) as u8,
                    (earfcn / 256) as u8,
                ] + rest,
            ),
        ),
    ensures
        cell_location_on(client).0 matches Ok(found) && {
            &&& spells(found.mcc, mcc)
            &&& spells(found.mnc, mnc)
            &&& found.tac == tac
            &&& found.global_cell_id == cell
            &&& found.earfcn == earfcn
        },
{
    let none = Seq::<TlvModel>::empty();
    assert(tlvs_octets(none) =~= Seq::<u8>::empty());
    lemma_request(client, 0x03, id, 0x43, none);
    let value = seq![idle] + packed_network(mcc, mnc) + seq![
        (tac % 256) as u8,
        (tac / 256) as u8,
        (cell % 256) as u8,
        (cell / 256 % 256) as u8,
        (cell / 65536 % 256) as u8,
        (cell / 16777216) as u8,
        (earfcn % 256) as u8,
        (earfcn / 256) as u8,
    ] + rest;
    let one = TlvModel { kind: 0x13, value };
    lemma_three_typed(one, one, one);
    lemma_only(one, 0x13);
    lemma_heard(client, 0x03, id, 0x43, none, seq![one]);
    assert(value.subrange(1, 4) =~= packed_network(mcc, mnc));
    law_a_packed_network_reads_back(mcc, mnc);
}

// ---------------------------------------------------------------------------
// A data session
// ---------------------------------------------------------------------------

/// A credential in a request: nothing where there is none or an empty one.
pub open spec fn credential(kind: u8, text: Option<Seq<char>>) -> Seq<u8> {
    match text {
        Some(t) => if t.len() > 0 {
            typed(kind, encode_utf8(t))
        } else {
            Seq::empty()
        },
        None => Seq::empty(),
    }
}

/// A session is asked for by its access point, for IPv4, with how it is
/// authenticated where it is, and with the user and the secret that were given,
/// each under its own type.
pub proof fn law_a_session_is_asked_for_by_its_access_point(
    id: u8,
    transaction: u16,
    apn: Seq<char>,
    username: Option<Seq<char>>,
    password: Option<Seq<char>>,
    auth: AuthPreference,
)
    requires
        id != 0,
        encode_utf8(apn).len() <= 1000,
        username matches Some(u) ==> encode_utf8(u).len() <= 1000,
        password matches Some(p) ==> encode_utf8(p).len() <= 1000,
    ensures
        ({
            let made = start_message(
                ClientAssignment { service: ServiceId(0x01), client_id: ClientId(id) },
                TransactionId(transaction),
                apn,
                username,
                password,
                auth,
            );
            &&& made matches Ok(request) && request_frame(request) == asking(
                0x01,
                id,
                transaction,
                0x20,
                typed(0x14, encode_utf8(apn)) + typed(0x19, seq![0x04u8]) + authenticated_by(auth)
                    + credential(0x17, username) + credential(0x18, password),
            )
        }),
{
    let all = start_tlvs(apn, username, password, auth)->Ok_0;
    lemma_start_is_spelled(apn, username, password, auth);
    law_fitting_tlvs_make_a_request(
        ServiceId(0x01),
        ClientId(id),
        TransactionId(transaction),
        MessageId(0x20),
        all,
    );
    lemma_frame(0x01, id, transaction, 0x20, all);
}

/// How a session is authenticated, where it is.
pub open spec fn authenticated_by(auth: AuthPreference) -> Seq<u8> {
    match auth {
        AuthPreference::Unauthenticated => Seq::empty(),
        AuthPreference::Pap => typed(0x16, seq![0x01u8]),
        AuthPreference::Chap => typed(0x16, seq![0x02u8]),
        AuthPreference::PapOrChap => typed(0x16, seq![0x03u8]),
    }
}

proof fn lemma_credential(kind: u8, text: Option<Seq<char>>)
    requires
        text matches Some(t) ==> encode_utf8(t).len() <= 1000,
    ensures
        credential_tlv(kind, text) is Ok,
        tlvs_octets(credential_tlv(kind, text)->Ok_0) == credential(kind, text),
        credential(kind, text).len() <= 1003,
{
    let none = Seq::<TlvModel>::empty();
    assert(tlvs_octets(none) =~= Seq::<u8>::empty());
    if let Some(t) = text {
        if t.len() > 0 {
            let one = TlvModel { kind, value: encode_utf8(t) };
            lemma_three_typed(one, one, one);
        }
    }
}

proof fn lemma_start_is_spelled(
    apn: Seq<char>,
    username: Option<Seq<char>>,
    password: Option<Seq<char>>,
    auth: AuthPreference,
)
    requires
        encode_utf8(apn).len() <= 1000,
        username matches Some(u) ==> encode_utf8(u).len() <= 1000,
        password matches Some(p) ==> encode_utf8(p).len() <= 1000,
    ensures
        start_tlvs(apn, username, password, auth) is Ok,
        tlvs_octets(start_tlvs(apn, username, password, auth)->Ok_0) == typed(
            0x14,
            encode_utf8(apn),
        ) + typed(0x19, seq![0x04u8]) + authenticated_by(auth) + credential(0x17, username)
            + credential(0x18, password),
        tlvs_octets(start_tlvs(apn, username, password, auth)->Ok_0).len() <= 4000,
{
    let a = TlvModel { kind: 0x14, value: encode_utf8(apn) };
    let b = TlvModel { kind: 0x19, value: seq![0x04u8] };
    lemma_three_typed(a, b, b);
    let c = TlvModel { kind: 0x16, value: seq![auth.wire()] };
    lemma_three_typed(c, c, c);
    let first = seq![a, b];
    let second = if auth != AuthPreference::Unauthenticated {
        seq![c]
    } else {
        Seq::<TlvModel>::empty()
    };
    assert(tlvs_octets(second) =~= authenticated_by(auth));
    lemma_credential(0x17, username);
    lemma_credential(0x18, password);
    let third = credential_tlv(0x17, username)->Ok_0;
    let fourth = credential_tlv(0x18, password)->Ok_0;
    lemma_octets_join(first, second);
    lemma_octets_join(first + second, third);
    lemma_octets_join(first + second + third, fourth);
}

/// A number in four octets, the low one first.
pub open spec fn number(value: Seq<u8>) -> int {
    value[0] + 256 * value[1] + 65536 * value[2] + 16777216 * value[3]
}

/// A setting holds what the first value of its kind says, if one is there and
/// is long enough, and nothing where none is there.
pub open spec fn granted(setting: Option<u32>, kind: u8, tlvs: Seq<TlvModel>) -> bool {
    &&& (forall|i: int| 0 <= i < tlvs.len() ==> (#[trigger] tlvs[i]).kind != kind) ==> setting
        is None
    &&& forall|i: int|
        #![trigger tlvs[i]]
        0 <= i < tlvs.len() && tlvs[i].kind == kind && (forall|j: int|
            0 <= j < i ==> (#[trigger] tlvs[j]).kind != kind) ==> setting == if tlvs[i].value.len()
            >= 4 {
            Some(number(tlvs[i].value) as u32)
        } else {
            None
        }
}

proof fn lemma_granted(kind: u8, tlvs: Seq<TlvModel>)
    ensures
        granted(crate::wds::setting_in(tlvs, kind), kind, tlvs),
    decreases tlvs.len(),
{
    if tlvs.len() > 0 {
        let more = tlvs.skip(1);
        lemma_granted(kind, more);
        let setting = crate::wds::setting_in(tlvs, kind);
        if tlvs[0].kind != kind {
            assert(setting == crate::wds::setting_in(more, kind));
            if forall|i: int| 0 <= i < tlvs.len() ==> (#[trigger] tlvs[i]).kind != kind {
                assert forall|i: int| 0 <= i < more.len() implies (#[trigger] more[i]).kind
                    != kind by {
                    assert(more[i] == tlvs[i + 1]);
                }
            }
            assert forall|i: int|
                0 <= i < tlvs.len() && (#[trigger] tlvs[i]).kind == kind && (forall|j: int|
                    0 <= j < i ==> (#[trigger] tlvs[j]).kind != kind) implies setting == (if
            tlvs[i].value.len() >= 4 {
                Some(number(tlvs[i].value) as u32)
            } else {
                None
            }) by {
                assert(more[i - 1] == tlvs[i]);
                assert forall|j: int| 0 <= j < i - 1 implies (#[trigger] more[j]).kind != kind by {
                    assert(more[j] == tlvs[j + 1]);
                }
            }
        } else {
            assert forall|i: int|
                0 <= i < tlvs.len() && (#[trigger] tlvs[i]).kind == kind && (forall|j: int|
                    0 <= j < i ==> (#[trigger] tlvs[j]).kind != kind) implies setting == (if
            tlvs[i].value.len() >= 4 {
                Some(number(tlvs[i].value) as u32)
            } else {
                None
            }) by {
                if i > 0 {
                    assert(tlvs[0].kind != kind);
                }
            }
        }
    }
}

/// Every setting of a session is read from the value of its own kind: the
/// address from `1E`, the gateway from `20`, the mask from `21`, the two name
/// servers from `15` and `16`, and the packet size from `29`.
pub proof fn law_what_was_granted_comes_back(response: MessageModel)
    requires
        settings_in(response) is Ok,
    ensures
        ({
            let settings = settings_in(response)->Ok_0;
            &&& granted(settings.address, 0x1e, response.tlvs())
            &&& granted(settings.gateway, 0x20, response.tlvs())
            &&& granted(settings.netmask, 0x21, response.tlvs())
            &&& granted(settings.dns_primary, 0x15, response.tlvs())
            &&& granted(settings.dns_secondary, 0x16, response.tlvs())
            &&& granted(settings.mtu, 0x29, response.tlvs())
        }),
{
    let tlvs = response.tlvs();
    lemma_granted(0x1e, tlvs);
    lemma_granted(0x20, tlvs);
    lemma_granted(0x21, tlvs);
    lemma_granted(0x15, tlvs);
    lemma_granted(0x16, tlvs);
    lemma_granted(0x29, tlvs);
}

/// A successful answer of a service, with one value beside the success.
pub open spec fn succeeds(
    response: MessageModel,
    service: u8,
    message: u16,
    kind: u8,
    value: Seq<u8>,
) -> bool {
    &&& response.service == ServiceId(service)
    &&& response.client != ClientId(0)
    &&& response.message == MessageId(message)
    &&& response.tlvs() == seq![TlvModel { kind: 0x02, value: seq![0u8, 0u8, 0u8, 0u8] }] + seq![
        TlvModel { kind, value },
    ]
}

/// The handle that a session is stopped by is the one that the start answered.
pub proof fn law_the_handle_comes_back(response: MessageModel, value: Seq<u8>)
    requires
        succeeds(response, 0x01, 0x20, 0x01, value),
        value.len() == 4,
    ensures
        handle_in(response) matches Ok(handle) && handle.0 == number(value),
{
    let one = TlvModel { kind: 0x01, value };
    lemma_only(one, 0x01);
    lemma_success(response, 0x01, 0x20, one);
}

proof fn lemma_success(response: MessageModel, service: u8, message: u16, found: TlvModel)
    requires
        succeeds(response, service, message, found.kind, found.value),
        found.kind != 0x02,
    ensures
        crate::result::reply_tlvs(response, ServiceId(service), MessageId(message)) == Ok::<
            Seq<TlvModel>,
            crate::result::ReplyFault,
        >(response.tlvs()),
{
    let success = TlvModel { kind: 0x02, value: seq![0u8, 0u8, 0u8, 0u8] };
    lemma_success_alone(success, found);
}

/// The framing of the link is asked for by its number, and what the modem says
/// it settled on is what is read.
pub proof fn law_the_framing_is_asked_for_and_read(
    id: u8,
    transaction: u16,
    layer: LinkLayer,
    response: MessageModel,
)
    requires
        id != 0,
        response.tlvs() == seq![
            TlvModel {
                kind: 0x11,
                value: if layer == LinkLayer::Ethernet {
                    seq![0x01u8, 0x00u8, 0x00u8, 0x00u8]
                } else {
                    seq![0x02u8, 0x00u8, 0x00u8, 0x00u8]
                },
            },
        ],
    ensures
        data_format_message(
            ClientAssignment { service: ServiceId(0x1a), client_id: ClientId(id) },
            TransactionId(transaction),
            layer,
        ) matches Ok(request) && request_frame(request) == asking(
            0x1a,
            id,
            transaction,
            0x20,
            typed(
                0x11,
                if layer == LinkLayer::Ethernet {
                    seq![0x01u8, 0x00u8, 0x00u8, 0x00u8]
                } else {
                    seq![0x02u8, 0x00u8, 0x00u8, 0x00u8]
                },
            ),
        ),
        data_format_in(response) == Some(layer),
{
    let a = TlvModel {
        kind: 0x11,
        value: if layer == LinkLayer::Ethernet {
            seq![0x01u8, 0x00u8, 0x00u8, 0x00u8]
        } else {
            seq![0x02u8, 0x00u8, 0x00u8, 0x00u8]
        },
    };
    lemma_three_typed(a, a, a);
    assert(crate::octets::le32_octets(layer.wire()) =~= a.value);
    law_fitting_tlvs_make_a_request(
        ServiceId(0x1a),
        ClientId(id),
        TransactionId(transaction),
        MessageId(0x20),
        seq![a],
    );
    lemma_frame(0x1a, id, transaction, 0x20, seq![a]);
}

/// A session is stopped by its handle, low octet first.
pub proof fn law_a_session_is_stopped_by_its_handle(id: u8, transaction: u16, handle: u32)
    requires
        id != 0,
    ensures
        stop_message(
            ClientAssignment { service: ServiceId(0x01), client_id: ClientId(id) },
            TransactionId(transaction),
            handle,
        ) matches Ok(request) && request_frame(request) == asking(
            0x01,
            id,
            transaction,
            0x21,
            typed(
                0x01,
                seq![
                    (handle % 256) as u8,
                    (handle / 256 % 256) as u8,
                    (handle / 65536 % 256) as u8,
                    (handle / 16777216 % 256) as u8,
                ],
            ),
        ),
{
    let value = seq![
        (handle % 256) as u8,
        (handle / 256 % 256) as u8,
        (handle / 65536 % 256) as u8,
        (handle / 16777216 % 256) as u8,
    ];
    assert(crate::octets::le32_octets(handle) =~= value);
    lemma_one_number(id, transaction, 0x21, 0x01, value);
}

/// Everything that was granted is asked for.
pub proof fn law_everything_granted_is_asked_for(id: u8, transaction: u16)
    requires
        id != 0,
    ensures
        settings_message(
            ClientAssignment { service: ServiceId(0x01), client_id: ClientId(id) },
            TransactionId(transaction),
        ) matches Ok(request) && request_frame(request) == asking(
            0x01,
            id,
            transaction,
            0x2d,
            typed(0x10, seq![0xffu8, 0xffu8, 0xffu8, 0xffu8]),
        ),
{
    assert(crate::octets::le32_octets(0xffff_ffff) =~= seq![0xffu8, 0xffu8, 0xffu8, 0xffu8]);
    lemma_one_number(id, transaction, 0x2d, 0x10, seq![0xffu8, 0xffu8, 0xffu8, 0xffu8]);
}

proof fn lemma_one_number(id: u8, transaction: u16, message: u16, kind: u8, value: Seq<u8>)
    requires
        id != 0,
        value.len() == 4,
    ensures
        crate::wds::wds_request(
            ClientAssignment { service: ServiceId(0x01), client_id: ClientId(id) },
            TransactionId(transaction),
            MessageId(message),
            seq![TlvModel { kind, value }],
        ) matches Ok(request) && request_frame(request) == asking(
            0x01,
            id,
            transaction,
            message as int,
            typed(kind, value),
        ),
{
    let a = TlvModel { kind, value };
    lemma_three_typed(a, a, a);
    law_fitting_tlvs_make_a_request(
        ServiceId(0x01),
        ClientId(id),
        TransactionId(transaction),
        MessageId(message),
        seq![a],
    );
    lemma_frame(0x01, id, transaction, message, seq![a]);
}

} // verus!
