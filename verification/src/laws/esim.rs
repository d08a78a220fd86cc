//! What an eUICC is asked, octet by octet.

use crate::ber::element_octets;
use crate::download::{
    begun_on, code_hash, decided_on, delivered_on, fed_on, introduced_on, judged_on, judging,
    prepared_on, snapshot_on, Acknowledgement, ActivationModel, AuthModel, DownloadModel, NextModel,
    TransferModel,
};
use crate::es10c::{
    cancel_request, chain_of, code_required_in, command_result, delete_request, eid_answer,
    encoded_iccid, installation_in, irreversible, metadata_in, nickname_request, profile_request,
    remove_request, server_context, signed_transaction_in, tac_in, whole_of, CancelSessionReason,
    NotificationModel, PendingModel, ProfileCommand, ProfileModel, SegmentModel,
};
use crate::es9p::{Es9pFault, StartModel};
use crate::isdr::{
    addresses_on, cancelled_on, chained, challenge_on, distinct_addresses, drained, eid_on,
    executed, executing, info1_on, info2_on, inputs_on, inventory_of, local_info_on,
    notifications_on, numbered, opened, pending_on, profile_json, profile_set_on, profiles_json,
    profiles_on, removed_on, transmitted, within_channel, LocalInfoModel,
};
use crate::json::json_string;
use crate::laws::link::{
    asking, law_an_apdu_is_one_request, lemma_apdu_keeps_the_log, lemma_log_kept, log_kept, ready,
    to_the_card, typed,
};
use crate::primitives::sha256;
use crate::session::{apdu_sent_on, ClientModel, SessionFault};
use crate::text::{all_digits, decimal, is_digit, trimmed};
use crate::uim::{eid_in, joined, ApduModel, MAX_GET_RESPONSE_ROUNDS};
use vstd::prelude::*;
use vstd::utf8::encode_utf8;

verus! {

/// The length of a value as the distinguished rules write it: in one octet up
/// to 127, else behind an octet that counts the octets that follow, the high
/// one first.
pub open spec fn counted_by(length: int) -> Seq<u8> {
    if length <= 127 {
        seq![length as u8]
    } else if length <= 255 {
        seq![0x81u8, length as u8]
    } else if length <= 65535 {
        seq![0x82u8, (length / 256) as u8, (length % 256) as u8]
    } else {
        seq![
            0x83u8,
            (length / 65536) as u8,
            (length / 256 % 256) as u8,
            (length % 256) as u8,
        ]
    }
}

/// An element: its tag, its length, its value.
pub open spec fn element(tag: Seq<u8>, value: Seq<u8>) -> Seq<u8> {
    tag + counted_by(value.len() as int) + value
}

/// Elements are written with the shortest length that the rules allow.
pub proof fn law_lengths_are_shortest(tag: Seq<u8>, value: Seq<u8>)
    requires
        value.len() < 16777216,
    ensures
        element_octets(tag, value) == element(tag, value),
{
}

proof fn lemma_drained_keeps_the_log(
    client: ClientModel,
    slot: u8,
    channel: u8,
    gathered: Seq<u8>,
    latest: ApduModel,
    rounds: nat,
)
    ensures
        log_kept(client, drained(client, slot, channel, gathered, latest, rounds).1),
    decreases MAX_GET_RESPONSE_ROUNDS - rounds,
{
    assert(client.link.sent =~= client.link.sent.take(client.link.sent.len() as int));
    if latest.more() && rounds < MAX_GET_RESPONSE_ROUNDS {
        lemma_apdu_keeps_the_log(client, slot, channel, latest.fetch());
        let (answer, after) = apdu_sent_on(client, slot, channel, latest.fetch());
        if let Ok(next) = answer {
            let more = joined(gathered, latest).data;
            lemma_drained_keeps_the_log(after, slot, channel, more, next, rounds + 1);
            lemma_log_kept(
                client,
                after,
                drained(after, slot, channel, more, next, rounds + 1).1,
            );
        }
    }
}

proof fn lemma_transmitted_keeps_the_log(client: ClientModel, slot: u8, channel: u8, apdu: Seq<u8>)
    ensures
        log_kept(
            apdu_sent_on(client, slot, channel, apdu).1,
            transmitted(client, slot, channel, apdu).1,
        ),
        log_kept(client, transmitted(client, slot, channel, apdu).1),
{
    lemma_apdu_keeps_the_log(client, slot, channel, apdu);
    let (answer, after) = apdu_sent_on(client, slot, channel, apdu);
    if let Ok(first) = answer {
        lemma_drained_keeps_the_log(after, slot, channel, Seq::empty(), first, 0);
        lemma_log_kept(
            client,
            after,
            drained(after, slot, channel, Seq::empty(), first, 0).1,
        );
    } else {
        assert(after.link.sent =~= after.link.sent.take(after.link.sent.len() as int));
    }
}

proof fn lemma_chained_keeps_the_log(
    client: ClientModel,
    slot: u8,
    channel: u8,
    chain: Seq<Seq<u8>>,
)
    ensures
        log_kept(client, chained(client, slot, channel, chain).1),
        chain.len() > 0 ==> log_kept(
            apdu_sent_on(client, slot, channel, chain[0]).1,
            chained(client, slot, channel, chain).1,
        ),
    decreases chain.len(),
{
    assert(client.link.sent =~= client.link.sent.take(client.link.sent.len() as int));
    if chain.len() > 0 {
        lemma_transmitted_keeps_the_log(client, slot, channel, chain[0]);
        let (answer, after) = transmitted(client, slot, channel, chain[0]);
        if let Ok(response) = answer {
            if response.success() && chain.len() > 1 {
                lemma_chained_keeps_the_log(after, slot, channel, chain.skip(1));
                let last = chained(after, slot, channel, chain.skip(1)).1;
                lemma_log_kept(client, after, last);
                lemma_log_kept(apdu_sent_on(client, slot, channel, chain[0]).1, after, last);
            }
        }
    }
}

/// The first `STORE DATA` of a request: `80 E2`, then `91` where it is all of
/// the request and `11` where more follows, the block number zero, how much
/// there is, and the first 255 octets at most.
pub open spec fn first_block(payload: Seq<u8>) -> Seq<u8> {
    if payload.len() <= 255 {
        seq![0x80u8, 0xe2u8, 0x91u8, 0x00u8, payload.len() as u8] + payload
    } else {
        seq![0x80u8, 0xe2u8, 0x11u8, 0x00u8, 0xffu8] + payload.take(255)
    }
}

/// A request that is run on a channel reaches the card: the first thing sent
/// for it is its first block, to that slot and on that channel.
pub proof fn law_a_request_reaches_the_card(
    client: ClientModel,
    id: u8,
    slot: u8,
    channel: u8,
    payload: Seq<u8>,
)
    requires
        ready(client, 0x0b, id),
        0 < payload.len() <= 65280,
    ensures
        ({
            let before = client.link.sent;
            let after = executed(client, slot, channel, payload).1.link.sent;
            &&& after.len() > before.len()
            &&& after[before.len() as int] == asking(
                0x0b,
                id,
                client.next_service,
                0x3b,
                to_the_card(slot, channel, first_block(payload)),
            )
        }),
{
    let chain = crate::es10c::chain_of(payload)->Ok_0;
    assert(crate::es10c::block_data(payload, 0) =~= if payload.len() <= 255 {
        payload
    } else {
        payload.take(255)
    });
    assert(chain[0] =~= first_block(payload));
    law_an_apdu_is_one_request(client, id, slot, channel, chain[0]);
    lemma_chained_keeps_the_log(client, slot, channel, chain);
    let one = apdu_sent_on(client, slot, channel, chain[0]).1.link.sent;
    let after = executed(client, slot, channel, payload).1.link.sent;
    assert(after.take(one.len() as int)[client.link.sent.len() as int] == one.last());
}

/// An ICCID in a request: ten octets at least, two digits to each, the first
/// one in the low half, and every half that no digit takes filled with ones.
pub open spec fn names_iccid(octets: Seq<u8>, digits: Seq<char>) -> bool {
    &&& octets.len() >= 10
    &&& octets.len() >= (digits.len() + 1) / 2
    &&& octets.len() == 10 || octets.len() == (digits.len() + 1) / 2
    &&& forall|i: int|
        #![trigger octets[i]]
        0 <= i < octets.len() ==> {
            &&& octets[i] % 16 == if 2 * i < digits.len() {
                digits[2 * i] as int - 48
            } else {
                15
            }
            &&& octets[i] / 16 == if 2 * i + 1 < digits.len() {
                digits[2 * i + 1] as int - 48
            } else {
                15
            }
        }
}

/// Every digit of an ICCID is in its half octet of the card's form.
pub proof fn law_an_iccid_is_named_digit_by_digit(iccid: Seq<char>)
    requires
        trimmed(iccid).len() > 0,
        all_digits(trimmed(iccid)),
    ensures
        encoded_iccid(iccid) is Ok,
        names_iccid(encoded_iccid(iccid)->Ok_0, trimmed(iccid)),
{
    let digits = trimmed(iccid);
    let octets = encoded_iccid(iccid)->Ok_0;
    assert forall|i: int| 0 <= i < octets.len() implies octets[i] % 16 == (if 2 * i
        < digits.len() {
        digits[2 * i] as int - 48
    } else {
        15
    }) && octets[i] / 16 == (if 2 * i + 1 < digits.len() {
        digits[2 * i + 1] as int - 48
    } else {
        15
    }) by {
        if 2 * i < digits.len() {
            assert(is_digit(digits[2 * i]));
        }
        if 2 * i + 1 < digits.len() {
            assert(is_digit(digits[2 * i + 1]));
        }
    }
}

/// The request that switches a profile: `BF31` enables it and `BF32` disables
/// it, the ICCID stands in a list, and the card is asked to refresh.
pub open spec fn switches(payload: Seq<u8>, enable: bool, iccid: Seq<u8>) -> bool {
    payload == seq![
        0xbfu8,
        if enable {
            0x31u8
        } else {
            0x32u8
        },
        (iccid.len() + 7) as u8,
        0xa0u8,
        (iccid.len() + 2) as u8,
        0x5au8,
        iccid.len() as u8,
    ] + iccid + seq![0x81u8, 0x01u8, 0xffu8]
}

/// Switching a profile on runs `EnableProfile`, tag `BF31`, of that ICCID on a
/// channel of its own, and switching it off runs `DisableProfile`, tag `BF32`.
/// The answer is read under the same tag: a result of zero is the only success.
pub proof fn law_a_profile_is_switched_as_asked(
    client: ClientModel,
    slot: u8,
    iccid: Seq<char>,
    enable: bool,
    payload: Seq<u8>,
)
    requires
        trimmed(iccid).len() > 0,
        trimmed(iccid).len() <= 20,
        all_digits(trimmed(iccid)),
        switches(payload, enable, encoded_iccid(iccid)->Ok_0),
    ensures
        names_iccid(encoded_iccid(iccid)->Ok_0, trimmed(iccid)),
        ({
            let (answer, after) = within_channel(client, slot, executing(slot, payload));
            let (outcome, last) = profile_set_on(client, slot, iccid, enable);
            &&& last == after
            &&& answer is Err ==> outcome is Err
            &&& answer matches Ok(bytes) ==> {
                &&& bytes == said(enable, 0) ==> outcome is Ok
                &&& outcome is Ok ==> bytes.len() >= 2 && bytes[0] == 0xbf && bytes[1] == if enable {
                    0x31int
                } else {
                    0x32
                }
                &&& forall|code: u8| code != 0 && bytes == #[trigger] said(enable, code) ==> outcome is Err
            }
        }),
{
    law_an_iccid_is_named_digit_by_digit(iccid);
    let octets = encoded_iccid(iccid)->Ok_0;
    lemma_switching_payload(iccid, enable, payload);
    let command = if enable {
        ProfileCommand::Enable
    } else {
        ProfileCommand::Disable
    };
    let (answer, after) = within_channel(client, slot, executing(slot, payload));
    if let Ok(bytes) = answer {
        if command_result(bytes, command) is Ok {
            lemma_answers_under_its_tag(bytes, command);
        }
        assert forall|code: u8| bytes == #[trigger] said(enable, code) implies (command_result(
            bytes,
            command,
        ) is Ok <==> code == 0) by {
            lemma_said(enable, code, command);
        }
    }
}

/// The answer of a card to a switch of a profile, with its result code.
pub open spec fn said(enable: bool, code: u8) -> Seq<u8> {
    seq![
        0xbfu8,
        if enable {
            0x31u8
        } else {
            0x32u8
        },
        0x03u8,
        0x80u8,
        0x01u8,
        code,
    ]
}

proof fn lemma_switching_payload(iccid: Seq<char>, enable: bool, payload: Seq<u8>)
    requires
        encoded_iccid(iccid) is Ok,
        encoded_iccid(iccid)->Ok_0.len() == 10,
        switches(payload, enable, encoded_iccid(iccid)->Ok_0),
    ensures
        profile_request(
            if enable {
                crate::es10c::FN_ENABLE_PROFILE
            } else {
                crate::es10c::FN_DISABLE_PROFILE
            },
            iccid,
            true,
        ) == Ok::<Seq<u8>, crate::es10c::Es10cFault>(payload),
{
    let function = if enable {
        crate::es10c::FN_ENABLE_PROFILE
    } else {
        crate::es10c::FN_DISABLE_PROFILE
    };
    assert(profile_request(function, iccid, true)->Ok_0 =~= payload);
}

proof fn lemma_answers_under_its_tag(bytes: Seq<u8>, command: ProfileCommand)
    requires
        command_result(bytes, command) is Ok,
    ensures
        bytes.len() >= 2,
        bytes[0] == 0xbf,
        bytes[1] == crate::es10c::command_function(command),
{
    let found = crate::ber::element_in(bytes)->Ok_0;
    assert(found.tag == crate::es10c::function_tag(crate::es10c::command_function(command)));
    let n = crate::ber::tag_length(bytes)->Ok_0;
    if bytes.len() > 1 {
        crate::ber::lemma_tag_end(bytes, 1);
    }
    assert(found.tag == bytes.take(n));
    assert(found.tag[0] == bytes.take(n)[0] && found.tag[1] == bytes.take(n)[1]);
}

proof fn lemma_said(enable: bool, code: u8, command: ProfileCommand)
    requires
        command == if enable {
            ProfileCommand::Enable
        } else {
            ProfileCommand::Disable
        },
    ensures
        command_result(said(enable, code), command) is Ok <==> code == 0,
{
    let function = if enable {
        0x31u8
    } else {
        0x32u8
    };
    let inner = element(seq![0x80u8], seq![code]);
    law_lengths_are_shortest(seq![0x80u8], seq![code]);
    law_lengths_are_shortest(seq![0xbfu8, function], inner);
    assert(said(enable, code) =~= element_octets(seq![0xbfu8, function], inner));
    assert(inner =~= element_octets(seq![0x80u8], seq![code]));
    assert(crate::ber::complete_tag(seq![0x80u8]));
    assert(crate::ber::tag_end(seq![0xbfu8, function], 1) == Some(2int));
    assert(crate::ber::complete_tag(seq![0xbfu8, function]));
    crate::ber::law_element_round_trip(seq![0xbfu8, function], inner, Seq::empty());
    crate::ber::law_element_round_trip(seq![0x80u8], seq![code], Seq::empty());
    assert(said(enable, code) + Seq::<u8>::empty() =~= said(enable, code));
    assert(inner + Seq::<u8>::empty() =~= inner);
    assert(crate::es10c::function_tag(function) =~= seq![0xbfu8, function]);
}

// ---------------------------------------------------------------------------
// Judging a server
// ---------------------------------------------------------------------------

/// What stands for a matching identifier in front of the device: nothing, or an
/// element `80` with its UTF-8.
pub open spec fn identifies(matching_id: Option<Seq<char>>) -> Seq<u8> {
    match matching_id {
        Some(id) => element(seq![0x80u8], encode_utf8(id)),
        None => Seq::empty(),
    }
}

/// The device of a request: its type allocation code, and no capabilities.
pub open spec fn device(tac: Seq<u8>) -> Seq<u8> {
    element(seq![0xa1u8], element(seq![0x80u8], tac) + seq![0xa1u8, 0x00u8])
}

/// Credentials small enough for a package.
pub open spec fn modest(start: StartModel, matching_id: Option<Seq<char>>) -> bool {
    &&& start.server_signed1.len() <= 65536
    &&& start.server_signature1.len() <= 65536
    &&& start.euicc_ci_pkid_der.len() <= 65536
    &&& start.server_certificate.len() <= 65536
    &&& matching_id matches Some(id) ==> encode_utf8(id).len() <= 65536
}

proof fn lemma_whole_is_no_longer(bytes: Seq<u8>)
    requires
        whole_of(bytes) is Ok,
    ensures
        whole_of(bytes)->Ok_0.len() <= bytes.len(),
        whole_of(bytes)->Ok_0.is_prefix_of(bytes),
{
    crate::ber::lemma_element(bytes);
}

/// `AuthenticateServer`, tag `BF38`, hands the card the four credentials in
/// their order and then, in an element `A0`, the matching identifier of the
/// activation code and the device. That is what a download runs on its channel.
pub proof fn law_a_server_is_judged_for_its_matching_id(
    client: ClientModel,
    slot: u8,
    channel: u8,
    download: DownloadModel,
    start: StartModel,
    matching_id: Option<Seq<char>>,
    imei: Seq<char>,
)
    requires
        judging(start, matching_id, imei) is Ok,
        modest(start, matching_id),
    ensures
        ({
            let request = judging(start, matching_id, imei)->Ok_0;
            &&& request == element(
                seq![0xbfu8, 0x38u8],
                credentials(
                    start.server_signed1,
                    start.server_signature1,
                    start.euicc_ci_pkid_der,
                    start.server_certificate,
                ) + element(
                    seq![0xa0u8],
                    identifies(matching_id) + device(tac_in(imei)->Ok_0),
                ),
            )
            &&& judged_on(client, slot, channel, start, matching_id, imei).1 == executed(
                client,
                slot,
                channel,
                request,
            ).1
            &&& introduced_on(
                client,
                slot,
                channel,
                download,
                start,
                matching_id,
                imei,
            ).2 == executed(client, slot, channel, request).1
        }),
{
    let tac = tac_in(imei)->Ok_0;
    lemma_tac_is_short(imei);
    lemma_context(matching_id, tac);
    lemma_authentication(
        start.server_signed1,
        start.server_signature1,
        start.euicc_ci_pkid_der,
        start.server_certificate,
        server_context(matching_id, tac),
    );
}

proof fn lemma_tac_is_short(imei: Seq<char>)
    requires
        tac_in(imei) is Ok,
    ensures
        tac_in(imei)->Ok_0.len() == 4,
{
}

proof fn lemma_context(matching_id: Option<Seq<char>>, tac: Seq<u8>)
    requires
        tac.len() == 4,
        matching_id matches Some(id) ==> encode_utf8(id).len() <= 65536,
    ensures
        server_context(matching_id, tac) == identifies(matching_id) + device(tac),
        server_context(matching_id, tac).len() <= 70000,
        server_context(matching_id, tac).len() > 0,
        server_context(matching_id, tac)[0] == if matching_id is Some {
            0x80int
        } else {
            0xa1
        },
{
    assert(element_octets(seq![0xa1u8], Seq::empty()) =~= seq![0xa1u8, 0x00u8]);
    let inner = element_octets(seq![0x80u8], tac) + element_octets(seq![0xa1u8], Seq::empty());
    assert(inner =~= element(seq![0x80u8], tac) + seq![0xa1u8, 0x00u8]);
    assert(element_octets(seq![0xa1u8], inner) == device(tac));
    assert(device(tac).len() == 10);
    assert(server_context(matching_id, tac) =~= identifies(matching_id) + device(tac));
}

/// The four credentials, one behind the other.
pub open spec fn credentials(signed: Seq<u8>, signature: Seq<u8>, key: Seq<u8>, certificate: Seq<u8>) -> Seq<
    u8,
> {
    whole_of(signed)->Ok_0 + whole_of(signature)->Ok_0 + whole_of(key)->Ok_0 + whole_of(
        certificate,
    )->Ok_0
}

proof fn lemma_authentication(
    signed: Seq<u8>,
    signature: Seq<u8>,
    key: Seq<u8>,
    certificate: Seq<u8>,
    context: Seq<u8>,
)
    requires
        crate::es10c::authenticate_request(signed, signature, key, certificate, context) is Ok,
        signed.len() <= 65536,
        signature.len() <= 65536,
        key.len() <= 65536,
        certificate.len() <= 65536,
        context.len() <= 70000,
    ensures
        crate::es10c::authenticate_request(signed, signature, key, certificate, context)->Ok_0
            == element(
            seq![0xbfu8, 0x38u8],
            credentials(signed, signature, key, certificate) + element(seq![0xa0u8], context),
        ),
        credentials(signed, signature, key, certificate).len() <= 262144,
{
    lemma_whole_is_no_longer(signed);
    lemma_whole_is_no_longer(signature);
    lemma_whole_is_no_longer(key);
    lemma_whole_is_no_longer(certificate);
    law_lengths_are_shortest(seq![0xa0u8], context);
    let body = credentials(signed, signature, key, certificate) + element(seq![0xa0u8], context);
    law_lengths_are_shortest(seq![0xbfu8, 0x38u8], body);
    assert(crate::es10c::function_tag(0x38) =~= seq![0xbfu8, 0x38u8]);
}

/// Two downloads that differ in nothing but the matching identifier ask the
/// card different things.
pub proof fn law_matching_ids_are_told_apart(
    start: StartModel,
    matching_id: Option<Seq<char>>,
    other: Option<Seq<char>>,
    imei: Seq<char>,
)
    requires
        judging(start, matching_id, imei) is Ok,
        modest(start, matching_id),
        modest(start, other),
        matching_id != other,
    ensures
        judging(start, matching_id, imei) != judging(start, other, imei),
{
    let tac = tac_in(imei)->Ok_0;
    lemma_tac_is_short(imei);
    lemma_context(matching_id, tac);
    lemma_context(other, tac);
    let one = server_context(matching_id, tac);
    let two = server_context(other, tac);
    if judging(start, matching_id, imei) == judging(start, other, imei) {
        lemma_authentication(
            start.server_signed1,
            start.server_signature1,
            start.euicc_ci_pkid_der,
            start.server_certificate,
            one,
        );
        lemma_authentication(
            start.server_signed1,
            start.server_signature1,
            start.euicc_ci_pkid_der,
            start.server_certificate,
            two,
        );
        lemma_same_context(
            credentials(
                start.server_signed1,
                start.server_signature1,
                start.euicc_ci_pkid_der,
                start.server_certificate,
            ),
            one,
            two,
        );
        if matching_id is Some && other is Some {
            lemma_same_id(matching_id->0, other->0, tac);
        }
    }
}

proof fn lemma_same_context(front: Seq<u8>, one: Seq<u8>, two: Seq<u8>)
    requires
        front.len() <= 262144,
        one.len() <= 70000,
        two.len() <= 70000,
        element(seq![0xbfu8, 0x38u8], front + element(seq![0xa0u8], one)) == element(
            seq![0xbfu8, 0x38u8],
            front + element(seq![0xa0u8], two),
        ),
    ensures
        one == two,
{
    let tag = seq![0xbfu8, 0x38u8];
    let first = front + element(seq![0xa0u8], one);
    let second = front + element(seq![0xa0u8], two);
    assert(crate::ber::tag_end(tag, 1) == Some(2int));
    law_lengths_are_shortest(tag, first);
    law_lengths_are_shortest(tag, second);
    law_lengths_are_shortest(seq![0xa0u8], one);
    law_lengths_are_shortest(seq![0xa0u8], two);
    lemma_same_value(tag, first, Seq::empty(), second, Seq::empty());
    assert(element(seq![0xa0u8], one) =~= first.skip(front.len() as int));
    assert(element(seq![0xa0u8], two) =~= second.skip(front.len() as int));
    lemma_same_value(seq![0xa0u8], one, Seq::empty(), two, Seq::empty());
}

proof fn lemma_same_id(id: Seq<char>, other: Seq<char>, tac: Seq<u8>)
    requires
        encode_utf8(id).len() <= 65536,
        encode_utf8(other).len() <= 65536,
        server_context(Some(id), tac) == server_context(Some(other), tac),
    ensures
        id == other,
{
    let rest = server_context(None, tac);
    lemma_same_value(seq![0x80u8], encode_utf8(id), rest, encode_utf8(other), rest);
    vstd::utf8::encode_utf8_decode_utf8(id);
    vstd::utf8::encode_utf8_decode_utf8(other);
}

proof fn lemma_same_value(
    tag: Seq<u8>,
    value: Seq<u8>,
    rest: Seq<u8>,
    other: Seq<u8>,
    other_rest: Seq<u8>,
)
    requires
        crate::ber::complete_tag(tag),
        value.len() < 16777216,
        other.len() < 16777216,
        element_octets(tag, value) + rest == element_octets(tag, other) + other_rest,
    ensures
        value == other,
{
    crate::ber::law_element_round_trip(tag, value, rest);
    crate::ber::law_element_round_trip(tag, other, other_rest);
}

// ---------------------------------------------------------------------------
// Questions
// ---------------------------------------------------------------------------

/// A question is a tag of two octets and no arguments.
pub open spec fn question(tag: u8) -> Seq<u8> {
    seq![0xbfu8, tag, 0x00u8]
}

/// What the chip is, in full and in short, is asked for by `BF22` and `BF20`,
/// on the channel that was given, and nothing else is asked.
pub proof fn law_the_chip_is_asked_what_it_is(client: ClientModel, slot: u8, channel: u8)
    ensures
        info2_on(client, slot, channel).1 == executed(client, slot, channel, question(0x22)).1,
        info1_on(client, slot, channel).1 == executed(client, slot, channel, question(0x20)).1,
{
    assert(crate::es10c::bare_request(0x22) =~= question(0x22));
    assert(crate::es10c::bare_request(0x20) =~= question(0x20));
}

/// A challenge is asked for by `BF2E` and the addresses by `BF3C`.
pub proof fn law_the_chip_is_asked_for_a_challenge(client: ClientModel, slot: u8, channel: u8)
    ensures
        challenge_on(client, slot, channel).1 == executed(client, slot, channel, question(0x2e)).1,
        addresses_on(client, slot, channel).1 == executed(client, slot, channel, question(0x3c)).1,
{
    assert(crate::es10c::bare_request(0x2e) =~= question(0x2e));
    assert(crate::es10c::bare_request(0x3c) =~= question(0x3c));
}

/// Notifications are listed by `BF28` and retrieved by `BF2B`.
pub proof fn law_the_chip_is_asked_for_notifications(client: ClientModel, slot: u8, channel: u8)
    ensures
        notifications_on(client, slot, channel).1 == executed(
            client,
            slot,
            channel,
            question(0x28),
        ).1,
        pending_on(client, slot, channel).1 == executed(client, slot, channel, question(0x2b)).1,
{
    assert(crate::es10c::bare_request(0x28) =~= question(0x28));
    assert(crate::es10c::bare_request(0x2b) =~= question(0x2b));
}

/// The profiles are asked for by `BF2D`.
pub proof fn law_the_chip_is_asked_for_profiles(client: ClientModel, slot: u8, channel: u8)
    ensures
        profiles_on(client, slot, channel).1 == executed(client, slot, channel, question(0x2d)).1,
{
    assert(crate::es10c::bare_request(0x2d) =~= question(0x2d));
}

/// The EID is asked for by `BF3E` with tag `5A`, and only where that failed by
/// the older command `80 CA 00 5A 00`.
pub proof fn law_the_eid_is_asked_for_twice_at_most(client: ClientModel, slot: u8, channel: u8)
    ensures
        ({
            let (first, after) = executed(
                client,
                slot,
                channel,
                seq![0xbfu8, 0x3eu8, 0x03u8, 0x5cu8, 0x01u8, 0x5au8],
            );
            let last = transmitted(
                after,
                slot,
                channel,
                seq![0x80u8, 0xcau8, 0x00u8, 0x5au8, 0x00u8],
            );
            let (eid, end) = eid_on(client, slot, channel);
            &&& end == after || end == last.1
            &&& first is Err ==> end == last.1
            &&& first is Err && eid is Ok ==> last.0 is Ok && last.0->Ok_0.sw1 == 0x90
                && last.0->Ok_0.sw2 == 0x00
            &&& first matches Ok(bytes) ==> (eid_answer(bytes) is Ok ==> end == after && eid == Ok::<
                Seq<char>,
                SessionFault,
            >(eid_answer(bytes)->Ok_0))
            &&& first matches Ok(bytes) ==> (eid_answer(bytes) is Err ==> end == last.1)
        }),
{
    let (first, after) = executed(
        client,
        slot,
        channel,
        seq![0xbfu8, 0x3eu8, 0x03u8, 0x5cu8, 0x01u8, 0x5au8],
    );
    assert(crate::es10c::eid_request() =~= seq![0xbfu8, 0x3eu8, 0x03u8, 0x5cu8, 0x01u8, 0x5au8]);
    assert(crate::uim::get_eid_command() =~= seq![0x80u8, 0xcau8, 0x00u8, 0x5au8, 0x00u8]);
}

/// An EID is thirty-two digits, the high half of each of sixteen octets first.
pub open spec fn spells_eid(text: Seq<char>, octets: Seq<u8>) -> bool {
    &&& text.len() == 32
    &&& forall|i: int|
        #![trigger octets[i]]
        0 <= i < 16 && octets[i] / 16 < 10 && octets[i] % 16 < 10 ==> text[2 * i] as int == 48
            + octets[i] / 16 && text[2 * i + 1] as int == 48 + octets[i] % 16
}

/// The EID that a chip answers is read digit for digit, whichever way it was
/// asked for.
pub proof fn law_an_eid_reads_back(octets: Seq<u8>)
    requires
        octets.len() == 16,
    ensures
        eid_answer(seq![0xbfu8, 0x3eu8, 0x12u8, 0x5au8, 0x10u8] + octets) matches Ok(text)
            && spells_eid(text, octets),
        eid_in(
            ApduModel { data: seq![0x5au8, 0x10u8] + octets, sw1: 0x90, sw2: 0x00 },
        ) matches Ok(text) && spells_eid(text, octets),
        octets[0] != 0x5a ==> (eid_in(
            ApduModel { data: octets, sw1: 0x90, sw2: 0x00 },
        ) matches Ok(text) && spells_eid(text, octets)),
{
    let inner = seq![0x5au8, 0x10u8] + octets;
    let whole = seq![0xbfu8, 0x3eu8, 0x12u8, 0x5au8, 0x10u8] + octets;
    let tag = seq![0xbfu8, 0x3eu8];
    assert(whole =~= element_octets(tag, inner) + Seq::empty());
    assert(inner =~= element_octets(seq![0x5au8], octets) + Seq::empty());
    assert(crate::ber::tag_end(tag, 1) == Some(2int));
    crate::ber::law_element_round_trip(tag, inner, Seq::empty());
    crate::ber::law_element_round_trip(seq![0x5au8], octets, Seq::empty());
    assert(crate::es10c::function_tag(0x3e) =~= tag);
    assert(inner.subrange(2, 18) =~= octets);
    let text = crate::uim::nibbles(octets);
    assert forall|i: int|
        #![trigger octets[i]]
        0 <= i < 16 && octets[i] / 16 < 10 && octets[i] % 16 < 10 implies text[2 * i] as int == 48
        + octets[i] / 16 && text[2 * i + 1] as int == 48 + octets[i] % 16 by {
        assert((2 * i) / 2 == i && (2 * i + 1) / 2 == i);
    }
}

/// Opening the ISD-R selects `A0000005591010FFFFFFFF8900000100` on that slot.
pub proof fn law_the_isd_r_is_selected(client: ClientModel, id: u8, slot: u8)
    requires
        ready(client, 0x0b, id),
    ensures
        opened(client, slot).1.link.sent == client.link.sent.push(
            asking(
                0x0b,
                id,
                client.next_service,
                0x42,
                typed(
                    0x10,
                    seq![
                        0x10u8,
                        0xa0u8,
                        0x00u8,
                        0x00u8,
                        0x05u8,
                        0x59u8,
                        0x10u8,
                        0x10u8,
                        0xffu8,
                        0xffu8,
                        0xffu8,
                        0xffu8,
                        0x89u8,
                        0x00u8,
                        0x00u8,
                        0x01u8,
                        0x00u8,
                    ],
                ) + typed(0x01, seq![slot]),
            ),
        ),
{
    let aid = crate::uim::isd_r();
    crate::laws::link::law_a_channel_is_opened_to_its_application(client, id, slot, aid);
    assert(seq![aid.len() as u8] + aid =~= seq![
        0x10u8,
        0xa0u8,
        0x00u8,
        0x00u8,
        0x05u8,
        0x59u8,
        0x10u8,
        0x10u8,
        0xffu8,
        0xffu8,
        0xffu8,
        0xffu8,
        0x89u8,
        0x00u8,
        0x00u8,
        0x01u8,
        0x00u8,
    ]);
}

/// Every command of a chain is `80 E2`, marked `91` where it is the last and
/// `11` where it is not, numbered from zero, and no longer than a command may
/// be; all but the last are full.
pub proof fn law_every_block_is_marked(payload: Seq<u8>)
    requires
        chain_of(payload) is Ok,
    ensures
        ({
            let chain = chain_of(payload)->Ok_0;
            forall|i: int|
                #![trigger chain[i]]
                0 <= i < chain.len() ==> {
                    &&& chain[i][0] == 0x80
                    &&& chain[i][1] == 0xe2
                    &&& chain[i][2] == if i + 1 == chain.len() {
                        0x91int
                    } else {
                        0x11
                    }
                    &&& chain[i][3] == i
                    &&& i + 1 < chain.len() ==> chain[i].len() == 260
                    &&& forall|k: int|
                        0 <= k < chain[i].len() - 5 ==> #[trigger] chain[i][5 + k] == payload[255
                            * i + k]
                }
        }),
{
    let chain = chain_of(payload)->Ok_0;
    assert forall|i: int| #![trigger chain[i]] 0 <= i < chain.len() implies {
        &&& chain[i][0] == 0x80
        &&& chain[i][1] == 0xe2
        &&& chain[i][2] == if i + 1 == chain.len() {
            0x91int
        } else {
            0x11
        }
        &&& chain[i][3] == i
        &&& i + 1 < chain.len() ==> chain[i].len() == 260
        &&& forall|k: int|
            0 <= k < chain[i].len() - 5 ==> #[trigger] chain[i][5 + k] == payload[255 * i + k]
    } by {
        assert(chain[i] == crate::es10c::store_block(payload, i));
        assert(255 * i < payload.len());
        if i + 1 < chain.len() {
            assert(255 * (i + 1) <= payload.len());
        }
    }
}

// ---------------------------------------------------------------------------
// Orders
// ---------------------------------------------------------------------------

/// The requests that change a profile, octet by octet: `BF31` and `BF32` with
/// the ICCID in a list and the refresh flag, `BF33` with the ICCID alone, and
/// `BF29` with the ICCID and the name.
pub proof fn law_an_order_names_its_profile(
    iccid: Seq<char>,
    nickname: Seq<char>,
    function: u8,
    refresh: bool,
)
    requires
        0 < trimmed(iccid).len() <= 20,
        all_digits(trimmed(iccid)),
    ensures
        ({
            let octets = encoded_iccid(iccid)->Ok_0;
            let name = encode_utf8(trimmed(nickname));
            &&& names_iccid(octets, trimmed(iccid))
            &&& octets.len() == 10
            &&& profile_request(function, iccid, refresh) matches Ok(payload) && payload == seq![
                0xbfu8,
                function,
                0x11u8,
                0xa0u8,
                0x0cu8,
                0x5au8,
                0x0au8,
            ] + octets + seq![
                0x81u8,
                0x01u8,
                if refresh {
                    0xffu8
                } else {
                    0x00u8
                },
            ]
            &&& delete_request(iccid) matches Ok(payload) && payload == seq![
                0xbfu8,
                0x33u8,
                0x0cu8,
                0x5au8,
                0x0au8,
            ] + octets
            &&& nickname_request(iccid, nickname) is Ok <==> name.len() <= 64
            &&& nickname_request(iccid, nickname) matches Ok(payload) ==> payload == seq![
                0xbfu8,
                0x29u8,
                (14 + name.len()) as u8,
                0x5au8,
                0x0au8,
            ] + octets + seq![0x90u8, name.len() as u8] + name
        }),
{
    law_an_iccid_is_named_digit_by_digit(iccid);
    let octets = encoded_iccid(iccid)->Ok_0;
    let name = encode_utf8(trimmed(nickname));
    assert(profile_request(function, iccid, refresh)->Ok_0 =~= seq![
        0xbfu8,
        function,
        0x11u8,
        0xa0u8,
        0x0cu8,
        0x5au8,
        0x0au8,
    ] + octets + seq![
        0x81u8,
        0x01u8,
        if refresh {
            0xffu8
        } else {
            0x00u8
        },
    ]);
    assert(delete_request(iccid)->Ok_0 =~= seq![0xbfu8, 0x33u8, 0x0cu8, 0x5au8, 0x0au8] + octets);
    if name.len() <= 64 {
        assert(nickname_request(iccid, nickname)->Ok_0 =~= seq![
            0xbfu8,
            0x29u8,
            (14 + name.len()) as u8,
            0x5au8,
            0x0au8,
        ] + octets + seq![0x90u8, name.len() as u8] + name);
    }
}

/// The tag octet under which each order is answered.
pub open spec fn order_tag(command: ProfileCommand) -> u8 {
    match command {
        ProfileCommand::Enable => 0x31,
        ProfileCommand::Disable => 0x32,
        ProfileCommand::SetNickname => 0x29,
        ProfileCommand::Delete => 0x33,
    }
}

/// An order was carried out exactly where the card answers zero under its tag.
pub proof fn law_an_order_is_done_where_the_card_says_zero(
    command: ProfileCommand,
    other: ProfileCommand,
    code: u8,
)
    ensures
        command_result(
            seq![0xbfu8, order_tag(command), 0x03u8, 0x80u8, 0x01u8, code],
            command,
        ) is Ok <==> code == 0,
        other != command ==> command_result(
            seq![0xbfu8, order_tag(command), 0x03u8, 0x80u8, 0x01u8, code],
            other,
        ) is Err,
{
    let tag = seq![0xbfu8, order_tag(command)];
    let inner = element(seq![0x80u8], seq![code]);
    let whole = seq![0xbfu8, order_tag(command), 0x03u8, 0x80u8, 0x01u8, code];
    law_lengths_are_shortest(seq![0x80u8], seq![code]);
    assert(whole =~= element_octets(tag, inner) + Seq::empty());
    assert(inner =~= element_octets(seq![0x80u8], seq![code]) + Seq::empty());
    assert(crate::ber::tag_end(tag, 1) == Some(2int));
    crate::ber::law_element_round_trip(tag, inner, Seq::empty());
    crate::ber::law_element_round_trip(seq![0x80u8], seq![code], Seq::empty());
    assert(crate::es10c::function_tag(order_tag(command)) =~= tag);
    if other != command {
        let wrong = crate::es10c::function_tag(crate::es10c::command_function(other));
        assert(wrong[1] != tag[1]);
    }
}

/// The type allocation code of an IMEI: its first eight digits, two to an
/// octet, the first one high.
pub proof fn law_a_device_is_named_by_its_first_digits(imei: Seq<char>)
    requires
        all_digits(imei),
        15 <= imei.len() <= 16,
    ensures
        tac_in(imei) matches Ok(tac) && tac.len() == 4 && forall|i: int|
            #![trigger tac[i]]
            0 <= i < 4 ==> tac[i] / 16 == imei[2 * i] as int - 48 && tac[i] % 16 == imei[2 * i
                + 1] as int - 48,
{
    lemma_nothing_to_skip(imei);
    let tac = tac_in(imei)->Ok_0;
    assert forall|i: int| #![trigger tac[i]] 0 <= i < 4 implies tac[i] / 16 == imei[2 * i] as int
        - 48 && tac[i] % 16 == imei[2 * i + 1] as int - 48 by {
        assert(is_digit(imei[2 * i]) && is_digit(imei[2 * i + 1]));
    }
}

proof fn lemma_nothing_to_skip(text: Seq<char>)
    requires
        all_digits(text),
    ensures
        crate::es10c::unspaced(text) == text,
    decreases text.len(),
{
    reveal(Seq::filter);
    if text.len() > 0 {
        assert(is_digit(text[text.len() - 1]));
        assert forall|i: int| 0 <= i < text.len() - 1 implies is_digit(
            #[trigger] text.drop_last()[i],
        ) by {
            assert(is_digit(text[i]));
        }
        lemma_nothing_to_skip(text.drop_last());
        assert(text =~= text.drop_last().push(text.last()));
    } else {
        assert(crate::es10c::unspaced(text) =~= text);
    }
}

// ---------------------------------------------------------------------------
// Ending a session
// ---------------------------------------------------------------------------

/// `CancelSession`: tag `BF41`, the transaction, and the reason.
pub open spec fn cancels(transaction: Seq<u8>, reason: u8) -> Seq<u8> {
    element(
        seq![0xbfu8, 0x41u8],
        element(seq![0x80u8], transaction) + seq![0x81u8, 0x01u8, reason],
    )
}

/// The number of each reason for ending a session.
pub open spec fn reason_octet(reason: CancelSessionReason) -> u8 {
    match reason {
        CancelSessionReason::EndUserRejection => 0,
        CancelSessionReason::Postponed => 1,
        CancelSessionReason::Timeout => 2,
        CancelSessionReason::PprNotAllowed => 3,
        CancelSessionReason::MetadataMismatch => 4,
        CancelSessionReason::LoadBppExecutionError => 5,
        CancelSessionReason::UndefinedReason => 16,
    }
}

/// Ending a session runs `CancelSession` of its own transaction, for its own
/// reason.
pub proof fn law_a_session_is_ended_for_its_reason(
    client: ClientModel,
    slot: u8,
    channel: u8,
    transaction: Seq<u8>,
    reason: CancelSessionReason,
)
    requires
        transaction.len() <= 65536,
    ensures
        cancel_request(transaction, reason) == cancels(transaction, reason_octet(reason)),
        cancelled_on(client, slot, channel, transaction, reason).1 == executed(
            client,
            slot,
            channel,
            cancels(transaction, reason_octet(reason)),
        ).1,
{
    law_lengths_are_shortest(seq![0x80u8], transaction);
    assert(element_octets(seq![0x81u8], seq![reason_octet(reason)]) =~= seq![
        0x81u8,
        0x01u8,
        reason_octet(reason),
    ]);
    assert(crate::es10c::function_tag(0x41) =~= seq![0xbfu8, 0x41u8]);
    let body = element(seq![0x80u8], transaction) + seq![0x81u8, 0x01u8, reason_octet(reason)];
    law_lengths_are_shortest(seq![0xbfu8, 0x41u8], body);
}

/// The server offers a profile that could not be removed again.
pub open spec fn forbidden(reply: Result<AuthModel, Es9pFault>) -> bool {
    &&& reply is Ok
    &&& metadata_in(reply->Ok_0.profile_metadata) is Ok
    &&& code_required_in(reply->Ok_0.smdp_signed2) is Ok
    &&& exists|i: int|
        0 <= i < metadata_in(reply->Ok_0.profile_metadata)->Ok_0.policy_rules.len()
            && irreversible(
            #[trigger] metadata_in(reply->Ok_0.profile_metadata)->Ok_0.policy_rules[i],
        )
}

/// A server that would not go on is left: the session is ended for no stated
/// reason, and its error is what is reported. A profile that could not be
/// removed again is given back as one whose rules are not allowed, and no
/// package is asked for.
pub proof fn law_what_is_not_taken_is_given_back(
    client: ClientModel,
    slot: u8,
    channel: u8,
    download: DownloadModel,
    reply: Result<AuthModel, Es9pFault>,
    code: Option<Seq<char>>,
)
    requires
        download.transaction.len() <= 65536,
    ensures
        ({
            let (next, after, last) = decided_on(client, slot, channel, download, reply, code);
            &&& reply matches Err(e) ==> next == Err::<NextModel, SessionFault>(
                SessionFault::Es9p(e),
            ) && last == executed(client, slot, channel, cancels(download.transaction, 16)).1
            &&& forbidden(reply) ==> {
                let (answered, cancelled) = executed(
                    client,
                    slot,
                    channel,
                    cancels(download.transaction, 3),
                );
                &&& !(next matches Ok(NextModel::FetchPackage(_)))
                &&& next matches Ok(NextModel::GiveBack(response)) ==> last == cancelled
                    && answered is Ok
                &&& after.outcome.session_cancelled == Some("pprNotAllowed")
                &&& after.outcome.refused_policy_rules.len() > 0
            }
        }),
{
    law_a_session_is_ended_for_its_reason(
        client,
        slot,
        channel,
        download.transaction,
        CancelSessionReason::UndefinedReason,
    );
    law_a_session_is_ended_for_its_reason(
        client,
        slot,
        channel,
        download.transaction,
        CancelSessionReason::PprNotAllowed,
    );
    if forbidden(reply) {
        let metadata = metadata_in(reply->Ok_0.profile_metadata)->Ok_0;
        let i = choose|i: int|
            0 <= i < metadata.policy_rules.len() && irreversible(
                #[trigger] metadata.policy_rules[i],
            );
        let keep = |rule: Seq<char>| irreversible(rule);
        let kept = metadata.policy_rules.filter(keep);
        metadata.policy_rules.filter_lemma(keep);
        assert(kept.contains(metadata.policy_rules[i]));
        assert(crate::download::rules_against(metadata) == kept);
    }
}

/// A delivered notification is removed from the card by its own number.
pub proof fn law_a_removal_is_of_that_number(
    client: ClientModel,
    slot: u8,
    channel: u8,
    download: DownloadModel,
    answer: Acknowledgement,
    number: u64,
)
    requires
        download.sequence_number == Some(number),
    ensures
        delivered_on(client, slot, channel, download, Ok(answer)).1 == removed_on(
            client,
            slot,
            channel,
            number,
        ).1,
        removed_on(client, slot, channel, number).1 == executed(
            client,
            slot,
            channel,
            remove_request(number),
        ).1,
        delivered_on(client, slot, channel, download, Ok(answer)).0.outcome.notification_delivered,
{
}

/// A removal, octet by octet.
pub proof fn law_a_removal_spells_its_number(number: u64)
    ensures
        number < 256 ==> remove_request(number) == seq![
            0xbfu8,
            0x30u8,
            0x03u8,
            0x80u8,
            0x01u8,
            number as u8,
        ],
        256 <= number < 65536 ==> remove_request(number) == seq![
            0xbfu8,
            0x30u8,
            0x04u8,
            0x80u8,
            0x02u8,
            (number / 256) as u8,
            (number % 256) as u8,
        ],
{
    reveal_with_fuel(crate::es10c::minimal_octets, 3);
    assert(crate::es10c::function_tag(0x30) =~= seq![0xbfu8, 0x30u8]);
    if number < 256 {
        assert(remove_request(number) =~= seq![
            0xbfu8,
            0x30u8,
            0x03u8,
            0x80u8,
            0x01u8,
            number as u8,
        ]);
    } else if number < 65536 {
        assert(crate::es10c::minimal_octets(number as nat) =~= seq![
            (number / 256) as u8,
            (number % 256) as u8,
        ]);
        assert(remove_request(number) =~= seq![
            0xbfu8,
            0x30u8,
            0x04u8,
            0x80u8,
            0x02u8,
            (number / 256) as u8,
            (number % 256) as u8,
        ]);
    }
}

// ---------------------------------------------------------------------------
// Preparing a download
// ---------------------------------------------------------------------------

/// `PrepareDownload`, tag `BF21`, hands the card what the server signed, its
/// signature, the hash of the confirmation code where one is asked for, and the
/// server's certificate, in that order. The hash is of the hash of the code and
/// of the transaction that the server signed.
pub proof fn law_a_download_is_prepared_with_its_code(
    client: ClientModel,
    slot: u8,
    channel: u8,
    answer: AuthModel,
    code: Option<Seq<char>>,
)
    requires
        whole_of(answer.smdp_signed2) is Ok,
        whole_of(answer.smdp_signature2) is Ok,
        whole_of(answer.smdp_certificate) is Ok,
        code_hash(answer, code) is Ok,
    ensures
        ({
            let hash = match code_required_in(answer.smdp_signed2)->Ok_0 {
                true => element_octets(
                    seq![0x04u8],
                    sha256(
                        sha256(encode_utf8(code->0)) + signed_transaction_in(
                            answer.smdp_signed2,
                        )->Ok_0,
                    ),
                ),
                false => Seq::empty(),
            };
            &&& code_required_in(answer.smdp_signed2) == Ok::<bool, crate::es10c::Es10cFault>(true)
                ==> code is Some
            &&& prepared_on(client, slot, channel, answer, code).1 == executed(
                client,
                slot,
                channel,
                element_octets(
                    seq![0xbfu8, 0x21u8],
                    whole_of(answer.smdp_signed2)->Ok_0 + whole_of(answer.smdp_signature2)->Ok_0
                        + hash + whole_of(answer.smdp_certificate)->Ok_0,
                ),
            ).1
        }),
{
    assert(crate::es10c::function_tag(0x21) =~= seq![0xbfu8, 0x21u8]);
}

/// A package is fed to the card segment by segment, in order, until the card
/// answers with octets; what it answers then is the result, and nothing more is
/// sent.
pub proof fn law_a_package_is_fed_until_the_card_answers(
    client: ClientModel,
    slot: u8,
    channel: u8,
    segments: Seq<SegmentModel>,
    sent: Seq<TransferModel>,
)
    requires
        segments.len() > 0,
    ensures
        ({
            let (answer, after) = executed(client, slot, channel, segments[0].bytes);
            let (result, last) = fed_on(client, slot, channel, segments, sent);
            &&& answer is Err ==> result is Err && last == after
            &&& answer is Ok && answer->Ok_0.len() > 0 ==> {
                &&& last == after
                &&& result is Ok <==> installation_in(answer->Ok_0) is Ok
                &&& result matches Ok((installed, transfers)) ==> installed == installation_in(
                    answer->Ok_0,
                )->Ok_0 && transfers == transfers_after(sent, segments[0])
            }
            &&& answer is Ok && answer->Ok_0.len() == 0 ==> {
                &&& last == fed_on(
                    after,
                    slot,
                    channel,
                    segments.skip(1),
                    transfers_after(sent, segments[0]),
                ).1
                &&& segments.len() == 1 ==> result is Err
            }
        }),
{
    let (answer, after) = executed(client, slot, channel, segments[0].bytes);
    if segments.len() == 1 {
        assert(segments.skip(1).len() == 0);
    }
    assert(transfers_after(sent, segments[0]) == sent.push(
        crate::download::transfer_of(segments[0]),
    ));
}

/// The transfers so far and that of one segment more.
pub open spec fn transfers_after(sent: Seq<TransferModel>, segment: SegmentModel) -> Seq<
    TransferModel,
> {
    sent.push(
        TransferModel {
            label: segment.label,
            bytes: segment.bytes.len() as usize,
            blocks: ((segment.bytes.len() + 254) / 255) as usize,
        },
    )
}

/// What a download starts from is what the chip said: its EID, its challenge
/// and its description, and the server and the identifier of the code.
pub proof fn law_a_download_starts_with_what_the_chip_said(
    client: ClientModel,
    slot: u8,
    channel: u8,
    code: ActivationModel,
)
    requires
        begun_on(client, slot, channel, code).0 is Ok,
    ensures
        ({
            let begun = begun_on(client, slot, channel, code).0->Ok_0;
            let (eid, c1) = eid_on(client, slot, channel);
            let (before, c2) = snapshot_on(c1, slot, channel);
            let (challenge, c3) = challenge_on(c2, slot, channel);
            let (info1, c4) = info1_on(c3, slot, channel);
            &&& Ok::<Seq<char>, SessionFault>(begun.outcome.eid) == eid
            &&& Ok::<_, SessionFault>(begun.outcome.before) == before
            &&& Ok::<_, SessionFault>(begun.outcome.euicc_challenge) == challenge
            &&& info1 matches Ok(info) && begun.info1 == info.raw && begun.outcome.chip_ci_key_ids
                == info.ci_key_ids_for_verification
            &&& begun.outcome.smdp_address == code.smdp_address
            &&& begun.outcome.matching_id_present <==> code.matching_id is Some
            &&& begun_on(client, slot, channel, code).1 == c4
        }),
{
}

// ---------------------------------------------------------------------------
// What is known of a chip
// ---------------------------------------------------------------------------

/// What is known of a chip is what each question answered: none of the four
/// stands for another, and a list that was refused is empty and says so.
pub proof fn law_what_is_known_of_a_chip_is_what_it_said(
    client: ClientModel,
    slot: u8,
    channel: u8,
)
    requires
        local_info_on(client, slot, channel).0 is Ok,
    ensures
        ({
            let known = local_info_on(client, slot, channel).0->Ok_0;
            let (eid, c1) = eid_on(client, slot, channel);
            let (info, c2) = info2_on(c1, slot, channel);
            let (notified, c3) = notifications_on(c2, slot, channel);
            let (held, c4) = profiles_on(c3, slot, channel);
            &&& local_info_on(client, slot, channel).1 == c4
            &&& eid == Ok::<_, SessionFault>(known.eid)
            &&& info == Ok::<_, SessionFault>(known.info)
            &&& notified matches Ok(list) ==> known.notifications == list
                && known.notifications_error is None
            &&& notified is Err ==> known.notifications.len() == 0 && known.notifications_error
                is Some
            &&& held matches Ok(list) ==> known.profiles == list && known.profiles_error is None
            &&& held is Err ==> known.profiles.len() == 0 && known.profiles_error is Some
        }),
{
}

/// What a session with a server is started with is what the chip answered:
/// its EID, its challenge and its description, and the servers it knows.
pub proof fn law_a_session_is_started_with_the_chips_answers(
    client: ClientModel,
    slot: u8,
    channel: u8,
)
    requires
        inputs_on(client, slot, channel).0 is Ok,
    ensures
        ({
            let inputs = inputs_on(client, slot, channel).0->Ok_0;
            let (eid, c1) = eid_on(client, slot, channel);
            let (challenge, c2) = challenge_on(c1, slot, channel);
            let (info, c3) = info1_on(c2, slot, channel);
            let (addresses, c4) = addresses_on(c3, slot, channel);
            let (notified, c5) = notifications_on(c4, slot, channel);
            &&& inputs_on(client, slot, channel).1 == c5
            &&& eid == Ok::<_, SessionFault>(inputs.eid)
            &&& challenge == Ok::<_, SessionFault>(inputs.challenge)
            &&& info == Ok::<_, SessionFault>(inputs.info1)
            &&& addresses matches Ok(known) ==> inputs.addresses == known && inputs.addresses_error
                is None
            &&& addresses is Err ==> inputs.addresses_error is Some
            &&& notified matches Ok(list) ==> inputs.notification_addresses == distinct_addresses(
                list,
            ) && inputs.notification_addresses_error is None
            &&& notified is Err ==> inputs.notification_addresses.len() == 0
                && inputs.notification_addresses_error is Some
        }),
{
}

/// The servers that notifications name are each named once, and none is left
/// out.
pub proof fn law_each_server_is_named_once(list: Seq<NotificationModel>, address: Seq<char>)
    ensures
        distinct_addresses(list).contains(address) <==> exists|i: int|
            0 <= i < list.len() && (#[trigger] list[i]).address == address,
        distinct_addresses(list).no_duplicates(),
    decreases list.len(),
{
    if list.len() > 0 {
        let front = list.drop_last();
        let before = distinct_addresses(front);
        let all = distinct_addresses(list);
        law_each_server_is_named_once(front, address);
        law_each_server_is_named_once(front, list.last().address);
        if exists|i: int| 0 <= i < list.len() && (#[trigger] list[i]).address == address {
            let i = choose|i: int| 0 <= i < list.len() && (#[trigger] list[i]).address == address;
            if i < front.len() {
                assert(front[i] == list[i]);
                assert(before.contains(address));
                let k = choose|k: int| 0 <= k < before.len() && before[k] == address;
                assert(all[k] == address);
            } else if !before.contains(address) {
                assert(all[before.len() as int] == address);
            }
        }
        if all.contains(address) {
            let k = choose|k: int| 0 <= k < all.len() && all[k] == address;
            if k < before.len() {
                assert(before[k] == address);
                let i = choose|i: int|
                    0 <= i < front.len() && (#[trigger] front[i]).address == address;
                assert(list[i].address == address);
            } else {
                assert(list[list.len() - 1].address == address);
            }
        }
    }
}

/// One pending notification is picked by its number: what comes back has that
/// number and is one of those the card holds, and nothing comes back only where
/// none has it.
pub proof fn law_a_notification_is_picked_by_its_number(list: Seq<PendingModel>, number: u64)
    ensures
        numbered(list, number) matches Some(entry) ==> entry.metadata.sequence_number == number
            && list.contains(entry),
        numbered(list, number) is None ==> forall|i: int|
            0 <= i < list.len() ==> (#[trigger] list[i]).metadata.sequence_number != number,
    decreases list.len(),
{
    if list.len() > 0 {
        if list[0].metadata.sequence_number == number {
            assert(list.contains(list[0]));
        } else {
            let rest = list.skip(1);
            law_a_notification_is_picked_by_its_number(rest, number);
            if let Some(entry) = numbered(rest, number) {
                let i = choose|i: int| 0 <= i < rest.len() && rest[i] == entry;
                assert(list[i + 1] == entry);
            } else {
                assert forall|i: int| 0 <= i < list.len() implies (
                #[trigger] list[i]).metadata.sequence_number != number by {
                    if i > 0 {
                        assert(rest[i - 1] == list[i]);
                    }
                }
            }
        }
    }
}

/// An inventory says when it was taken, of which chip and behind which modem,
/// and lists each profile by its ICCID and by whether it is enabled.
pub proof fn law_an_inventory_says_what_was_read(
    reading: LocalInfoModel,
    imei: Seq<char>,
    collected_at: i64,
    profile: ProfileModel,
)
    ensures
        inventory_of(reading, imei, collected_at) == "{\"collected_at\":"@ + decimal(
            collected_at as nat,
        ) + ",\"eid\":"@ + json_string(reading.eid) + ",\"modem_imei\":"@ + json_string(imei)
            + ",\"profiles\":["@ + profiles_json(reading.profiles) + "]}"@,
        profile.nickname is None && profile.enabled ==> profile_json(profile) == "{\"iccid\":"@
            + json_string(profile.iccid) + Seq::empty() + ",\"state\":\"enabled\"}"@,
        profile.nickname is None && !profile.enabled ==> profile_json(profile) == "{\"iccid\":"@
            + json_string(profile.iccid) + Seq::empty() + ",\"state\":\"disabled\"}"@,
        profile.nickname matches Some(name) ==> (trimmed(name) == name && name.len() > 0
            ==> profile_json(profile) == "{\"iccid\":"@ + json_string(profile.iccid) + (
        ",\"nickname\":"@ + json_string(name)) + (if profile.enabled {
            ",\"state\":\"enabled\"}"@
        } else {
            ",\"state\":\"disabled\"}"@
        })),
        profiles_json(seq![profile]) == profile_json(profile),
        profiles_json(seq![profile, profile]) == profile_json(profile) + ","@ + profile_json(
            profile,
        ),
{
    assert(seq![profile, profile].drop_last() =~= seq![profile]);
    reveal_with_fuel(profiles_json, 2);
}

} // verus!
