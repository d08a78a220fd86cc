//! What a card is asked when it is challenged, and what its answer comes to.

use crate::aka::{
    aid_in, carried, challenge_apdu, challenged_on, csim_payload_in, csim_text, drained_basic,
    field_in, is_usim, padding, selected_on, unpadded, verdict_in, whole_answer, AkaFault,
    BasicModel, OutcomeModel,
};
use crate::text::{decimal, hex_text_upper};
use crate::uim::ApduModel;
use vstd::prelude::*;

verus! {

/// A challenge is carried octet by octet: behind the header `00 88 00 81 22`
/// stand sixteen octets of RAND and sixteen of AUTN, each behind its length,
/// and an `Le` of zero where one is wanted.
pub proof fn law_rand_goes_before_autn(rand: Seq<u8>, autn: Seq<u8>, include_le: bool)
    requires
        rand.len() == 16,
        autn.len() == 16,
    ensures
        challenge_apdu(rand, autn, include_le) is Ok,
        ({
            let apdu = challenge_apdu(rand, autn, include_le)->Ok_0;
            &&& apdu.len() == if include_le {
                40int
            } else {
                39
            }
            &&& apdu[0] == 0x00 && apdu[1] == 0x88 && apdu[2] == 0x00 && apdu[3] == 0x81
                && apdu[4] == 34
            &&& apdu[5] == 16
            &&& forall|i: int| 0 <= i < 16 ==> #[trigger] apdu[6 + i] == rand[i]
            &&& apdu[22] == 16
            &&& forall|i: int| 0 <= i < 16 ==> #[trigger] apdu[23 + i] == autn[i]
            &&& include_le ==> apdu[39] == 0
        }),
{
}

/// Once the USIM is known to be selected, the very next APDU that the card is
/// handed is the challenge: octets 6 to 21 are RAND and octets 23 to 38 AUTN.
pub proof fn law_the_card_gets_the_challenge(link: BasicModel, rand: Seq<u8>, autn: Seq<u8>)
    requires
        rand.len() == 16,
        autn.len() == 16,
        selected_on(link).0 is Ok,
    ensures
        ({
            let before = selected_on(link).1.sent;
            let after = challenged_on(link, rand, autn).1.sent;
            &&& after.len() > before.len()
            &&& forall|i: int| 0 <= i < before.len() ==> #[trigger] after[i] == before[i]
            &&& after[before.len() as int].len() == 40
            &&& forall|i: int|
                0 <= i < 16 ==> #[trigger] after[before.len() as int][6 + i] == rand[i]
            &&& forall|i: int|
                0 <= i < 16 ==> #[trigger] after[before.len() as int][23 + i] == autn[i]
        }),
{
    law_rand_goes_before_autn(rand, autn, true);
    let apdu = challenge_apdu(rand, autn, true)->Ok_0;
    let start = selected_on(link).1;
    lemma_exchange_keeps_the_log(start, apdu);
    let after = challenged_on(link, rand, autn).1.sent;
    assert(after == crate::aka::whole_answer(start, apdu).1.sent);
    let log = start.sent.push(apdu);
    assert forall|i: int| 0 <= i < log.len() implies after[i] == log[i] by {
        assert(after.take(log.len() as int)[i] == after[i]);
    }
    assert(after[start.sent.len() as int] == apdu);
}

/// Two challenges look the same to the card only where they are the same.
pub proof fn law_challenges_are_told_apart(
    rand: Seq<u8>,
    autn: Seq<u8>,
    other_rand: Seq<u8>,
    other_autn: Seq<u8>,
    include_le: bool,
)
    requires
        challenge_apdu(rand, autn, include_le) is Ok,
        challenge_apdu(rand, autn, include_le) == challenge_apdu(
            other_rand,
            other_autn,
            include_le,
        ),
    ensures
        rand == other_rand,
        autn == other_autn,
{
    law_rand_goes_before_autn(rand, autn, include_le);
    law_rand_goes_before_autn(other_rand, other_autn, include_le);
    let apdu = challenge_apdu(rand, autn, include_le)->Ok_0;
    assert forall|i: int| 0 <= i < 16 implies rand[i] == other_rand[i] by {
        assert(apdu[6 + i] == rand[i]);
    }
    assert forall|i: int| 0 <= i < 16 implies autn[i] == other_autn[i] by {
        assert(apdu[23 + i] == autn[i]);
    }
    assert(rand =~= other_rand);
    assert(autn =~= other_autn);
}

proof fn lemma_drained_keeps_the_log(
    link: BasicModel,
    gathered: Seq<u8>,
    latest: crate::uim::ApduModel,
    rounds: nat,
)
    ensures
        link.sent.is_prefix_of(crate::aka::drained_basic(link, gathered, latest, rounds).1.sent),
    decreases crate::uim::MAX_GET_RESPONSE_ROUNDS - rounds,
{
    if latest.more() && rounds < crate::uim::MAX_GET_RESPONSE_ROUNDS {
        let (answer, after) = crate::aka::carried(link, latest.fetch());
        assert(link.sent.is_prefix_of(after.sent));
        if let Ok(next) = answer {
            lemma_drained_keeps_the_log(
                after,
                crate::uim::joined(gathered, latest).data,
                next,
                rounds + 1,
            );
            let last = crate::aka::drained_basic(
                after,
                crate::uim::joined(gathered, latest).data,
                next,
                rounds + 1,
            ).1.sent;
            assert(link.sent =~= last.take(link.sent.len() as int));
        }
    }
}

proof fn lemma_exchange_keeps_the_log(link: BasicModel, apdu: Seq<u8>)
    ensures
        link.sent.push(apdu).is_prefix_of(crate::aka::whole_answer(link, apdu).1.sent),
{
    let (answer, after) = crate::aka::carried(link, apdu);
    if let Ok(first) = answer {
        if first.sw1 == 0x6c && apdu.len() > 0 {
            let (retried, again) = crate::aka::carried(
                after,
                apdu.update(apdu.len() - 1, first.sw2),
            );
            assert(link.sent.push(apdu).is_prefix_of(again.sent));
            if let Ok(second) = retried {
                lemma_drained_keeps_the_log(again, Seq::empty(), second, 0);
                let last = crate::aka::drained_basic(again, Seq::empty(), second, 0).1.sent;
                assert(link.sent.push(apdu) =~= last.take(link.sent.len() as int + 1));
            }
        } else {
            lemma_drained_keeps_the_log(after, Seq::empty(), first, 0);
        }
    }
}

/// Keys with the GSM key behind them come back as they went in.
pub proof fn law_all_four_keys_are_read(res: Seq<u8>, ck: Seq<u8>, ik: Seq<u8>, kc: Seq<u8>)
    requires
        4 <= res.len() <= 16,
        ck.len() == 16,
        ik.len() == 16,
        kc.len() == 8,
        kc[0] != 0 || kc[1] != 0,
    ensures
        verdict_in(
            ApduModel {
                data: seq![0xdbu8, res.len() as u8] + res + seq![0x10u8] + ck + seq![0x10u8] + ik
                    + seq![0x08u8] + kc,
                sw1: 0x90,
                sw2: 0x00,
            },
        ) == Ok::<OutcomeModel, AkaFault>(OutcomeModel::Success { res, ck, ik, kc: Some(kc) }),
{
    let data = seq![0xdbu8, res.len() as u8] + res + seq![0x10u8] + ck + seq![0x10u8] + ik + seq![
        0x08u8,
    ] + kc;
    assert(unpadded(data) == data);
    let value = data.skip(1);
    let n = res.len() as int;
    assert(value[0] == n);
    assert(value.subrange(1, 1 + n) =~= res);
    let after_res = value.skip(1 + n);
    assert(after_res =~= seq![0x10u8] + ck + seq![0x10u8] + ik + seq![0x08u8] + kc);
    assert(field_in(value) == Some((res, after_res)));
    assert(after_res.subrange(1, 17) =~= ck);
    let after_ck = after_res.skip(17);
    assert(after_ck =~= seq![0x10u8] + ik + seq![0x08u8] + kc);
    assert(field_in(after_res) == Some((ck, after_ck)));
    assert(after_ck.subrange(1, 17) =~= ik);
    let after_ik = after_ck.skip(17);
    assert(after_ik =~= seq![0x08u8] + kc);
    assert(field_in(after_ck) == Some((ik, after_ik)));
    assert(after_ik[0] == 8);
    assert(!padding(after_ik));
    assert(after_ik.subrange(1, 9) =~= kc);
    assert(after_ik.skip(9) =~= Seq::<u8>::empty());
    assert(field_in(after_ik) == Some((kc, Seq::<u8>::empty())));
    assert(padding(Seq::<u8>::empty()));
}

/// A card that is out of step hands back its fourteen octets, and they come
/// back as they are.
pub proof fn law_a_resynchronisation_comes_back(auts: Seq<u8>)
    requires
        auts.len() == 14,
    ensures
        verdict_in(
            ApduModel { data: seq![0xdcu8, 0x0eu8] + auts, sw1: 0x90, sw2: 0x00 },
        ) == Ok::<OutcomeModel, AkaFault>(OutcomeModel::SyncFailure { auts }),
{
    let data = seq![0xdcu8, 0x0eu8] + auts;
    assert(unpadded(data) == data);
    assert(data.subrange(2, 16) =~= auts);
    assert(data.skip(16) =~= Seq::<u8>::empty());
    assert(padding(Seq::<u8>::empty()));
    assert(crate::aka::only_element(data) == Some((0xdcu8, auts)));
}

/// A card says that a challenge is false by `9862`, and no other status word is
/// taken for it; keys and resynchronisations come with `9000` alone.
pub proof fn law_a_refusal_is_told_from_an_error(response: ApduModel)
    ensures
        verdict_in(response) matches Ok(OutcomeModel::AuthenticationFailure { sw1, sw2, .. }) ==> {
            &&& (sw1 == 0x98 && sw2 == 0x62) || (sw1 == 0x90 && sw2 == 0x00)
            &&& response.sw1 == sw1 && response.sw2 == sw2
        },
        verdict_in(response) is Ok ==> (response.sw1 == 0x90 && response.sw2 == 0x00) || (
        response.sw1 == 0x98 && response.sw2 == 0x62),
        response.sw1 == 0x98 && response.sw2 == 0x62 ==> (verdict_in(response) matches Ok(
            OutcomeModel::AuthenticationFailure { .. },
        )),
{
    if response.sw1 == 0x90 && response.sw2 == 0x00 {
        lemma_body_refusal(response.data);
    }
}

proof fn lemma_body_refusal(body: Seq<u8>)
    ensures
        crate::aka::body_verdict(body) matches Ok(
            OutcomeModel::AuthenticationFailure { sw1, sw2, .. },
        ) ==> sw1 == 0x90 && sw2 == 0x00,
{
}

/// The application that a card has selected is asked for by `00 F2 00 00 00`,
/// before anything else.
pub proof fn law_the_selection_is_asked_for_first(link: BasicModel)
    ensures
        ({
            let after = selected_on(link).1.sent;
            &&& after.len() > link.sent.len()
            &&& after[link.sent.len() as int] == seq![0x00u8, 0xf2u8, 0x00u8, 0x00u8, 0x00u8]
        }),
{
    let apdu = crate::aka::STATUS_FCP_APDU@;
    lemma_exchange_keeps_the_log(link, apdu);
    let after = selected_on(link).1.sent;
    let log = link.sent.push(apdu);
    assert(after.take(log.len() as int)[link.sent.len() as int] == apdu);
    assert(apdu =~= seq![0x00u8, 0xf2u8, 0x00u8, 0x00u8, 0x00u8]);
}

/// The USIM is the application whose identifier starts with
/// `A0 00 00 00 87 10 02`.
pub proof fn law_the_usim_is_known_by_its_prefix(aid: Seq<u8>)
    ensures
        is_usim(aid) <==> {
            &&& aid.len() >= 7
            &&& aid[0] == 0xa0 && aid[1] == 0x00 && aid[2] == 0x00 && aid[3] == 0x00
            &&& aid[4] == 0x87 && aid[5] == 0x10 && aid[6] == 0x02
        },
{
    let prefix = crate::aka::USIM_ADF_AID_PREFIX@;
    assert(prefix =~= seq![0xa0u8, 0x00u8, 0x00u8, 0x00u8, 0x87u8, 0x10u8, 0x02u8]);
    if aid.len() >= 7 {
        let front = aid.take(7);
        assert(front[0] == aid[0] && front[1] == aid[1] && front[2] == aid[2] && front[3] == aid[3]
            && front[4] == aid[4] && front[5] == aid[5] && front[6] == aid[6]);
        if aid[0] == 0xa0 && aid[1] == 0x00 && aid[2] == 0x00 && aid[3] == 0x00 && aid[4] == 0x87
            && aid[5] == 0x10 && aid[6] == 0x02 {
            assert(front =~= prefix);
        }
    }
}

/// The identifier in the template of the selected application is read whole.
pub proof fn law_the_selected_application_is_read(aid: Seq<u8>)
    requires
        0 < aid.len() <= 16,
    ensures
        aid_in(seq![0x62u8, (aid.len() + 2) as u8, 0x84u8, aid.len() as u8] + aid) == Ok::<
            Seq<u8>,
            AkaFault,
        >(aid),
{
    let inner = seq![0x84u8, aid.len() as u8] + aid;
    let fcp = seq![0x62u8, (aid.len() + 2) as u8, 0x84u8, aid.len() as u8] + aid;
    assert(unpadded(fcp) == fcp);
    assert(fcp.subrange(2, 2 + inner.len() as int) =~= inner);
    assert(fcp.skip(2 + inner.len() as int) =~= Seq::<u8>::empty());
    assert(padding(Seq::<u8>::empty()));
    assert(crate::aka::only_element(fcp) == Some((0x62u8, inner)));
    assert(inner.subrange(2, 2 + aid.len() as int) =~= aid);
    assert(inner[0] == 0x84);
}

/// Where a card says that `n` more octets wait, the next thing it is sent is
/// `00 C0 00 00 n`, and what it then says stands behind what it said before.
pub proof fn law_the_rest_of_an_answer_is_fetched(
    link: BasicModel,
    gathered: Seq<u8>,
    latest: ApduModel,
    rounds: nat,
)
    requires
        rounds < 64,
    ensures
        latest.sw1 != 0x61 ==> drained_basic(link, gathered, latest, rounds) == (
            Ok::<ApduModel, AkaFault>(
                ApduModel { data: gathered + latest.data, sw1: latest.sw1, sw2: latest.sw2 },
            ),
            link,
        ),
        latest.sw1 == 0x61 ==> {
            let after = drained_basic(link, gathered, latest, rounds).1.sent;
            &&& after.len() > link.sent.len()
            &&& after[link.sent.len() as int] == seq![0x00u8, 0xc0u8, 0x00u8, 0x00u8, latest.sw2]
        },
        latest.sw1 == 0x61 && (link.answers)(0) is Ok ==> drained_basic(
            link,
            gathered,
            latest,
            rounds,
        ).0 == drained_basic(
            carried(link, seq![0x00u8, 0xc0u8, 0x00u8, 0x00u8, latest.sw2]).1,
            gathered + latest.data,
            (link.answers)(0)->Ok_0,
            rounds + 1,
        ).0,
{
    let fetch = seq![0x00u8, 0xc0u8, 0x00u8, 0x00u8, latest.sw2];
    assert(latest.fetch() =~= fetch);
    if latest.sw1 == 0x61 {
        let (answer, next) = carried(link, fetch);
        let after = drained_basic(link, gathered, latest, rounds).1.sent;
        if let Ok(more) = answer {
            lemma_drained_keeps_the_log(next, gathered + latest.data, more, rounds + 1);
            assert(after.take(next.sent.len() as int)[link.sent.len() as int] == fetch);
        }
    }
}

/// A card that wants another length gets it: the same command again with that
/// length in its last octet, once.
pub proof fn law_a_wrong_length_is_put_right(link: BasicModel, apdu: Seq<u8>, length: u8, data: Seq<u8>)
    requires
        apdu.len() > 0,
        (link.answers)(0) == Ok::<ApduModel, AkaFault>(
            ApduModel { data, sw1: 0x6c, sw2: length },
        ),
    ensures
        ({
            let after = whole_answer(link, apdu).1.sent;
            &&& after.len() >= link.sent.len() + 2
            &&& after[link.sent.len() as int] == apdu
            &&& after[link.sent.len() as int + 1].len() == apdu.len()
            &&& after[link.sent.len() as int + 1].last() == length
            &&& forall|i: int|
                0 <= i < apdu.len() - 1 ==> #[trigger] after[link.sent.len() as int + 1][i] == apdu[i]
        }),
{
    let again = apdu.update(apdu.len() - 1, length);
    let first = carried(link, apdu).1;
    let (answer, second) = carried(first, again);
    let after = whole_answer(link, apdu).1.sent;
    if let Ok(next) = answer {
        lemma_drained_keeps_the_log(second, Seq::empty(), next, 0);
    } else {
        assert(second.sent =~= second.sent.take(second.sent.len() as int));
    }
    assert(after.take(second.sent.len() as int)[link.sent.len() as int] == apdu);
    assert(after.take(second.sent.len() as int)[link.sent.len() as int + 1] == again);
}

/// An APDU goes through the modem's command port as base sixteen in quotes,
/// behind the count of its characters, and the answer reads back: data first,
/// the status word last.
pub proof fn law_the_command_port_carries_an_apdu(apdu: Seq<u8>, data: Seq<u8>, sw1: u8, sw2: u8)
    ensures
        csim_text(apdu) == "AT+CSIM="@ + decimal(hex_text_upper(apdu).len()) + ",\""@
            + hex_text_upper(apdu) + "\""@,
        csim_payload_in(hex_text_upper(data + seq![sw1, sw2])) == Ok::<ApduModel, AkaFault>(
            ApduModel { data, sw1, sw2 },
        ),
{
    crate::laws::spelling::law_octets_are_spelled_high_half_first(apdu);
    let octets = data + seq![sw1, sw2];
    crate::aka::law_hex_reads_back(octets);
    assert(octets.take(octets.len() - 2) =~= data);
}

} // verus!
