//! What a message looks like on the air, digit by digit and octet by octet.

use crate::aka::{hex_octets, law_hex_reads_back};
use crate::at_inbox::{arrived, header_in, listing_in, octet_in, pdu_in, StoredModel};
use crate::at_sms::{announced, reference_in};
use crate::domain::{septet_of, Bearer};
use crate::inbox::{delete_all, read_all, CollectedModel};
use crate::laws::spelling::{
    law_a_number_reads_back, law_octets_are_spelled_high_half_first, lemma_digits_are_plain,
    lemma_untrimmed, worth,
};
use crate::pdu::{
    big_endian, digits_in, is_gsm7, packed, semi_octets, septets_of, submission, submit_in,
    utf16_units, PduError,
};
use crate::port::{ModemPort, PortFault};
use crate::qmi_port::{all_listed_on, listed_into, merged, names};
use crate::send::{planned, SendOutcome};
use crate::session::{messages_listed_on, ClientModel};
use crate::text::{after_prefix, decimal, hex_text_upper, is_digit, is_space, trimmed};
use crate::wms::{list_in, ListedMessage, MessageMode, MessageTag, RawMessageModel, StorageType};
use vstd::prelude::*;

verus! {

/// Digit `i` stands in its half of the octets that start at `at`: an even one
/// in the low half, an odd one in the high half.
pub open spec fn dialled(octets: Seq<u8>, at: int, digits: Seq<char>, i: int) -> bool {
    digits[i] as int == 48 + if i % 2 == 0 {
        octets[at + i / 2] as int % 16
    } else {
        octets[at + i / 2] as int / 16
    }
}

/// Every digit comes back out of its octet: an even one from the low half, an
/// odd one from the high half. The half that is left over is filled with ones
/// exactly where the count is odd.
pub proof fn law_every_digit_is_dialled(digits: Seq<char>)
    requires
        forall|i: int| 0 <= i < digits.len() ==> is_digit(#[trigger] digits[i]),
    ensures
        semi_octets(digits).len() == (digits.len() + 1) / 2,
        forall|i: int|
            0 <= i < digits.len() ==> #[trigger] dialled(semi_octets(digits), 0, digits, i),
        digits.len() > 0 ==> (semi_octets(digits).last() / 16 == 15 <==> digits.len() % 2 == 1),
{
    assert forall|i: int| 0 <= i < digits.len() implies #[trigger] dialled(
        semi_octets(digits),
        0,
        digits,
        i,
    ) by {
        assert(is_digit(digits[i]));
        if i % 2 == 0 {
            assert(2 * (i / 2) == i);
            if i + 1 < digits.len() {
                assert(is_digit(digits[i + 1]));
            }
        } else {
            assert(2 * (i / 2) + 1 == i);
            assert(is_digit(digits[i - 1]));
        }
    }
    if digits.len() > 0 {
        let n = digits.len() as int;
        let k = (n + 1) / 2 - 1;
        assert(is_digit(digits[2 * k]));
        assert(semi_octets(digits).last() == semi_octets(digits)[k]);
        if 2 * k + 1 < n {
            assert(is_digit(digits[2 * k + 1]));
        }
    }
}

proof fn lemma_last_character(text: Seq<char>)
    requires
        text.len() > 0,
    ensures
        digits_in(text) == if is_digit(text.last()) {
            digits_in(text.drop_last()).push(text.last())
        } else {
            digits_in(text.drop_last())
        },
{
    reveal(Seq::filter);
}

proof fn lemma_digits_stay(text: Seq<char>)
    requires
        forall|i: int| 0 <= i < text.len() ==> is_digit(#[trigger] text[i]),
    ensures
        digits_in(text) == text,
    decreases text.len(),
{
    if text.len() == 0 {
        reveal(Seq::filter);
        assert(digits_in(text) =~= text);
    } else {
        lemma_last_character(text);
        lemma_digits_stay(text.drop_last());
        assert(is_digit(text[text.len() - 1]));
        assert(text =~= text.drop_last().push(text.last()));
    }
}

proof fn lemma_plus_goes(text: Seq<char>)
    requires
        forall|i: int| 0 <= i < text.len() ==> is_digit(#[trigger] text[i]),
    ensures
        digits_in(seq!['+'] + text) == text,
{
    let plus = seq!['+'];
    assert(plus.drop_last() =~= Seq::<char>::empty());
    lemma_last_character(plus);
    lemma_digits_stay(Seq::<char>::empty());
    lemma_digits_stay(text);
    Seq::filter_distributes_over_add(plus, text, |c: char| is_digit(c));
    assert(digits_in(plus + text) == digits_in(plus) + digits_in(text));
    assert(Seq::<char>::empty() + text =~= text);
}

/// What an SMS-SUBMIT holds, octet by octet: that a report is wanted, the
/// reference, how many digits the destination has and of which type it is,
/// each digit in its half octet, the protocol, the coding, the length and the
/// data.
pub open spec fn submits(
    tpdu: Seq<u8>,
    reference: u8,
    kind: u8,
    digits: Seq<char>,
    coding: u8,
    length: int,
    data: Seq<u8>,
) -> bool {
    let n = (digits.len() + 1) as int / 2;
    &&& tpdu.len() == 7 + n + data.len()
    &&& tpdu[0] == 0x21
    &&& tpdu[1] == reference
    &&& tpdu[2] == digits.len()
    &&& tpdu[3] == kind
    &&& forall|i: int| 0 <= i < digits.len() ==> #[trigger] dialled(tpdu, 4, digits, i)
    &&& digits.len() % 2 == 1 ==> tpdu[3 + n] / 16 == 15
    &&& tpdu[4 + n] == 0x00
    &&& tpdu[5 + n] == coding
    &&& tpdu[6 + n] == length
    &&& tpdu.skip(7 + n) == data
}

proof fn lemma_submission(to: Seq<char>, body: Seq<char>, reference: u8, digits: Seq<char>)
    requires
        trimmed(to) == to,
        to.len() > 0,
        digits_in(to) == digits,
        1 <= digits.len() <= 20,
        body.len() > 0,
        if is_gsm7(body) {
            body.len() <= 160
        } else {
            utf16_units(body).len() <= 70
        },
    ensures
        ({
            let n = (digits.len() + 1) as int / 2;
            let data = if is_gsm7(body) {
                packed(septets_of(body))
            } else {
                big_endian(utf16_units(body))
            };
            let tpdu = submit_in(to, body, reference)->Ok_0;
            &&& submit_in(to, body, reference) is Ok
            &&& submission(to, body, reference) is Ok
            &&& submission(to, body, reference)->Ok_0[0] == 0x00
            &&& submission(to, body, reference)->Ok_0.skip(1) == tpdu
            &&& tpdu.len() == 7 + n + data.len()
            &&& tpdu[0] == 0x21 && tpdu[1] == reference && tpdu[2] == digits.len()
            &&& tpdu[3] == if to[0] == '+' {
                0x91int
            } else {
                0x81
            }
            &&& forall|k: int|
                0 <= k < n ==> #[trigger] tpdu[4 + k] == semi_octets(digits)[k]
            &&& tpdu[4 + n] == 0x00
            &&& tpdu[5 + n] == if is_gsm7(body) {
                0int
            } else {
                8
            }
            &&& tpdu[6 + n] == if is_gsm7(body) {
                body.len() as int
            } else {
                2 * utf16_units(body).len() as int
            }
            &&& tpdu.skip(7 + n) == data
        }),
{
    let n = (digits.len() + 1) as int / 2;
    let data = if is_gsm7(body) {
        packed(septets_of(body))
    } else {
        big_endian(utf16_units(body))
    };
    let tpdu = submit_in(to, body, reference)->Ok_0;
    assert(semi_octets(digits).len() == n);
    assert(tpdu.skip(7 + n) =~= data);
    assert(submission(to, body, reference)->Ok_0.skip(1) =~= tpdu);
}

proof fn lemma_number(digits: Seq<char>, international: bool)
    requires
        digits.len() > 0,
        forall|i: int| 0 <= i < digits.len() ==> is_digit(#[trigger] digits[i]),
    ensures
        ({
            let to = if international {
                seq!['+'] + digits
            } else {
                digits
            };
            &&& trimmed(to) == to
            &&& to.len() > 0
            &&& digits_in(to) == digits
            &&& to[0] == '+' <==> international
        }),
{
    lemma_digits_stay(digits);
    lemma_plus_goes(digits);
    assert(is_digit(digits[0]) && is_digit(digits[digits.len() - 1]));
}

proof fn lemma_dialled(tpdu: Seq<u8>, digits: Seq<char>)
    requires
        digits.len() > 0,
        forall|i: int| 0 <= i < digits.len() ==> is_digit(#[trigger] digits[i]),
        tpdu.len() >= 4 + (digits.len() + 1) as int / 2,
        forall|k: int|
            0 <= k < (digits.len() + 1) as int / 2 ==> #[trigger] tpdu[4 + k] == semi_octets(
                digits,
            )[k],
    ensures
        forall|i: int| 0 <= i < digits.len() ==> #[trigger] dialled(tpdu, 4, digits, i),
        digits.len() % 2 == 1 ==> tpdu[3 + (digits.len() + 1) as int / 2] / 16 == 15,
{
    law_every_digit_is_dialled(digits);
    let n = (digits.len() + 1) as int / 2;
    assert forall|i: int| 0 <= i < digits.len() implies #[trigger] dialled(tpdu, 4, digits, i) by {
        assert(dialled(semi_octets(digits), 0, digits, i));
        assert(tpdu[4 + i / 2] == semi_octets(digits)[i / 2]);
    }
    if digits.len() % 2 == 1 {
        assert(tpdu[4 + (n - 1)] == semi_octets(digits)[n - 1]);
        assert(semi_octets(digits).last() == semi_octets(digits)[n - 1]);
    }
}

/// A message to a number of up to twenty digits, with or without a plus, goes
/// to that number and says what it is: a plus makes the number international,
/// its digits are all there, and the text follows as septets where it can and
/// as UTF-16 where it cannot.
pub proof fn law_a_message_goes_to_its_number(
    digits: Seq<char>,
    international: bool,
    body: Seq<char>,
    reference: u8,
)
    requires
        1 <= digits.len() <= 20,
        forall|i: int| 0 <= i < digits.len() ==> is_digit(#[trigger] digits[i]),
        body.len() > 0,
        if is_gsm7(body) {
            body.len() <= 160
        } else {
            utf16_units(body).len() <= 70
        },
    ensures
        ({
            let to = if international {
                seq!['+'] + digits
            } else {
                digits
            };
            let kind = if international {
                0x91u8
            } else {
                0x81u8
            };
            &&& submit_in(to, body, reference) is Ok
            &&& is_gsm7(body) ==> submits(
                submit_in(to, body, reference)->Ok_0,
                reference,
                kind,
                digits,
                0x00,
                body.len() as int,
                packed(septets_of(body)),
            )
            &&& !is_gsm7(body) ==> submits(
                submit_in(to, body, reference)->Ok_0,
                reference,
                kind,
                digits,
                0x08,
                2 * utf16_units(body).len() as int,
                big_endian(utf16_units(body)),
            )
            &&& submission(to, body, reference) is Ok
            &&& submission(to, body, reference)->Ok_0[0] == 0x00
            &&& submission(to, body, reference)->Ok_0.skip(1) == submit_in(
                to,
                body,
                reference,
            )->Ok_0
        }),
{
    let to = if international {
        seq!['+'] + digits
    } else {
        digits
    };
    lemma_number(digits, international);
    lemma_submission(to, body, reference, digits);
    lemma_dialled(submit_in(to, body, reference)->Ok_0, digits);
}

// ---------------------------------------------------------------------------
// Stored messages
// ---------------------------------------------------------------------------

/// The tag that an octet of a listing stands for.
pub open spec fn tag_named(octet: u8) -> MessageTag {
    match octet {
        0 => MessageTag::MtRead,
        1 => MessageTag::MtUnread,
        2 => MessageTag::MoSent,
        3 => MessageTag::MoUnsent,
        _ => MessageTag::Unknown(octet),
    }
}

/// A listing holds as many messages as its first four octets say, low one
/// first, and each is five octets: an index and a tag. Every one of them comes
/// back, in order, as a message of the store that was listed.
pub proof fn law_every_listed_message_comes_back(value: Seq<u8>, storage: StorageType)
    ensures
        ({
            let count = value[0] + 256 * value[1] + 65536 * value[2] + 16777216 * value[3];
            &&& list_in(value, storage) is Ok <==> value.len() >= 4 && value.len() >= 4 + 5 * count
            &&& list_in(value, storage) matches Ok(list) ==> {
                &&& list.len() == count
                &&& forall|k: int|
                    #![trigger list[k]]
                    0 <= k < count ==> {
                        &&& list[k].index == value[4 + 5 * k] + 256 * value[5 + 5 * k] + 65536
                            * value[6 + 5 * k] + 16777216 * value[7 + 5 * k]
                        &&& list[k].tag == tag_named(value[8 + 5 * k])
                        &&& list[k].storage == storage
                    }
            }
        }),
{
}

/// What was listed once is listed still, what is new is added, and nothing else
/// appears.
pub proof fn law_listings_are_put_together(
    list: Seq<ListedMessage>,
    found: Seq<ListedMessage>,
    message: ListedMessage,
)
    ensures
        names(merged(list, found), message) <==> names(list, message) || names(found, message),
        list.len() <= merged(list, found).len(),
        forall|i: int| 0 <= i < list.len() ==> #[trigger] merged(list, found)[i] == list[i],
    decreases found.len(),
{
    if found.len() > 0 {
        let rest = found.skip(1);
        if names(list, found[0]) {
            law_listings_are_put_together(list, rest, message);
        } else {
            let more = list.push(found[0]);
            law_listings_are_put_together(more, rest, message);
            if names(list, message) {
                let i = choose|i: int|
                    0 <= i < list.len() && (#[trigger] list[i]).storage == message.storage
                        && list[i].index == message.index;
                assert(more[i] == list[i]);
            }
            if names(more, message) {
                let i = choose|i: int|
                    0 <= i < more.len() && (#[trigger] more[i]).storage == message.storage
                        && more[i].index == message.index;
                if i < list.len() {
                    assert(list[i] == more[i]);
                } else {
                    assert(found[0] == more[i]);
                }
            }
            assert(more[list.len() as int] == found[0]);
            assert forall|i: int| 0 <= i < list.len() implies #[trigger] merged(list, found)[i]
                == list[i] by {
                assert(merged(more, rest)[i] == more[i]);
            }
        }
        if names(found, message) {
            let i = choose|i: int|
                0 <= i < found.len() && (#[trigger] found[i]).storage == message.storage
                    && found[i].index == message.index;
            if i > 0 {
                assert(rest[i - 1] == found[i]);
            } else if names(list, found[0]) {
                let j = choose|j: int|
                    0 <= j < list.len() && (#[trigger] list[j]).storage == found[0].storage
                        && list[j].index == found[0].index;
                assert(list[j].storage == message.storage);
            }
        }
        if names(rest, message) {
            let i = choose|i: int|
                0 <= i < rest.len() && (#[trigger] rest[i]).storage == message.storage
                    && rest[i].index == message.index;
            assert(found[i + 1] == rest[i]);
        }
    }
}

/// Both stores are listed, unread and read messages of each, and a message is
/// in what comes back exactly where one of the four listings has it.
pub proof fn law_both_stores_are_listed(client: ClientModel, message: ListedMessage)
    ensures
        ({
            let (one, c1) = messages_listed_on(
                client,
                StorageType::Uim,
                MessageTag::MtUnread,
                MessageMode::Gw,
            );
            let (two, c2) = messages_listed_on(
                c1,
                StorageType::Uim,
                MessageTag::MtRead,
                MessageMode::Gw,
            );
            let (three, c3) = messages_listed_on(
                c2,
                StorageType::Nv,
                MessageTag::MtUnread,
                MessageMode::Gw,
            );
            let (four, c4) = messages_listed_on(
                c3,
                StorageType::Nv,
                MessageTag::MtRead,
                MessageMode::Gw,
            );
            let (list, after) = all_listed_on(client);
            &&& after == c4
            &&& names(list, message) <==> {
                ||| one is Ok && names(one->Ok_0, message)
                ||| two is Ok && names(two->Ok_0, message)
                ||| three is Ok && names(three->Ok_0, message)
                ||| four is Ok && names(four->Ok_0, message)
            }
        }),
{
    let (one, c1) = messages_listed_on(
        client,
        StorageType::Uim,
        MessageTag::MtUnread,
        MessageMode::Gw,
    );
    let (two, c2) = messages_listed_on(c1, StorageType::Uim, MessageTag::MtRead, MessageMode::Gw);
    let (three, c3) = messages_listed_on(
        c2,
        StorageType::Nv,
        MessageTag::MtUnread,
        MessageMode::Gw,
    );
    let (four, c4) = messages_listed_on(c3, StorageType::Nv, MessageTag::MtRead, MessageMode::Gw);
    lemma_listed_into(client, Seq::empty(), StorageType::Uim, MessageTag::MtUnread, message);
    let l1 = listed_into(client, Seq::empty(), StorageType::Uim, MessageTag::MtUnread).0;
    lemma_listed_into(c1, l1, StorageType::Uim, MessageTag::MtRead, message);
    let l2 = listed_into(c1, l1, StorageType::Uim, MessageTag::MtRead).0;
    lemma_listed_into(c2, l2, StorageType::Nv, MessageTag::MtUnread, message);
    let l3 = listed_into(c2, l2, StorageType::Nv, MessageTag::MtUnread).0;
    lemma_listed_into(c3, l3, StorageType::Nv, MessageTag::MtRead, message);
}

proof fn lemma_listed_into(
    client: ClientModel,
    list: Seq<ListedMessage>,
    storage: StorageType,
    tag: MessageTag,
    message: ListedMessage,
)
    ensures
        ({
            let (found, after) = messages_listed_on(client, storage, tag, MessageMode::Gw);
            &&& listed_into(client, list, storage, tag).1 == after
            &&& names(listed_into(client, list, storage, tag).0, message) <==> names(list, message)
                || (found is Ok && names(found->Ok_0, message))
        }),
{
    let (found, after) = messages_listed_on(client, storage, tag, MessageMode::Gw);
    if let Ok(more) = found {
        law_listings_are_put_together(list, more, message);
    }
}

/// What a pass over the store collects: every message whose tag says that it
/// was received, in the order of the listing and under its own index and store,
/// with what was read at just that index of just that store.
pub proof fn law_what_is_collected_is_what_was_listed<P: ModemPort>(
    model: P::Model,
    listed: Seq<ListedMessage>,
    gathered: Seq<CollectedModel>,
)
    requires
        read_all::<P>(model, listed, gathered).0 is Ok,
    ensures
        ({
            let inbound = read_all::<P>(model, listed, gathered).0->Ok_0;
            &&& inbound.len() == gathered.len() + listed.len()
            &&& forall|i: int| 0 <= i < gathered.len() ==> #[trigger] inbound[i] == gathered[i]
            &&& forall|i: int|
                #![trigger listed[i]]
                0 <= i < listed.len() ==> {
                    &&& inbound[gathered.len() + i].index == listed[i].index
                    &&& inbound[gathered.len() + i].storage == listed[i].storage
                    &&& inbound[gathered.len() + i].tag == listed[i].tag
                }
            &&& listed.len() > 0 ==> P::read(model, listed[0].storage, listed[0].index).0 == Ok::<
                RawMessageModel,
                PortFault,
            >(inbound[gathered.len() as int].raw)
        }),
    decreases listed.len(),
{
    if listed.len() > 0 {
        let (raw, after) = P::read(model, listed[0].storage, listed[0].index);
        let one = CollectedModel {
            index: listed[0].index,
            tag: listed[0].tag,
            storage: listed[0].storage,
            raw: raw->Ok_0,
        };
        let more = gathered.push(one);
        law_what_is_collected_is_what_was_listed::<P>(after, listed.skip(1), more);
        let inbound = read_all::<P>(model, listed, gathered).0->Ok_0;
        assert(inbound == read_all::<P>(after, listed.skip(1), more).0->Ok_0);
        assert forall|i: int| 0 <= i < gathered.len() implies #[trigger] inbound[i]
            == gathered[i] by {
            assert(inbound[i] == more[i]);
        }
        assert(inbound[gathered.len() as int] == more[gathered.len() as int]);
        assert forall|i: int| #![trigger listed[i]] 0 <= i < listed.len() implies inbound[
            gathered.len() + i].index == listed[i].index && inbound[gathered.len() + i].storage
            == listed[i].storage && inbound[gathered.len() + i].tag == listed[i].tag by {
            if i > 0 {
                assert(listed.skip(1)[i - 1] == listed[i]);
            }
        }
    }
}

/// Deleting goes by the store and the index that a message was collected under,
/// one by one; one that was not received is passed over, and the first that
/// cannot be deleted ends it.
pub proof fn law_only_what_was_received_is_deleted<P: ModemPort>(
    model: P::Model,
    inbound: Seq<CollectedModel>,
)
    requires
        inbound.len() > 0,
    ensures
        ({
            let first = inbound[0];
            let received = first.tag == MessageTag::MtRead || first.tag == MessageTag::MtUnread;
            let (deleted, after) = P::deleted(model, first.storage, first.index);
            &&& !received ==> delete_all::<P>(model, inbound) == delete_all::<P>(
                model,
                inbound.skip(1),
            )
            &&& received && deleted is Ok ==> delete_all::<P>(model, inbound) == delete_all::<P>(
                after,
                inbound.skip(1),
            )
            &&& received && deleted is Err ==> delete_all::<P>(model, inbound) == (deleted, after)
        }),
{
}

/// A plan that names no bearer sends nothing. Where the first bearer refuses,
/// the second is handed the same message, and is the one that is reported.
pub proof fn law_a_plan_falls_back_once<P: ModemPort>(
    model: P::Model,
    primary: Bearer,
    fallback: Bearer,
    reason: Seq<char>,
    pdu: Seq<u8>,
)
    requires
        P::sent(model, primary, pdu).0 is Err,
    ensures
        planned::<P>(model, None, Some(fallback), reason, pdu) == (
            Err::<SendOutcome, PortFault>(PortFault::PlanUnavailable(reason)),
            model,
        ),
        planned::<P>(model, Some(primary), None, reason, pdu).1 == P::sent(model, primary, pdu).1,
        planned::<P>(model, Some(primary), None, reason, pdu).0 is Err,
        ({
            let (second, last) = P::sent(P::sent(model, primary, pdu).1, fallback, pdu);
            let (outcome, after) = planned::<P>(
                model,
                Some(primary),
                Some(fallback),
                reason,
                pdu,
            );
            &&& after == last
            &&& outcome is Ok <==> second is Ok
            &&& outcome matches Ok(sent) ==> sent.used == fallback && sent.fallback_used
        }),
{
}

/// A submission is announced by how many octets stand behind the first one, and
/// what is then handed over reads back as all of them.
pub proof fn law_a_submission_is_announced_by_its_length(first: u8, tpdu: Seq<u8>)
    ensures
        announced(seq![first] + tpdu).0 == "AT+CMGS="@ + decimal(tpdu.len()),
        hex_octets(announced(seq![first] + tpdu).1) == Some(seq![first] + tpdu),
{
    law_hex_reads_back(seq![first] + tpdu);
}

/// The reference that a modem reports comes back as the number it is.
pub proof fn law_a_reported_reference_comes_back(reference: u8, rest: Seq<Seq<char>>)
    ensures
        reference_in(
            seq!["+CMGS:"@ + seq![' '] + decimal(reference as nat)] + rest,
        ) == Some(reference),
{
    reveal_strlit("+CMGS:");
    let text = decimal(reference as nat);
    let line = "+CMGS:"@ + seq![' '] + text;
    lemma_digits_are_plain(reference as nat);
    law_a_number_reads_back(reference as nat, 255);
    assert(line[0] == '+' && line.last() == text.last());
    lemma_untrimmed(line);
    assert(line.take(6) =~= "+CMGS:"@);
    let spaced = seq![' '] + text;
    assert(line.skip(6) =~= spaced);
    assert(spaced.skip(1) =~= text);
    reveal_with_fuel(crate::text::trimmed_start, 3);
    assert((seq![line] + rest)[0] == line);
}

/// A stored message in a listing is its header and its octets on the line
/// behind it, and comes back as both.
pub proof fn law_a_listed_pdu_reads_back(
    header: Seq<char>,
    index: u32,
    status: Seq<char>,
    pdu: Seq<u8>,
    rest: Seq<Seq<char>>,
)
    requires
        pdu.len() > 0,
        header_in(header) == Some((index, status)),
        header.len() > 0,
        !is_space(header.last()),
    ensures
        ({
            let lines = seq!["+CMGL:"@ + header, hex_text_upper(pdu)] + rest;
            listing_in(lines, None) == seq![StoredModel { index, status, pdu }] + listing_in(
                rest,
                None,
            )
        }),
{
    reveal_strlit("+CMGL:");
    let head = "+CMGL:"@ + header;
    let body = hex_text_upper(pdu);
    let lines = seq![head, body] + rest;
    assert(head[0] == '+' && head.last() == header.last());
    lemma_untrimmed(head);
    assert(head.take(6) =~= "+CMGL:"@);
    assert(head.skip(6) =~= header);
    assert(lines[0] == head);
    assert(lines.skip(1)[0] == body);
    assert(lines.skip(1).skip(1) =~= rest);
    lemma_octets_on_a_line(pdu);
    assert(after_prefix(body, "+CMGL:"@) is None) by {
        if body.len() >= 6 {
            assert(body.take(6)[0] == body[0]);
        }
    }
    reveal_with_fuel(listing_in, 3);
}

proof fn lemma_octets_on_a_line(pdu: Seq<u8>)
    requires
        pdu.len() > 0,
    ensures
        pdu_in(hex_text_upper(pdu)) == Some(pdu),
        trimmed(hex_text_upper(pdu)) == hex_text_upper(pdu),
        hex_text_upper(pdu)[0] != '+',
{
    let body = hex_text_upper(pdu);
    law_octets_are_spelled_high_half_first(pdu);
    let n = pdu.len() as int;
    assert(worth(body[0], true) == pdu[0] / 16);
    assert(worth(body[2 * (n - 1) + 1], true) == pdu[n - 1] % 16);
    lemma_untrimmed(body);
    assert forall|i: int| 0 <= i < body.len() / 2 implies #[trigger] octet_in(
        body[2 * i],
        body[2 * i + 1],
    ) == Some(pdu[i]) by {
        assert(worth(body[2 * i], true) == pdu[i] / 16);
        assert(worth(body[2 * i + 1], true) == pdu[i] % 16);
    }
    assert(pdu_in(body)->0 =~= pdu);
}

/// A character that fits seven bits is its own number there; what ASCII has and
/// the seven-bit alphabet has elsewhere or not at all does not fit.
pub proof fn law_which_characters_fit_seven_bits(c: char)
    ensures
        septet_of(c) matches Some(n) ==> n == c as u32 && n < 128,
        ('a' <= c <= 'z') || ('A' <= c <= 'Z') || ('0' <= c <= '9') || c == ' ' || c == '\n' || c
            == '\r' || c == '!' || c == '?' || c == '.' || c == ',' || c == '"' || c == '#' || c
            == '%' || c == '&' || c == '\'' || c == '(' || c == ')' || c == '*' || c == '+' || c
            == '-' || c == '/' || c == ':' || c == ';' || c == '<' || c == '=' || c == '>'
            <==> septet_of(c) is Some,
{
}

/// A body is refused exactly where it is empty or longer than one message, and
/// then by the limit of its own alphabet.
pub proof fn law_a_body_has_a_limit(to: Seq<char>, body: Seq<char>, reference: u8)
    requires
        body.len() > 0,
        crate::pdu::address_in(to) is Ok,
    ensures
        is_gsm7(body) && body.len() > 160 ==> submit_in(to, body, reference) == Err::<
            Seq<u8>,
            PduError,
        >(PduError::TooLong { encoding: "gsm7", limit: 160 }),
        !is_gsm7(body) && utf16_units(body).len() > 70 ==> submit_in(to, body, reference) == Err::<
            Seq<u8>,
            PduError,
        >(PduError::TooLong { encoding: "ucs2", limit: 70 }),
        is_gsm7(body) && body.len() <= 160 ==> submit_in(to, body, reference) is Ok,
        !is_gsm7(body) && utf16_units(body).len() <= 70 ==> submit_in(to, body, reference) is Ok,
        submit_in(to, Seq::empty(), reference) == Err::<Seq<u8>, PduError>(PduError::EmptyBody),
{
}

/// A stored message arrived where its status says that it was received, in words
/// or as the number zero or one; one that was written here did not.
pub proof fn law_what_was_received_is_told_from_what_was_written(more: Seq<char>)
    ensures
        arrived("REC"@ + more),
        arrived("0"@),
        arrived("1"@),
        !arrived("2"@),
        !arrived("3"@),
        !arrived("STO"@ + more),
{
    reveal_strlit("REC");
    reveal_strlit("STO");
    reveal_strlit("0");
    reveal_strlit("1");
    reveal_strlit("2");
    reveal_strlit("3");
    assert(("REC"@ + more).take(3) =~= "REC"@);
    let written = "STO"@ + more;
    assert(written.take(3)[0] == 'S' && "REC"@[0] == 'R');
    assert(written[0] == 'S' && "0"@[0] == '0' && "1"@[0] == '1');
    assert("2"@[0] == '2' && "3"@[0] == '3');
}

} // verus!
