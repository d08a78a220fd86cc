//! What an eUICC answers, element by element, and what is read from it.

use crate::ber::{big_endian, element_octets, law_element_round_trip, tagged_in, ElementModel};
use crate::es10c::{
    accepted_in, address_step, addresses_in, bits_from, bits_in, blank_metadata, blank_notification,
    blank_profile, challenge_in, described_in, dotted, iccid_octets, info1_in, info1_step,
    info2_step, installation_in, integer_in, key_step, keys_in, law_iccid_round_trip, listed_step,
    metadata_in, metadata_step, notification_in, notification_step, notifications_in, pending_step,
    ppr_ids, profile_list_step, profile_step, profiles_in, readable_iccid, resource_step,
    result_data_in, rsp_capabilities, shown, uicc_capabilities, walked, AddressesModel,
    DownloadStep, Es10cFault, EuiccInfo1Model, EuiccInfo2Model, InstallationModel, MetadataModel,
    NotificationModel, PartialModel, PendingModel, ProfileModel,
};
use crate::laws::esim::{element, law_lengths_are_shortest};
use crate::text::{all_digits, decimal, hex_text_upper, lossy, trimmed};
use vstd::prelude::*;

verus! {

/// An element whose tag is one octet.
pub open spec fn field(tag: u8, value: Seq<u8>) -> Seq<u8> {
    element(seq![tag], value)
}

/// An element whose tag is `BF` and one octet.
pub open spec fn answer(tag: u8, value: Seq<u8>) -> Seq<u8> {
    element(seq![0xbfu8, tag], value)
}

proof fn lemma_field(tag: u8, value: Seq<u8>, rest: Seq<u8>)
    requires
        tag % 32 != 31,
        value.len() < 16777216,
    ensures
        field(tag, value) == element_octets(seq![tag], value),
        crate::ber::element_in(field(tag, value) + rest) == Ok::<ElementModel, crate::ber::BerFault>(
            ElementModel { tag: seq![tag], value, whole: field(tag, value) },
        ),
        crate::ber::rest_after(field(tag, value) + rest) == rest,
        field(tag, value).len() <= value.len() + 5,
        field(tag, value).len() > 1,
{
    law_lengths_are_shortest(seq![tag], value);
    law_element_round_trip(seq![tag], value, rest);
}

proof fn lemma_answer(tag: u8, value: Seq<u8>, rest: Seq<u8>)
    requires
        tag < 0x80,
        value.len() < 16777216,
    ensures
        crate::ber::element_in(answer(tag, value) + rest) == Ok::<
            ElementModel,
            crate::ber::BerFault,
        >(ElementModel { tag: seq![0xbfu8, tag], value, whole: answer(tag, value) }),
        crate::ber::rest_after(answer(tag, value) + rest) == rest,
        answer(tag, value).len() <= value.len() + 6,
        answer(tag, value).len() > 1,
{
    let both = seq![0xbfu8, tag];
    assert(crate::ber::tag_end(both, 1) == Some(2int));
    law_lengths_are_shortest(both, value);
    law_element_round_trip(both, value, rest);
}

proof fn lemma_alone(tag: u8, value: Seq<u8>)
    requires
        tag % 32 != 31,
        value.len() < 16777216,
    ensures
        crate::ber::element_in(field(tag, value)) == Ok::<ElementModel, crate::ber::BerFault>(
            ElementModel { tag: seq![tag], value, whole: field(tag, value) },
        ),
        crate::ber::rest_after(field(tag, value)) == Seq::<u8>::empty(),
{
    lemma_field(tag, value, Seq::empty());
    assert(field(tag, value) + Seq::<u8>::empty() =~= field(tag, value));
}

proof fn lemma_answer_alone(tag: u8, value: Seq<u8>)
    requires
        tag < 0x80,
        value.len() < 16777216,
    ensures
        crate::ber::element_in(answer(tag, value)) == Ok::<ElementModel, crate::ber::BerFault>(
            ElementModel { tag: seq![0xbfu8, tag], value, whole: answer(tag, value) },
        ),
        crate::es10c::body_of(answer(tag, value), crate::es10c::function_tag(tag)) == Ok::<
            Seq<u8>,
            Es10cFault,
        >(value),
        crate::es10c::whole_of(answer(tag, value)) == Ok::<Seq<u8>, Es10cFault>(answer(tag, value)),
{
    lemma_answer(tag, value, Seq::empty());
    assert(answer(tag, value) + Seq::<u8>::empty() =~= answer(tag, value));
    assert(crate::es10c::function_tag(tag) =~= seq![0xbfu8, tag]);
}

proof fn lemma_walk<A>(
    tag: u8,
    value: Seq<u8>,
    rest: Seq<u8>,
    state: A,
    step: spec_fn(A, ElementModel) -> Result<A, Es10cFault>,
)
    requires
        tag % 32 != 31,
        value.len() < 16777216,
    ensures
        walked(field(tag, value) + rest, state, step) == match step(
            state,
            ElementModel { tag: seq![tag], value, whole: field(tag, value) },
        ) {
            Err(e) => Err::<A, Es10cFault>(e),
            Ok(next) => walked(rest, next, step),
        },
{
    lemma_field(tag, value, rest);
}

/// What becomes of what is known of a profile with each element of its
/// description: the ICCID digit for digit, the application identifier, the
/// nickname, the provider, the name and the class each from its own element, and
/// the rest of the description still to come.
pub proof fn law_each_element_of_a_profile_is_its_own(
    state: ProfileModel,
    rest: Seq<u8>,
    value: Seq<u8>,
)
    requires
        value.len() <= 255,
    ensures
        walked(field(0x4f, value) + rest, state, profile_step()) == walked(
            rest,
            ProfileModel { isdp_aid: Some(hex_text_upper(value)), ..state },
            profile_step(),
        ),
        walked(field(0x90, value) + rest, state, profile_step()) == walked(
            rest,
            ProfileModel { nickname: shown(value), ..state },
            profile_step(),
        ),
        walked(field(0x91, value) + rest, state, profile_step()) == walked(
            rest,
            ProfileModel { provider: shown(value), ..state },
            profile_step(),
        ),
        walked(field(0x92, value) + rest, state, profile_step()) == walked(
            rest,
            ProfileModel { name: shown(value), ..state },
            profile_step(),
        ),
        value.len() > 0 ==> walked(field(0x95, value) + rest, state, profile_step()) == walked(
            rest,
            ProfileModel { class: Some(value[0]), ..state },
            profile_step(),
        ),
{
    lemma_profile_element(0x4f, value, rest, state);
    lemma_profile_element(0x90, value, rest, state);
    lemma_profile_element(0x91, value, rest, state);
    lemma_profile_element(0x92, value, rest, state);
    lemma_profile_element(0x95, value, rest, state);
}

proof fn lemma_profile_element(tag: u8, value: Seq<u8>, rest: Seq<u8>, state: ProfileModel)
    requires
        tag == 0x4f || tag == 0x90 || tag == 0x91 || tag == 0x92 || tag == 0x95,
        value.len() <= 255,
    ensures
        walked(field(tag, value) + rest, state, profile_step()) == walked(
            rest,
            match tag {
                0x4f => ProfileModel { isdp_aid: Some(hex_text_upper(value)), ..state },
                0x90 => ProfileModel { nickname: shown(value), ..state },
                0x91 => ProfileModel { provider: shown(value), ..state },
                0x92 => ProfileModel { name: shown(value), ..state },
                _ => ProfileModel {
                    class: if value.len() > 0 {
                        Some(value[0])
                    } else {
                        None
                    },
                    ..state
                },
            },
            profile_step(),
        ),
{
    lemma_walk(tag, value, rest, state, profile_step());
    let one = seq![tag];
    assert(one[0] == tag);
    assert(one != seq![0x5au8]) by {
        assert(seq![0x5au8][0] == 0x5a);
    }
    if tag != 0x4f {
        lemma_tags_differ(tag, 0x4f);
    }
    if tag != 0x90 {
        lemma_tags_differ(tag, 0x90);
    }
    if tag != 0x91 {
        lemma_tags_differ(tag, 0x91);
    }
    if tag != 0x92 {
        lemma_tags_differ(tag, 0x92);
    }
}

/// The ICCID of a profile comes back digit for digit, and a profile is enabled
/// exactly where its state is one.
pub proof fn law_a_profile_has_its_iccid_and_its_state(
    known: ProfileModel,
    rest: Seq<u8>,
    iccid: Seq<char>,
    state: u8,
)
    requires
        0 < iccid.len() <= 20,
        all_digits(iccid),
    ensures
        walked(field(0x5a, iccid_octets(iccid)) + rest, known, profile_step()) == walked(
            rest,
            ProfileModel { iccid, ..known },
            profile_step(),
        ),
        walked(seq![0x9fu8, 0x70u8, 0x01u8, state] + rest, known, profile_step()) == walked(
            rest,
            ProfileModel { enabled: state == 1, ..known },
            profile_step(),
        ),
{
    law_iccid_round_trip(iccid);
    lemma_walk(0x5a, iccid_octets(iccid), rest, known, profile_step());
    lemma_state(state, rest);
    lemma_long_tag(0x5a);
    lemma_long_tag(0x4f);
    lemma_long_tag(0x90);
    lemma_long_tag(0x91);
    lemma_long_tag(0x92);
    lemma_long_tag(0x95);
}

proof fn lemma_state(state: u8, rest: Seq<u8>)
    ensures
        crate::ber::element_in(seq![0x9fu8, 0x70u8, 0x01u8, state] + rest) == Ok::<
            ElementModel,
            crate::ber::BerFault,
        >(
            ElementModel {
                tag: seq![0x9fu8, 0x70u8],
                value: seq![state],
                whole: seq![0x9fu8, 0x70u8, 0x01u8, state],
            },
        ),
        crate::ber::rest_after(seq![0x9fu8, 0x70u8, 0x01u8, state] + rest) == rest,
{
    let tag = seq![0x9fu8, 0x70u8];
    assert(crate::ber::tag_end(tag, 1) == Some(2int));
    assert(element_octets(tag, seq![state]) =~= seq![0x9fu8, 0x70u8, 0x01u8, state]);
    law_element_round_trip(tag, seq![state], rest);
}

proof fn lemma_tags_differ(one: u8, two: u8)
    requires
        one != two,
    ensures
        seq![one] != seq![two],
{
    assert(seq![one][0] != seq![two][0]);
}

proof fn lemma_long_tag(one: u8)
    ensures
        seq![0x9fu8, 0x70u8] != seq![one],
{
    assert(seq![0x9fu8, 0x70u8].len() != seq![one].len());
}

/// A list of one profile, in the answer `BF2D` to the question for profiles,
/// comes back as that profile.
pub proof fn law_the_profiles_come_back(profile: Seq<u8>)
    requires
        profile.len() <= 10000,
    ensures
        ({
            let read = walked(profile, blank_profile(), profile_step());
            let list = profiles_in(answer(0x2d, field(0xa0, field(0xe3, profile))));
            &&& read matches Ok(one) ==> list == Ok::<Seq<ProfileModel>, Es10cFault>(seq![one])
            &&& read is Err ==> list is Err
        }),
{
    let inner = field(0xe3, profile);
    lemma_field(0xe3, profile, Seq::empty());
    let list = field(0xa0, inner);
    lemma_field(0xa0, inner, Seq::empty());
    lemma_alone(0xa0, inner);
    lemma_answer_alone(0x2d, list);
    lemma_walk(0xe3, profile, Seq::empty(), Seq::<ProfileModel>::empty(), profile_list_step());
    assert(inner + Seq::<u8>::empty() =~= inner);
    let read = walked(profile, blank_profile(), profile_step());
    if let Ok(one) = read {
        assert(Seq::<ProfileModel>::empty().push(one) =~= seq![one]);
    }
}

/// A notification comes back as the card describes it: its number under `80`,
/// what happened under `81`, where it goes under `0C`, and of which profile it
/// is under `5A`.
pub proof fn law_a_notification_comes_back(
    number: Seq<u8>,
    events: Seq<u8>,
    address: Seq<u8>,
    iccid: Seq<char>,
)
    requires
        0 < number.len() <= 8,
        events.len() <= 8,
        address.len() <= 1000,
        trimmed(lossy(address)).len() > 0,
        0 < iccid.len() <= 20,
        all_digits(iccid),
    ensures
        notification_in(
            field(0x80, number) + (field(0x81, events) + (field(0x0c, address) + (field(
                0x5a,
                iccid_octets(iccid),
            ) + Seq::empty()))),
        ) == Ok::<NotificationModel, Es10cFault>(
            NotificationModel {
                sequence_number: crate::ber::big_endian(number) as u64,
                operations: bits_in(
                    events,
                    seq!["install"@, "enable"@, "disable"@, "delete"@],
                ),
                address: trimmed(lossy(address)),
                iccid: Some(iccid),
            },
        ),
{
    law_iccid_round_trip(iccid);
    let octets = iccid_octets(iccid);
    let step = notification_step();
    let r4 = Seq::<u8>::empty();
    let r3 = field(0x5a, octets) + r4;
    let r2 = field(0x0c, address) + r3;
    let r1 = field(0x81, events) + r2;
    let s0 = PartialModel { numbered: false, metadata: blank_notification() };
    let s1 = PartialModel {
        numbered: true,
        metadata: NotificationModel {
            sequence_number: crate::ber::big_endian(number) as u64,
            ..s0.metadata
        },
    };
    let s2 = PartialModel {
        metadata: NotificationModel {
            operations: bits_in(events, seq!["install"@, "enable"@, "disable"@, "delete"@]),
            ..s1.metadata
        },
        ..s1
    };
    let s3 = PartialModel {
        metadata: NotificationModel { address: trimmed(lossy(address)), ..s2.metadata },
        ..s2
    };
    let s4 = PartialModel {
        metadata: NotificationModel { iccid: Some(iccid), ..s3.metadata },
        ..s3
    };
    lemma_walk(0x80, number, r1, s0, step);
    assert(walked(field(0x80, number) + r1, s0, step) == walked(r1, s1, step));
    lemma_walk(0x81, events, r2, s1, step);
    lemma_tags_differ(0x81, 0x80);
    assert(walked(r1, s1, step) == walked(r2, s2, step));
    lemma_walk(0x0c, address, r3, s2, step);
    lemma_tags_differ(0x0c, 0x80);
    lemma_tags_differ(0x0c, 0x81);
    assert(walked(r2, s2, step) == walked(r3, s3, step));
    lemma_walk(0x5a, octets, r4, s3, step);
    lemma_tags_differ(0x5a, 0x80);
    lemma_tags_differ(0x5a, 0x81);
    lemma_tags_differ(0x5a, 0x0c);
    assert(walked(r3, s3, step) == walked(r4, s4, step));
}

/// What a server says of a profile before it is fetched is read from `BF25`,
/// element by element: the provider, the name, the class and the rules each
/// from its own, and the ICCID digit for digit.
pub proof fn law_each_element_of_the_metadata_is_its_own(
    state: MetadataModel,
    rest: Seq<u8>,
    value: Seq<u8>,
)
    requires
        value.len() <= 255,
    ensures
        walked(field(0x91, value) + rest, state, metadata_step()) == walked(
            rest,
            MetadataModel { service_provider_name: shown(value), ..state },
            metadata_step(),
        ),
        walked(field(0x92, value) + rest, state, metadata_step()) == walked(
            rest,
            MetadataModel { profile_name: shown(value), ..state },
            metadata_step(),
        ),
        walked(field(0x99, value) + rest, state, metadata_step()) == walked(
            rest,
            MetadataModel {
                policy_rules: bits_in(value, seq!["pprUpdateControl"@, "ppr1"@, "ppr2"@]),
                ..state
            },
            metadata_step(),
        ),
{
    lemma_metadata_element(0x91, value, rest, state);
    lemma_metadata_element(0x92, value, rest, state);
    lemma_metadata_element(0x99, value, rest, state);
}

proof fn lemma_metadata_element(tag: u8, value: Seq<u8>, rest: Seq<u8>, state: MetadataModel)
    requires
        tag == 0x91 || tag == 0x92 || tag == 0x99,
        value.len() <= 255,
    ensures
        walked(field(tag, value) + rest, state, metadata_step()) == walked(
            rest,
            match tag {
                0x91 => MetadataModel { service_provider_name: shown(value), ..state },
                0x92 => MetadataModel { profile_name: shown(value), ..state },
                _ => MetadataModel {
                    policy_rules: bits_in(value, seq!["pprUpdateControl"@, "ppr1"@, "ppr2"@]),
                    ..state
                },
            },
            metadata_step(),
        ),
{
    lemma_walk(tag, value, rest, state, metadata_step());
    lemma_tags_differ(tag, 0x5a);
    lemma_tags_differ(tag, 0x95);
    if tag != 0x91 {
        lemma_tags_differ(tag, 0x91);
    }
    if tag != 0x92 {
        lemma_tags_differ(tag, 0x92);
    }
}

/// The metadata of a profile are the elements of `BF25`, all of them, and the
/// octets they came in.
pub proof fn law_the_metadata_are_the_elements(iccid: Seq<char>, more: Seq<u8>)
    requires
        0 < iccid.len() <= 20,
        all_digits(iccid),
        more.len() <= 10000,
    ensures
        ({
            let body = field(0x5a, iccid_octets(iccid)) + more;
            metadata_in(answer(0x25, body)) == walked(
                more,
                MetadataModel {
                    iccid: Some(iccid),
                    raw: answer(0x25, body),
                    ..blank_metadata()
                },
                metadata_step(),
            )
        }),
{
    law_iccid_round_trip(iccid);
    let octets = iccid_octets(iccid);
    let body = field(0x5a, octets) + more;
    lemma_field(0x5a, octets, more);
    lemma_answer_alone(0x25, body);
    let start = MetadataModel { raw: answer(0x25, body), ..blank_metadata() };
    lemma_walk(0x5a, octets, more, start, metadata_step());
}

/// A bit of a bit string, the most significant bit of the first octet counted
/// as zero.
pub open spec fn bit(octets: Seq<u8>, i: int) -> bool {
    octets[i / 8] as int / vstd::arithmetic::power2::pow2((7 - i % 8) as nat) as int % 2 == 1
}

/// A name is read from a bit string exactly where its own bit is set and counts;
/// the first octet says how many bits at the end do not.
pub proof fn law_a_name_is_read_where_its_bit_is_set(
    unused: u8,
    octets: Seq<u8>,
    names: Seq<Seq<char>>,
    i: int,
)
    requires
        unused < 8,
        octets.len() > 0,
        0 <= i < names.len(),
        names.len() <= 8 * octets.len() - unused,
        8 * octets.len() - unused <= names.len(),
        forall|a: int, b: int| 0 <= a < b < names.len() ==> names[a] != names[b],
    ensures
        bits_in(seq![unused] + octets, names).contains(names[i]) <==> bit(octets, i),
{
    let value = seq![unused] + octets;
    assert(value.skip(1) =~= octets);
    lemma_bits(octets, names, 0, names.len() as int, i);
}

proof fn lemma_bits(octets: Seq<u8>, names: Seq<Seq<char>>, from: int, to: int, i: int)
    requires
        0 <= from <= to,
        to == names.len(),
        0 <= i < names.len(),
        forall|a: int, b: int| 0 <= a < b < names.len() ==> names[a] != names[b],
    ensures
        bits_from(octets, names, from, to).contains(names[i]) <==> from <= i && bit(octets, i),
    decreases to - from,
{
    let all = bits_from(octets, names, from, to);
    if from < to {
        lemma_bits(octets, names, from + 1, to, i);
        let more = bits_from(octets, names, from + 1, to);
        vstd::arithmetic::power2::lemma2_to64();
        assert(crate::es10c::bit_set(octets, from) == bit(octets, from));
        if bit(octets, from) {
            assert(all == seq![names[from]] + more);
            assert(all[0] == names[from]);
            if more.contains(names[i]) {
                let k = choose|k: int| 0 <= k < more.len() && more[k] == names[i];
                assert(all[k + 1] == names[i]);
            }
            if all.contains(names[i]) && i != from {
                let k = choose|k: int| 0 <= k < all.len() && all[k] == names[i];
                if k == 0 {
                    if i < from {
                        assert(names[i] != names[from]);
                    } else {
                        assert(names[from] != names[i]);
                    }
                } else {
                    assert(more[k - 1] == names[i]);
                }
            }
        }
    }
}

/// A challenge is the sixteen octets under `80` of `BF2E`.
pub proof fn law_a_challenge_comes_back(challenge: Seq<u8>)
    requires
        challenge.len() == 16,
    ensures
        challenge_in(answer(0x2e, field(0x80, challenge))) == Ok::<Seq<u8>, Es10cFault>(challenge),
{
    lemma_alone(0x80, challenge);
    lemma_field(0x80, challenge, Seq::empty());
    lemma_answer_alone(0x2e, field(0x80, challenge));
}

/// The tag under which each step of a download is answered.
pub open spec fn step_tag(step: DownloadStep) -> u8 {
    match step {
        DownloadStep::AuthenticateServer => 0x38,
        DownloadStep::PrepareDownload => 0x21,
        DownloadStep::CancelSession => 0x41,
    }
}

/// A step was accepted where the card answers `A0` under the step's tag, and
/// the answer is then handed on whole; `A1` is a refusal, and so is an answer
/// under another tag.
pub proof fn law_a_step_is_accepted_by_its_own_answer(
    step: DownloadStep,
    tag: u8,
    choice: u8,
    content: Seq<u8>,
)
    requires
        tag < 0x80,
        choice == 0xa0 || choice == 0xa1,
        content.len() <= 60000,
    ensures
        ({
            let said = answer(tag, field(choice, content));
            &&& accepted_in(said, step) is Ok <==> tag == step_tag(step) && choice == 0xa0
            &&& accepted_in(said, step) is Ok ==> accepted_in(said, step)->Ok_0 == said
        }),
{
    lemma_field(choice, content, Seq::empty());
    lemma_alone(choice, content);
    lemma_answer_alone(tag, field(choice, content));
    let wanted = crate::es10c::function_tag(step_tag(step));
    assert(wanted =~= seq![0xbfu8, step_tag(step)]);
    if tag != step_tag(step) {
        assert(seq![0xbfu8, tag][1] != wanted[1]);
    }
    lemma_tags_differ(0xa0, 0xa1);
}

/// The result of an installation is read from `BF27` inside `BF37`, and the
/// whole answer is what goes to the server.
pub proof fn law_an_installation_is_read_from_its_data(data: Seq<u8>, signature: Seq<u8>)
    requires
        data.len() <= 10000,
        signature.len() <= 1000,
    ensures
        ({
            let said = answer(0x37, answer(0x27, data) + signature);
            &&& installation_in(said) == result_data_in(said, data)
            &&& installation_in(said) matches Ok(result) ==> result.notification == said
        }),
{
    let body = answer(0x27, data) + signature;
    lemma_answer(0x27, data, signature);
    lemma_answer_alone(0x37, body);
    assert(crate::es10c::function_tag(0x27) =~= seq![0xbfu8, 0x27u8]);
}

/// An installation succeeded exactly where its final result, under `A2`, is
/// `A0`; its number and its ICCID are those under `80` and `5A` of its
/// notification, `BF2F`.
pub proof fn law_an_installation_is_what_the_card_says(
    whole: Seq<u8>,
    data: Seq<u8>,
    metadata: Seq<u8>,
    number: Seq<u8>,
    octets: Seq<u8>,
    choice: u8,
    content: Seq<u8>,
)
    requires
        tagged_in(data, seq![0xbfu8, 0x2fu8]) == Some(metadata),
        tagged_in(data, seq![0xa2u8]) == Some(field(choice, content)),
        tagged_in(metadata, seq![0x80u8]) == Some(number),
        tagged_in(metadata, seq![0x5au8]) == Some(octets),
        0 < number.len() <= 8,
        choice == 0xa0 || choice == 0xa1,
        content.len() <= 1000,
    ensures
        choice == 0xa0 ==> result_data_in(whole, data) == Ok::<InstallationModel, Es10cFault>(
            InstallationModel {
                success: true,
                sequence_number: Some(crate::ber::big_endian(number) as u64),
                iccid: readable_iccid(octets),
                bpp_command: None,
                error_reason: None,
                notification: whole,
            },
        ),
        choice == 0xa1 ==> (result_data_in(whole, data) matches Ok(result) ==> {
            &&& !result.success
            &&& result.sequence_number == Some(crate::ber::big_endian(number) as u64)
            &&& result.iccid == readable_iccid(octets)
        }),
{
    lemma_alone(choice, content);
    lemma_tags_differ(0xa0, 0xa1);
    assert(crate::es10c::function_tag(0x2f) =~= seq![0xbfu8, 0x2fu8]);
}

proof fn lemma_apart(tag: u8, other: u8)
    ensures
        (seq![tag] == seq![other]) == (tag == other),
{
    if tag != other {
        lemma_tags_differ(tag, other);
    }
}

/// What becomes of what is known of a chip with each element of its
/// description: every version, list and number from its own element, and the
/// rest of the description still to come.
pub proof fn law_each_element_of_the_description_is_its_own(
    state: EuiccInfo2Model,
    rest: Seq<u8>,
    value: Seq<u8>,
)
    requires
        value.len() <= 255,
    ensures
        walked(field(0x81, value) + rest, state, info2_step()) == walked(
            rest,
            EuiccInfo2Model { profile_version: Some(dotted(value)), ..state },
            info2_step(),
        ),
        walked(field(0x82, value) + rest, state, info2_step()) == walked(
            rest,
            EuiccInfo2Model { svn: Some(dotted(value)), ..state },
            info2_step(),
        ),
        walked(field(0x83, value) + rest, state, info2_step()) == walked(
            rest,
            EuiccInfo2Model { firmware_version: Some(dotted(value)), ..state },
            info2_step(),
        ),
        walked(field(0x86, value) + rest, state, info2_step()) == walked(
            rest,
            EuiccInfo2Model { ts102241_version: Some(dotted(value)), ..state },
            info2_step(),
        ),
        walked(field(0x87, value) + rest, state, info2_step()) == walked(
            rest,
            EuiccInfo2Model { global_platform_version: Some(dotted(value)), ..state },
            info2_step(),
        ),
        walked(field(0x04, value) + rest, state, info2_step()) == walked(
            rest,
            EuiccInfo2Model { pp_version: Some(dotted(value)), ..state },
            info2_step(),
        ),
        walked(field(0x0c, value) + rest, state, info2_step()) == walked(
            rest,
            EuiccInfo2Model { sas_accreditation_number: shown(value), ..state },
            info2_step(),
        ),
        walked(field(0x85, value) + rest, state, info2_step()) == walked(
            rest,
            EuiccInfo2Model { uicc_capabilities: bits_in(value, uicc_capabilities()), ..state },
            info2_step(),
        ),
        walked(field(0x88, value) + rest, state, info2_step()) == walked(
            rest,
            EuiccInfo2Model { rsp_capabilities: bits_in(value, rsp_capabilities()), ..state },
            info2_step(),
        ),
        walked(field(0x99, value) + rest, state, info2_step()) == walked(
            rest,
            EuiccInfo2Model {
                forbidden_profile_policy_rules: bits_in(value, ppr_ids()),
                ..state
            },
            info2_step(),
        ),
{
    lemma_described(0x81, value, rest, state);
    lemma_described(0x82, value, rest, state);
    lemma_described(0x83, value, rest, state);
    lemma_described(0x86, value, rest, state);
    lemma_described(0x87, value, rest, state);
    lemma_described(0x04, value, rest, state);
    lemma_described(0x0c, value, rest, state);
    lemma_described(0x85, value, rest, state);
    lemma_described(0x88, value, rest, state);
    lemma_described(0x99, value, rest, state);
}

proof fn lemma_described(tag: u8, value: Seq<u8>, rest: Seq<u8>, state: EuiccInfo2Model)
    requires
        tag == 0x81 || tag == 0x82 || tag == 0x83 || tag == 0x86 || tag == 0x87 || tag == 0x04
            || tag == 0x0c || tag == 0x85 || tag == 0x88 || tag == 0x99,
        value.len() <= 255,
    ensures
        walked(field(tag, value) + rest, state, info2_step()) == walked(
            rest,
            match tag {
                0x81 => EuiccInfo2Model { profile_version: Some(dotted(value)), ..state },
                0x82 => EuiccInfo2Model { svn: Some(dotted(value)), ..state },
                0x83 => EuiccInfo2Model { firmware_version: Some(dotted(value)), ..state },
                0x86 => EuiccInfo2Model { ts102241_version: Some(dotted(value)), ..state },
                0x87 => EuiccInfo2Model { global_platform_version: Some(dotted(value)), ..state },
                0x04 => EuiccInfo2Model { pp_version: Some(dotted(value)), ..state },
                0x0c => EuiccInfo2Model { sas_accreditation_number: shown(value), ..state },
                0x85 => EuiccInfo2Model {
                    uicc_capabilities: bits_in(value, uicc_capabilities()),
                    ..state
                },
                0x88 => EuiccInfo2Model {
                    rsp_capabilities: bits_in(value, rsp_capabilities()),
                    ..state
                },
                _ => EuiccInfo2Model {
                    forbidden_profile_policy_rules: bits_in(value, ppr_ids()),
                    ..state
                },
            },
            info2_step(),
        ),
{
    lemma_walk(tag, value, rest, state, info2_step());
    lemma_apart(tag, 0x81);
    lemma_apart(tag, 0x82);
    lemma_apart(tag, 0x83);
    lemma_apart(tag, 0x84);
    lemma_apart(tag, 0x85);
    lemma_apart(tag, 0x86);
    lemma_apart(tag, 0x87);
    lemma_apart(tag, 0x88);
    lemma_apart(tag, 0xa9);
    lemma_apart(tag, 0xaa);
    lemma_apart(tag, 0x8b);
    lemma_apart(tag, 0x99);
    lemma_apart(tag, 0x04);
    lemma_apart(tag, 0x0c);
}

/// What a chip has left is read number by number: its applications, its
/// memory that lasts and its memory that does not.
pub proof fn law_what_a_chip_has_left_is_told_apart(
    state: EuiccInfo2Model,
    rest: Seq<u8>,
    high: u8,
    low: u8,
)
    ensures
        walked(field(0x81, seq![high, low]) + rest, state, resource_step()) == walked(
            rest,
            EuiccInfo2Model { installed_applications: Some((256 * high + low) as u64), ..state },
            resource_step(),
        ),
        walked(field(0x82, seq![high, low]) + rest, state, resource_step()) == walked(
            rest,
            EuiccInfo2Model { free_non_volatile_memory: Some((256 * high + low) as u64), ..state },
            resource_step(),
        ),
        walked(field(0x83, seq![high, low]) + rest, state, resource_step()) == walked(
            rest,
            EuiccInfo2Model { free_volatile_memory: Some((256 * high + low) as u64), ..state },
            resource_step(),
        ),
{
    let value = seq![high, low];
    lemma_two_octets(high, low);
    lemma_walk(0x81, value, rest, state, resource_step());
    lemma_walk(0x82, value, rest, state, resource_step());
    lemma_walk(0x83, value, rest, state, resource_step());
    lemma_apart(0x82, 0x81);
    lemma_apart(0x83, 0x81);
    lemma_apart(0x83, 0x82);
}

proof fn lemma_two_octets(high: u8, low: u8)
    ensures
        integer_in(seq![high, low]) == Ok::<u64, Es10cFault>((256 * high + low) as u64),
{
    let value = seq![high, low];
    assert(value.drop_last() =~= seq![high]);
    assert(seq![high].drop_last() =~= Seq::<u8>::empty());
    reveal_with_fuel(big_endian, 3);
}

/// A version is its octets in base ten with points between them.
pub proof fn law_a_version_is_its_octets(first: u8, second: u8, third: u8)
    ensures
        dotted(seq![first, second, third]) == decimal(first as nat) + "."@ + decimal(second as nat)
            + "."@ + decimal(third as nat),
{
    let value = seq![first, second, third];
    assert(value.drop_last() =~= seq![first, second]);
    assert(seq![first, second].drop_last() =~= seq![first]);
    reveal_with_fuel(dotted, 3);
}

/// The keys by which a chip checks a server and those by which it signs are
/// two lists, and neither is read for the other.
pub proof fn law_a_chip_checks_by_one_list_and_signs_by_the_other(
    version: Seq<u8>,
    checks: Seq<u8>,
    signs: Seq<u8>,
)
    requires
        version.len() <= 255,
        checks.len() <= 255,
        signs.len() <= 255,
    ensures
        ({
            let whole = answer(
                0x20,
                field(0x82, version) + (field(0xa9, field(0x04, checks)) + field(
                    0xaa,
                    field(0x04, signs),
                )),
            );
            info1_in(whole) == Ok::<EuiccInfo1Model, Es10cFault>(
                EuiccInfo1Model {
                    svn: Some(dotted(version)),
                    ci_key_ids_for_verification: seq![hex_text_upper(checks)],
                    ci_key_ids_for_signing: seq![hex_text_upper(signs)],
                    raw: whole,
                },
            )
        }),
{
    let first = field(0x04, checks);
    let second = field(0x04, signs);
    lemma_field(0x04, checks, Seq::empty());
    lemma_field(0x04, signs, Seq::empty());
    lemma_one_key(checks);
    lemma_one_key(signs);
    lemma_two_lists(version, first, second, hex_text_upper(checks), hex_text_upper(signs));
}

proof fn lemma_list(
    tag: u8,
    value: Seq<u8>,
    rest: Seq<u8>,
    keys: Seq<Seq<char>>,
    state: EuiccInfo1Model,
)
    requires
        tag == 0xa9 || tag == 0xaa,
        value.len() <= 1000,
        keys_in(value) == Ok::<Seq<Seq<char>>, Es10cFault>(keys),
    ensures
        walked(field(tag, value) + rest, state, info1_step()) == walked(
            rest,
            if tag == 0xa9 {
                EuiccInfo1Model { ci_key_ids_for_verification: keys, ..state }
            } else {
                EuiccInfo1Model { ci_key_ids_for_signing: keys, ..state }
            },
            info1_step(),
        ),
{
    lemma_walk(tag, value, rest, state, info1_step());
    lemma_apart(tag, 0x82);
    lemma_apart(tag, 0xa9);
    lemma_apart(tag, 0xaa);
}

proof fn lemma_list_version(value: Seq<u8>, rest: Seq<u8>, state: EuiccInfo1Model)
    requires
        value.len() <= 1000,
    ensures
        walked(field(0x82, value) + rest, state, info1_step()) == walked(
            rest,
            EuiccInfo1Model { svn: Some(dotted(value)), ..state },
            info1_step(),
        ),
{
    lemma_walk(0x82, value, rest, state, info1_step());
}

#[verifier::rlimit(40)]
proof fn lemma_two_lists(
    version: Seq<u8>,
    first: Seq<u8>,
    second: Seq<u8>,
    checks: Seq<char>,
    signs: Seq<char>,
)
    requires
        version.len() <= 255,
        first.len() <= 1000,
        second.len() <= 1000,
        keys_in(first) == Ok::<Seq<Seq<char>>, Es10cFault>(seq![checks]),
        keys_in(second) == Ok::<Seq<Seq<char>>, Es10cFault>(seq![signs]),
    ensures
        ({
            let whole = answer(
                0x20,
                field(0x82, version) + (field(0xa9, first) + field(0xaa, second)),
            );
            info1_in(whole) == Ok::<EuiccInfo1Model, Es10cFault>(
                EuiccInfo1Model {
                    svn: Some(dotted(version)),
                    ci_key_ids_for_verification: seq![checks],
                    ci_key_ids_for_signing: seq![signs],
                    raw: whole,
                },
            )
        }),
{
    let last = field(0xaa, second);
    let tail = field(0xa9, first) + last;
    let body = field(0x82, version) + tail;
    let whole = answer(0x20, body);
    lemma_sizes(version, first, second);
    lemma_answer_alone(0x20, body);
    let start = EuiccInfo1Model { raw: whole, ..crate::es10c::blank_info1() };
    let after = EuiccInfo1Model { svn: Some(dotted(version)), ..start };
    let then = EuiccInfo1Model { ci_key_ids_for_verification: seq![checks], ..after };
    lemma_list_version(version, tail, start);
    lemma_list(0xa9, first, last, seq![checks], after);
    lemma_list(0xaa, second, Seq::empty(), seq![signs], then);
    assert(last + Seq::<u8>::empty() =~= last);
}

proof fn lemma_sizes(version: Seq<u8>, first: Seq<u8>, second: Seq<u8>)
    requires
        version.len() <= 255,
        first.len() <= 1000,
        second.len() <= 1000,
    ensures
        (field(0x82, version) + (field(0xa9, first) + field(0xaa, second))).len() < 10000,
{
    lemma_field(0x82, version, Seq::empty());
    lemma_field(0xa9, first, Seq::empty());
    lemma_field(0xaa, second, Seq::empty());
}

proof fn lemma_one_key(key: Seq<u8>)
    requires
        key.len() <= 255,
    ensures
        keys_in(field(0x04, key)) == Ok::<Seq<Seq<char>>, Es10cFault>(seq![hex_text_upper(key)]),
{
    lemma_walk(0x04, key, Seq::empty(), Seq::<Seq<char>>::empty(), key_step());
    assert(field(0x04, key) + Seq::<u8>::empty() =~= field(0x04, key));
    assert(Seq::<Seq<char>>::empty().push(hex_text_upper(key)) =~= seq![hex_text_upper(key)]);
}

/// The server to download from and the server to ask for orders are each read
/// from their own element of the answer `BF3C`.
pub proof fn law_the_servers_of_a_chip_are_told_apart(download: Seq<u8>, orders: Seq<u8>)
    requires
        download.len() <= 255,
        orders.len() <= 255,
    ensures
        addresses_in(answer(0x3c, field(0x80, download) + field(0x81, orders))) == Ok::<
            AddressesModel,
            Es10cFault,
        >(AddressesModel { default_dp_address: shown(download), root_ds_address: shown(orders) }),
{
    let second = field(0x81, orders);
    let start = crate::es10c::blank_addresses();
    let then = AddressesModel { default_dp_address: shown(download), ..start };
    lemma_field(0x80, download, second);
    lemma_field(0x81, orders, Seq::empty());
    lemma_answer_alone(0x3c, field(0x80, download) + second);
    lemma_walk(0x80, download, second, start, address_step());
    lemma_walk(0x81, orders, Seq::empty(), then, address_step());
    assert(second + Seq::<u8>::empty() =~= second);
    lemma_apart(0x81, 0x80);
}

proof fn lemma_long_walk<A>(
    tag: u8,
    value: Seq<u8>,
    rest: Seq<u8>,
    state: A,
    step: spec_fn(A, ElementModel) -> Result<A, Es10cFault>,
)
    requires
        tag < 0x80,
        value.len() < 16777216,
    ensures
        walked(answer(tag, value) + rest, state, step) == match step(
            state,
            ElementModel { tag: seq![0xbfu8, tag], value, whole: answer(tag, value) },
        ) {
            Err(e) => Err::<A, Es10cFault>(e),
            Ok(next) => walked(rest, next, step),
        },
{
    lemma_answer(tag, value, rest);
}

/// Each notification that a card holds comes back whole, with what it is of: the
/// result of an installation under `BF37`, anything else under `30`.
#[verifier::rlimit(40)]
pub proof fn law_a_pending_notification_comes_back_whole(
    body: Seq<u8>,
    rest: Seq<u8>,
    known: Seq<PendingModel>,
)
    requires
        body.len() <= 10000,
        described_in(body) is Ok,
    ensures
        walked(field(0x30, body) + rest, known, pending_step()) == walked(
            rest,
            known.push(
                PendingModel {
                    metadata: described_in(body)->Ok_0,
                    installation_result: false,
                    payload: field(0x30, body),
                },
            ),
            pending_step(),
        ),
        walked(answer(0x37, answer(0x27, body)) + rest, known, pending_step()) == walked(
            rest,
            known.push(
                PendingModel {
                    metadata: described_in(body)->Ok_0,
                    installation_result: true,
                    payload: answer(0x37, answer(0x27, body)),
                },
            ),
            pending_step(),
        ),
{
    lemma_plain_pending(body, rest, known);
    lemma_answer_alone(0x27, body);
    lemma_answer(0x27, body, Seq::empty());
    lemma_result_pending(answer(0x27, body), body, rest, known);
}

#[verifier::rlimit(40)]
proof fn lemma_plain_pending(body: Seq<u8>, rest: Seq<u8>, known: Seq<PendingModel>)
    requires
        body.len() <= 10000,
        described_in(body) is Ok,
    ensures
        walked(field(0x30, body) + rest, known, pending_step()) == walked(
            rest,
            known.push(
                PendingModel {
                    metadata: described_in(body)->Ok_0,
                    installation_result: false,
                    payload: field(0x30, body),
                },
            ),
            pending_step(),
        ),
{
    lemma_walk(0x30, body, rest, known, pending_step());
    lemma_two_octet_tag(0x37, 0x30);
}

#[verifier::rlimit(40)]
proof fn lemma_result_pending(
    inner: Seq<u8>,
    body: Seq<u8>,
    rest: Seq<u8>,
    known: Seq<PendingModel>,
)
    requires
        inner.len() <= 20000,
        crate::es10c::body_of(inner, crate::es10c::function_tag(0x27)) == Ok::<
            Seq<u8>,
            Es10cFault,
        >(body),
        described_in(body) is Ok,
    ensures
        walked(answer(0x37, inner) + rest, known, pending_step()) == walked(
            rest,
            known.push(
                PendingModel {
                    metadata: described_in(body)->Ok_0,
                    installation_result: true,
                    payload: answer(0x37, inner),
                },
            ),
            pending_step(),
        ),
{
    lemma_long_walk(0x37, inner, rest, known, pending_step());
    assert(crate::es10c::function_tag(0x37) =~= seq![0xbfu8, 0x37u8]);
}

proof fn lemma_two_octet_tag(long: u8, short: u8)
    ensures
        crate::es10c::function_tag(long) != seq![short],
{
    assert(crate::es10c::function_tag(long).len() == 2);
    assert(seq![short].len() == 1);
}

/// What describes a notification is found behind whatever stands before it.
pub proof fn law_a_description_is_found(metadata: Seq<u8>, before: Seq<u8>, rest: Seq<u8>)
    requires
        metadata.len() <= 10000,
        before.len() <= 10000,
    ensures
        described_in(answer(0x2f, metadata) + rest) == notification_in(metadata),
        described_in(field(0x80, before) + (answer(0x2f, metadata) + rest)) == notification_in(
            metadata,
        ),
{
    lemma_answer(0x2f, metadata, rest);
    lemma_field(0x80, before, answer(0x2f, metadata) + rest);
    lemma_two_octet_tag(0x2f, 0x80);
    assert(crate::es10c::function_tag(0x2f) =~= seq![0xbfu8, 0x2fu8]);
    reveal_with_fuel(described_in, 2);
}

/// A list of one notification, in the answer `BF28` to the question for them,
/// comes back as that notification; a card that has none to give says why.
#[verifier::rlimit(40)]
pub proof fn law_the_notifications_come_back(metadata: Seq<u8>, code: u8)
    requires
        metadata.len() <= 10000,
    ensures
        notification_in(metadata) is Ok ==> notifications_in(
            answer(0x28, field(0xa0, answer(0x2f, metadata))),
        ) == Ok::<Seq<NotificationModel>, Es10cFault>(seq![notification_in(metadata)->Ok_0]),
        notifications_in(answer(0x28, field(0x81, seq![code]))) is Err,
{
    lemma_answer(0x2f, metadata, Seq::empty());
    lemma_in_its_list(answer(0x2f, metadata));
    lemma_one_listed(metadata);
    lemma_no_list(code);
}

proof fn lemma_in_its_list(inner: Seq<u8>)
    requires
        inner.len() <= 20000,
    ensures
        crate::es10c::notification_list_in(answer(0x28, field(0xa0, inner)), 0x28) == Ok::<
            Seq<u8>,
            Es10cFault,
        >(inner),
{
    lemma_alone(0xa0, inner);
    lemma_field(0xa0, inner, Seq::empty());
    lemma_answer_alone(0x28, field(0xa0, inner));
}

proof fn lemma_no_list(code: u8)
    ensures
        crate::es10c::notification_list_in(answer(0x28, field(0x81, seq![code])), 0x28) is Err,
{
    let value = seq![code];
    lemma_alone(0x81, value);
    lemma_field(0x81, value, Seq::empty());
    lemma_answer_alone(0x28, field(0x81, value));
    lemma_apart(0x81, 0xa0);
}

#[verifier::rlimit(40)]
proof fn lemma_one_listed(metadata: Seq<u8>)
    requires
        metadata.len() <= 10000,
    ensures
        notification_in(metadata) is Ok ==> walked(
            answer(0x2f, metadata),
            Seq::<NotificationModel>::empty(),
            listed_step(),
        ) == Ok::<Seq<NotificationModel>, Es10cFault>(seq![notification_in(metadata)->Ok_0]),
{
    let one = answer(0x2f, metadata);
    let none = Seq::<NotificationModel>::empty();
    lemma_long_walk(0x2f, metadata, Seq::empty(), none, listed_step());
    assert(one + Seq::<u8>::empty() =~= one);
    assert(crate::es10c::function_tag(0x2f) =~= seq![0xbfu8, 0x2fu8]);
    if notification_in(metadata) is Ok {
        let read = notification_in(metadata)->Ok_0;
        assert(none.push(read) =~= seq![read]);
    }
}

} // verus!
