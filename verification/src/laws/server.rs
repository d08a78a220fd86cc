//! What a server is asked, and what its answer has to be to be taken.

use crate::ber::law_element_round_trip;
use crate::certificate::certificate_in;
use crate::es9p::{
    anchor_in, answer_in, answered, authenticated, authentication_fields_in, credential_verdict,
    execution_in, first_anchor, initiate_request, key_identifier, octets_in, request_head,
    server_signed_in, signature_in, signed_fields, started_from, verified_in, AnchorModel,
    AuthenticationFieldsModel, Es9pFault, OctetFieldModel, SignedModel, StartModel,
};
use crate::http::{
    body_in, chunk_size, dechunked, header_in, header_value, is_chunked, response_in, status_in,
    HttpModel,
};
use crate::json::json_text;
use crate::laws::chip::field;
use crate::laws::esim::law_lengths_are_shortest;
use crate::laws::spelling::law_a_number_reads_back;
use crate::primitives::{base64_text, sha256};
use crate::text::{
    decimal, first_match, hex_number_in, hex_text, hex_text_upper, is_digit, is_space,
    lemma_first_index_is, lossy, lower, trimmed, trimmed_start, upper, word_end, words,
};
use vstd::prelude::*;

verus! {

/// A session is opened with the chip's challenge, the chip's description and
/// the server's name, each under its own name.
pub proof fn law_a_session_is_opened_with_the_chips_words(
    host: Seq<char>,
    challenge: Seq<u8>,
    info: Seq<u8>,
)
    ensures
        initiate_request(host, challenge, info) == "{\"euiccChallenge\":\""@ + base64_text(
            challenge,
        ) + "\",\"euiccInfo1\":\""@ + base64_text(info) + "\",\"smdpAddress\":\""@ + host + "\"}"@,
{
}

/// A request goes to a path of a host, and says how many octets follow.
pub proof fn law_a_request_names_its_host(host: Seq<char>, path: Seq<char>, length: nat)
    ensures
        request_head(host, path, length) == "POST "@ + path + " HTTP/1.1\r\nHost: "@ + host
            + "\r\nUser-Agent: "@ + "gsma-rsp-lpad"@ + "\r\nX-Admin-Protocol: "@
            + "gsma/rsp/v2.2.0"@
            + "\r\nContent-Type: application/json\r\nAccept: application/json\r\nContent-Length: "@
            + decimal(length) + "\r\nConnection: close\r\n\r\n"@,
{
}

/// Each part of an answer is read from its own field.
pub proof fn law_each_part_of_an_answer_has_its_field(body: Seq<u8>)
    ensures
        ({
            let fields = authentication_fields_in(body);
            &&& fields.transaction_id == json_text(body, "/transactionId"@)
            &&& fields.server_signed1 == octets_in(body, "/serverSigned1"@)
            &&& fields.server_signature1 == octets_in(body, "/serverSignature1"@)
            &&& fields.server_certificate == octets_in(body, "/serverCertificate"@)
            &&& fields.euicc_ci_pkid == octets_in(body, "/euiccCiPKIdToBeUsed"@)
        }),
{
}

/// What a session starts from is what the fields of the answer hold, octet for
/// octet: what is signed, the signature, the certificate and the key each where
/// it belongs.
pub proof fn law_a_session_starts_from_its_fields(fields: AuthenticationFieldsModel)
    requires
        started_from(fields) is Ok,
    ensures
        ({
            let start = started_from(fields)->Ok_0;
            &&& fields.server_signed1 == OctetFieldModel::Octets(start.server_signed1)
            &&& fields.server_signature1 == OctetFieldModel::Octets(start.server_signature1)
            &&& fields.server_certificate == OctetFieldModel::Octets(start.server_certificate)
            &&& fields.euicc_ci_pkid == OctetFieldModel::Octets(start.euicc_ci_pkid_der)
            &&& fields.transaction_id == Some(start.transaction_id_raw)
            &&& fields.execution.status == Some("Executed-Success"@)
        }),
{
}

/// What a server signed is read element by element: the transaction from `80`,
/// the chip's challenge from `81`, the server's name from `83` and its own
/// challenge from `84`.
pub proof fn law_each_signed_element_is_its_own(
    state: SignedModel,
    value: Seq<u8>,
    rest: Seq<u8>,
)
    requires
        value.len() <= 1000,
    ensures
        signed_fields(state, field(0x80, value) + rest) == signed_fields(
            SignedModel { transaction_id: Some(value), ..state },
            rest,
        ),
        signed_fields(state, field(0x81, value) + rest) == signed_fields(
            SignedModel { euicc_challenge: Some(value), ..state },
            rest,
        ),
        signed_fields(state, field(0x83, value) + rest) == signed_fields(
            SignedModel { server_address: Some(lossy(value)), ..state },
            rest,
        ),
        signed_fields(state, field(0x84, value) + rest) == signed_fields(
            SignedModel { server_challenge: Some(value), ..state },
            rest,
        ),
{
    lemma_signed(0x80, state, value, rest);
    lemma_signed(0x81, state, value, rest);
    lemma_signed(0x83, state, value, rest);
    lemma_signed(0x84, state, value, rest);
}

proof fn lemma_signed(tag: u8, state: SignedModel, value: Seq<u8>, rest: Seq<u8>)
    requires
        tag == 0x80 || tag == 0x81 || tag == 0x83 || tag == 0x84,
        value.len() <= 1000,
    ensures
        signed_fields(state, field(tag, value) + rest) == signed_fields(
            match tag {
                0x80 => SignedModel { transaction_id: Some(value), ..state },
                0x81 => SignedModel { euicc_challenge: Some(value), ..state },
                0x83 => SignedModel { server_address: Some(lossy(value)), ..state },
                _ => SignedModel { server_challenge: Some(value), ..state },
            },
            rest,
        ),
{
    law_lengths_are_shortest(seq![tag], value);
    law_element_round_trip(seq![tag], value, rest);
    let one = seq![tag];
    assert(one[0] == tag);
    assert(seq![0x80u8][0] == 0x80 && seq![0x81u8][0] == 0x81 && seq![0x83u8][0] == 0x83);
}

/// A signature is sixty-four octets, bare or under `5F37`.
pub proof fn law_a_signature_is_unwrapped(signature: Seq<u8>)
    requires
        signature.len() == 64,
        signature[0] != 0x5f,
    ensures
        signature_in(seq![0x5fu8, 0x37u8, 0x40u8] + signature) == Ok::<Seq<u8>, Es9pFault>(
            signature,
        ),
        signature_in(signature) == Ok::<Seq<u8>, Es9pFault>(signature),
{
    let tag = seq![0x5fu8, 0x37u8];
    assert(crate::ber::tag_end(tag, 1) == Some(2int));
    let whole = seq![0x5fu8, 0x37u8, 0x40u8] + signature;
    assert(crate::ber::element_octets(tag, signature) + Seq::<u8>::empty() =~= whole);
    law_element_round_trip(tag, signature, Seq::empty());
    if crate::ber::element_in(signature) is Ok {
        let found = crate::ber::element_in(signature)->Ok_0;
        if found.tag == tag {
            crate::ber::lemma_element(signature);
            assert(found.tag[0] == 0x5f);
            assert(found.tag == signature.take(crate::ber::tag_length(signature)->Ok_0));
        }
    }
}

/// An answer is taken exactly where the certificate is signed, the answer is
/// signed by a signature of the right size, it echoes this chip's challenge, and
/// it names the server that was asked, in whatever case.
pub proof fn law_an_answer_is_taken_where_everything_holds(
    start: StartModel,
    host: Seq<char>,
    challenge: Seq<u8>,
    certificate_signed: bool,
    answer_signed: bool,
)
    ensures
        credential_verdict(start, host, challenge, certificate_signed, answer_signed) is None <==> {
            &&& certificate_signed
            &&& answer_signed
            &&& signature_in(start.server_signature1) is Ok
            &&& start.echoed_euicc_challenge == hex_text_upper(challenge)
            &&& lower(start.server_address) == lower(host)
        },
{
}

/// What is known of an exchange is put to what the server said, and takes
/// nothing from it.
pub proof fn law_an_exchange_is_recorded_beside_its_answer(
    anchors: Seq<AnchorModel>,
    host: Seq<char>,
    challenge: Seq<u8>,
    response: HttpModel,
    elapsed_ms: u64,
)
    requires
        authenticated(anchors, host, challenge, response, elapsed_ms) is Ok,
    ensures
        ({
            let start = authenticated(anchors, host, challenge, response, elapsed_ms)->Ok_0;
            let read = started_from(authentication_fields_in(response.body));
            &&& read is Ok
            &&& start.smdp_address == host
            &&& start.http_status == response.status
            &&& start.elapsed_ms == elapsed_ms
            &&& start.negotiated_tls == response.tls_version
            &&& start.admin_protocol == header_value(response.headers, "x-admin-protocol"@)
            &&& start.server_signed1 == read->Ok_0.server_signed1
            &&& start.server_signature1 == read->Ok_0.server_signature1
            &&& start.server_certificate == read->Ok_0.server_certificate
            &&& start.euicc_ci_pkid_der == read->Ok_0.euicc_ci_pkid_der
            &&& start.transaction_id_raw == read->Ok_0.transaction_id_raw
            &&& Ok::<_, Es9pFault>(start.verification) == verified_in(
                answered(read->Ok_0, host, response, elapsed_ms),
                host,
                challenge,
                anchors,
            )
        }),
{
}

/// A header is its name in lower case and its value, on either side of the
/// first colon, without the space around them.
pub proof fn law_a_header_is_cut_at_its_colon(name: Seq<char>, value: Seq<char>)
    requires
        !name.contains(':'),
    ensures
        header_in(name + seq![':'] + value) == Some((lower(trimmed(name)), trimmed(value))),
        header_in(name) is None,
{
    let line = name + seq![':'] + value;
    assert forall|i: int| 0 <= i < name.len() implies line[i] != ':' && name[i] != ':' by {
        assert(line[i] == name[i]);
        assert(name.contains(name[i]));
    }
    assert(line[name.len() as int] == ':');
    lemma_first_index_is(line, ':', name.len() as int);
    lemma_first_index_is(name, ':', name.len() as int);
    assert(line.take(name.len() as int) =~= name);
    assert(line.skip(name.len() as int + 1) =~= value);
}

/// A body is as long as its length says: what stands behind it is no part of
/// it, and one that is shorter is refused.
pub proof fn law_a_body_is_as_long_as_it_says(
    headers: Seq<(Seq<char>, Seq<char>)>,
    rest: Seq<u8>,
    length: nat,
)
    requires
        !is_chunked(headers),
        header_value(headers, "content-length"@) == Some(decimal(length)),
        length <= usize::MAX,
    ensures
        length <= rest.len() ==> body_in(headers, rest) == Ok::<Seq<u8>, Seq<char>>(
            rest.take(length as int),
        ),
        length > rest.len() ==> body_in(headers, rest) is Err,
{
    law_a_number_reads_back(length, usize::MAX as nat);
}

/// What a server signed is what a session is started with: the challenge it
/// echoes, its own challenge and its name, each from its own element.
pub proof fn law_a_start_says_what_was_signed(fields: AuthenticationFieldsModel)
    requires
        started_from(fields) is Ok,
    ensures
        ({
            let start = started_from(fields)->Ok_0;
            let signed = server_signed_in(start.server_signed1);
            &&& signed is Ok
            &&& signed->Ok_0.euicc_challenge matches Some(echoed)
                && start.echoed_euicc_challenge == hex_text_upper(echoed)
            &&& signed->Ok_0.server_challenge matches Some(own)
                && start.server_challenge == hex_text_upper(own)
            &&& signed->Ok_0.server_address == Some(start.server_address)
            &&& start.transaction_id == upper(start.transaction_id_raw)
            &&& start.euicc_ci_pkid_to_be_used == key_identifier(start.euicc_ci_pkid_der)
        }),
{
}

/// A key is named by its octets, without what an octet string puts before them.
pub proof fn law_a_key_is_named_by_its_octets(key: Seq<u8>)
    requires
        key.len() <= 1000,
    ensures
        key_identifier(field(0x04, key)) == hex_text_upper(key),
{
    law_lengths_are_shortest(seq![0x04u8], key);
    law_element_round_trip(seq![0x04u8], key, Seq::empty());
    assert(field(0x04, key) + Seq::<u8>::empty() =~= field(0x04, key));
}

/// An answer is taken only with the status 200, and then whole.
pub proof fn law_only_a_good_status_is_taken(raw: Seq<u8>, tls_version: Option<Seq<char>>)
    ensures
        answer_in(raw, tls_version) is Ok <==> response_in(raw) is Ok && response_in(
            raw,
        )->Ok_0.status == 200,
        answer_in(raw, tls_version) matches Ok(answer) ==> answer.body == response_in(
            raw,
        )->Ok_0.body && answer.headers == response_in(raw)->Ok_0.headers && answer.status == 200
            && answer.tls_version == tls_version,
        answer_in(raw, tls_version) matches Err(Es9pFault::HttpStatus { status, body })
            ==> status != 200 && status == response_in(raw)->Ok_0.status,
{
}

/// What is kept of a check says which root stood for the server and which
/// certificate it was.
pub proof fn law_a_check_says_what_it_rests_on(
    start: StartModel,
    host: Seq<char>,
    challenge: Seq<u8>,
    anchors: Seq<AnchorModel>,
)
    requires
        verified_in(start, host, challenge, anchors) is Ok,
    ensures
        ({
            let known = verified_in(start, host, challenge, anchors)->Ok_0;
            let certificate = certificate_in(start.server_certificate);
            &&& certificate is Ok
            &&& certificate->Ok_0.authority_key_id == Some(known.certificate_authority_key_id)
            &&& known.trust_anchor_key_id == known.certificate_authority_key_id
            &&& certificate->Ok_0.subject_key_id is Some ==> certificate->Ok_0.subject_key_id
                == Some(known.certificate_key_id)
            &&& known.certificate_not_after == certificate->Ok_0.not_after
            &&& known.certificate_sha256 == hex_text(sha256(start.server_certificate))
            &&& exists|i: int|
                0 <= i < anchors.len() && (#[trigger] anchors[i]).label == known.trust_anchor_label
                    && anchors[i].key_id == known.trust_anchor_key_id
            &&& known.certificate_signed_by_ci && known.server_signature_valid
                && known.challenge_echoed
        }),
{
    lemma_known_root(
        anchors,
        certificate_in(start.server_certificate)->Ok_0.authority_key_id->0,
    );
}

proof fn lemma_known_root(anchors: Seq<AnchorModel>, key_id: Seq<char>)
    ensures
        first_anchor(anchors, key_id) matches Some(anchor) ==> anchor.key_id == key_id && exists|
            i: int,
        |
            0 <= i < anchors.len() && #[trigger] anchors[i] == anchor,
    decreases anchors.len(),
{
    if anchors.len() > 0 {
        if anchors[0].key_id == key_id {
            assert(anchors[0] == first_anchor(anchors, key_id)->0);
        } else {
            let rest = anchors.skip(1);
            lemma_known_root(rest, key_id);
            if first_anchor(rest, key_id) is Some {
                let i = choose|i: int|
                    0 <= i < rest.len() && #[trigger] rest[i] == first_anchor(rest, key_id)->0;
                assert(anchors[i + 1] == rest[i]);
            }
        }
    }
}

/// A root is known by the digest of the whole of it and by the key of its
/// certificate.
pub proof fn law_a_root_is_what_its_certificate_says(label: Seq<char>, der: Seq<u8>)
    ensures
        certificate_in(der) is Err <==> anchor_in(label, der) is Err,
        anchor_in(label, der) matches Ok(anchor) ==> {
            &&& anchor.label == label
            &&& anchor.der == der
            &&& anchor.sha256 == hex_text(sha256(der))
            &&& anchor.not_after == certificate_in(der)->Ok_0.not_after
            &&& certificate_in(der)->Ok_0.subject_key_id matches Some(key) ==> anchor.key_id == key
        },
{
}

/// What a server says of how a call went is read from its header.
pub proof fn law_a_call_went_as_its_header_says(body: Seq<u8>)
    ensures
        execution_in(body).status == json_text(body, "/header/functionExecutionStatus/status"@),
        execution_in(body).subject_code == json_text(
            body,
            "/header/functionExecutionStatus/statusCodeData/subjectCode"@,
        ),
        execution_in(body).reason_code == json_text(
            body,
            "/header/functionExecutionStatus/statusCodeData/reasonCode"@,
        ),
        execution_in(body).message == json_text(
            body,
            "/header/functionExecutionStatus/statusCodeData/message"@,
        ),
{
}

// ---------------------------------------------------------------------------
// Bodies in chunks, and the status
// ---------------------------------------------------------------------------

proof fn lemma_break_at(line: Seq<u8>, rest: Seq<u8>, from: int)
    requires
        !line.contains(13u8),
        0 <= from <= line.len(),
    ensures
        first_match(line + seq![13u8, 10u8] + rest, seq![13u8, 10u8], from) == Some(
            line.len() as int,
        ),
    decreases line.len() - from,
{
    let all = line + seq![13u8, 10u8] + rest;
    let run = seq![13u8, 10u8];
    if from < line.len() {
        assert(all.subrange(from, from + 2)[0] == line[from]);
        assert(line.contains(line[from]));
        assert(all.subrange(from, from + run.len()) != run);
        lemma_break_at(line, rest, from + 1);
    } else {
        assert(all.subrange(from, from + run.len()) =~= run);
    }
}

/// A body that comes in chunks is the chunks put together: each is as long as
/// the line before it says, and an empty one ends it.
pub proof fn law_chunks_are_put_together(line: Seq<u8>, chunk: Seq<u8>, more: Seq<u8>)
    requires
        !line.contains(13u8),
        chunk.len() > 0,
    ensures
        hex_number_in(chunk_size(line), usize::MAX as nat) == Some(chunk.len()) ==> dechunked(
            line + seq![13u8, 10u8] + (chunk + seq![13u8, 10u8] + more),
        ) == match dechunked(more) {
            Ok(rest) => Ok::<Seq<u8>, Seq<char>>(chunk + rest),
            Err(e) => Err(e),
        },
        hex_number_in(chunk_size(line), usize::MAX as nat) == Some(0nat) ==> dechunked(
            line + seq![13u8, 10u8] + more,
        ) == Ok::<Seq<u8>, Seq<char>>(Seq::empty()),
{
    let n = line.len() as int;
    let tail = chunk + seq![13u8, 10u8] + more;
    let body = line + seq![13u8, 10u8] + tail;
    let last = line + seq![13u8, 10u8] + more;
    lemma_break_at(line, tail, 0);
    lemma_break_at(line, more, 0);
    assert(body.take(n) =~= line && body.skip(n + 2) =~= tail);
    assert(last.take(n) =~= line && last.skip(n + 2) =~= more);
    assert(tail.take(chunk.len() as int) =~= chunk);
    assert(tail.skip((chunk.len() + 2) as int) =~= more);
}

/// A word, a space and more is that word and then the words of the rest.
proof fn lemma_word(word: Seq<char>, rest: Seq<char>)
    requires
        word.len() > 0,
        forall|i: int| 0 <= i < word.len() ==> !is_space(#[trigger] word[i]),
    ensures
        words(word + seq![' '] + rest) == seq![word] + words(rest),
{
    let line = word + seq![' '] + rest;
    let tail = seq![' '] + rest;
    assert(line =~= word + tail);
    lemma_word_ends(word, tail);
    assert(line[0] == word[0]);
    assert(trimmed_start(line) == line);
    assert(line.take(word.len() as int) =~= word);
    assert(line.skip(word.len() as int) =~= tail);
    assert(words(line) == seq![word] + words(tail));
    assert(tail.skip(1) =~= rest);
    assert(trimmed_start(tail) == trimmed_start(rest));
    assert(words(tail) =~= words(rest));
}

proof fn lemma_word_ends(word: Seq<char>, tail: Seq<char>)
    requires
        forall|i: int| 0 <= i < word.len() ==> !is_space(#[trigger] word[i]),
        tail.len() > 0,
        is_space(tail[0]),
    ensures
        word_end(word + tail) == word.len(),
    decreases word.len(),
{
    let line = word + tail;
    if word.len() == 0 {
        assert(line =~= tail);
    } else {
        assert(line[0] == word[0]);
        let fewer = word.skip(1);
        assert forall|i: int| 0 <= i < fewer.len() implies !is_space(#[trigger] fewer[i]) by {
            assert(!is_space(word[i + 1]));
        }
        lemma_word_ends(fewer, tail);
        assert(line.skip(1) =~= fewer + tail);
    }
}

/// The status of an answer is the second word of its first line.
pub proof fn law_a_status_is_the_second_word(version: Seq<char>, status: u16, reason: Seq<char>)
    requires
        version.len() > 0,
        forall|i: int| 0 <= i < version.len() ==> !is_space(#[trigger] version[i]),
    ensures
        status_in(version + seq![' '] + (decimal(status as nat) + seq![' '] + reason)) == Some(
            status,
        ),
{
    let digits = decimal(status as nat);
    law_a_number_reads_back(status as nat, 0xffff);
    assert forall|i: int| 0 <= i < digits.len() implies !is_space(#[trigger] digits[i]) by {
        assert(is_digit(digits[i]));
    }
    lemma_word(version, digits + seq![' '] + reason);
    lemma_word(digits, reason);
    let parts = words(version + seq![' '] + (digits + seq![' '] + reason));
    assert(parts == seq![version] + (seq![digits] + words(reason)));
    assert(parts[1] == digits);
}

/// A header is found by its name, and of two of one name the first.
pub proof fn law_the_first_header_of_a_name_counts(
    headers: Seq<(Seq<char>, Seq<char>)>,
    name: Seq<char>,
    value: Seq<char>,
    other: Seq<char>,
)
    requires
        other != name,
    ensures
        header_value(seq![(name, value)] + headers, name) == Some(value),
        header_value(seq![(other, value)] + headers, name) == header_value(headers, name),
{
    let first = seq![(name, value)] + headers;
    let second = seq![(other, value)] + headers;
    assert(first[0] == (name, value) && second[0] == (other, value));
    assert(second.skip(1) =~= headers);
}

} // verus!
