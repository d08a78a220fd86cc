//! What a module's own answers say.

use crate::at::digits_line;
use crate::laws::service::in_quotes;
use crate::laws::spelling::{
    law_a_number_reads_back, law_fields_come_apart, lemma_digits_are_plain, lemma_untrimmed,
};
use crate::report::{
    answer_field, applied, card_in, first_line, group_fields, network_in, registration_in,
    signal_in, status_name, technology, Registration, ReportModel, ScannedModel,
};
use crate::restart::{cfun_on, cpin_end, qinistat_on, qsimstat_on, CardModel};
use crate::text::{
    after_prefix, all_digits, all_hex, decimal, hex_char, hex_digits_value, hex_quad, hex_value,
    is_digit, is_space, pieces, quoted_fields, trimmed, utf16_text,
};
use crate::ussd::{decoded, digit_units, escaped_code, reply_in, request_text, UssdStage};
use vstd::prelude::*;

verus! {

/// An answer of one line: a prefix, a space, and what it says.
pub open spec fn says(prefix: Seq<char>, value: Seq<char>) -> Seq<char> {
    prefix + seq![' '] + value
}

proof fn lemma_says(prefix: Seq<char>, value: Seq<char>)
    requires
        prefix.len() > 0,
        !is_space(prefix[0]),
        value.len() > 0,
        !is_space(value[0]),
        !is_space(value.last()),
    ensures
        after_prefix(trimmed(says(prefix, value)), prefix) == Some(seq![' '] + value),
        trimmed(seq![' '] + value) == value,
{
    let line = says(prefix, value);
    assert(line[0] == prefix[0] && line.last() == value.last());
    lemma_untrimmed(line);
    lemma_untrimmed(value);
    assert(line.take(prefix.len() as int) =~= prefix);
    assert(line.skip(prefix.len() as int) =~= seq![' '] + value);
    let spaced = seq![' '] + value;
    assert(spaced.skip(1) =~= value);
    reveal_with_fuel(crate::text::trimmed_start, 3);
}

/// Two numbers with a comma between them.
pub open spec fn pair(first: nat, second: nat) -> Seq<char> {
    decimal(first) + seq![','] + decimal(second)
}

proof fn lemma_pair(first: nat, second: nat)
    ensures
        pieces(pair(first, second), ',') == seq![decimal(first), decimal(second)],
        trimmed(decimal(first)) == decimal(first),
        trimmed(decimal(second)) == decimal(second),
        pair(first, second).len() > 0,
        !is_space(pair(first, second)[0]),
        !is_space(pair(first, second).last()),
{
    lemma_digits_are_plain(first);
    lemma_digits_are_plain(second);
    law_fields_come_apart(decimal(first), decimal(second));
    assert(pair(first, second)[0] == decimal(first)[0]);
    assert(pair(first, second).last() == decimal(second).last());
}

/// The strength of a signal is the first of its two numbers: zero is -113 dBm,
/// each step is two, and 99 says nothing.
pub proof fn law_a_signal_is_its_first_number(index: u8, errors: u8)
    ensures
        signal_in(seq![says("+CSQ:"@, pair(index as nat, errors as nat))]) matches Some(signal) && {
            &&& signal.rssi_index == index
            &&& index == 99 ==> signal.dbm is None
            &&& index != 99 ==> signal.dbm == Some((2 * index - 113) as i16)
        },
{
    reveal_strlit("+CSQ:");
    lemma_pair(index as nat, errors as nat);
    lemma_says("+CSQ:"@, pair(index as nat, errors as nat));
    law_a_number_reads_back(index as nat, 255);
}

/// A registration is the second of its two numbers, whatever the first one is.
pub proof fn law_a_registration_is_its_second_number(setting: u8, state: u8)
    ensures
        registration_in(
            seq![says("+CREG:"@, pair(setting as nat, state as nat))],
            "+CREG:"@,
        ) == Some(
            match state {
                0 => Registration::NotRegistered,
                1 => Registration::Home,
                2 => Registration::Searching,
                3 => Registration::Denied,
                5 => Registration::Roaming,
                _ => Registration::Unknown,
            },
        ),
        registration_in(
            seq![says("+CEREG:"@, pair(setting as nat, state as nat))],
            "+CEREG:"@,
        ) == registration_in(
            seq![says("+CREG:"@, pair(setting as nat, state as nat))],
            "+CREG:"@,
        ),
{
    reveal_strlit("+CREG:");
    reveal_strlit("+CEREG:");
    lemma_pair(setting as nat, state as nat);
    lemma_says("+CREG:"@, pair(setting as nat, state as nat));
    lemma_says("+CEREG:"@, pair(setting as nat, state as nat));
    law_a_number_reads_back(state as nat, 255);
}

/// A functionality is the number behind `+CFUN:`.
pub proof fn law_a_functionality_is_its_number(value: u8)
    ensures
        cfun_on(says("+CFUN:"@, decimal(value as nat))) == Some(value),
{
    reveal_strlit("+CFUN:");
    lemma_digits_are_plain(value as nat);
    let text = decimal(value as nat);
    lemma_says("+CFUN:"@, text);
    law_a_number_reads_back(value as nat, 255);
    let rest = seq![' '] + text;
    if rest.contains(',') {
        let i = choose|i: int| 0 <= i < rest.len() && rest[i] == ',';
        assert(text[i - 1] == ',');
        assert(text.contains(text[i - 1]));
    }
    law_fields_come_apart(rest, rest);
}

/// A card that is not there, one that is not ready yet, and one of which nothing
/// is known are told apart by the number of the error.
pub proof fn law_a_card_is_told_by_its_error(code: u16)
    ensures
        cpin_end(says("+CME ERROR:"@, decimal(code as nat))) == match code {
            10 => CardModel::Absent(10),
            13 => CardModel::Absent(13),
            14 => CardModel::Initialising,
            _ => CardModel::Unknown(says("+CME ERROR:"@, decimal(code as nat))),
        },
{
    reveal_strlit("+CME ERROR:");
    lemma_digits_are_plain(code as nat);
    let text = decimal(code as nat);
    lemma_says("+CME ERROR:"@, text);
    law_a_number_reads_back(code as nat, 0xffff);
    let line = says("+CME ERROR:"@, text);
    assert(line[0] == '+' && line.last() == text.last());
    lemma_untrimmed(line);
}

/// A card is there where the second number behind `+QSIMSTAT:` is one.
pub proof fn law_a_card_is_there_where_its_second_number_is_one(setting: u8, there: u8)
    ensures
        qsimstat_on(says("+QSIMSTAT:"@, pair(setting as nat, there as nat))) == Some(there == 1),
{
    reveal_strlit("+QSIMSTAT:");
    reveal_strlit("1");
    lemma_spaced_pair("+QSIMSTAT:"@, setting as nat, there as nat);
    law_a_number_reads_back(there as nat, 255);
    law_a_number_reads_back(1, 255);
    assert("1"@ =~= decimal(1));
}

proof fn lemma_spaced_pair(prefix: Seq<char>, first: nat, second: nat)
    requires
        prefix.len() > 0,
        !is_space(prefix[0]),
    ensures
        after_prefix(trimmed(says(prefix, pair(first, second))), prefix) == Some(
            seq![' '] + decimal(first) + seq![','] + decimal(second),
        ),
        pieces(seq![' '] + decimal(first) + seq![','] + decimal(second), ',') == seq![
            seq![' '] + decimal(first),
            decimal(second),
        ],
        trimmed(seq![' '] + decimal(first)) == decimal(first),
        trimmed(decimal(second)) == decimal(second),
{
    lemma_pair(first, second);
    lemma_says(prefix, pair(first, second));
    lemma_digits_are_plain(first);
    lemma_digits_are_plain(second);
    let text = decimal(first);
    let spaced = seq![' '] + text;
    if spaced.contains(',') {
        let i = choose|i: int| 0 <= i < spaced.len() && spaced[i] == ',';
        assert(text[i - 1] == ',');
        assert(text.contains(text[i - 1]));
    }
    law_fields_come_apart(spaced, decimal(second));
    assert(seq![' '] + pair(first, second) =~= spaced + seq![','] + decimal(second));
    lemma_says(prefix, text);
}

/// What a module has got ready is the number behind `+QINISTAT:`.
pub proof fn law_what_is_ready_is_its_number(value: u8)
    ensures
        qinistat_on(says("+QINISTAT:"@, decimal(value as nat))) == Some(value),
{
    reveal_strlit("+QINISTAT:");
    lemma_digits_are_plain(value as nat);
    let text = decimal(value as nat);
    lemma_says("+QINISTAT:"@, text);
    law_a_number_reads_back(value as nat, 255);
    let rest = seq![' '] + text;
    if rest.contains(',') {
        let i = choose|i: int| 0 <= i < rest.len() && rest[i] == ',';
        assert(text[i - 1] == ',');
        assert(text.contains(text[i - 1]));
    }
    law_fields_come_apart(rest, rest);
}

/// The answer to each question fills its own place in a report and no other.
pub proof fn law_each_answer_has_its_place(report: ReportModel, lines: Seq<Seq<char>>)
    ensures
        applied(report, "AT+CSQ"@, lines) == (ReportModel { signal: signal_in(lines), ..report }),
        applied(report, "AT+CREG?"@, lines) == (ReportModel {
            cs_registration: registration_in(lines, "+CREG:"@),
            ..report
        }),
        applied(report, "AT+CEREG?"@, lines) == (ReportModel {
            ps_registration: registration_in(lines, "+CEREG:"@),
            ..report
        }),
        applied(report, "AT+CIMI"@, lines) == (ReportModel { imsi: digits_line(lines), ..report }),
        applied(report, "AT+QCCID"@, lines) == (ReportModel { iccid: card_in(lines), ..report }),
        applied(report, "AT+CNUM"@, lines) == (ReportModel {
            msisdn: answer_field(lines, "+CNUM:"@, 1),
            ..report
        }),
        applied(report, "AT+QGMR"@, lines) == (ReportModel {
            firmware: first_line(lines),
            ..report
        }),
        applied(report, "AT+CSCA?"@, lines) == (ReportModel {
            sms_centre: answer_field(lines, "+CSCA:"@, 0),
            ..report
        }),
{
    reveal_strlit("AT+CSQ");
    reveal_strlit("AT+CREG?");
    reveal_strlit("AT+CEREG?");
    reveal_strlit("AT+COPS?");
    reveal_strlit("AT+CIMI");
    reveal_strlit("AT+QCCID");
    reveal_strlit("AT+CNUM");
    reveal_strlit("AT+QGMR");
    reveal_strlit("AT+CSCA?");
    assert("AT+CSQ"@[4] == 'S' && "AT+CSQ"@.len() == 6);
    assert("AT+CREG?"@[4] == 'R' && "AT+CREG?"@.len() == 8);
    assert("AT+CEREG?"@.len() == 9);
    assert("AT+COPS?"@[4] == 'O' && "AT+COPS?"@.len() == 8);
    assert("AT+CIMI"@[4] == 'I' && "AT+CIMI"@.len() == 7);
    assert("AT+QCCID"@[3] == 'Q' && "AT+QCCID"@.len() == 8);
    assert("AT+CNUM"@[4] == 'N' && "AT+CNUM"@.len() == 7);
    assert("AT+QGMR"@[3] == 'Q' && "AT+QGMR"@.len() == 7);
    assert("AT+CSCA?"@[4] == 'S' && "AT+CSCA?"@.len() == 8);
    assert("AT+CREG?"@[3] == 'C' && "AT+CIMI"@[3] == 'C' && "AT+CNUM"@[3] == 'C');
    assert("AT+COPS?"@[3] == 'C' && "AT+CSCA?"@[3] == 'C');
}

/// Every way to reach a network has its number.
pub proof fn law_each_way_to_a_network_has_its_number(code: u8)
    ensures
        technology(code)@ == match code {
            0 => "GSM"@,
            1 => "GSM Compact"@,
            2 => "UTRAN"@,
            3 => "GSM/EGPRS"@,
            4 => "UTRAN/HSDPA"@,
            5 => "UTRAN/HSUPA"@,
            6 => "UTRAN/HSDPA+HSUPA"@,
            7 => "LTE"@,
            8 => "EC-GSM-IoT"@,
            9 => "LTE-M"@,
            10 => "NB-IoT"@,
            11 => "NR"@,
            12 => "NR"@,
            _ => "unknown"@,
        },
        status_name(code)@ == match code {
            1 => "available"@,
            2 => "current"@,
            3 => "forbidden"@,
            _ => "unknown"@,
        },
{
}

// ---------------------------------------------------------------------------
// Fields in quotes
// ---------------------------------------------------------------------------

/// Text that holds no quote.
pub open spec fn unquoted(text: Seq<char>) -> bool {
    !text.contains('"')
}

proof fn lemma_run(text: Seq<char>, more: Seq<char>, field: Seq<char>, inside: bool, keep: bool)
    requires
        unquoted(text),
        !inside ==> !text.contains(','),
    ensures
        quoted_fields(text + more, field, inside, keep) == quoted_fields(
            more,
            field + text,
            inside,
            keep,
        ),
    decreases text.len(),
{
    if text.len() == 0 {
        assert(text + more =~= more);
        assert(field + text =~= field);
    } else {
        let all = text + more;
        assert(all[0] == text[0]);
        assert(text.contains(text[0]));
        let rest = text.skip(1);
        assert(all.skip(1) =~= rest + more);
        assert forall|c: char| rest.contains(c) implies text.contains(c) by {
            let i = choose|i: int| 0 <= i < rest.len() && rest[i] == c;
            assert(text[i + 1] == c);
        }
        lemma_run(rest, more, field.push(text[0]), inside, keep);
        assert(field.push(text[0]) + rest =~= field + text);
    }
}

proof fn lemma_bare_field(text: Seq<char>, more: Seq<char>, keep: bool)
    requires
        unquoted(text),
        !text.contains(','),
    ensures
        quoted_fields(text + seq![','] + more, Seq::empty(), false, keep) == seq![text]
            + quoted_fields(more, Seq::empty(), false, keep),
        quoted_fields(text, Seq::empty(), false, keep) == seq![text],
{
    let tail = seq![','] + more;
    lemma_run(text, tail, Seq::empty(), false, keep);
    assert(text + seq![','] + more =~= text + tail);
    assert(tail.skip(1) =~= more);
    assert(Seq::<char>::empty() + text =~= text);
    lemma_run(text, Seq::empty(), Seq::empty(), false, keep);
    assert(text + Seq::<char>::empty() =~= text);
}

proof fn lemma_quoted_field(text: Seq<char>, more: Seq<char>, keep: bool)
    requires
        unquoted(text),
    ensures
        quoted_fields(in_quotes(text) + seq![','] + more, Seq::empty(), false, keep) == seq![
            if keep {
                in_quotes(text)
            } else {
                text
            },
        ] + quoted_fields(more, Seq::empty(), false, keep),
        quoted_fields(in_quotes(text), Seq::empty(), false, keep) == seq![
            if keep {
                in_quotes(text)
            } else {
                text
            },
        ],
{
    lemma_quoted_run(text, seq![','] + more, keep);
    lemma_quoted_run(text, Seq::empty(), keep);
    let tail = seq![','] + more;
    assert(in_quotes(text) + seq![','] + more =~= in_quotes(text) + tail);
    assert(tail.skip(1) =~= more);
    assert(in_quotes(text) + Seq::<char>::empty() =~= in_quotes(text));
}

proof fn lemma_quoted_run(text: Seq<char>, more: Seq<char>, keep: bool)
    requires
        unquoted(text),
    ensures
        quoted_fields(in_quotes(text) + more, Seq::empty(), false, keep) == quoted_fields(
            more,
            if keep {
                in_quotes(text)
            } else {
                text
            },
            false,
            keep,
        ),
{
    let all = in_quotes(text) + more;
    let closing = seq!['"'] + more;
    let start = if keep {
        Seq::<char>::empty().push('"')
    } else {
        Seq::<char>::empty()
    };
    assert(all[0] == '"');
    assert(all.skip(1) =~= text + closing);
    lemma_run(text, closing, start, true, keep);
    assert(closing.skip(1) =~= more);
    if keep {
        assert((start + text).push('"') =~= in_quotes(text));
    } else {
        assert(start + text =~= text);
    }
}

/// A network that a scan lists is its status, its long name, its short name,
/// its number and the way to it, in that order.
pub proof fn law_a_scanned_network_comes_back(
    status: u8,
    long_name: Seq<char>,
    short_name: Seq<char>,
    numeric: Seq<char>,
    way: u8,
)
    requires
        unquoted(long_name),
        unquoted(short_name),
        trimmed(long_name) == long_name,
        trimmed(short_name) == short_name,
        numeric.len() > 0,
        all_digits(numeric),
    ensures
        network_in(
            decimal(status as nat) + seq![','] + (in_quotes(long_name) + seq![','] + (in_quotes(
                short_name,
            ) + seq![','] + (in_quotes(numeric) + seq![','] + decimal(way as nat)))),
        ) == Some(
            ScannedModel {
                status,
                long_name,
                short_name,
                numeric,
                access_technology: Some(technology(way)),
            },
        ),
{
    let last = decimal(way as nat);
    let fourth = in_quotes(numeric) + seq![','] + last;
    let third = in_quotes(short_name) + seq![','] + fourth;
    let second = in_quotes(long_name) + seq![','] + third;
    let group = decimal(status as nat) + seq![','] + second;
    lemma_plain_digits(decimal(status as nat), status as nat);
    lemma_plain_digits(last, way as nat);
    law_a_number_reads_back(status as nat, 255);
    law_a_number_reads_back(way as nat, 255);
    assert(unquoted(numeric)) by {
        if numeric.contains('"') {
            let i = choose|i: int| 0 <= i < numeric.len() && numeric[i] == '"';
            assert(is_digit(numeric[i]));
        }
    }
    lemma_bare_field(decimal(status as nat), second, false);
    lemma_quoted_field(long_name, third, false);
    lemma_quoted_field(short_name, fourth, false);
    lemma_quoted_field(numeric, last, false);
    lemma_bare_field(last, Seq::empty(), false);
    let raw = quoted_fields(group, Seq::empty(), false, false);
    assert(raw =~= seq![decimal(status as nat), long_name, short_name, numeric, last]);
    assert(is_digit(numeric[0]) && is_digit(numeric[numeric.len() - 1]));
    lemma_untrimmed(numeric);
    lemma_digits_are_plain(status as nat);
    lemma_digits_are_plain(way as nat);
    let fields = group_fields(group);
    assert(fields.len() == 5);
    assert(fields[0] == decimal(status as nat));
    assert(fields[1] == long_name);
    assert(fields[2] == short_name);
    assert(fields[3] == numeric);
    assert(fields[4] == last);
}

proof fn lemma_plain_digits(text: Seq<char>, n: nat)
    requires
        text == decimal(n),
    ensures
        unquoted(text),
        !text.contains(','),
{
    law_a_number_reads_back(n, n);
    lemma_digits_are_plain(n);
    if text.contains('"') {
        let i = choose|i: int| 0 <= i < text.len() && text[i] == '"';
        assert(is_digit(text[i]));
    }
}

// ---------------------------------------------------------------------------
// A dialogue with the network
// ---------------------------------------------------------------------------

/// A code that can stand in quotes is sent as it is, and nothing of it is lost.
pub proof fn law_a_code_is_sent_as_it_is(code: Seq<char>)
    requires
        !code.contains('"'),
        !code.contains('\r'),
        !code.contains('\n'),
    ensures
        request_text(code) == "AT+CUSD=1,\""@ + code + "\",15"@,
{
    lemma_nothing_lost(code);
}

proof fn lemma_nothing_lost(code: Seq<char>)
    requires
        !code.contains('"'),
        !code.contains('\r'),
        !code.contains('\n'),
    ensures
        escaped_code(code) == code,
    decreases code.len(),
{
    let keep = |c: char| crate::ussd::fits_code(c);
    reveal(Seq::filter);
    if code.len() > 0 {
        let front = code.drop_last();
        assert(code.contains(code[code.len() - 1]));
        assert forall|c: char| front.contains(c) implies code.contains(c) by {
            let i = choose|i: int| 0 <= i < front.len() && front[i] == c;
            assert(code[i] == c);
        }
        lemma_nothing_lost(front);
        assert(front.push(code.last()) =~= code);
    }
}

/// A reply is its stage, its text and its coding, in that order; only a stage
/// that answers has a text.
pub proof fn law_a_reply_comes_back(stage: u8, text: Seq<char>, coding: u8)
    requires
        unquoted(text),
        text.len() > 0,
    ensures
        ({
            let line = says(
                "+CUSD:"@,
                decimal(stage as nat) + seq![','] + (in_quotes(text) + seq![','] + decimal(
                    coding as nat,
                )),
            );
            reply_in(line) matches Some(reply) && {
                &&& reply.stage == match stage {
                    0 => UssdStage::Complete,
                    1 => UssdStage::NeedsReply,
                    2 => UssdStage::Terminated,
                    3 => UssdStage::OtherClient,
                    4 => UssdStage::NotSupported,
                    5 => UssdStage::NetworkTimeout,
                    _ => UssdStage::Other(stage),
                }
                &&& reply.dcs == Some(coding)
                &&& stage <= 1 ==> reply.text == decoded(text, Some(coding))
                &&& stage > 1 ==> reply.text.len() == 0
            }
        }),
{
    reveal_strlit("+CUSD:");
    let first = decimal(stage as nat);
    let last = decimal(coding as nat);
    let second = in_quotes(text) + seq![','] + last;
    let value = first + seq![','] + second;
    lemma_plain_digits(first, stage as nat);
    lemma_plain_digits(last, coding as nat);
    lemma_digits_are_plain(stage as nat);
    lemma_digits_are_plain(coding as nat);
    law_a_number_reads_back(stage as nat, 255);
    law_a_number_reads_back(coding as nat, 255);
    assert(value[0] == first[0] && value.last() == last.last());
    lemma_says("+CUSD:"@, value);
    lemma_bare_field(first, second, true);
    lemma_quoted_field(text, last, true);
    lemma_bare_field(last, Seq::empty(), true);
    let fields = quoted_fields(value, Seq::empty(), false, true);
    assert(fields =~= seq![first, in_quotes(text), last]);
    let quoted = in_quotes(text);
    assert(quoted[0] == '"' && quoted.last() == '"');
    lemma_untrimmed(quoted);
    assert(text.contains(text[0]) && text.contains(text[text.len() - 1]));
    assert(quoted.skip(1) =~= text + seq!['"']);
    assert((text + seq!['"']).drop_last() =~= text);
    assert((text + seq!['"'])[0] == text[0]);
    reveal_with_fuel(crate::text::stripped_start, 3);
    reveal_with_fuel(crate::text::stripped_end, 3);
    assert(crate::text::stripped(quoted, '"') =~= text);
}

/// Text in base sixteen is read four digits to a unit, the high ones first.
pub proof fn law_digits_make_units(unit: u16, rest: Seq<char>)
    requires
        rest.len() % 4 == 0,
    ensures
        digit_units(hex_quad(unit) + rest) == seq![unit] + digit_units(rest),
{
    let raw = hex_quad(unit) + rest;
    let units = digit_units(raw);
    let more = digit_units(rest);
    assert(raw.subrange(0, 4) =~= hex_quad(unit));
    lemma_quad_reads_back(unit);
    assert(units.len() == 1 + more.len());
    assert forall|i: int| 0 <= i < units.len() implies units[i] == (seq![unit] + more)[i] by {
        if i > 0 {
            assert(raw.subrange(4 * i, 4 * i + 4) =~= rest.subrange(
                4 * (i - 1),
                4 * (i - 1) + 4,
            ));
        }
    }
    assert(units =~= seq![unit] + more);
}

proof fn lemma_nibble(d: int)
    requires
        0 <= d < 16,
    ensures
        hex_value(hex_char(d)) == Some(d as u8),
{
}

proof fn lemma_four_digits(a: char, b: char, c: char, d: char)
    ensures
        hex_digits_value(seq![a, b, c, d]) == 16 * (16 * (16 * hex_value(a)->0 as nat + hex_value(
            b,
        )->0 as nat) + hex_value(c)->0 as nat) + hex_value(d)->0 as nat,
{
    let none = Seq::<char>::empty();
    assert(seq![a].drop_last() =~= none);
    assert(seq![a, b].drop_last() =~= seq![a]);
    assert(seq![a, b, c].drop_last() =~= seq![a, b]);
    assert(seq![a, b, c, d].drop_last() =~= seq![a, b, c]);
    assert(hex_digits_value(none) == 0);
    assert(hex_digits_value(seq![a]) == hex_value(a)->0 as nat);
    assert(hex_digits_value(seq![a, b]) == 16 * hex_digits_value(seq![a]) + hex_value(b)->0 as nat);
    assert(hex_digits_value(seq![a, b, c]) == 16 * hex_digits_value(seq![a, b]) + hex_value(
        c,
    )->0 as nat);
}

proof fn lemma_quad_reads_back(unit: u16)
    ensures
        hex_digits_value(hex_quad(unit)) == unit,
{
    let high = (unit / 256) as u8;
    let low = (unit % 256) as u8;
    let a = hex_char(high as int / 16);
    let b = hex_char(high as int % 16);
    let c = hex_char(low as int / 16);
    let d = hex_char(low as int % 16);
    assert(hex_quad(unit) =~= seq![a, b, c, d]);
    lemma_four_digits(a, b, c, d);
    lemma_nibble(high as int / 16);
    lemma_nibble(high as int % 16);
    lemma_nibble(low as int / 16);
    lemma_nibble(low as int % 16);
}

/// A text that is not in base sixteen is as it stands, whatever its coding
/// says; one that is, and is said to be of sixteen-bit units, is read as those.
pub proof fn law_a_reply_is_read_by_its_coding(raw: Seq<char>, dcs: Option<u8>)
    ensures
        !all_hex(raw) || raw.len() % 2 != 0 ==> decoded(raw, dcs) == raw,
        raw.len() > 0 && all_hex(raw) && raw.len() % 4 == 0 && dcs == Some(0x48u8)
            && utf16_text(digit_units(raw)) is Some ==> decoded(raw, dcs) == utf16_text(
            digit_units(raw),
        )->0,
{
}

} // verus!
