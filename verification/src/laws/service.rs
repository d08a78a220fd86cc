//! What the lease makes of a line, and what it answers.

use crate::aka::{law_hex_reads_back, OutcomeModel};
use crate::at::ExchangeModel;
use crate::json::{json_chars, json_string, json_text, JsonModel};
use crate::laws::spelling::{law_octets_are_spelled_high_half_first, worth};
use crate::lease::{
    admitted, entered, exchange_reply, failure_reply, fields_in, handled, json_list, outcome_reply,
    released, request_in, ArbiterWaiting, LeaseModel, ModemPriority, RequestModel,
};
use crate::text::{decimal, hex_text_upper, joined_by};
use vstd::prelude::*;
use vstd::utf8::encode_utf8;

verus! {

/// A line that asks for a challenge has the lease put just that challenge: the
/// octets of its `rand` as RAND and those of its `autn` as AUTN.
pub proof fn law_a_challenge_is_leased_as_it_came(
    lease: LeaseModel,
    line: Seq<char>,
    rand: Seq<u8>,
    autn: Seq<u8>,
)
    ensures
        ({
            let fields = fields_in(line);
            let after = handled(lease, line).1.asked;
            fields.fault is None && fields.op == Some("authenticate"@) && fields.rand == Some(
                hex_text_upper(rand),
            ) && fields.autn == Some(hex_text_upper(autn)) && rand.len() == 16 && autn.len() == 16
                ==> {
                &&& after.len() == lease.asked.len() + 1
                &&& after.last() == RequestModel::Authenticate {
                    imei: crate::lease::imei_in(fields.imei),
                    rand,
                    autn,
                }
            }
        }),
        fields_in(line).rand == json_text(encode_utf8(line), "/rand"@),
        fields_in(line).autn == json_text(encode_utf8(line), "/autn"@),
        fields_in(line).imei == json_text(encode_utf8(line), "/imei"@),
        fields_in(line).op == json_text(encode_utf8(line), "/op"@),
{
    law_hex_reads_back(rand);
    law_hex_reads_back(autn);
    reveal_strlit("authenticate");
    reveal_strlit("execute_at");
    assert("authenticate"@ != "execute_at"@) by {
        assert("authenticate"@[0] != "execute_at"@[0]);
    }
}

/// A line that asks for a command has the lease run just that command, for as
/// long as the line says and no longer than five minutes, as urgently as it
/// says.
pub proof fn law_a_command_is_leased_as_it_came(
    lease: LeaseModel,
    line: Seq<char>,
    command: Seq<char>,
    milliseconds: u64,
    urgent: bool,
)
    ensures
        ({
            let fields = fields_in(line);
            let after = handled(lease, line).1.asked;
            fields.fault is None && fields.op == Some("execute_at"@) && fields.command == Some(
                command,
            ) && fields.timeout_ms == JsonModel::Count(milliseconds) && milliseconds > 0
                && fields.priority == Some(
                if urgent {
                    "aka"@
                } else {
                    "normal"@
                },
            ) ==> {
                &&& after.len() == lease.asked.len() + 1
                &&& after.last() == RequestModel::ExecuteAt {
                    imei: crate::lease::imei_in(fields.imei),
                    command,
                    timeout_ms: if milliseconds > 300_000 {
                        300_000
                    } else {
                        milliseconds
                    },
                    priority: if urgent {
                        ModemPriority::Aka
                    } else {
                        ModemPriority::Normal
                    },
                }
            }
        }),
        fields_in(line).command == json_text(encode_utf8(line), "/command"@),
        fields_in(line).priority == json_text(encode_utf8(line), "/priority"@),
        fields_in(line).timeout_ms == crate::json::json_at(encode_utf8(line), "/timeout_ms"@),
{
    reveal_strlit("aka");
    reveal_strlit("normal");
    assert("aka"@ != "normal"@) by {
        assert("aka"@.len() != "normal"@.len());
    }
}

/// A name that a request gives a module, without the space around it; none
/// where nothing is left.
pub proof fn law_a_module_is_named_plainly(name: Seq<char>)
    ensures
        crate::lease::imei_in(None) is None,
        crate::lease::imei_in(Some(name)) == if crate::text::trimmed(name).len() > 0 {
            Some(crate::text::trimmed(name))
        } else {
            None
        },
{
}

/// A text in quotes.
pub open spec fn in_quotes(text: Seq<char>) -> Seq<char> {
    seq!['"'] + text + seq!['"']
}

proof fn lemma_plain(octets: Seq<u8>)
    ensures
        json_string(hex_text_upper(octets)) == in_quotes(hex_text_upper(octets)),
{
    let text = hex_text_upper(octets);
    law_octets_are_spelled_high_half_first(octets);
    assert forall|i: int| 0 <= i < text.len() implies worth(#[trigger] text[i], true) >= 0 by {
        let k = i / 2;
        assert(worth(text[2 * k], true) == octets[k] / 16);
        assert(worth(text[2 * k + 1], true) == octets[k] % 16);
        assert(i == 2 * k || i == 2 * k + 1);
    }
    lemma_plain_text(text);
    reveal_strlit("\"");
    assert(json_string(text) =~= seq!['"'] + text + seq!['"']);
}

proof fn lemma_plain_text(text: Seq<char>)
    requires
        forall|i: int| 0 <= i < text.len() ==> worth(#[trigger] text[i], true) >= 0,
    ensures
        json_chars(text) == text,
    decreases text.len(),
{
    if text.len() > 0 {
        assert(worth(text[text.len() - 1], true) >= 0);
        lemma_plain_text(text.drop_last());
        assert(crate::json::json_char(text.last()) =~= seq![text.last()]);
        assert(json_chars(text) =~= text);
    } else {
        assert(json_chars(text) =~= text);
    }
}

/// Each key of a card's answer stands under its own name in the reply, in base
/// sixteen.
pub proof fn law_each_key_has_its_name(
    res: Seq<u8>,
    ck: Seq<u8>,
    ik: Seq<u8>,
    kc: Seq<u8>,
    auts: Seq<u8>,
)
    ensures
        outcome_reply(OutcomeModel::Success { res, ck, ik, kc: None }) == "{\"ck\":"@ + in_quotes(
            hex_text_upper(ck),
        ) + ",\"ik\":"@ + in_quotes(hex_text_upper(ik)) + Seq::empty() + ","@ + answered(
            "success"@,
        ) + ",\"res\":"@ + in_quotes(hex_text_upper(res)) + "}"@,
        outcome_reply(OutcomeModel::Success { res, ck, ik, kc: Some(kc) }) == "{\"ck\":"@
            + in_quotes(hex_text_upper(ck)) + ",\"ik\":"@ + in_quotes(hex_text_upper(ik)) + (
        ",\"kc\":"@ + in_quotes(hex_text_upper(kc))) + ","@ + answered("success"@) + ",\"res\":"@
            + in_quotes(hex_text_upper(res)) + "}"@,
        outcome_reply(OutcomeModel::SyncFailure { auts }) == "{\"auts\":"@ + in_quotes(
            hex_text_upper(auts),
        ) + ","@ + answered("sync_failure"@) + "}"@,
{
    lemma_plain(res);
    lemma_plain(ck);
    lemma_plain(ik);
    lemma_plain(kc);
    lemma_plain(auts);
    reveal_strlit("success");
    reveal_strlit("sync_failure");
    lemma_named("success"@);
    lemma_named("sync_failure"@);
}

/// What every answer to a challenge says.
pub open spec fn answered(outcome: Seq<char>) -> Seq<char> {
    "\"ok\":true,\"op\":\"authenticate\",\"outcome\":"@ + in_quotes(outcome)
}

proof fn lemma_named(text: Seq<char>)
    requires
        forall|i: int| 0 <= i < text.len() ==> ('a' <= #[trigger] text[i] <= 'z' || text[i] == '_'),
    ensures
        json_string(text) == in_quotes(text),
{
    lemma_named_chars(text);
    reveal_strlit("\"");
    assert(json_string(text) =~= seq!['"'] + text + seq!['"']);
}

proof fn lemma_named_chars(text: Seq<char>)
    requires
        forall|i: int| 0 <= i < text.len() ==> ('a' <= #[trigger] text[i] <= 'z' || text[i] == '_'),
    ensures
        json_chars(text) == text,
    decreases text.len(),
{
    if text.len() > 0 {
        assert('a' <= text[text.len() - 1] <= 'z' || text[text.len() - 1] == '_');
        lemma_named_chars(text.drop_last());
        assert(crate::json::json_char(text.last()) =~= seq![text.last()]);
        assert(json_chars(text) =~= text);
    } else {
        assert(json_chars(text) =~= text);
    }
}

/// What a command answered is told whole: how long it took, its lines one by
/// one, whether it ended well, and how it ended.
pub proof fn law_an_exchange_is_told_whole(exchange: ExchangeModel)
    ensures
        exchange_reply(exchange) == "{\"elapsed_ms\":"@ + decimal(exchange.elapsed_ms as nat)
            + ",\"lines\":["@ + json_list(exchange.lines)
            + "],\"ok\":true,\"op\":\"execute_at\",\"response\":"@ + json_string(exchange.whole())
            + ",\"succeeded\":"@ + (if exchange.terminator == "OK"@ {
            "true"@
        } else {
            "false"@
        }) + ",\"terminator\":"@ + json_string(exchange.terminator) + "}"@,
        json_list(exchange.lines.push(exchange.terminator)) == if exchange.lines.len() == 0 {
            json_string(exchange.terminator)
        } else {
            json_list(exchange.lines) + ","@ + json_string(exchange.terminator)
        },
        exchange.lines.len() > 0 && exchange.lines[0].len() > 0 ==> exchange.whole() == joined_by(
            exchange.lines,
            "\n"@,
        ) + "\n"@ + exchange.terminator,
        exchange.lines.len() == 0 ==> exchange.whole() == exchange.terminator,
{
    let more = exchange.lines.push(exchange.terminator);
    assert(more.drop_last() =~= exchange.lines);
    if exchange.lines.len() > 0 {
        lemma_not_shorter(exchange.lines);
    }
}

proof fn lemma_not_shorter(lines: Seq<Seq<char>>)
    requires
        lines.len() > 0,
    ensures
        joined_by(lines, "\n"@).len() >= lines[0].len(),
    decreases lines.len(),
{
    if lines.len() > 1 {
        lemma_not_shorter(lines.drop_last());
    }
}

/// What a request asks for is what the lease is asked for, and what the lease
/// answered is what is told, a failure by its own code.
pub proof fn law_a_failure_is_told_by_its_code(lease: LeaseModel, line: Seq<char>)
    ensures
        request_in(line) matches Err(reason) ==> handled(lease, line).0 == failure_reply(
            "bad_request"@,
            reason,
        ) && handled(lease, line).1 == lease,
        request_in(line) matches Ok(RequestModel::ExecuteAt { .. }) ==> handled(lease, line).0
            == match (lease.exchanges)(0) {
            Ok(exchange) => exchange_reply(exchange),
            Err(failure) => failure_reply(failure.code, failure.message),
        },
        request_in(line) matches Ok(RequestModel::Authenticate { .. }) ==> handled(lease, line).0
            == match (lease.outcomes)(0) {
            Ok(outcome) => outcome_reply(outcome),
            Err(failure) => failure_reply(failure.code, failure.message),
        },
        forall|code: Seq<char>, message: Seq<char>| #[trigger]
            failure_reply(code, message) == "{\"error\":"@ + json_string(code) + ",\"message\":"@
                + json_string(message) + ",\"ok\":false}"@,
{
}

/// Who waits for a module is counted by what they wait for; who gets it no
/// longer waits, holds it, and keeps nobody else waiting for something else.
pub proof fn law_a_module_goes_to_one_of_its_waiters(state: ArbiterWaiting, priority: ModemPriority)
    requires
        priority is Normal ==> 0 < state.normal,
        priority is Aka ==> 0 < state.aka,
    ensures
        admitted(state, priority) <==> !state.held && (priority is Normal ==> state.aka == 0),
        ({
            let after = entered(state, priority);
            &&& after.held
            &&& priority is Normal ==> after.normal == state.normal - 1 && after.aka == state.aka
            &&& priority is Aka ==> after.aka == state.aka - 1 && after.normal == state.normal
            &&& released(after) == (ArbiterWaiting { held: false, ..after })
            &&& !admitted(after, ModemPriority::Normal) && !admitted(after, ModemPriority::Aka)
        }),
{
}

} // verus!
