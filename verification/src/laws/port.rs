//! What comes over a command port, and which port that is.

use crate::at::{
    beats, body_in, control_interface, ends_response, explicit_label, is_chosen, lines_in,
    probe_policy, rank_of, terminal_in, tty_kind, AtPortKind, AtProbePolicy, CandidateModel,
};
use crate::laws::spelling::law_a_number_reads_back;
use crate::text::{after_prefix, decimal, lemma_first_index_is, lower, pieces, trimmed};
use vstd::prelude::*;

verus! {

/// A line ends where its line feed is.
pub proof fn law_lines_end_at_their_line_feeds(first: Seq<char>, rest: Seq<char>)
    requires
        !first.contains('\n'),
    ensures
        lines_in(first + seq!['\n'] + rest) == seq![first] + lines_in(rest),
        lines_in(first) == if first.len() == 0 {
            Seq::<Seq<char>>::empty()
        } else {
            seq![first]
        },
{
    let text = first + seq!['\n'] + rest;
    assert forall|i: int| 0 <= i < first.len() implies text[i] != '\n' && first[i] != '\n' by {
        assert(text[i] == first[i]);
        assert(first.contains(first[i]));
    }
    assert(text[first.len() as int] == '\n');
    lemma_first_index_is(text, '\n', first.len() as int);
    lemma_first_index_is(first, '\n', first.len() as int);
    assert(text.take(first.len() as int) =~= first);
    assert(text.skip(first.len() as int + 1) =~= rest);
    let more = pieces(rest, '\n');
    lemma_some_piece(rest);
    let all = pieces(text, '\n');
    assert(all == seq![first] + more);
    assert(all.last() == more.last());
    if more.last().len() == 0 {
        assert(all.drop_last() =~= seq![first] + more.drop_last());
    }
    assert(pieces(first, '\n') =~= seq![first]);
    if first.len() == 0 {
        assert(seq![first].drop_last() =~= Seq::<Seq<char>>::empty());
    }
}

proof fn lemma_some_piece(text: Seq<char>)
    ensures
        pieces(text, '\n').len() > 0,
{
}

/// A response is over with `OK` or `ERROR`, with a report of how a call went,
/// with an error of the equipment or of the message service, or with a prompt.
pub proof fn law_what_ends_a_response(line: Seq<char>, rest: Seq<char>)
    ensures
        ends_response("OK"@),
        ends_response("ERROR"@),
        ends_response("ABORTED"@),
        ends_response("NO CARRIER"@),
        ends_response("BUSY"@),
        ends_response("NO ANSWER"@),
        ends_response("NO DIALTONE"@),
        ends_response(">"@),
        ends_response("+CME ERROR:"@ + rest),
        ends_response("+CMS ERROR:"@ + rest),
        ends_response(line) ==> line == "OK"@ || line == "ERROR"@ || line == "ABORTED"@ || line
            == "NO CARRIER"@ || line == "BUSY"@ || line == "NO ANSWER"@ || line == "NO DIALTONE"@
            || line == ">"@ || after_prefix(line, "+CME ERROR:"@) is Some || after_prefix(
            line,
            "+CMS ERROR:"@,
        ) is Some,
{
    let equipment = "+CME ERROR:"@;
    let service = "+CMS ERROR:"@;
    assert((equipment + rest).take(equipment.len() as int) =~= equipment);
    assert((service + rest).take(service.len() as int) =~= service);
}

/// A response ends with the last line that can end one, and is not over where
/// no line can.
pub proof fn law_a_response_ends_with_its_last_ending(lines: Seq<Seq<char>>)
    ensures
        terminal_in(lines) is None <==> forall|i: int|
            0 <= i < lines.len() ==> !ends_response(trimmed(#[trigger] lines[i])),
        terminal_in(lines) matches Some(end) ==> ends_response(end) && exists|i: int|
            {
                &&& 0 <= i < lines.len()
                &&& trimmed(#[trigger] lines[i]) == end
                &&& forall|j: int|
                    i < j < lines.len() ==> !ends_response(trimmed(#[trigger] lines[j]))
            },
    decreases lines.len(),
{
    if lines.len() > 0 {
        let front = lines.drop_last();
        law_a_response_ends_with_its_last_ending(front);
        assert(lines[lines.len() - 1] == lines.last());
        if !ends_response(trimmed(lines.last())) {
            if terminal_in(front) is None {
                assert forall|i: int| 0 <= i < lines.len() implies !ends_response(
                    trimmed(#[trigger] lines[i]),
                ) by {
                    if i < front.len() {
                        assert(front[i] == lines[i]);
                    }
                }
            } else {
                let end = terminal_in(front)->0;
                let i = choose|i: int|
                    {
                        &&& 0 <= i < front.len()
                        &&& trimmed(#[trigger] front[i]) == end
                        &&& forall|j: int|
                            i < j < front.len() ==> !ends_response(trimmed(#[trigger] front[j]))
                    };
                assert(lines[i] == front[i]);
                assert forall|j: int| i < j < lines.len() implies !ends_response(
                    trimmed(#[trigger] lines[j]),
                ) by {
                    if j < front.len() {
                        assert(front[j] == lines[j]);
                    }
                }
            }
        }
    }
}

/// Nothing of a response is lost but its empty lines, its ending and one echo
/// of the command; what is left keeps its order.
pub proof fn law_a_response_keeps_its_lines(
    first: Seq<Seq<char>>,
    second: Seq<Seq<char>>,
    command: Seq<char>,
    terminator: Seq<char>,
)
    ensures
        body_in(first + second, command, terminator, true) == body_in(
            first,
            command,
            terminator,
            true,
        ) + body_in(second, command, terminator, true),
        forall|line: Seq<char>|
            #![trigger body_in(seq![line], command, terminator, true)]
            body_in(seq![line], command, terminator, true) == if trimmed(line).len() == 0
                || trimmed(line) == terminator {
                Seq::<Seq<char>>::empty()
            } else {
                seq![trimmed(line)]
            },
    decreases first.len(),
{
    let all = first + second;
    if first.len() == 0 {
        assert(all =~= second);
        assert(body_in(first, command, terminator, true) + body_in(
            second,
            command,
            terminator,
            true,
        ) =~= body_in(second, command, terminator, true));
    } else {
        law_a_response_keeps_its_lines(first.skip(1), second, command, terminator);
        assert(all[0] == first[0]);
        assert(all.skip(1) =~= first.skip(1) + second);
        assert(body_in(all, command, terminator, true) =~= body_in(
            first,
            command,
            terminator,
            true,
        ) + body_in(second, command, terminator, true));
    }
    assert forall|line: Seq<char>|
        #![trigger body_in(seq![line], command, terminator, true)]
        body_in(seq![line], command, terminator, true) == if trimmed(line).len() == 0 || trimmed(
            line,
        ) == terminator {
            Seq::<Seq<char>>::empty()
        } else {
            seq![trimmed(line)]
        } by {
        lemma_one_line(line, command, terminator);
    }
}

proof fn lemma_one_line(line: Seq<char>, command: Seq<char>, terminator: Seq<char>)
    ensures
        body_in(seq![line], command, terminator, true) == if trimmed(line).len() == 0 || trimmed(
            line,
        ) == terminator {
            Seq::<Seq<char>>::empty()
        } else {
            seq![trimmed(line)]
        },
{
    let lines = seq![line];
    assert(lines.skip(1) =~= Seq::<Seq<char>>::empty());
    assert(body_in(lines.skip(1), command, terminator, true) =~= Seq::<Seq<char>>::empty());
    assert(lines[0] == line);
    assert(body_in(lines, command, terminator, true) =~= if trimmed(line).len() == 0 || trimmed(
        line,
    ) == terminator {
        Seq::<Seq<char>>::empty()
    } else {
        seq![trimmed(line)]
    });
}

/// The first line that repeats the command, in whatever case, is its echo and no
/// part of the answer.
pub proof fn law_an_echo_is_no_part_of_the_answer(
    echo: Seq<char>,
    rest: Seq<Seq<char>>,
    command: Seq<char>,
    terminator: Seq<char>,
)
    requires
        trimmed(echo).len() > 0,
        lower(trimmed(echo)) == lower(command),
    ensures
        body_in(seq![echo] + rest, command, terminator, false) == body_in(
            rest,
            command,
            terminator,
            true,
        ),
{
    let all = seq![echo] + rest;
    assert(all[0] == echo);
    assert(all.skip(1) =~= rest);
}

/// A terminal is a modem's by the stem of its name and a number behind it.
pub proof fn law_a_terminal_is_known_by_its_name(number: nat)
    ensures
        tty_kind("ttyUSB"@ + decimal(number)) == Some(AtPortKind::Usb),
        tty_kind("ttyACM"@ + decimal(number)) == Some(AtPortKind::Acm),
        tty_kind("ttyHS"@ + decimal(number)) == Some(AtPortKind::HighSpeed),
        tty_kind("ttyS"@ + decimal(number)) is None,
        tty_kind("ttyUSB"@) is None,
{
    reveal_strlit("ttyUSB");
    reveal_strlit("ttyACM");
    reveal_strlit("ttyHS");
    reveal_strlit("ttyS");
    let digits = decimal(number);
    law_a_number_reads_back(number, number);
    lemma_numbered("ttyUSB"@, digits);
    lemma_numbered("ttyACM"@, digits);
    lemma_numbered("ttyHS"@, digits);
    lemma_other_stem("ttyACM"@ + digits, "ttyUSB"@);
    lemma_other_stem("ttyHS"@ + digits, "ttyUSB"@);
    lemma_other_stem("ttyHS"@ + digits, "ttyACM"@);
    lemma_other_stem("ttyS"@ + digits, "ttyUSB"@);
    lemma_other_stem("ttyS"@ + digits, "ttyACM"@);
    lemma_other_stem("ttyS"@ + digits, "ttyHS"@);
    lemma_other_stem("ttyUSB"@, "ttyACM"@);
    lemma_other_stem("ttyUSB"@, "ttyHS"@);
    assert("ttyUSB"@.skip(6) =~= Seq::<char>::empty());
}

proof fn lemma_numbered(stem: Seq<char>, digits: Seq<char>)
    requires
        digits.len() > 0,
        crate::text::all_digits(digits),
    ensures
        crate::at::is_numbered(stem + digits, stem),
{
    assert((stem + digits).take(stem.len() as int) =~= stem);
    assert((stem + digits).skip(stem.len() as int) =~= digits);
}

proof fn lemma_other_stem(name: Seq<char>, stem: Seq<char>)
    requires
        stem.len() > 3,
        name.len() > 3,
        name[3] != stem[3],
    ensures
        !crate::at::is_numbered(name, stem),
{
    if name.len() >= stem.len() {
        assert(name.take(stem.len() as int)[3] == name[3]);
    }
}

/// Of the ports of one device, one that says what it is goes before one that
/// does not, and of those the one on interface `1.2` goes first.
pub proof fn law_a_port_that_says_so_goes_first(list: Seq<CandidateModel>, i: int, j: int)
    requires
        0 <= i < list.len(),
        0 <= j < list.len(),
        list[i].policy == AtProbePolicy::Automatic,
        list[j].policy == AtProbePolicy::Automatic,
        list[i].usb_device is Some,
        list[i].usb_device == list[j].usb_device,
        !explicit_label(list[j].interface_label),
    ensures
        explicit_label(list[i].interface_label) ==> !is_chosen(list, j),
        list[i].interface == Some("1.2"@) && list[j].interface != Some("1.2"@) ==> !is_chosen(
            list,
            j,
        ),
{
    if is_chosen(list, j) {
        assert(list[i].policy == AtProbePolicy::Automatic);
        assert(beats(list, j, i));
        assert(rank_of(list[j]) <= rank_of(list[i]));
    }
}

/// Ports are tried in this order: one that says what it is, the one on `1.2`,
/// one on another interface of that number, then the fast ones, the modems and
/// the rest.
pub proof fn law_ports_are_tried_in_order(one: CandidateModel, two: CandidateModel)
    requires
        !explicit_label(two.interface_label),
    ensures
        explicit_label(one.interface_label) ==> rank_of(one) < rank_of(two),
        one.interface == Some("1.2"@) && two.interface != Some("1.2"@) ==> rank_of(one) < rank_of(
            two,
        ),
        control_interface(one.interface) && !control_interface(two.interface) && two.interface
            != Some("1.2"@) ==> rank_of(one) < rank_of(two),
        !explicit_label(one.interface_label) && !control_interface(one.interface)
            && one.interface != Some("1.2"@) && !control_interface(two.interface)
            && two.interface != Some("1.2"@) ==> {
            &&& one.kind is HighSpeed && !(two.kind is HighSpeed) ==> rank_of(one) < rank_of(two)
            &&& one.kind is Acm && two.kind is Usb ==> rank_of(one) < rank_of(two)
            &&& one.kind == two.kind ==> rank_of(one) == rank_of(two)
        },
{
}

/// A port is tried unasked only where it says what it is or where its driver
/// and its place do: a USB port on the third interface under a modem's driver, a
/// fast one under a fast driver, and a modem class port never by those.
pub proof fn law_a_port_is_tried_unasked_for_a_reason(
    interface: Option<Seq<char>>,
    label: Option<Seq<char>>,
    driver: Option<Seq<char>>,
)
    ensures
        !explicit_label(label) ==> probe_policy(AtPortKind::Acm, interface, label, driver)
            == AtProbePolicy::Manual,
        !explicit_label(label) && !control_interface(interface) ==> probe_policy(
            AtPortKind::Usb,
            interface,
            label,
            driver,
        ) == AtProbePolicy::Manual,
        !explicit_label(label) && driver is None ==> probe_policy(
            AtPortKind::Usb,
            interface,
            label,
            driver,
        ) == AtProbePolicy::Manual && probe_policy(AtPortKind::HighSpeed, interface, label, driver)
            == AtProbePolicy::Manual,
        interface != Some("1.3"@) && control_interface(interface) && driver is Some && {
            let name = lower(driver->0);
            name == "option"@ || name == "option1"@ || name == "qcserial"@ || name == "qcaux"@
                || name == "sierra"@ || name == "hso"@ || name == "usb_wwan"@
        } ==> probe_policy(AtPortKind::Usb, interface, label, driver) == AtProbePolicy::Automatic,
        interface != Some("1.3"@) && driver is Some && {
            let name = lower(driver->0);
            name == "msm_serial_hs"@ || name == "msm_serial_hsl"@ || name == "hsuart"@
        } ==> probe_policy(AtPortKind::HighSpeed, interface, label, driver)
            == AtProbePolicy::Automatic,
        interface != Some("1.3"@) && explicit_label(label) ==> probe_policy(
            AtPortKind::Usb,
            interface,
            label,
            driver,
        ) == AtProbePolicy::Automatic && probe_policy(AtPortKind::Acm, interface, label, driver)
            == AtProbePolicy::Automatic && probe_policy(
            AtPortKind::HighSpeed,
            interface,
            label,
            driver,
        ) == AtProbePolicy::Automatic,
{
}

} // verus!
