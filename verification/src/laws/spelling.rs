//! Numbers and octets as text.

use crate::at::text_before;
use crate::text::{
    all_digits, decimal, digits_value, hex_eight, hex_quad, hex_sixteen, hex_text, hex_text_upper,
    is_digit, is_space, number_in, pieces, trimmed, trimmed_end, trimmed_start,
};
use vstd::prelude::*;

verus! {

/// A number that is written out reads back as itself.
pub proof fn law_a_number_reads_back(n: nat, max: nat)
    ensures
        number_in(decimal(n), max) == if n <= max {
            Some(n)
        } else {
            None
        },
        decimal(n).len() > 0,
        all_digits(decimal(n)),
        n > 0 ==> decimal(n)[0] != '0',
{
    lemma_decimal(n);
    assert(is_digit(decimal(n)[0]));
}

proof fn lemma_decimal(n: nat)
    ensures
        decimal(n).len() > 0,
        all_digits(decimal(n)),
        digits_value(decimal(n)) == n,
        n > 0 ==> decimal(n)[0] != '0',
    decreases n,
{
    let text = decimal(n);
    if n < 10 {
        assert(text.drop_last() =~= Seq::<char>::empty());
        assert(digits_value(text.drop_last()) == 0);
    } else {
        lemma_decimal(n / 10);
        assert(text.drop_last() =~= decimal(n / 10));
        assert forall|i: int| 0 <= i < text.len() implies is_digit(#[trigger] text[i]) by {
            if i < text.len() - 1 {
                assert(text[i] == decimal(n / 10)[i]);
                assert(is_digit(decimal(n / 10)[i]));
            }
        }
        assert(text[0] == decimal(n / 10)[0]);
    }
}

/// What a base-sixteen digit is worth, in the one case that is meant.
pub open spec fn worth(c: char, upper: bool) -> int {
    if '0' <= c <= '9' {
        c as int - '0' as int
    } else if upper && 'A' <= c <= 'F' {
        c as int - 'A' as int + 10
    } else if !upper && 'a' <= c <= 'f' {
        c as int - 'a' as int + 10
    } else {
        -1
    }
}

/// Octets are written two digits each, the high half first, in upper or in
/// lower case throughout.
pub proof fn law_octets_are_spelled_high_half_first(octets: Seq<u8>)
    ensures
        hex_text_upper(octets).len() == 2 * octets.len(),
        hex_text(octets).len() == 2 * octets.len(),
        forall|i: int|
            #![trigger octets[i]]
            0 <= i < octets.len() ==> {
                &&& worth(hex_text_upper(octets)[2 * i], true) == octets[i] / 16
                &&& worth(hex_text_upper(octets)[2 * i + 1], true) == octets[i] % 16
                &&& worth(hex_text(octets)[2 * i], false) == octets[i] / 16
                &&& worth(hex_text(octets)[2 * i + 1], false) == octets[i] % 16
            },
    decreases octets.len(),
{
    if octets.len() > 0 {
        let front = octets.drop_last();
        law_octets_are_spelled_high_half_first(front);
        assert forall|i: int| #![trigger octets[i]] 0 <= i < octets.len() implies {
            &&& worth(hex_text_upper(octets)[2 * i], true) == octets[i] / 16
            &&& worth(hex_text_upper(octets)[2 * i + 1], true) == octets[i] % 16
            &&& worth(hex_text(octets)[2 * i], false) == octets[i] / 16
            &&& worth(hex_text(octets)[2 * i + 1], false) == octets[i] % 16
        } by {
            if i < octets.len() - 1 {
                assert(front[i] == octets[i]);
            }
        }
    }
}

/// Fields that commas set off come apart where the commas are.
pub proof fn law_fields_come_apart(first: Seq<char>, second: Seq<char>)
    requires
        !first.contains(','),
        !second.contains(','),
    ensures
        pieces(first, ',') == seq![first],
        pieces(first + seq![','] + second, ',') == seq![first, second],
{
    let both = first + seq![','] + second;
    crate::text::lemma_first_index(first, ',');
    crate::text::lemma_first_index(second, ',');
    crate::text::lemma_first_index(both, ',');
    let k = crate::text::first_index(first, ',');
    if k < first.len() {
        assert(first.contains(first[k]));
    }
    let m = crate::text::first_index(second, ',');
    if m < second.len() {
        assert(second.contains(second[m]));
    }
    let n = crate::text::first_index(both, ',');
    assert(both[first.len() as int] == ',');
    if n < first.len() {
        assert(first[n] == both[n]);
        assert(first.contains(first[n]));
    }
    assert(n == first.len());
    assert(both.take(n) =~= first);
    assert(both.skip(n + 1) =~= second);
    assert(pieces(first, ',') =~= seq![first]);
    assert(pieces(second, ',') =~= seq![second]);
    assert(pieces(both, ',') == seq![first] + pieces(second, ','));
    assert(seq![first] + seq![second] =~= seq![first, second]);
}

/// The digits of a number hold no comma and no space.
pub proof fn lemma_digits_are_plain(n: nat)
    ensures
        !decimal(n).contains(','),
        trimmed(decimal(n)) == decimal(n),
        decimal(n).len() > 0,
        is_digit(decimal(n)[0]),
        is_digit(decimal(n).last()),
{
    lemma_decimal(n);
    let text = decimal(n);
    assert(is_digit(text[0]) && is_digit(text[text.len() - 1]));
    if text.contains(',') {
        let i = choose|i: int| 0 <= i < text.len() && text[i] == ',';
        assert(is_digit(text[i]));
    }
}

/// A line that starts and ends in something else than space is as it is.
pub proof fn lemma_untrimmed(text: Seq<char>)
    requires
        text.len() > 0,
        !is_space(text[0]),
        !is_space(text.last()),
    ensures
        trimmed(text) == text,
{
}

/// The space around a text goes, all of it, and nothing of the text.
pub proof fn law_only_the_space_around_goes(before: Seq<char>, text: Seq<char>, after: Seq<char>)
    requires
        forall|i: int| 0 <= i < before.len() ==> is_space(#[trigger] before[i]),
        forall|i: int| 0 <= i < after.len() ==> is_space(#[trigger] after[i]),
        text.len() > 0,
        !is_space(text[0]),
        !is_space(text.last()),
    ensures
        trimmed(before + text + after) == text,
{
    lemma_front(before, text + after);
    assert(before + text + after =~= before + (text + after));
    lemma_back(text, after);
    assert((text + after)[0] == text[0]);
}

proof fn lemma_front(before: Seq<char>, rest: Seq<char>)
    requires
        forall|i: int| 0 <= i < before.len() ==> is_space(#[trigger] before[i]),
        rest.len() > 0,
        !is_space(rest[0]),
    ensures
        trimmed_start(before + rest) == rest,
    decreases before.len(),
{
    let all = before + rest;
    if before.len() == 0 {
        assert(all =~= rest);
    } else {
        assert(all[0] == before[0]);
        assert(is_space(before[0]));
        let fewer = before.skip(1);
        assert forall|i: int| 0 <= i < fewer.len() implies is_space(#[trigger] fewer[i]) by {
            assert(is_space(before[i + 1]));
        }
        lemma_front(fewer, rest);
        assert(all.skip(1) =~= fewer + rest);
    }
}

proof fn lemma_back(text: Seq<char>, after: Seq<char>)
    requires
        forall|i: int| 0 <= i < after.len() ==> is_space(#[trigger] after[i]),
        text.len() > 0,
        !is_space(text.last()),
    ensures
        trimmed_end(text + after) == text,
    decreases after.len(),
{
    let all = text + after;
    if after.len() == 0 {
        assert(all =~= text);
    } else {
        assert(all.last() == after.last());
        assert(is_space(after[after.len() - 1]));
        let fewer = after.drop_last();
        assert forall|i: int| 0 <= i < fewer.len() implies is_space(#[trigger] fewer[i]) by {
            assert(is_space(after[i]));
        }
        lemma_back(text, fewer);
        assert(all.drop_last() =~= text + fewer);
    }
}

/// Space is what Unicode says it is; letters, digits and signs are none.
pub proof fn law_what_is_space(c: char)
    ensures
        c == ' ' || c == '\t' || c == '\n' || c == '\r' ==> is_space(c),
        '!' <= c <= '~' ==> !is_space(c),
{
}

/// A number of sixteen, of thirty-two or of sixty-four bits is written in four,
/// eight or sixteen digits of base sixteen, the high ones first.
pub proof fn law_wide_numbers_are_spelled_high_half_first(n: u16, m: u32, w: u64)
    ensures
        hex_quad(n).len() == 4,
        worth(hex_quad(n)[0], false) == n / 4096,
        worth(hex_quad(n)[1], false) == n / 256 % 16,
        worth(hex_quad(n)[2], false) == n / 16 % 16,
        worth(hex_quad(n)[3], false) == n % 16,
        hex_eight(m) == hex_quad((m / 65536) as u16) + hex_quad((m % 65536) as u16),
        hex_sixteen(w) == hex_eight((w / 4294967296) as u32) + hex_eight((w % 4294967296) as u32),
{
}

/// A text goes before another where it is shorter and the other goes on, or
/// where its first character that differs is the smaller.
pub proof fn law_texts_are_ordered_by_their_first_difference(
    start: Seq<char>,
    small: char,
    large: char,
    left: Seq<char>,
    right: Seq<char>,
)
    requires
        small < large,
    ensures
        text_before(start + (seq![small] + left), start + (seq![large] + right)),
        text_before(start, start + (seq![large] + right)),
        !text_before(start, start),
    decreases start.len(),
{
    let one = start + (seq![small] + left);
    let two = start + (seq![large] + right);
    if start.len() == 0 {
        assert(one =~= seq![small] + left);
        assert(two =~= seq![large] + right);
        assert(one[0] == small && two[0] == large);
    } else {
        law_texts_are_ordered_by_their_first_difference(start.skip(1), small, large, left, right);
        assert(one[0] == start[0] && two[0] == start[0]);
        assert(one.skip(1) =~= start.skip(1) + (seq![small] + left));
        assert(two.skip(1) =~= start.skip(1) + (seq![large] + right));
    }
}

} // verus!
