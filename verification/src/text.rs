//! Text helpers: what the crate needs of trimming, splitting, reading numbers
//! and writing them out, stated over sequences of characters.

use vstd::prelude::*;
use vstd::utf8::{decode_utf8, valid_utf8};

verus! {

/// `String::push` appends one character.
pub assume_specification[ String::push ](text: &mut String, character: char)
    ensures
        final(text)@ == old(text)@.push(character),
;

// ---------------------------------------------------------------------------
// Characters
// ---------------------------------------------------------------------------

/// Unicode `White_Space`, the property that trimming goes by.
pub open spec fn is_space(c: char) -> bool {
    let n = c as u32;
    ||| 0x9 <= n <= 0xd
    ||| n == 0x20
    ||| n == 0x85
    ||| n == 0xa0
    ||| n == 0x1680
    ||| 0x2000 <= n <= 0x200a
    ||| n == 0x2028
    ||| n == 0x2029
    ||| n == 0x202f
    ||| n == 0x205f
    ||| n == 0x3000
}

pub open spec fn is_digit(c: char) -> bool {
    '0' <= c <= '9'
}

/// What a character counts as in base sixteen, if it is a digit there.
pub open spec fn hex_value(c: char) -> Option<u8> {
    if '0' <= c <= '9' {
        Some((c as u32 - 48) as u8)
    } else if 'a' <= c <= 'f' {
        Some((c as u32 - 87) as u8)
    } else if 'A' <= c <= 'F' {
        Some((c as u32 - 55) as u8)
    } else {
        None
    }
}

pub open spec fn lower_char(c: char) -> char {
    if 'A' <= c <= 'Z' {
        ((c as u32 + 32) as u8) as char
    } else {
        c
    }
}

pub open spec fn upper_char(c: char) -> char {
    if 'a' <= c <= 'z' {
        ((c as u32 - 32) as u8) as char
    } else {
        c
    }
}

pub open spec fn lower(s: Seq<char>) -> Seq<char> {
    s.map_values(|c: char| lower_char(c))
}

pub open spec fn upper(s: Seq<char>) -> Seq<char> {
    s.map_values(|c: char| upper_char(c))
}

pub fn space(c: char) -> (yes: bool)
    ensures
        yes == is_space(c),
{
    let n: u32 = c as u32;
    (0x9 <= n && n <= 0xd) || n == 0x20 || n == 0x85 || n == 0xa0 || n == 0x1680 || (0x2000 <= n
        && n <= 0x200a) || n == 0x2028 || n == 0x2029 || n == 0x202f || n == 0x205f || n == 0x3000
}

pub fn digit(c: char) -> (yes: bool)
    ensures
        yes == is_digit(c),
{
    '0' <= c && c <= '9'
}

pub fn read_hex_digit(c: char) -> (value: Option<u8>)
    ensures
        value == hex_value(c),
        value matches Some(v) ==> v < 16,
{
    if '0' <= c && c <= '9' {
        Some((c as u32 - 48) as u8)
    } else if 'a' <= c && c <= 'f' {
        Some((c as u32 - 87) as u8)
    } else if 'A' <= c && c <= 'F' {
        Some((c as u32 - 55) as u8)
    } else {
        None
    }
}

pub fn to_lower_char(c: char) -> (l: char)
    ensures
        l == lower_char(c),
{
    if 'A' <= c && c <= 'Z' {
        ((c as u32 + 32) as u8) as char
    } else {
        c
    }
}

pub fn to_upper_char(c: char) -> (l: char)
    ensures
        l == upper_char(c),
{
    if 'a' <= c && c <= 'z' {
        ((c as u32 - 32) as u8) as char
    } else {
        c
    }
}

// ---------------------------------------------------------------------------
// Conversions between text and characters
// ---------------------------------------------------------------------------

pub fn chars_of(text: &str) -> (chars: Vec<char>)
    ensures
        chars@ == text@,
{
    let mut chars: Vec<char> = Vec::new();
    for c in it: text.chars()
        invariant
            chars@ == it.seq().take(it.index() as int),
            it.seq() == text@,
    {
        chars.push(c);
    }
    chars
}

pub fn push_chars(out: &mut String, chars: &[char])
    ensures
        final(out)@ == old(out)@ + chars@,
{
    let mut i: usize = 0;
    proof {
        assert(out@ =~= old(out)@ + chars@.take(0));
    }
    while i < chars.len()
        invariant
            i <= chars@.len(),
            out@ == old(out)@ + chars@.take(i as int),
        decreases chars@.len() - i,
    {
        out.push(chars[i]);
        proof {
            assert(out@ =~= old(out)@ + chars@.take(i + 1));
        }
        i = i + 1;
    }
    proof {
        assert(chars@.take(i as int) =~= chars@);
    }
}

pub fn string_of(chars: &[char]) -> (text: String)
    ensures
        text@ == chars@,
{
    let mut text: String = String::new();
    push_chars(&mut text, chars);
    proof {
        assert(text@ =~= chars@);
    }
    text
}

pub fn owned(text: &str) -> (copy: String)
    ensures
        copy@ == text@,
{
    let mut copy: String = String::new();
    copy.append(text);
    proof {
        assert(copy@ =~= text@);
    }
    copy
}

pub fn same_chars(left: &[char], right: &[char]) -> (same: bool)
    ensures
        same == (left@ == right@),
{
    if left.len() != right.len() {
        return false;
    }
    let mut i: usize = 0;
    while i < left.len()
        invariant
            i <= left@.len(),
            left@.len() == right@.len(),
            forall|j: int| 0 <= j < i ==> left@[j] == right@[j],
        decreases left@.len() - i,
    {
        if left[i] != right[i] {
            return false;
        }
        i = i + 1;
    }
    proof {
        assert(left@ =~= right@);
    }
    true
}

pub fn same_text(left: &str, right: &str) -> (same: bool)
    ensures
        same == (left@ == right@),
{
    let l: Vec<char> = chars_of(left);
    let r: Vec<char> = chars_of(right);
    same_chars(&l, &r)
}

/// `eq_ignore_ascii_case`: equal once the ASCII letters are lowered.
pub fn same_ignoring_case(left: &str, right: &str) -> (same: bool)
    ensures
        same == (lower(left@) == lower(right@)),
{
    let l: Vec<char> = lowered(left);
    let r: Vec<char> = lowered(right);
    same_chars(&l, &r)
}

pub fn lowered(text: &str) -> (chars: Vec<char>)
    ensures
        chars@ == lower(text@),
{
    let source: Vec<char> = chars_of(text);
    lowered_chars(&source)
}

pub fn lowered_chars(source: &[char]) -> (chars: Vec<char>)
    ensures
        chars@ == lower(source@),
{
    let mut chars: Vec<char> = Vec::new();
    let mut i: usize = 0;
    while i < source.len()
        invariant
            i <= source@.len(),
            chars@ =~= lower(source@.take(i as int)),
        decreases source@.len() - i,
    {
        chars.push(to_lower_char(source[i]));
        i = i + 1;
    }
    proof {
        assert(source@.take(i as int) =~= source@);
    }
    chars
}

pub fn uppered(text: &str) -> (result: String)
    ensures
        result@ == upper(text@),
{
    let source: Vec<char> = chars_of(text);
    let mut result: String = String::new();
    let mut i: usize = 0;
    while i < source.len()
        invariant
            i <= source@.len(),
            source@ == text@,
            result@ =~= upper(source@.take(i as int)),
        decreases source@.len() - i,
    {
        result.push(to_upper_char(source[i]));
        i = i + 1;
    }
    proof {
        assert(source@.take(i as int) =~= source@);
    }
    result
}

/// The characters of each line.
pub open spec fn texts(lines: Seq<String>) -> Seq<Seq<char>> {
    lines.map_values(|line: String| line@)
}

/// The characters of an optional text.
pub open spec fn opt_text(text: Option<String>) -> Option<Seq<char>> {
    match text {
        Some(t) => Some(t@),
        None => None,
    }
}

/// The characters of an optional text.
pub open spec fn opt_str(text: Option<&str>) -> Option<Seq<char>> {
    match text {
        Some(t) => Some(t@),
        None => None,
    }
}

pub fn clone_text(text: &Option<String>) -> (copy: Option<String>)
    ensures
        opt_text(copy) == opt_text(*text),
{
    match text {
        Some(t) => Some(owned(t.as_str())),
        None => None,
    }
}

/// Texts with a separator between them.
pub open spec fn joined_by(list: Seq<Seq<char>>, separator: Seq<char>) -> Seq<char>
    decreases list.len(),
{
    if list.len() == 0 {
        Seq::empty()
    } else if list.len() == 1 {
        list[0]
    } else {
        joined_by(list.drop_last(), separator) + separator + list.last()
    }
}

pub fn push_joined(out: &mut String, list: &Vec<String>, separator: &str)
    ensures
        final(out)@ == old(out)@ + joined_by(texts(list@), separator@),
{
    let ghost all = texts(list@);
    let mut i: usize = 0;
    proof {
        assert(all.take(0) =~= Seq::empty());
        assert(out@ =~= old(out)@ + joined_by(all.take(0), separator@));
    }
    while i < list.len()
        invariant
            i <= list@.len(),
            all == texts(list@),
            out@ == old(out)@ + joined_by(all.take(i as int), separator@),
        decreases list@.len() - i,
    {
        proof {
            assert(all.take(i + 1).drop_last() =~= all.take(i as int));
            assert(all.take(i + 1).last() == list@[i as int]@);
        }
        if i > 0 {
            out.append(separator);
        }
        out.append(list[i].as_str());
        proof {
            assert(out@ =~= old(out)@ + joined_by(all.take(i + 1), separator@));
        }
        i = i + 1;
    }
    proof {
        assert(all.take(i as int) =~= all);
    }
}

// ---------------------------------------------------------------------------
// Octets read as text
// ---------------------------------------------------------------------------

/// `std::str::from_utf8` reads octets that are valid UTF-8 as the characters
/// that they encode, and nothing else.
#[verifier::external_body]
pub(crate) fn utf8_text(bytes: &[u8]) -> (text: Option<String>)
    ensures
        match text {
            Some(t) => valid_utf8(bytes@) && t@ == decode_utf8(bytes@),
            None => !valid_utf8(bytes@),
        },
{
    std::str::from_utf8(bytes).ok().map(String::from)
}

/// What `String::from_utf8_lossy` makes of octets.
pub uninterp spec fn lossy(bytes: Seq<u8>) -> Seq<char>;

/// `String::from_utf8_lossy` depends on the octets alone; where they are valid
/// UTF-8 it yields the characters that they encode. What stands in for invalid
/// octets is left unsaid.
#[verifier::external_body]
pub(crate) fn lossy_text(bytes: &[u8]) -> (text: String)
    ensures
        text@ == lossy(bytes@),
        valid_utf8(bytes@) ==> text@ == decode_utf8(bytes@),
{
    String::from_utf8_lossy(bytes).into_owned()
}

/// How a text is written for a reader who has to see its edges: in quotes,
/// with the characters that would not show escaped.
pub uninterp spec fn quoted(text: Seq<char>) -> Seq<char>;

/// `str`'s debug format depends on the text alone.
#[verifier::external_body]
pub(crate) fn quoted_text(text: &str) -> (shown: String)
    ensures
        shown@ == quoted(text@),
{
    format!("{text:?}")
}

// ---------------------------------------------------------------------------
// Trimming
// ---------------------------------------------------------------------------

pub open spec fn trimmed_start(s: Seq<char>) -> Seq<char>
    decreases s.len(),
{
    if s.len() > 0 && is_space(s[0]) {
        trimmed_start(s.skip(1))
    } else {
        s
    }
}

pub open spec fn trimmed_end(s: Seq<char>) -> Seq<char>
    decreases s.len(),
{
    if s.len() > 0 && is_space(s.last()) {
        trimmed_end(s.drop_last())
    } else {
        s
    }
}

/// The text without the white space at either end.
pub open spec fn trimmed(s: Seq<char>) -> Seq<char> {
    trimmed_end(trimmed_start(s))
}

pub fn trim(s: &[char]) -> (r: &[char])
    ensures
        r@ == trimmed(s@),
        r@.len() <= s@.len(),
{
    let mut from: usize = 0;
    proof {
        assert(s@.skip(0) =~= s@);
    }
    while from < s.len() && space(s[from])
        invariant
            from <= s@.len(),
            trimmed_start(s@.skip(from as int)) == trimmed_start(s@),
        decreases s@.len() - from,
    {
        proof {
            assert(s@.skip(from as int).skip(1) =~= s@.skip(from + 1));
        }
        from = from + 1;
    }
    let ghost start = s@.skip(from as int);
    assert(trimmed_start(s@) == start);
    let mut to: usize = s.len();
    proof {
        assert(s@.subrange(from as int, to as int) =~= start);
    }
    while to > from && space(s[to - 1])
        invariant
            from <= to <= s@.len(),
            trimmed_end(s@.subrange(from as int, to as int)) == trimmed_end(start),
        decreases to,
    {
        proof {
            assert(s@.subrange(from as int, to as int).drop_last() =~= s@.subrange(
                from as int,
                to - 1,
            ));
        }
        to = to - 1;
    }
    &s[from..to]
}

/// The text without the given character at either end.
pub open spec fn stripped_start(s: Seq<char>, c: char) -> Seq<char>
    decreases s.len(),
{
    if s.len() > 0 && s[0] == c {
        stripped_start(s.skip(1), c)
    } else {
        s
    }
}

pub open spec fn stripped_end(s: Seq<char>, c: char) -> Seq<char>
    decreases s.len(),
{
    if s.len() > 0 && s.last() == c {
        stripped_end(s.drop_last(), c)
    } else {
        s
    }
}

pub open spec fn stripped(s: Seq<char>, c: char) -> Seq<char> {
    stripped_end(stripped_start(s, c), c)
}

/// `trim_matches`: every leading and trailing `c` gone.
pub fn strip_char(s: &[char], c: char) -> (r: &[char])
    ensures
        r@ == stripped(s@, c),
        r@.len() <= s@.len(),
{
    let mut from: usize = 0;
    proof {
        assert(s@.skip(0) =~= s@);
    }
    while from < s.len() && s[from] == c
        invariant
            from <= s@.len(),
            stripped_start(s@.skip(from as int), c) == stripped_start(s@, c),
        decreases s@.len() - from,
    {
        proof {
            assert(s@.skip(from as int).skip(1) =~= s@.skip(from + 1));
        }
        from = from + 1;
    }
    let ghost start = s@.skip(from as int);
    assert(stripped_start(s@, c) == start);
    let mut to: usize = s.len();
    proof {
        assert(s@.subrange(from as int, to as int) =~= start);
    }
    while to > from && s[to - 1] == c
        invariant
            from <= to <= s@.len(),
            stripped_end(s@.subrange(from as int, to as int), c) == stripped_end(start, c),
        decreases to,
    {
        proof {
            assert(s@.subrange(from as int, to as int).drop_last() =~= s@.subrange(
                from as int,
                to - 1,
            ));
        }
        to = to - 1;
    }
    &s[from..to]
}

// ---------------------------------------------------------------------------
// Prefixes and pieces
// ---------------------------------------------------------------------------

/// What follows the prefix, where the text starts with it.
pub open spec fn after_prefix(s: Seq<char>, prefix: Seq<char>) -> Option<Seq<char>> {
    if prefix.len() <= s.len() && s.take(prefix.len() as int) == prefix {
        Some(s.skip(prefix.len() as int))
    } else {
        None
    }
}

pub fn strip_prefix<'a>(s: &'a [char], prefix: &str) -> (rest: Option<&'a [char]>)
    ensures
        match rest {
            Some(r) => after_prefix(s@, prefix@) == Some(r@),
            None => after_prefix(s@, prefix@) is None,
        },
{
    let p: Vec<char> = chars_of(prefix);
    if p.len() > s.len() {
        return None;
    }
    let mut i: usize = 0;
    while i < p.len()
        invariant
            i <= p@.len() <= s@.len(),
            p@ == prefix@,
            forall|j: int| 0 <= j < i ==> s@[j] == p@[j],
        decreases p@.len() - i,
    {
        if s[i] != p[i] {
            proof {
                assert(s@.take(p@.len() as int)[i as int] != p@[i as int]);
            }
            return None;
        }
        i = i + 1;
    }
    proof {
        assert(s@.take(p@.len() as int) =~= p@);
        assert(s@.subrange(p@.len() as int, s@.len() as int) =~= s@.skip(p@.len() as int));
    }
    Some(&s[p.len()..s.len()])
}

/// Where a character first stands, or the length of a text without it.
pub open spec fn first_index(s: Seq<char>, c: char) -> int
    decreases s.len(),
{
    if s.len() == 0 || s[0] == c {
        0
    } else {
        1 + first_index(s.skip(1), c)
    }
}

pub proof fn lemma_first_index(s: Seq<char>, c: char)
    ensures
        0 <= first_index(s, c) <= s.len(),
        forall|i: int| 0 <= i < first_index(s, c) ==> s[i] != c,
        first_index(s, c) < s.len() ==> s[first_index(s, c)] == c,
    decreases s.len(),
{
    if s.len() > 0 && s[0] != c {
        lemma_first_index(s.skip(1), c);
        assert forall|i: int| 0 <= i < first_index(s, c) implies s[i] != c by {
            if i > 0 {
                assert(s.skip(1)[i - 1] == s[i]);
            }
        }
    }
}

pub proof fn lemma_first_index_is(s: Seq<char>, c: char, n: int)
    requires
        0 <= n <= s.len(),
        forall|i: int| 0 <= i < n ==> s[i] != c,
        n < s.len() ==> s[n] == c,
    ensures
        first_index(s, c) == n,
{
    lemma_first_index(s, c);
}

pub fn find(s: &[char], c: char) -> (index: usize)
    ensures
        index == first_index(s@, c),
        index <= s@.len(),
{
    let mut i: usize = 0;
    while i < s.len() && s[i] != c
        invariant
            i <= s@.len(),
            forall|j: int| 0 <= j < i ==> s@[j] != c,
        decreases s@.len() - i,
    {
        i = i + 1;
    }
    proof {
        lemma_first_index_is(s@, c, i as int);
    }
    i
}

/// The pieces that a separator cuts a text into; always at least one.
pub open spec fn pieces(s: Seq<char>, c: char) -> Seq<Seq<char>>
    decreases s.len(),
    via pieces_decreases
{
    let n = first_index(s, c);
    if n < s.len() {
        seq![s.take(n)] + pieces(s.skip(n + 1), c)
    } else {
        seq![s]
    }
}

#[via_fn]
proof fn pieces_decreases(s: Seq<char>, c: char) {
    lemma_first_index(s, c);
}

/// The characters of each piece.
pub open spec fn slices(parts: Seq<&[char]>) -> Seq<Seq<char>> {
    parts.map_values(|part: &[char]| part@)
}

pub fn split<'a>(s: &'a [char], c: char) -> (parts: Vec<&'a [char]>)
    ensures
        slices(parts@) == pieces(s@, c),
        parts@.len() >= 1,
{
    let mut parts: Vec<&'a [char]> = Vec::new();
    let mut rest: &'a [char] = s;
    proof {
        assert(slices(parts@) + pieces(rest@, c) =~= pieces(s@, c));
    }
    loop
        invariant
            slices(parts@) + pieces(rest@, c) == pieces(s@, c),
        decreases rest@.len(),
    {
        let n: usize = find(rest, c);
        if n >= rest.len() {
            let ghost before = parts@;
            parts.push(rest);
            proof {
                assert(slices(parts@) =~= slices(before) + seq![rest@]);
            }
            return parts;
        }
        let ghost before = parts@;
        let ghost whole = rest@;
        parts.push(&rest[0..n]);
        rest = &rest[n + 1..rest.len()];
        proof {
            assert(whole.subrange(0, n as int) =~= whole.take(n as int));
            assert(rest@ =~= whole.skip(n + 1));
            assert(slices(parts@) =~= slices(before) + seq![whole.take(n as int)]);
            assert(slices(parts@) + pieces(rest@, c) =~= slices(before) + pieces(whole, c));
        }
    }
}

/// Whether `needle` stands somewhere in the text.
pub open spec fn holds_text(s: Seq<char>, needle: Seq<char>) -> bool {
    exists|i: int|
        0 <= i && i + needle.len() <= s.len() && #[trigger] s.subrange(i, i + needle.len())
            == needle
}

pub fn contains_text(s: &[char], needle: &str) -> (yes: bool)
    ensures
        yes == holds_text(s@, needle@),
{
    let n: Vec<char> = chars_of(needle);
    if n.len() > s.len() {
        return false;
    }
    let total: usize = s.len();
    let last: usize = total - n.len();
    let mut i: usize = 0;
    loop
        invariant
            n@ == needle@,
            n@.len() <= s@.len() == total,
            last == s@.len() - n@.len(),
            i <= last,
            forall|j: int| 0 <= j < i ==> #[trigger] s@.subrange(j, j + n@.len()) != n@,
        decreases last - i,
    {
        if same_chars(&s[i..i + n.len()], &n) {
            return true;
        }
        if i == last {
            return false;
        }
        i = i + 1;
    }
}

// ---------------------------------------------------------------------------
// Searching for a run
// ---------------------------------------------------------------------------

/// Where a run first stands at or behind `from`.
pub open spec fn first_match<T>(s: Seq<T>, run: Seq<T>, from: int) -> Option<int>
    decreases s.len() - from + 1,
{
    if from < 0 || from + run.len() > s.len() {
        None
    } else if s.subrange(from, from + run.len()) == run {
        Some(from)
    } else {
        first_match(s, run, from + 1)
    }
}

pub proof fn lemma_first_match<T>(s: Seq<T>, run: Seq<T>, from: int)
    requires
        0 <= from,
    ensures
        first_match(s, run, from) matches Some(n) ==> from <= n && n + run.len() <= s.len(),
    decreases s.len() - from + 1,
{
    if from + run.len() <= s.len() && s.subrange(from, from + run.len()) != run {
        lemma_first_match(s, run, from + 1);
    }
}

/// Where `run` first stands in octets.
pub fn find_octets(s: &[u8], run: &[u8]) -> (at: Option<usize>)
    ensures
        match at {
            Some(n) => first_match(s@, run@, 0) == Some(n as int) && n + run@.len() <= s@.len(),
            None => first_match(s@, run@, 0) is None,
        },
{
    let total: usize = s.len();
    let width: usize = run.len();
    if width > total {
        return None;
    }
    let last: usize = total - width;
    let mut i: usize = 0;
    loop
        invariant
            total == s@.len(),
            width == run@.len(),
            width <= total,
            last == total - width,
            i <= last,
            first_match(s@, run@, i as int) == first_match(s@, run@, 0),
        decreases last - i,
    {
        if crate::octets::same_bytes(&s[i..i + width], run) {
            return Some(i);
        }
        if i == last {
            proof {
                assert(first_match(s@, run@, i + 1) is None);
            }
            return None;
        }
        i = i + 1;
    }
}

/// Where `run` first stands in a text.
pub fn find_chars(s: &[char], run: &[char]) -> (at: Option<usize>)
    ensures
        match at {
            Some(n) => first_match(s@, run@, 0) == Some(n as int) && n + run@.len() <= s@.len(),
            None => first_match(s@, run@, 0) is None,
        },
{
    let total: usize = s.len();
    let width: usize = run.len();
    if width > total {
        return None;
    }
    let last: usize = total - width;
    let mut i: usize = 0;
    loop
        invariant
            total == s@.len(),
            width == run@.len(),
            width <= total,
            last == total - width,
            i <= last,
            first_match(s@, run@, i as int) == first_match(s@, run@, 0),
        decreases last - i,
    {
        if same_chars(&s[i..i + width], run) {
            return Some(i);
        }
        if i == last {
            proof {
                assert(first_match(s@, run@, i + 1) is None);
            }
            return None;
        }
        i = i + 1;
    }
}

/// The pieces that a run of characters cuts a text into; always at least one.
pub open spec fn cut_at(s: Seq<char>, run: Seq<char>) -> Seq<Seq<char>>
    decreases s.len(),
    via cut_at_decreases
{
    match first_match(s, run, 0) {
        Some(n) => if run.len() == 0 {
            seq![s]
        } else {
            seq![s.take(n)] + cut_at(s.skip(n + run.len()), run)
        },
        None => seq![s],
    }
}

#[via_fn]
proof fn cut_at_decreases(s: Seq<char>, run: Seq<char>) {
    lemma_first_match(s, run, 0);
}

pub fn split_at_run<'a>(s: &'a [char], run: &[char]) -> (parts: Vec<&'a [char]>)
    requires
        run@.len() > 0,
    ensures
        slices(parts@) == cut_at(s@, run@),
        parts@.len() >= 1,
{
    let mut parts: Vec<&'a [char]> = Vec::new();
    let mut rest: &'a [char] = s;
    proof {
        assert(slices(parts@) + cut_at(rest@, run@) =~= cut_at(s@, run@));
    }
    loop
        invariant
            run@.len() > 0,
            slices(parts@) + cut_at(rest@, run@) == cut_at(s@, run@),
        decreases rest@.len(),
    {
        let ghost before = parts@;
        let ghost whole = rest@;
        let total: usize = rest.len();
        match find_chars(rest, run) {
            None => {
                parts.push(rest);
                proof {
                    assert(slices(parts@) =~= slices(before) + seq![rest@]);
                }
                return parts;
            },
            Some(n) => {
                parts.push(&rest[0..n]);
                rest = &rest[n + run.len()..total];
                proof {
                    assert(whole.subrange(0, n as int) =~= whole.take(n as int));
                    assert(rest@ =~= whole.skip(n + run@.len()));
                    assert(slices(parts@) =~= slices(before) + seq![whole.take(n as int)]);
                    assert(slices(parts@) + cut_at(rest@, run@) =~= slices(before) + cut_at(
                        whole,
                        run@,
                    ));
                }
            },
        }
    }
}

/// How far a text goes before the first white space in it.
pub open spec fn word_end(s: Seq<char>) -> int
    decreases s.len(),
{
    if s.len() == 0 || is_space(s[0]) {
        0
    } else {
        1 + word_end(s.skip(1))
    }
}

proof fn lemma_word_end(s: Seq<char>)
    ensures
        0 <= word_end(s) <= s.len(),
        s.len() > 0 && !is_space(s[0]) ==> word_end(s) > 0,
    decreases s.len(),
{
    if s.len() > 0 && !is_space(s[0]) {
        lemma_word_end(s.skip(1));
    }
}

proof fn lemma_trimmed_start(s: Seq<char>)
    ensures
        trimmed_start(s).len() <= s.len(),
        trimmed_start(s).len() > 0 ==> !is_space(trimmed_start(s)[0]),
    decreases s.len(),
{
    if s.len() > 0 && is_space(s[0]) {
        lemma_trimmed_start(s.skip(1));
    }
}

/// The runs of characters between white space.
pub open spec fn words(s: Seq<char>) -> Seq<Seq<char>>
    decreases s.len(),
    via words_decreases
{
    let rest = trimmed_start(s);
    if rest.len() == 0 {
        Seq::empty()
    } else {
        seq![rest.take(word_end(rest))] + words(rest.skip(word_end(rest)))
    }
}

#[via_fn]
proof fn words_decreases(s: Seq<char>) {
    lemma_trimmed_start(s);
    lemma_word_end(trimmed_start(s));
}

fn skip_space<'a>(s: &'a [char]) -> (rest: &'a [char])
    ensures
        rest@ == trimmed_start(s@),
{
    let mut from: usize = 0;
    proof {
        assert(s@.skip(0) =~= s@);
    }
    while from < s.len() && space(s[from])
        invariant
            from <= s@.len(),
            trimmed_start(s@.skip(from as int)) == trimmed_start(s@),
        decreases s@.len() - from,
    {
        proof {
            assert(s@.skip(from as int).skip(1) =~= s@.skip(from + 1));
        }
        from = from + 1;
    }
    proof {
        assert(s@.subrange(from as int, s@.len() as int) =~= s@.skip(from as int));
    }
    &s[from..s.len()]
}

fn find_space(s: &[char]) -> (end: usize)
    ensures
        end == word_end(s@),
        end <= s@.len(),
{
    let mut i: usize = 0;
    proof {
        assert(s@.skip(0) =~= s@);
    }
    while i < s.len() && !space(s[i])
        invariant
            i <= s@.len(),
            word_end(s@) == i + word_end(s@.skip(i as int)),
        decreases s@.len() - i,
    {
        proof {
            assert(s@.skip(i as int).skip(1) =~= s@.skip(i + 1));
        }
        i = i + 1;
    }
    i
}

pub fn split_words<'a>(s: &'a [char]) -> (parts: Vec<&'a [char]>)
    ensures
        slices(parts@) == words(s@),
{
    let mut parts: Vec<&'a [char]> = Vec::new();
    let mut rest: &'a [char] = s;
    proof {
        assert(slices(parts@) + words(rest@) =~= words(s@));
    }
    loop
        invariant
            slices(parts@) + words(rest@) == words(s@),
        decreases rest@.len(),
    {
        let ghost before = parts@;
        let ghost whole = rest@;
        let text: &'a [char] = skip_space(rest);
        proof {
            lemma_trimmed_start(whole);
            lemma_word_end(text@);
        }
        if text.len() == 0 {
            proof {
                assert(slices(parts@) + Seq::<Seq<char>>::empty() =~= slices(parts@));
            }
            return parts;
        }
        let end: usize = find_space(text);
        parts.push(&text[0..end]);
        rest = &text[end..text.len()];
        proof {
            assert(text@.subrange(0, end as int) =~= text@.take(end as int));
            assert(rest@ =~= text@.skip(end as int));
            assert(slices(parts@) =~= slices(before) + seq![text@.take(end as int)]);
            assert(slices(parts@) + words(rest@) =~= slices(before) + words(whole));
        }
    }
}

// ---------------------------------------------------------------------------
// Numbers
// ---------------------------------------------------------------------------

pub open spec fn all_digits(s: Seq<char>) -> bool {
    forall|i: int| 0 <= i < s.len() ==> is_digit(#[trigger] s[i])
}

/// What a run of decimal digits counts to.
pub open spec fn digits_value(s: Seq<char>) -> nat
    decreases s.len(),
{
    if s.len() == 0 {
        0
    } else {
        10 * digits_value(s.drop_last()) + (s.last() as u32 - 48) as nat
    }
}

/// An unsigned decimal number of at most `max`: an optional plus sign, then at
/// least one digit and nothing else.
pub open spec fn number_in(s: Seq<char>, max: nat) -> Option<nat> {
    let d = if s.len() > 0 && s[0] == '+' {
        s.skip(1)
    } else {
        s
    };
    if d.len() > 0 && all_digits(d) && digits_value(d) <= max {
        Some(digits_value(d))
    } else {
        None
    }
}

proof fn lemma_digits_value_grows(s: Seq<char>, n: int)
    requires
        0 <= n <= s.len(),
        all_digits(s),
    ensures
        digits_value(s.take(n)) <= digits_value(s),
    decreases s.len() - n,
{
    if n < s.len() {
        lemma_digits_value_grows(s, n + 1);
        assert(s.take(n + 1).drop_last() =~= s.take(n));
        assert(is_digit(s[n]));
    } else {
        assert(s.take(n) =~= s);
    }
}

/// Reads an unsigned decimal number that must not exceed `max`.
pub fn parse_number(s: &[char], max: u64) -> (value: Option<u64>)
    ensures
        match value {
            Some(v) => number_in(s@, max as nat) == Some(v as nat),
            None => number_in(s@, max as nat) is None,
        },
        value matches Some(v) ==> v <= max,
{
    let mut from: usize = 0;
    if s.len() > 0 && s[0] == '+' {
        from = 1;
    }
    let d: &[char] = &s[from..s.len()];
    proof {
        if from == 1 {
            assert(d@ =~= s@.skip(1));
        } else {
            assert(d@ =~= s@);
        }
    }
    if d.len() == 0 {
        return None;
    }
    let mut total: u64 = 0;
    let mut i: usize = 0;
    while i < d.len()
        invariant
            i <= d@.len(),
            all_digits(d@.take(i as int)),
            total == digits_value(d@.take(i as int)),
            total <= max,
            d@ == if s@.len() > 0 && s@[0] == '+' { s@.skip(1) } else { s@ },
        decreases d@.len() - i,
    {
        if !digit(d[i]) {
            proof {
                assert(!is_digit(d@[i as int]));
            }
            return None;
        }
        let step: u64 = (d[i] as u32 - 48) as u64;
        proof {
            assert(d@.take(i + 1).drop_last() =~= d@.take(i as int));
            assert forall|j: int| 0 <= j < i + 1 implies is_digit(#[trigger] d@.take(i + 1)[j]) by {
                if j < i {
                    assert(is_digit(d@.take(i as int)[j]));
                }
            }
        }
        if total > (u64::MAX - step) / 10 || total * 10 + step > max {
            proof {
                if all_digits(d@) {
                    lemma_digits_value_grows(d@, i + 1);
                }
            }
            return None;
        }
        total = total * 10 + step;
        i = i + 1;
    }
    proof {
        assert(d@.take(i as int) =~= d@);
    }
    Some(total)
}

pub fn parse_u8(s: &[char]) -> (value: Option<u8>)
    ensures
        match value {
            Some(v) => number_in(s@, 255) == Some(v as nat),
            None => number_in(s@, 255) is None,
        },
{
    match parse_number(s, 255) {
        Some(v) => Some(v as u8),
        None => None,
    }
}

/// Whether every character is a digit in base sixteen.
pub open spec fn all_hex(s: Seq<char>) -> bool {
    forall|i: int| 0 <= i < s.len() ==> hex_value(#[trigger] s[i]) is Some
}

/// What a run of base-sixteen digits counts to.
pub open spec fn hex_digits_value(s: Seq<char>) -> nat
    decreases s.len(),
{
    if s.len() == 0 {
        0
    } else {
        16 * hex_digits_value(s.drop_last()) + hex_value(s.last())->0 as nat
    }
}

/// An unsigned base-sixteen number of at most `max`: an optional plus sign,
/// then at least one digit and nothing else.
pub open spec fn hex_number_in(s: Seq<char>, max: nat) -> Option<nat> {
    let d = if s.len() > 0 && s[0] == '+' {
        s.skip(1)
    } else {
        s
    };
    if d.len() > 0 && all_hex(d) && hex_digits_value(d) <= max {
        Some(hex_digits_value(d))
    } else {
        None
    }
}

proof fn lemma_hex_value_grows(s: Seq<char>, n: int)
    requires
        0 <= n <= s.len(),
        all_hex(s),
    ensures
        hex_digits_value(s.take(n)) <= hex_digits_value(s),
    decreases s.len() - n,
{
    if n < s.len() {
        lemma_hex_value_grows(s, n + 1);
        assert(s.take(n + 1).drop_last() =~= s.take(n));
    } else {
        assert(s.take(n) =~= s);
    }
}

/// Reads an unsigned base-sixteen number that must not exceed `max`.
pub fn parse_hex_number(s: &[char], max: u64) -> (value: Option<u64>)
    ensures
        match value {
            Some(v) => hex_number_in(s@, max as nat) == Some(v as nat) && v <= max,
            None => hex_number_in(s@, max as nat) is None,
        },
{
    let mut from: usize = 0;
    if s.len() > 0 && s[0] == '+' {
        from = 1;
    }
    let d: &[char] = &s[from..s.len()];
    proof {
        if from == 1 {
            assert(d@ =~= s@.skip(1));
        } else {
            assert(d@ =~= s@);
        }
    }
    if d.len() == 0 {
        return None;
    }
    let mut total: u64 = 0;
    let mut i: usize = 0;
    while i < d.len()
        invariant
            i <= d@.len(),
            all_hex(d@.take(i as int)),
            total == hex_digits_value(d@.take(i as int)),
            total <= max,
            d@ == if s@.len() > 0 && s@[0] == '+' { s@.skip(1) } else { s@ },
        decreases d@.len() - i,
    {
        match read_hex_digit(d[i]) {
            None => {
                proof {
                    assert(hex_value(d@[i as int]) is None);
                }
                return None;
            },
            Some(digit) => {
                let step: u64 = digit as u64;
                proof {
                    assert(d@.take(i + 1).drop_last() =~= d@.take(i as int));
                    assert forall|j: int| 0 <= j < i + 1 implies hex_value(
                        #[trigger] d@.take(i + 1)[j],
                    ) is Some by {
                        if j < i {
                            assert(hex_value(d@.take(i as int)[j]) is Some);
                        }
                    }
                }
                if total > (u64::MAX - step) / 16 || total * 16 + step > max {
                    proof {
                        if all_hex(d@) {
                            lemma_hex_value_grows(d@, i + 1);
                        }
                    }
                    return None;
                }
                total = total * 16 + step;
                i = i + 1;
            },
        }
    }
    proof {
        assert(d@.take(i as int) =~= d@);
    }
    Some(total)
}

pub open spec fn digit_char(d: int) -> char {
    ((48 + d) as u8) as char
}

pub open spec fn decimal(n: nat) -> Seq<char>
    decreases n,
{
    if n < 10 {
        seq![digit_char(n as int)]
    } else {
        decimal(n / 10).push(digit_char((n % 10) as int))
    }
}

pub fn push_decimal(out: &mut String, n: u64)
    ensures
        final(out)@ == old(out)@ + decimal(n as nat),
    decreases n,
{
    if n >= 10 {
        push_decimal(out, n / 10);
    }
    let ghost before = out@;
    out.push((48 + (n % 10) as u8) as char);
    proof {
        assert(out@ =~= old(out)@ + decimal(n as nat));
    }
}

pub fn decimal_text(n: u64) -> (text: String)
    ensures
        text@ == decimal(n as nat),
{
    let mut text: String = String::new();
    push_decimal(&mut text, n);
    proof {
        assert(text@ =~= decimal(n as nat));
    }
    text
}

/// A number with zeros in front where it has fewer than three digits.
pub open spec fn three_digits(n: nat) -> Seq<char> {
    if n < 10 {
        "00"@ + decimal(n)
    } else if n < 100 {
        "0"@ + decimal(n)
    } else {
        decimal(n)
    }
}

pub fn push_three_digits(out: &mut String, n: u64)
    ensures
        final(out)@ == old(out)@ + three_digits(n as nat),
{
    if n < 10 {
        out.append("00");
    } else if n < 100 {
        out.append("0");
    }
    push_decimal(out, n);
    proof {
        assert(out@ =~= old(out)@ + three_digits(n as nat));
    }
}

/// One base-sixteen digit in lower case.
pub open spec fn hex_char(d: int) -> char {
    if d < 10 {
        ((48 + d) as u8) as char
    } else {
        ((87 + d) as u8) as char
    }
}

/// One base-sixteen digit in upper case.
pub open spec fn hex_char_upper(d: int) -> char {
    if d < 10 {
        ((48 + d) as u8) as char
    } else {
        ((55 + d) as u8) as char
    }
}

pub fn hex_digit_lower(d: u8) -> (c: char)
    requires
        d < 16,
    ensures
        c == hex_char(d as int),
{
    if d < 10 {
        (48 + d) as char
    } else {
        (87 + d) as char
    }
}

pub fn hex_digit_upper(d: u8) -> (c: char)
    requires
        d < 16,
    ensures
        c == hex_char_upper(d as int),
{
    if d < 10 {
        (48 + d) as char
    } else {
        (55 + d) as char
    }
}

/// An octet as two lower-case digits.
pub open spec fn hex_pair(b: u8) -> Seq<char> {
    seq![hex_char(b as int / 16), hex_char(b as int % 16)]
}

pub open spec fn hex_pair_upper(b: u8) -> Seq<char> {
    seq![hex_char_upper(b as int / 16), hex_char_upper(b as int % 16)]
}

/// A sixteen-bit number as four lower-case digits.
pub open spec fn hex_quad(n: u16) -> Seq<char> {
    hex_pair((n / 256) as u8) + hex_pair((n % 256) as u8)
}

/// A thirty-two-bit number as eight lower-case digits.
pub open spec fn hex_eight(n: u32) -> Seq<char> {
    hex_quad((n / 65536) as u16) + hex_quad((n % 65536) as u16)
}

/// A sixty-four-bit number as sixteen lower-case digits.
pub open spec fn hex_sixteen(n: u64) -> Seq<char> {
    hex_eight((n / 4294967296) as u32) + hex_eight((n % 4294967296) as u32)
}

pub fn push_hex_pair(out: &mut String, b: u8)
    ensures
        final(out)@ == old(out)@ + hex_pair(b),
{
    out.push(hex_digit_lower(b / 16));
    out.push(hex_digit_lower(b % 16));
    proof {
        assert(out@ =~= old(out)@ + hex_pair(b));
    }
}

pub fn push_hex_pair_upper(out: &mut String, b: u8)
    ensures
        final(out)@ == old(out)@ + hex_pair_upper(b),
{
    out.push(hex_digit_upper(b / 16));
    out.push(hex_digit_upper(b % 16));
    proof {
        assert(out@ =~= old(out)@ + hex_pair_upper(b));
    }
}

pub fn push_hex_quad(out: &mut String, n: u16)
    ensures
        final(out)@ == old(out)@ + hex_quad(n),
{
    push_hex_pair(out, (n / 256) as u8);
    push_hex_pair(out, (n % 256) as u8);
    proof {
        assert(out@ =~= old(out)@ + hex_quad(n));
    }
}

pub fn push_hex_eight(out: &mut String, n: u32)
    ensures
        final(out)@ == old(out)@ + hex_eight(n),
{
    push_hex_quad(out, (n / 65536) as u16);
    push_hex_quad(out, (n % 65536) as u16);
    proof {
        assert(out@ =~= old(out)@ + hex_eight(n));
    }
}

pub fn push_hex_sixteen(out: &mut String, n: u64)
    ensures
        final(out)@ == old(out)@ + hex_sixteen(n),
{
    push_hex_eight(out, (n / 4294967296) as u32);
    push_hex_eight(out, (n % 4294967296) as u32);
    proof {
        assert(out@ =~= old(out)@ + hex_sixteen(n));
    }
}

/// A byte string as upper-case digits, two to the octet.
pub open spec fn hex_text_upper(bytes: Seq<u8>) -> Seq<char>
    decreases bytes.len(),
{
    if bytes.len() == 0 {
        Seq::empty()
    } else {
        hex_text_upper(bytes.drop_last()) + hex_pair_upper(bytes.last())
    }
}

/// A byte string as lower-case digits, two to the octet.
pub open spec fn hex_text(bytes: Seq<u8>) -> Seq<char>
    decreases bytes.len(),
{
    if bytes.len() == 0 {
        Seq::empty()
    } else {
        hex_text(bytes.drop_last()) + hex_pair(bytes.last())
    }
}

pub fn push_hex_text_upper(out: &mut String, bytes: &[u8])
    ensures
        final(out)@ == old(out)@ + hex_text_upper(bytes@),
{
    let mut i: usize = 0;
    proof {
        assert(out@ =~= old(out)@ + hex_text_upper(bytes@.take(0)));
    }
    while i < bytes.len()
        invariant
            i <= bytes@.len(),
            out@ == old(out)@ + hex_text_upper(bytes@.take(i as int)),
        decreases bytes@.len() - i,
    {
        push_hex_pair_upper(out, bytes[i]);
        proof {
            assert(bytes@.take(i + 1).drop_last() =~= bytes@.take(i as int));
            assert(out@ =~= old(out)@ + hex_text_upper(bytes@.take(i + 1)));
        }
        i = i + 1;
    }
    proof {
        assert(bytes@.take(i as int) =~= bytes@);
    }
}

pub fn push_hex_text(out: &mut String, bytes: &[u8])
    ensures
        final(out)@ == old(out)@ + hex_text(bytes@),
{
    let mut i: usize = 0;
    proof {
        assert(out@ =~= old(out)@ + hex_text(bytes@.take(0)));
    }
    while i < bytes.len()
        invariant
            i <= bytes@.len(),
            out@ == old(out)@ + hex_text(bytes@.take(i as int)),
        decreases bytes@.len() - i,
    {
        push_hex_pair(out, bytes[i]);
        proof {
            assert(bytes@.take(i + 1).drop_last() =~= bytes@.take(i as int));
            assert(out@ =~= old(out)@ + hex_text(bytes@.take(i + 1)));
        }
        i = i + 1;
    }
    proof {
        assert(bytes@.take(i as int) =~= bytes@);
    }
}

// ---------------------------------------------------------------------------
// Fields with quotes in them
// ---------------------------------------------------------------------------

/// The fields that commas outside quotes cut a text into, the first of them
/// begun already; always at least one. The quotes stay or go.
pub open spec fn quoted_fields(s: Seq<char>, field: Seq<char>, inside: bool, keep: bool) -> Seq<
    Seq<char>,
>
    decreases s.len(),
{
    if s.len() == 0 {
        seq![field]
    } else if s[0] == '"' {
        quoted_fields(
            s.skip(1),
            if keep {
                field.push('"')
            } else {
                field
            },
            !inside,
            keep,
        )
    } else if s[0] == ',' && !inside {
        seq![field] + quoted_fields(s.skip(1), Seq::empty(), inside, keep)
    } else {
        quoted_fields(s.skip(1), field.push(s[0]), inside, keep)
    }
}

pub fn split_fields(s: &[char], keep: bool) -> (fields: Vec<String>)
    ensures
        texts(fields@) == quoted_fields(s@, Seq::empty(), false, keep),
        fields@.len() >= 1,
{
    let ghost wanted = quoted_fields(s@, Seq::empty(), false, keep);
    let mut fields: Vec<String> = Vec::new();
    let mut field: String = String::new();
    let mut inside: bool = false;
    let mut i: usize = 0;
    proof {
        assert(s@.skip(0) =~= s@);
        assert(field@ =~= Seq::empty());
        assert(texts(fields@) + quoted_fields(s@.skip(0), field@, inside, keep) =~= wanted);
    }
    while i < s.len()
        invariant
            i <= s@.len(),
            texts(fields@) + quoted_fields(s@.skip(i as int), field@, inside, keep) == wanted,
        decreases s@.len() - i,
    {
        let c: char = s[i];
        let ghost before = texts(fields@);
        proof {
            assert(s@.skip(i as int)[0] == c);
            assert(s@.skip(i as int).skip(1) =~= s@.skip(i + 1));
        }
        if c == '"' {
            inside = !inside;
            if keep {
                field.push('"');
            }
        } else if c == ',' && !inside {
            let ghost whole = field@;
            fields.push(field);
            field = String::new();
            proof {
                assert(field@ =~= Seq::empty());
                assert(texts(fields@) =~= before + seq![whole]);
                assert(texts(fields@) + quoted_fields(s@.skip(i + 1), field@, inside, keep)
                    =~= before + quoted_fields(s@.skip(i as int), whole, inside, keep));
            }
        } else {
            field.push(c);
        }
        i = i + 1;
    }
    let ghost before = texts(fields@);
    let ghost whole = field@;
    fields.push(field);
    proof {
        assert(texts(fields@) =~= before + seq![whole]);
    }
    fields
}

// ---------------------------------------------------------------------------
// UTF-16
// ---------------------------------------------------------------------------

/// `char::from_u32` gives the character of a Unicode scalar value, and nothing
/// for any other number.
pub assume_specification[ char::from_u32 ](number: u32) -> (character: Option<char>)
    ensures
        match character {
            Some(c) => c as u32 == number,
            None => 0xd800 <= number <= 0xdfff || number > 0x10_ffff,
        },
;

/// The text of UTF-16 units; none where a surrogate stands alone.
pub open spec fn utf16_text(units: Seq<u16>) -> Option<Seq<char>>
    decreases units.len(),
{
    if units.len() == 0 {
        Some(Seq::empty())
    } else if units[0] < 0xd800 || units[0] > 0xdfff {
        match utf16_text(units.skip(1)) {
            Some(rest) => Some(seq![char_at(units[0] as int)] + rest),
            None => None,
        }
    } else if units[0] < 0xdc00 && units.len() > 1 && 0xdc00 <= units[1] <= 0xdfff {
        match utf16_text(units.skip(2)) {
            Some(rest) => Some(seq![paired(units[0], units[1])] + rest),
            None => None,
        }
    } else {
        None
    }
}

/// Whether a number is that of a character.
pub open spec fn is_number_of(number: int, c: char) -> bool {
    c as u32 == number
}

/// The character of a number.
pub open spec fn char_at(number: int) -> char {
    choose|c: char| is_number_of(number, c)
}

/// A character is the character of its number.
pub proof fn lemma_char_at(c: char)
    ensures
        char_at(c as u32 as int) == c,
{
    assert(is_number_of(c as u32 as int, c));
    let found = char_at(c as u32 as int);
    assert(is_number_of(c as u32 as int, found));
}

/// The character of a surrogate pair.
pub open spec fn paired(high: u16, low: u16) -> char {
    char_at(0x1_0000 + (high - 0xd800) * 0x400 + (low - 0xdc00))
}

/// What the rest of a text adds to what was read of it.
pub open spec fn with_rest(read: Seq<char>, rest: Option<Seq<char>>) -> Option<Seq<char>> {
    match rest {
        Some(r) => Some(read + r),
        None => None,
    }
}

pub fn read_utf16(units: &[u16]) -> (text: Option<String>)
    ensures
        opt_text(text) == utf16_text(units@),
{
    let ghost wanted = utf16_text(units@);
    let mut text: String = String::new();
    let mut i: usize = 0;
    let total: usize = units.len();
    proof {
        assert(units@.skip(0) =~= units@);
        if wanted is Some {
            assert(Seq::<char>::empty() + wanted->0 =~= wanted->0);
        }
        assert(text@ =~= Seq::empty());
    }
    while i < total
        invariant
            i <= total,
            total == units@.len(),
            with_rest(text@, utf16_text(units@.skip(i as int))) == wanted,
            wanted == utf16_text(units@),
        decreases total - i,
    {
        let unit: u16 = units[i];
        let ghost before = text@;
        let ghost here = units@.skip(i as int);
        proof {
            assert(here[0] == unit);
        }
        if unit < 0xd800 || unit > 0xdfff {
            match char::from_u32(unit as u32) {
                Some(c) => {
                    text.push(c);
                    proof {
                        assert(here.skip(1) =~= units@.skip(i + 1));
                        let rest = utf16_text(here.skip(1));
                        lemma_char_at(c);
                        if rest is Some {
                            assert(before + (seq![c] + rest->0) =~= text@ + rest->0);
                        }
                    }
                },
                None => return None,
            }
            i = i + 1;
        } else if unit < 0xdc00 && total - i > 1 && units[i + 1] >= 0xdc00 && units[i + 1]
            <= 0xdfff {
            let low: u16 = units[i + 1];
            proof {
                assert(here[1] == low);
            }
            let number: u32 = 0x1_0000 + (unit as u32 - 0xd800) * 0x400 + (low as u32 - 0xdc00);
            match char::from_u32(number) {
                Some(c) => {
                    text.push(c);
                    proof {
                        assert(here.skip(2) =~= units@.skip(i + 2));
                        let rest = utf16_text(here.skip(2));
                        lemma_char_at(c);
                        if rest is Some {
                            assert(before + (seq![c] + rest->0) =~= text@ + rest->0);
                        }
                    }
                },
                None => return None,
            }
            i = i + 2;
        } else {
            return None;
        }
    }
    proof {
        assert(units@.skip(i as int) =~= Seq::empty());
        assert(text@ + Seq::<char>::empty() =~= text@);
    }
    Some(text)
}

/// A path with another one below it. A path that starts at the root stands for
/// itself.
pub open spec fn below(base: Seq<char>, part: Seq<char>) -> Seq<char> {
    if part.len() > 0 && part[0] == '/' {
        part
    } else if base.len() == 0 || base.last() == '/' {
        base + part
    } else {
        base + "/"@ + part
    }
}

/// Puts a path below another one.
pub fn join_path(base: &str, part: &str) -> (path: String)
    ensures
        path@ == below(base@, part@),
{
    let base_chars: Vec<char> = chars_of(base);
    let part_chars: Vec<char> = chars_of(part);
    if part_chars.len() > 0 && part_chars[0] == '/' {
        return owned(part);
    }
    let mut path: String = owned(base);
    if base_chars.len() > 0 && base_chars[base_chars.len() - 1] != '/' {
        path.append("/");
    }
    path.append(part);
    path
}

} // verus!
