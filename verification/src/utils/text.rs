use vstd::prelude::*;
use crate::utils::bytes::{push_char, raw_bytes};
use crate::utils::decimal::{decimal_in_range, parse_decimal};

verus! {

/// The characters of a text.
pub fn chars_of(text: &str) -> (chars: Vec<char>)
    ensures
        chars@ == text@,
{
    let mut chars: Vec<char> = Vec::new();
    for c in it: text.chars()
        invariant
            it.seq() == text@,
            chars@ == text@.subrange(0, it.index() as int),
    {
        chars.push(c);
        assert(chars@ =~= text@.subrange(0, it.index() + 1));
    }
    assert(text@.subrange(0, text@.len() as int) =~= text@);
    chars
}

/// The text of the given characters.
pub fn string_of(chars: &[char]) -> (text: String)
    ensures
        text@ == chars@,
{
    let mut text = String::new();
    let mut i: usize = 0;
    while i < chars.len()
        invariant
            i <= chars@.len(),
            text@ == chars@.subrange(0, i as int),
        decreases chars@.len() - i,
    {
        push_char(&mut text, chars[i]);
        i += 1;
        assert(text@ =~= chars@.subrange(0, i as int));
    }
    assert(chars@.subrange(0, i as int) =~= chars@);
    text
}

/// The first position from `from` on that holds `c`, or the length of the
/// text if none does.
pub open spec fn first_index_from(text: Seq<char>, c: char, from: int) -> int
    decreases text.len() - from,
{
    if from < 0 || from >= text.len() {
        text.len() as int
    } else if text[from] == c {
        from
    } else {
        first_index_from(text, c, from + 1)
    }
}

/// The first position that holds `c`, or the length of the text if none
/// does.
pub open spec fn first_index_of(text: Seq<char>, c: char) -> int {
    first_index_from(text, c, 0)
}

/// The last position that holds `c`, if any does.
pub open spec fn last_index_of(text: Seq<char>, c: char) -> Option<int>
    decreases text.len(),
{
    if text.len() == 0 {
        None
    } else if text.last() == c {
        Some(text.len() - 1)
    } else {
        last_index_of(text.drop_last(), c)
    }
}

/// Whether a text starts with a prefix.
pub open spec fn starts_with(text: Seq<char>, prefix: Seq<char>) -> bool {
    prefix.len() <= text.len() && text.subrange(0, prefix.len() as int) == prefix
}

/// Whether `c` is an ASCII decimal digit.
pub open spec fn is_digit_char(c: char) -> bool {
    '0' <= c <= '9'
}

/// Whether every character of a text is an ASCII decimal digit.
pub open spec fn all_digit_chars(text: Seq<char>) -> bool {
    forall|i: int| 0 <= i < text.len() ==> is_digit_char(#[trigger] text[i])
}

/// A text without the plus sign that it may start with.
pub open spec fn without_plus(text: Seq<char>) -> Seq<char> {
    if text.len() > 0 && text[0] == '+' {
        text.subrange(1, text.len() as int)
    } else {
        text
    }
}

/// The number that a text writes, if it is at most `max`: digits, at least
/// one, after at most one plus sign.
pub open spec fn number_of_text(text: Seq<char>, max: u64) -> Option<u64> {
    if all_digit_chars(without_plus(text)) {
        decimal_in_range(raw_bytes(without_plus(text)), max)
    } else {
        None
    }
}

/// The first position that holds `c`, or the length of the text.
pub fn find_char(chars: &[char], c: char) -> (at: usize)
    ensures
        at == first_index_of(chars@, c),
        at <= chars@.len(),
        at < chars@.len() ==> chars@[at as int] == c,
{
    let mut at: usize = 0;
    while at < chars.len() && chars[at] != c
        invariant
            at <= chars@.len(),
            first_index_from(chars@, c, 0) == first_index_from(chars@, c, at as int),
        decreases chars@.len() - at,
    {
        at += 1;
    }
    at
}

/// The last position that holds `c`, if any does.
pub fn rfind_char(chars: &[char], c: char) -> (at: Option<usize>)
    ensures
        match at {
            Some(i) => last_index_of(chars@, c) == Some(i as int) && i < chars@.len(),
            None => last_index_of(chars@, c) is None,
        },
{
    let mut i: usize = chars.len();
    assert(chars@.subrange(0, i as int) =~= chars@);
    while i > 0
        invariant
            i <= chars@.len(),
            last_index_of(chars@, c) == last_index_of(chars@.subrange(0, i as int), c),
        decreases i,
    {
        let ghost head = chars@.subrange(0, i as int);
        assert(head.last() == chars@[i - 1]);
        if chars[i - 1] == c {
            return Some(i - 1);
        }
        assert(head.drop_last() =~= chars@.subrange(0, i - 1));
        i -= 1;
    }
    None
}

/// Whether the characters start with the prefix.
pub fn has_prefix(chars: &[char], prefix: &[char]) -> (found: bool)
    ensures
        found == starts_with(chars@, prefix@),
{
    if prefix.len() > chars.len() {
        return false;
    }
    let mut i: usize = 0;
    while i < prefix.len()
        invariant
            i <= prefix@.len() <= chars@.len(),
            chars@.subrange(0, i as int) == prefix@.subrange(0, i as int),
        decreases prefix@.len() - i,
    {
        if chars[i] != prefix[i] {
            assert(chars@.subrange(0, prefix@.len() as int)[i as int] != prefix@[i as int]);
            return false;
        }
        i += 1;
        assert(chars@.subrange(0, i as int) =~= chars@.subrange(0, i - 1).push(chars@[i - 1]));
        assert(prefix@.subrange(0, i as int) =~= prefix@.subrange(0, i - 1).push(prefix@[i - 1]));
    }
    assert(prefix@.subrange(0, i as int) =~= prefix@);
    true
}

/// Reads the characters as a number of at most `max`.
pub fn parse_number(chars: &[char], max: u64) -> (value: Option<u64>)
    ensures
        value == number_of_text(chars@, max),
{
    let start: usize = if chars.len() > 0 && chars[0] == '+' {
        1
    } else {
        0
    };
    let ghost digits = chars@.subrange(start as int, chars@.len() as int);
    assert(start == 0 ==> digits =~= chars@);
    let mut bytes: Vec<u8> = Vec::new();
    let mut i: usize = start;
    while i < chars.len()
        invariant
            start <= i <= chars@.len(),
            digits == chars@.subrange(start as int, chars@.len() as int),
            digits == without_plus(chars@),
            bytes@ == raw_bytes(digits.subrange(0, i - start)),
            forall|k: int| 0 <= k < i - start ==> is_digit_char(#[trigger] digits[k]),
        decreases chars@.len() - i,
    {
        let c: char = chars[i];
        assert(c == digits[i - start]);
        if c < '0' || c > '9' {
            assert(!is_digit_char(digits[i - start]));
            return None;
        }
        bytes.push(c as u8);
        i += 1;
        assert(bytes@ =~= raw_bytes(digits.subrange(0, i - start)));
    }
    assert(digits.subrange(0, i - start) =~= digits);
    let parsed = parse_decimal(bytes.as_slice(), 0, bytes.len(), max);
    assert(bytes@.subrange(0, bytes@.len() as int) =~= bytes@);
    parsed
}

} // verus!
