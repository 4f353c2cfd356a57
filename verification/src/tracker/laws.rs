use vstd::prelude::*;
use crate::tracker::client::{
    after_first, before_first, octet_of, octets_of, peer_of_text, peer_text, port_of,
};
use crate::utils::bytes::{raw_bytes, raw_text};
use crate::utils::decimal::{
    decimal_digits, decimal_in_range, digits_value, is_digit, lemma_decimal_digits_shape,
    lemma_digits_value_of_decimal,
};
use crate::utils::text::{
    all_digit_chars, first_index_from, first_index_of, is_digit_char, number_of_text,
    without_plus,
};

verus! {

proof fn lemma_first_index_is(text: Seq<char>, c: char, from: int, at: int)
    requires
        0 <= from <= at <= text.len(),
        forall|i: int| from <= i < at ==> text[i] != c,
        at < text.len() ==> text[at] == c,
    ensures
        first_index_from(text, c, from) == at,
    decreases at - from,
{
    if from < at {
        lemma_first_index_is(text, c, from + 1, at);
    }
}

/// The text of a number in decimal: digits only, so none of them a dot, a
/// colon or a plus sign; as many bytes as characters; and as short as the
/// number is small.
proof fn lemma_decimal_text(n: nat)
    ensures
        ({
            let text = raw_text(decimal_digits(n));
            &&& text.len() == decimal_digits(n).len() >= 1
            &&& all_digit_chars(text)
            &&& raw_bytes(text) == decimal_digits(n)
            &&& digits_value(raw_bytes(text)) == n
            &&& (text.len() == 1 || text[0] != '0')
            &&& n < 1000 ==> text.len() <= 3
        }),
{
    let digits = decimal_digits(n);
    let text = raw_text(digits);
    lemma_decimal_digits_shape(n);
    lemma_digits_value_of_decimal(n);
    assert forall|i: int| 0 <= i < text.len() implies is_digit_char(#[trigger] text[i]) by {
        assert(is_digit(digits[i]));
        assert(text[i] as u32 == digits[i] as u32);
    }
    assert forall|i: int| 0 <= i < digits.len() implies raw_bytes(text)[i] == digits[i] by {
        assert(is_digit(digits[i]));
        assert(text[i] as u32 == digits[i] as u32);
    }
    assert(raw_bytes(text) =~= digits);
    assert(text[0] as u32 == digits[0] as u32);
    if text.len() > 1 {
        assert(n >= 10);
        assert(digits[0] != 0x30u8);
    }
    if n < 1000 {
        reveal_with_fuel(decimal_digits, 4);
    }
}

proof fn lemma_split(head: Seq<char>, c: char, tail: Seq<char>)
    requires
        all_digit_chars(head),
        !is_digit_char(c),
    ensures
        before_first(head + seq![c] + tail, c) == head,
        after_first(head + seq![c] + tail, c) == Some(tail),
{
    let text = head + seq![c] + tail;
    assert forall|i: int| 0 <= i < head.len() implies text[i] != c by {
        assert(text[i] == head[i]);
        assert(is_digit_char(head[i]));
    }
    assert(text[head.len() as int] == c);
    lemma_first_index_is(text, c, 0, head.len() as int);
    assert(text.subrange(0, head.len() as int) =~= head);
    assert(text.subrange(head.len() as int + 1, text.len() as int) =~= tail);
}

proof fn lemma_no_split(text: Seq<char>, c: char)
    requires
        all_digit_chars(text),
        !is_digit_char(c),
    ensures
        before_first(text, c) == text,
        after_first(text, c) is None,
{
    assert forall|i: int| 0 <= i < text.len() implies text[i] != c by {
        assert(is_digit_char(text[i]));
    }
    lemma_first_index_is(text, c, 0, text.len() as int);
    assert(text.subrange(0, text.len() as int) =~= text);
}

/// A text of digits and dots holds no colon.
spec fn dotted(text: Seq<char>) -> bool {
    forall|i: int| 0 <= i < text.len() ==> is_digit_char(#[trigger] text[i]) || text[i] == '.'
}

proof fn lemma_dotted_join(head: Seq<char>, tail: Seq<char>)
    requires
        all_digit_chars(head),
        dotted(tail),
    ensures
        dotted(head + seq!['.'] + tail),
{
    let text = head + seq!['.'] + tail;
    assert forall|i: int| 0 <= i < text.len() implies is_digit_char(#[trigger] text[i])
        || text[i] == '.' by {
        if i < head.len() {
            assert(text[i] == head[i]);
        } else if i > head.len() {
            assert(text[i] == tail[i - head.len() - 1]);
        }
    }
}

proof fn lemma_port_split(address: Seq<char>, port: Seq<char>)
    requires
        dotted(address),
    ensures
        before_first(address + seq![':'] + port, ':') == address,
        after_first(address + seq![':'] + port, ':') == Some(port),
{
    let text = address + seq![':'] + port;
    assert forall|i: int| 0 <= i < address.len() implies text[i] != ':' by {
        assert(text[i] == address[i]);
        assert(is_digit_char(address[i]) || address[i] == '.');
    }
    assert(text[address.len() as int] == ':');
    lemma_first_index_is(text, ':', 0, address.len() as int);
    assert(text.subrange(0, address.len() as int) =~= address);
    assert(text.subrange(address.len() as int + 1, text.len() as int) =~= port);
}

proof fn lemma_octets_of_text(ip: Seq<u8>)
    requires
        ip.len() == 4,
    ensures
        octets_of(
            raw_text(decimal_digits(ip[0] as nat)) + seq!['.'] + (raw_text(
                decimal_digits(ip[1] as nat),
            ) + seq!['.'] + (raw_text(decimal_digits(ip[2] as nat)) + seq!['.'] + raw_text(
                decimal_digits(ip[3] as nat),
            ))),
        ) == Some(ip),
{
    let a = raw_text(decimal_digits(ip[0] as nat));
    let b = raw_text(decimal_digits(ip[1] as nat));
    let c = raw_text(decimal_digits(ip[2] as nat));
    let d = raw_text(decimal_digits(ip[3] as nat));
    lemma_decimal_text(ip[0] as nat);
    lemma_decimal_text(ip[1] as nat);
    lemma_decimal_text(ip[2] as nat);
    lemma_decimal_text(ip[3] as nat);
    let rest2 = c + seq!['.'] + d;
    let rest1 = b + seq!['.'] + rest2;
    lemma_split(a, '.', rest1);
    lemma_split(b, '.', rest2);
    lemma_split(c, '.', d);
    assert(octet_of(a) == Some(ip[0]));
    assert(octet_of(b) == Some(ip[1]));
    assert(octet_of(c) == Some(ip[2]));
    assert(octet_of(d) == Some(ip[3]));
    assert(seq![ip[0], ip[1], ip[2], ip[3]] =~= ip);
}

proof fn lemma_raw_text_concat(a: Seq<u8>, b: Seq<u8>)
    ensures
        raw_text(a + b) == raw_text(a) + raw_text(b),
{
    assert(raw_text(a + b) =~= raw_text(a) + raw_text(b));
}

/// The text of an address is the texts of its numbers with three dots and
/// a colon between them.
proof fn lemma_peer_text_shape(ip: Seq<u8>, port: u16)
    requires
        ip.len() == 4,
    ensures
        raw_text(peer_text(ip, port)) == raw_text(decimal_digits(ip[0] as nat)) + seq!['.'] + (
        raw_text(decimal_digits(ip[1] as nat)) + seq!['.'] + (raw_text(
            decimal_digits(ip[2] as nat),
        ) + seq!['.'] + raw_text(decimal_digits(ip[3] as nat)))) + seq![':'] + raw_text(
            decimal_digits(port as nat),
        ),
{
    let d0 = decimal_digits(ip[0] as nat);
    let d1 = decimal_digits(ip[1] as nat);
    let d2 = decimal_digits(ip[2] as nat);
    let d3 = decimal_digits(ip[3] as nat);
    let dp = decimal_digits(port as nat);
    let dot = seq![0x2eu8];
    let colon = seq![0x3au8];
    assert(raw_text(dot) =~= seq!['.']);
    assert(raw_text(colon) =~= seq![':']);
    let s1 = d0 + dot;
    let s2 = s1 + d1;
    let s3 = s2 + dot;
    let s4 = s3 + d2;
    let s5 = s4 + dot;
    let s6 = s5 + d3;
    let s7 = s6 + colon;
    assert(peer_text(ip, port) == s7 + dp);
    lemma_raw_text_concat(d0, dot);
    lemma_raw_text_concat(s1, d1);
    lemma_raw_text_concat(s2, dot);
    lemma_raw_text_concat(s3, d2);
    lemma_raw_text_concat(s4, dot);
    lemma_raw_text_concat(s5, d3);
    lemma_raw_text_concat(s6, colon);
    lemma_raw_text_concat(s7, dp);
    let a = raw_text(d0);
    let b = raw_text(d1);
    let c = raw_text(d2);
    let d = raw_text(d3);
    let p = raw_text(dp);
    assert(raw_text(s6) =~= a + seq!['.'] + (b + seq!['.'] + (c + seq!['.'] + d)));
}

/// A peer address reads back from its text: the text that `to_string`
/// writes for an address is read by `parse` as the same address.
pub proof fn lemma_peer_text_roundtrip(ip: Seq<u8>, port: u16)
    requires
        ip.len() == 4,
    ensures
        peer_of_text(raw_text(peer_text(ip, port))) == Some((ip, port)),
{
    let a = raw_text(decimal_digits(ip[0] as nat));
    let b = raw_text(decimal_digits(ip[1] as nat));
    let c = raw_text(decimal_digits(ip[2] as nat));
    let d = raw_text(decimal_digits(ip[3] as nat));
    let p = raw_text(decimal_digits(port as nat));
    let rest2 = c + seq!['.'] + d;
    let rest1 = b + seq!['.'] + rest2;
    let address = a + seq!['.'] + rest1;
    let text = raw_text(peer_text(ip, port));
    assert(text == address + seq![':'] + p) by {
        lemma_peer_text_shape(ip, port);
    }
    assert(dotted(address)) by {
        lemma_decimal_text(ip[0] as nat);
        lemma_decimal_text(ip[1] as nat);
        lemma_decimal_text(ip[2] as nat);
        lemma_decimal_text(ip[3] as nat);
        assert(dotted(d));
        lemma_dotted_join(c, d);
        lemma_dotted_join(b, rest2);
        lemma_dotted_join(a, rest1);
    }
    assert(before_first(text, ':') == address && after_first(text, ':') == Some(p)) by {
        lemma_port_split(address, p);
    }
    assert(port_of(before_first(p, ':')) == port) by {
        lemma_decimal_text(port as nat);
        lemma_no_split(p, ':');
        assert(is_digit_char(p[0]));
        assert(without_plus(p) == p);
        assert(decimal_in_range(raw_bytes(p), 65535) == Some(port as u64));
    }
    assert(octets_of(address) == Some(ip)) by {
        lemma_octets_of_text(ip);
    }
}

} // verus!
