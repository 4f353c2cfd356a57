use vstd::prelude::*;
use crate::utils::bytes::{raw_text, RawStringExt};

verus! {

/// Whether `b` is an unreserved URL character: an ASCII letter, a digit, or
/// one of `-`, `.`, `_`, `~`.
pub open spec fn is_unreserved(b: u8) -> bool {
    ||| 0x41 <= b <= 0x5a
    ||| 0x61 <= b <= 0x7a
    ||| 0x30 <= b <= 0x39
    ||| b == 0x2d
    ||| b == 0x2e
    ||| b == 0x5f
    ||| b == 0x7e
}

/// The upper-case hexadecimal digit for `n` in `0..16`.
pub open spec fn upper_hex_digit(n: int) -> u8 {
    if n < 10 {
        (0x30 + n) as u8
    } else {
        (0x41 + n - 10) as u8
    }
}

/// How one byte is written in a URL: itself if unreserved, else `%` and two
/// upper-case hexadecimal digits.
pub open spec fn percent_encoded_byte(b: u8) -> Seq<u8> {
    if is_unreserved(b) {
        seq![b]
    } else {
        seq![0x25u8, upper_hex_digit(b as int / 16), upper_hex_digit(b as int % 16)]
    }
}

/// The percent-encoding of a byte string: the encodings of its bytes, in order.
pub open spec fn percent_encoded(bytes: Seq<u8>) -> Seq<u8>
    decreases bytes.len(),
{
    if bytes.len() == 0 {
        Seq::empty()
    } else {
        percent_encoded(bytes.drop_last()) + percent_encoded_byte(bytes.last())
    }
}

/// The value of an upper-case hexadecimal digit, if the byte is one.
pub open spec fn upper_hex_value(d: u8) -> Option<int> {
    if 0x30 <= d <= 0x39 {
        Some(d - 0x30)
    } else if 0x41 <= d <= 0x46 {
        Some(d - 0x41 + 10)
    } else {
        None
    }
}

/// The bytes that a percent-encoded text stands for: `%` and two
/// upper-case hexadecimal digits are one byte, and every other byte is
/// itself. `None` where a `%` is not followed by two such digits.
pub open spec fn percent_decoded(text: Seq<u8>) -> Option<Seq<u8>>
    decreases text.len(),
{
    if text.len() == 0 {
        Some(Seq::empty())
    } else if text[0] == 0x25 {
        if text.len() < 3 {
            None
        } else {
            match (upper_hex_value(text[1]), upper_hex_value(text[2])) {
                (Some(high), Some(low)) => match percent_decoded(
                    text.subrange(3, text.len() as int),
                ) {
                    Some(rest) => Some(seq![(16 * high + low) as u8] + rest),
                    None => None,
                },
                _ => None,
            }
        }
    } else {
        match percent_decoded(text.subrange(1, text.len() as int)) {
            Some(rest) => Some(seq![text[0]] + rest),
            None => None,
        }
    }
}

proof fn lemma_percent_encoded_front(b: u8, rest: Seq<u8>)
    ensures
        percent_encoded(seq![b] + rest) == percent_encoded_byte(b) + percent_encoded(rest),
    decreases rest.len(),
{
    let whole = seq![b] + rest;
    if rest.len() == 0 {
        assert(whole.drop_last() =~= Seq::<u8>::empty());
        assert(whole.last() == b);
        assert(percent_encoded(Seq::<u8>::empty()) =~= Seq::<u8>::empty());
        assert(percent_encoded(rest) =~= Seq::<u8>::empty());
        assert(percent_encoded(whole) =~= percent_encoded_byte(b));
        assert(percent_encoded_byte(b) + percent_encoded(rest) =~= percent_encoded_byte(b));
    } else {
        lemma_percent_encoded_front(b, rest.drop_last());
        assert(whole.drop_last() =~= seq![b] + rest.drop_last());
        assert(whole.last() == rest.last());
        assert(percent_encoded(whole) =~= percent_encoded_byte(b) + (percent_encoded(
            rest.drop_last(),
        ) + percent_encoded_byte(rest.last())));
    }
}

/// Percent-encoding loses nothing: decoding the encoding of bytes gives
/// the bytes back.
pub proof fn lemma_percent_roundtrip(bytes: Seq<u8>)
    ensures
        percent_decoded(percent_encoded(bytes)) == Some(bytes),
    decreases bytes.len(),
{
    if bytes.len() == 0 {
    } else {
        let b = bytes[0];
        let rest = bytes.subrange(1, bytes.len() as int);
        assert(bytes =~= seq![b] + rest);
        lemma_percent_encoded_front(b, rest);
        lemma_percent_roundtrip(rest);
        let head = percent_encoded_byte(b);
        let text = head + percent_encoded(rest);
        assert(text.subrange(head.len() as int, text.len() as int) =~= percent_encoded(rest));
        if is_unreserved(b) {
            assert(text[0] == b);
        } else {
            assert(text[0] == 0x25u8);
            assert(text[1] == upper_hex_digit(b as int / 16));
            assert(text[2] == upper_hex_digit(b as int % 16));
            assert(upper_hex_value(text[1]) == Some(b as int / 16));
            assert(upper_hex_value(text[2]) == Some(b as int % 16));
        }
        assert(seq![b] + rest =~= bytes);
    }
}

fn hex_digit_upper(n: u8) -> (d: u8)
    requires
        n < 16,
    ensures
        d == upper_hex_digit(n as int),
{
    if n < 10 {
        0x30 + n
    } else {
        0x41 + (n - 10)
    }
}

/// Percent-encodes arbitrary bytes for use in a URL.
pub fn url_encode(bytes: &[u8]) -> (text: String)
    ensures
        text@ == raw_text(percent_encoded(bytes@)),
{
    let mut out: Vec<u8> = Vec::new();
    let mut i: usize = 0;
    while i < bytes.len()
        invariant
            i <= bytes@.len(),
            out@ == percent_encoded(bytes@.subrange(0, i as int)),
        decreases bytes@.len() - i,
    {
        let b: u8 = bytes[i];
        let ghost before = out@;
        let unreserved = (0x41 <= b && b <= 0x5a) || (0x61 <= b && b <= 0x7a) || (0x30 <= b && b
            <= 0x39) || b == 0x2d || b == 0x2e || b == 0x5f || b == 0x7e;
        if unreserved {
            out.push(b);
        } else {
            out.push(0x25);
            out.push(hex_digit_upper(b / 16));
            out.push(hex_digit_upper(b % 16));
        }
        i += 1;
        proof {
            let prefix = bytes@.subrange(0, i as int);
            assert(prefix.drop_last() =~= bytes@.subrange(0, i - 1));
            assert(prefix.last() == b);
            assert(out@ =~= before + percent_encoded_byte(b));
        }
    }
    assert(bytes@.subrange(0, i as int) =~= bytes@);
    out.as_slice().to_raw_string()
}

/// Percent-encodes arbitrary bytes for use in a URL; the same as `url_encode`.
pub fn url_encode_bytes(bytes: &[u8]) -> (text: String)
    ensures
        text@ == raw_text(percent_encoded(bytes@)),
{
    url_encode(bytes)
}

} // verus!
