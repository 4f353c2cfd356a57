use vstd::prelude::*;
use crate::bencode::encoder::{
    encode_bytes_spec, encode_entries_from, encode_items_from, encode_spec,
};
use crate::bencode::parser::{
    decode_spec, entry_span_spec, find_byte_spec, integer_of_text, parse_bytes_spec,
    parse_entries_spec, parse_integer_spec, parse_items_spec, parse_value_spec,
    value_span_spec, BencodeError,
};
use crate::bencode::value::{
    dict_insert, keys_sorted, lemma_dict_insert_last, lemma_dict_insert_sorted,
    lemma_insert_position, insert_position, well_formed, Bencode,
};
use crate::utils::decimal::{
    decimal_digits, decimal_in_range, is_digit, lemma_decimal_digits_shape,
    lemma_digits_value_of_decimal, signed_decimal,
};

verus! {

/// Whether `input` holds the bytes `part` at `pos`.
pub open spec fn has_at(input: Seq<u8>, pos: int, part: Seq<u8>) -> bool {
    &&& 0 <= pos
    &&& pos + part.len() <= input.len()
    &&& input.subrange(pos, pos + part.len()) == part
}

/// Whether bytes are the canonical encoding of some value.
pub open spec fn is_canonical(bytes: Seq<u8>) -> bool {
    exists|value: Bencode| well_formed(value) && #[trigger] encode_spec(value) == bytes
}

proof fn lemma_has_at_split(input: Seq<u8>, pos: int, first: Seq<u8>, second: Seq<u8>)
    requires
        has_at(input, pos, first + second),
    ensures
        has_at(input, pos, first),
        has_at(input, pos + first.len(), second),
{
    let whole = first + second;
    let span = input.subrange(pos, pos + whole.len());
    assert forall|i: int| 0 <= i < first.len() implies input[pos + i] == first[i] by {
        assert(span[i] == whole[i]);
    }
    assert forall|i: int| 0 <= i < second.len() implies input[pos + first.len() + i]
        == second[i] by {
        assert(span[first.len() + i] == whole[first.len() + i]);
    }
    assert(input.subrange(pos, pos + first.len()) =~= first);
    assert(input.subrange(pos + first.len(), pos + first.len() + second.len()) =~= second);
}

proof fn lemma_has_at_index(input: Seq<u8>, pos: int, part: Seq<u8>, i: int)
    requires
        has_at(input, pos, part),
        0 <= i < part.len(),
    ensures
        input[pos + i] == part[i],
{
    assert(input.subrange(pos, pos + part.len())[i] == part[i]);
}

proof fn lemma_find_byte_at(input: Seq<u8>, from: int, at: int, byte: u8)
    requires
        0 <= from <= at < input.len(),
        input[at] == byte,
        forall|i: int| from <= i < at ==> input[i] != byte,
    ensures
        find_byte_spec(input, from, byte) == at,
    decreases at - from,
{
    if from < at {
        lemma_find_byte_at(input, from + 1, at, byte);
    }
}

/// Every encoding is at least two bytes long and starts with `i`, `l`, `d`
/// or a digit, so never with the `e` that closes a list or a dictionary.
pub proof fn lemma_encoding_starts(value: Bencode)
    ensures
        encode_spec(value).len() >= 2,
        encode_spec(value)[0] != 0x65u8,
        value is Integer ==> encode_spec(value)[0] == 0x69u8,
        value is List ==> encode_spec(value)[0] == 0x6cu8,
        value is Dict ==> encode_spec(value)[0] == 0x64u8,
        value is Bytes ==> is_digit(encode_spec(value)[0]),
{
    match value {
        Bencode::Integer(n) => {},
        Bencode::Bytes(bytes) => {
            lemma_decimal_digits_shape(bytes.len());
            let digits = decimal_digits(bytes.len());
            assert(encode_spec(value)[0] == digits[0]);
            assert(is_digit(digits[0]));
        },
        Bencode::List(items) => {},
        Bencode::Dict(entries) => {},
    }
}

proof fn lemma_parse_encoded_integer(n: i64, input: Seq<u8>, pos: int)
    requires
        has_at(input, pos, encode_spec(Bencode::Integer(n))),
    ensures
        parse_integer_spec(input, pos) == Ok::<(Bencode, int), BencodeError>(
            (Bencode::Integer(n), pos + encode_spec(Bencode::Integer(n)).len()),
        ),
        input[pos] == 0x69u8,
{
    let text = signed_decimal(n as int);
    let enc = encode_spec(Bencode::Integer(n));
    let magnitude: nat = if n < 0 {
        (-n) as nat
    } else {
        n as nat
    };
    let digits = decimal_digits(magnitude);
    lemma_decimal_digits_shape(magnitude);
    lemma_digits_value_of_decimal(magnitude);
    assert(enc.len() == text.len() + 2);
    lemma_has_at_index(input, pos, enc, 0);
    let end = pos + 1 + text.len();
    assert forall|i: int| pos + 1 <= i < end implies input[i] != 0x65u8 by {
        lemma_has_at_index(input, pos, enc, i - pos);
        let j = i - pos - 1;
        assert(enc[i - pos] == text[j]);
        if n < 0 {
            if j > 0 {
                assert(text[j] == digits[j - 1]);
                assert(is_digit(digits[j - 1]));
            }
        } else {
            assert(is_digit(digits[j]));
        }
    }
    lemma_has_at_index(input, pos, enc, text.len() as int + 1);
    lemma_find_byte_at(input, pos + 1, end, 0x65u8);
    assert(input.subrange(pos + 1, end) =~= text) by {
        assert forall|j: int| 0 <= j < text.len() implies input[pos + 1 + j] == text[j] by {
            lemma_has_at_index(input, pos, enc, j + 1);
        }
    }
    if n < 0 {
        assert(text[0] == 0x2du8);
        assert(text.subrange(1, text.len() as int) =~= digits);
        assert(decimal_in_range(digits, 0x8000_0000_0000_0000u64) == Some(magnitude as u64));
    } else {
        assert(text == digits);
        assert(is_digit(text[0]));
        assert(decimal_in_range(digits, 0x7fff_ffff_ffff_ffffu64) == Some(magnitude as u64));
    }
    assert(integer_of_text(text) == Some(n));
}

proof fn lemma_parse_encoded_bytes(bytes: Seq<u8>, input: Seq<u8>, pos: int)
    requires
        has_at(input, pos, encode_bytes_spec(bytes)),
        input.len() <= usize::MAX,
    ensures
        parse_bytes_spec(input, pos) == Ok::<(Bencode, int), BencodeError>(
            (Bencode::Bytes(bytes), pos + encode_bytes_spec(bytes).len()),
        ),
        is_digit(input[pos]),
{
    let digits = decimal_digits(bytes.len());
    let enc = encode_bytes_spec(bytes);
    lemma_decimal_digits_shape(bytes.len());
    lemma_digits_value_of_decimal(bytes.len());
    let colon = pos + digits.len();
    assert(enc.len() == digits.len() + 1 + bytes.len());
    assert forall|i: int| pos <= i < colon implies input[i] != 0x3au8 by {
        lemma_has_at_index(input, pos, enc, i - pos);
        assert(enc[i - pos] == digits[i - pos]);
        assert(is_digit(digits[i - pos]));
    }
    lemma_has_at_index(input, pos, enc, digits.len() as int);
    lemma_find_byte_at(input, pos, colon, 0x3au8);
    lemma_has_at_index(input, pos, enc, 0);
    assert(enc[0] == digits[0]);
    assert(is_digit(digits[0]));
    assert(input.subrange(pos, colon) =~= digits) by {
        assert forall|j: int| 0 <= j < digits.len() implies input[pos + j] == digits[j] by {
            lemma_has_at_index(input, pos, enc, j);
        }
    }
    assert(input.subrange(colon + 1, colon + 1 + bytes.len()) =~= bytes) by {
        assert forall|j: int| 0 <= j < bytes.len() implies input[colon + 1 + j] == bytes[j] by {
            lemma_has_at_index(input, pos, enc, digits.len() as int + 1 + j);
        }
    }
    assert(decimal_in_range(digits, usize::MAX as u64) == Some(bytes.len() as u64));
}

/// Where the input holds the canonical encoding of a well-formed value, the
/// parser reads that value and stops right after it.
pub proof fn lemma_parse_encoded(value: Bencode, input: Seq<u8>, pos: int)
    requires
        well_formed(value),
        has_at(input, pos, encode_spec(value)),
        input.len() <= usize::MAX,
    ensures
        parse_value_spec(input, pos) == Ok::<(Bencode, int), BencodeError>(
            (value, pos + encode_spec(value).len()),
        ),
    decreases value, 0nat,
{
    let enc = encode_spec(value);
    lemma_encoding_starts(value);
    lemma_has_at_index(input, pos, enc, 0);
    match value {
        Bencode::Integer(n) => {
            lemma_parse_encoded_integer(n, input, pos);
        },
        Bencode::Bytes(bytes) => {
            lemma_parse_encoded_bytes(bytes, input, pos);
        },
        Bencode::List(items) => {
            let body = encode_items_from(items, 0) + seq![0x65u8];
            assert(enc =~= seq![0x6cu8] + body);
            lemma_has_at_split(input, pos, seq![0x6cu8], body);
            lemma_parse_encoded_items(items, 0, input, pos + 1, Seq::empty());
            assert(Seq::<Bencode>::empty() + items.subrange(0, items.len() as int) =~= items);
        },
        Bencode::Dict(entries) => {
            let body = encode_entries_from(entries, 0) + seq![0x65u8];
            assert(enc =~= seq![0x64u8] + body);
            lemma_has_at_split(input, pos, seq![0x64u8], body);
            assert(entries.subrange(0, 0) =~= Seq::<(Seq<u8>, Bencode)>::empty());
            lemma_parse_encoded_entries(entries, 0, input, pos + 1);
        },
    }
}

proof fn lemma_parse_encoded_items(
    items: Seq<Bencode>,
    from: int,
    input: Seq<u8>,
    pos: int,
    done: Seq<Bencode>,
)
    requires
        forall|i: int| 0 <= i < items.len() ==> well_formed(#[trigger] items[i]),
        0 <= from <= items.len(),
        has_at(input, pos, encode_items_from(items, from) + seq![0x65u8]),
        input.len() <= usize::MAX,
    ensures
        parse_items_spec(input, pos, done) == Ok::<(Seq<Bencode>, int), BencodeError>(
            (
                done + items.subrange(from, items.len() as int),
                pos + encode_items_from(items, from).len() + 1,
            ),
        ),
    decreases items, items.len() - from,
{
    let rest = encode_items_from(items, from) + seq![0x65u8];
    if from == items.len() {
        lemma_has_at_index(input, pos, rest, 0);
        assert(done + items.subrange(from, items.len() as int) =~= done);
    } else {
        let item = items[from];
        let first = encode_spec(item);
        let tail = encode_items_from(items, from + 1) + seq![0x65u8];
        assert(rest =~= first + tail);
        lemma_encoding_starts(item);
        lemma_has_at_index(input, pos, rest, 0);
        assert(rest[0] == first[0]);
        lemma_has_at_split(input, pos, first, tail);
        lemma_parse_encoded(item, input, pos);
        lemma_parse_encoded_items(items, from + 1, input, pos + first.len(), done.push(item));
        assert(done.push(item) + items.subrange(from + 1, items.len() as int) =~= done
            + items.subrange(from, items.len() as int));
    }
}

proof fn lemma_parse_encoded_entries(
    entries: Seq<(Seq<u8>, Bencode)>,
    from: int,
    input: Seq<u8>,
    pos: int,
)
    requires
        keys_sorted(entries),
        forall|i: int| 0 <= i < entries.len() ==> well_formed((#[trigger] entries[i]).1),
        0 <= from <= entries.len(),
        has_at(input, pos, encode_entries_from(entries, from) + seq![0x65u8]),
        input.len() <= usize::MAX,
    ensures
        parse_entries_spec(input, pos, entries.subrange(0, from)) == Ok::<
            (Seq<(Seq<u8>, Bencode)>, int),
            BencodeError,
        >((entries, pos + encode_entries_from(entries, from).len() + 1)),
    decreases entries, entries.len() - from,
{
    let done = entries.subrange(0, from);
    let rest = encode_entries_from(entries, from) + seq![0x65u8];
    if from == entries.len() {
        lemma_has_at_index(input, pos, rest, 0);
        assert(done =~= entries);
    } else {
        let key = entries[from].0;
        let value = entries[from].1;
        let key_enc = encode_bytes_spec(key);
        let value_enc = encode_spec(value);
        let tail = encode_entries_from(entries, from + 1) + seq![0x65u8];
        assert(rest =~= key_enc + (value_enc + tail));
        lemma_encoding_starts(Bencode::Bytes(key));
        lemma_has_at_index(input, pos, rest, 0);
        assert(rest[0] == key_enc[0]);
        lemma_has_at_split(input, pos, key_enc, value_enc + tail);
        lemma_parse_encoded_bytes(key, input, pos);
        let mid = pos + key_enc.len();
        assert(parse_value_spec(input, pos) == Ok::<(Bencode, int), BencodeError>(
            (Bencode::Bytes(key), mid),
        ));
        lemma_has_at_split(input, mid, value_enc, tail);
        lemma_encoding_starts(value);
        lemma_parse_encoded(value, input, mid);
        let next = mid + value_enc.len();
        assert forall|i: int| 0 <= i < done.len() implies crate::bencode::value::key_lt(
            (#[trigger] done[i]).0,
            key,
        ) by {
            assert(done[i] == entries[i]);
        }
        lemma_dict_insert_last(done, key, value);
        assert(done.push((key, value)) =~= entries.subrange(0, from + 1));
        lemma_parse_encoded_entries(entries, from + 1, input, next);
    }
}

/// Decoding the canonical encoding of a well-formed value gives the value
/// back.
pub proof fn lemma_decode_encode(value: Bencode)
    requires
        well_formed(value),
        encode_spec(value).len() <= usize::MAX,
    ensures
        decode_spec(encode_spec(value)) == Ok::<Bencode, BencodeError>(value),
{
    let enc = encode_spec(value);
    assert(enc.subrange(0, enc.len() as int) =~= enc);
    lemma_parse_encoded(value, enc, 0);
}

/// Encoding what a canonical byte string decodes to gives the same bytes
/// back.
pub proof fn lemma_encode_decode(bytes: Seq<u8>)
    requires
        is_canonical(bytes),
        bytes.len() <= usize::MAX,
    ensures
        decode_spec(bytes) is Ok,
        encode_spec(decode_spec(bytes)->Ok_0) == bytes,
{
    let value = choose|value: Bencode| well_formed(value) && #[trigger] encode_spec(value) == bytes;
    lemma_decode_encode(value);
}

/// What the parser reads is well-formed, and it always moves forward within
/// the input.
pub proof fn lemma_parse_well_formed(input: Seq<u8>, pos: int)
    ensures
        parse_value_spec(input, pos) matches Ok((value, end)) ==> well_formed(value) && 0 <= pos
            < end <= input.len(),
    decreases input.len() - pos, 0nat,
{
    if 0 <= pos < input.len() {
        if input[pos] == 0x69 {
            let end = find_byte_spec(input, pos + 1, 0x65);
            lemma_find_byte_bounds(input, pos + 1, 0x65);
        } else if input[pos] == 0x6c {
            lemma_parse_items_well_formed(input, pos + 1, Seq::empty());
        } else if input[pos] == 0x64 {
            lemma_parse_entries_well_formed(input, pos + 1, Seq::empty());
        } else if is_digit(input[pos]) {
            lemma_find_byte_bounds(input, pos, 0x3a);
        }
    }
}

proof fn lemma_find_byte_bounds(input: Seq<u8>, from: int, byte: u8)
    requires
        0 <= from <= input.len(),
    ensures
        from <= find_byte_spec(input, from, byte) <= input.len(),
    decreases input.len() - from,
{
    if from < input.len() && input[from] != byte {
        lemma_find_byte_bounds(input, from + 1, byte);
    }
}

proof fn lemma_parse_items_well_formed(input: Seq<u8>, pos: int, done: Seq<Bencode>)
    requires
        forall|i: int| 0 <= i < done.len() ==> well_formed(#[trigger] done[i]),
    ensures
        parse_items_spec(input, pos, done) matches Ok((items, end)) ==> 0 <= pos < end
            <= input.len() && forall|i: int|
            0 <= i < items.len() ==> well_formed(#[trigger] items[i]),
    decreases input.len() - pos, 1nat,
{
    if 0 <= pos < input.len() && input[pos] != 0x65 {
        lemma_parse_well_formed(input, pos);
        match parse_value_spec(input, pos) {
            Ok((item, next)) => {
                if pos < next <= input.len() {
                    let more = done.push(item);
                    assert forall|i: int| 0 <= i < more.len() implies well_formed(
                        #[trigger] more[i],
                    ) by {
                        if i < done.len() {
                            assert(more[i] == done[i]);
                        }
                    }
                    lemma_parse_items_well_formed(input, next, more);
                }
            },
            Err(_) => {},
        }
    }
}

proof fn lemma_dict_insert_well_formed(
    entries: Seq<(Seq<u8>, Bencode)>,
    key: Seq<u8>,
    value: Bencode,
)
    requires
        forall|i: int| 0 <= i < entries.len() ==> well_formed((#[trigger] entries[i]).1),
        well_formed(value),
    ensures
        forall|i: int|
            0 <= i < dict_insert(entries, key, value).len() ==> well_formed(
                (#[trigger] dict_insert(entries, key, value)[i]).1,
            ),
{
    let at = insert_position(entries, key, 0);
    lemma_insert_position(entries, key, 0);
    let after = dict_insert(entries, key, value);
    assert forall|i: int| 0 <= i < after.len() implies well_formed((#[trigger] after[i]).1) by {
        if at < entries.len() && entries[at].0 == key {
            if i != at {
                assert(after[i] == entries[i]);
            }
        } else {
            if i < at {
                assert(after[i] == entries[i]);
            } else if i > at {
                assert(after[i] == entries[i - 1]);
            }
        }
    }
}

proof fn lemma_parse_entries_well_formed(input: Seq<u8>, pos: int, done: Seq<(Seq<u8>, Bencode)>)
    requires
        keys_sorted(done),
        forall|i: int| 0 <= i < done.len() ==> well_formed((#[trigger] done[i]).1),
    ensures
        parse_entries_spec(input, pos, done) matches Ok((entries, end)) ==> 0 <= pos < end
            <= input.len() && keys_sorted(entries) && forall|i: int|
            0 <= i < entries.len() ==> well_formed((#[trigger] entries[i]).1),
    decreases input.len() - pos, 1nat,
{
    if 0 <= pos < input.len() && input[pos] != 0x65 {
        lemma_parse_well_formed(input, pos);
        match parse_value_spec(input, pos) {
            Ok((Bencode::Bytes(key), mid)) => {
                if pos < mid <= input.len() {
                    lemma_parse_well_formed(input, mid);
                    match parse_value_spec(input, mid) {
                        Ok((value, next)) => {
                            if mid < next <= input.len() {
                                lemma_dict_insert_sorted(done, key, value);
                                lemma_dict_insert_well_formed(done, key, value);
                                lemma_parse_entries_well_formed(
                                    input,
                                    next,
                                    dict_insert(done, key, value),
                                );
                            }
                        },
                        Err(_) => {},
                    }
                }
            },
            _ => {},
        }
    }
}

proof fn lemma_entry_span_bounds(
    input: Seq<u8>,
    pos: int,
    key: Seq<u8>,
    found: Option<(int, int)>,
)
    requires
        found matches Some((start, end)) ==> 0 <= start < end <= input.len(),
    ensures
        entry_span_spec(input, pos, key, found) matches Ok(Some((start, end))) ==> 0 <= start
            < end <= input.len(),
    decreases input.len() - pos,
{
    if 0 <= pos < input.len() && input[pos] != 0x65 {
        lemma_parse_well_formed(input, pos);
        match parse_value_spec(input, pos) {
            Ok((Bencode::Bytes(name), mid)) => {
                if pos < mid <= input.len() {
                    lemma_parse_well_formed(input, mid);
                    match parse_value_spec(input, mid) {
                        Ok((_, next)) => {
                            if mid < next <= input.len() {
                                lemma_entry_span_bounds(
                                    input,
                                    next,
                                    key,
                                    if name == key {
                                        Some((mid, next))
                                    } else {
                                        found
                                    },
                                );
                            }
                        },
                        Err(_) => {},
                    }
                }
            },
            _ => {},
        }
    }
}

/// Where the value under a key of a dictionary stands lies within the
/// input and is not empty.
pub proof fn lemma_value_span_bounds(input: Seq<u8>, key: Seq<u8>)
    ensures
        value_span_spec(input, key) matches Ok(Some((start, end))) ==> 0 <= start < end
            <= input.len(),
{
    lemma_entry_span_bounds(input, 1, key, None);
}

/// What decodes at all decodes to a well-formed value, so its encoding is
/// canonical.
pub proof fn lemma_decoded_is_canonical(input: Seq<u8>)
    ensures
        decode_spec(input) matches Ok(value) ==> well_formed(value) && is_canonical(
            encode_spec(value),
        ),
{
    lemma_parse_well_formed(input, 0);
}

} // verus!
