use vstd::prelude::*;
use crate::bencode::value::{entry_views, lemma_view_of_children, value_views, Bencode, BencodeValue};
use crate::utils::bytes::extend_bytes;
use crate::utils::decimal::{decimal_digits, push_decimal, signed_decimal};

verus! {

/// A byte string as bencode writes it: the length in decimal, a colon, the
/// bytes.
pub open spec fn encode_bytes_spec(bytes: Seq<u8>) -> Seq<u8> {
    decimal_digits(bytes.len()) + seq![0x3au8] + bytes
}

/// The canonical encoding of a value. Integers are `i`, the number in
/// decimal, `e`; lists are `l`, the items, `e`; dictionaries are `d`, each
/// key and its value in the order of the entries, `e`.
pub open spec fn encode_spec(value: Bencode) -> Seq<u8>
    decreases value, 0nat,
{
    match value {
        Bencode::Integer(n) => seq![0x69u8] + signed_decimal(n as int) + seq![0x65u8],
        Bencode::Bytes(bytes) => encode_bytes_spec(bytes),
        Bencode::List(items) => seq![0x6cu8] + encode_items_from(items, 0) + seq![0x65u8],
        Bencode::Dict(entries) => seq![0x64u8] + encode_entries_from(entries, 0) + seq![0x65u8],
    }
}

/// The encodings of the items of a list from position `from` on, one after
/// the other.
pub open spec fn encode_items_from(items: Seq<Bencode>, from: int) -> Seq<u8>
    decreases items, items.len() - from,
{
    if from < 0 || from >= items.len() {
        Seq::empty()
    } else {
        encode_spec(items[from]) + encode_items_from(items, from + 1)
    }
}

/// The encodings of the entries of a dictionary from position `from` on:
/// each key as a byte string, then its value.
pub open spec fn encode_entries_from(entries: Seq<(Seq<u8>, Bencode)>, from: int) -> Seq<u8>
    decreases entries, entries.len() - from,
{
    if from < 0 || from >= entries.len() {
        Seq::empty()
    } else {
        encode_bytes_spec(entries[from].0) + encode_spec(entries[from].1) + encode_entries_from(
            entries,
            from + 1,
        )
    }
}

fn push_signed(out: &mut Vec<u8>, n: i64)
    ensures
        final(out)@ == old(out)@ + signed_decimal(n as int),
{
    if n < 0 {
        out.push(0x2d);
        let magnitude: u64 = if n == i64::MIN {
            0x8000_0000_0000_0000
        } else {
            (-n) as u64
        };
        push_decimal(out, magnitude);
        assert(out@ =~= old(out)@ + signed_decimal(n as int));
    } else {
        push_decimal(out, n as u64);
    }
}

fn push_byte_string(out: &mut Vec<u8>, bytes: &[u8])
    ensures
        final(out)@ == old(out)@ + encode_bytes_spec(bytes@),
{
    push_decimal(out, bytes.len() as u64);
    out.push(0x3a);
    extend_bytes(out, bytes);
    assert(out@ =~= old(out)@ + encode_bytes_spec(bytes@));
}

/// Appends the canonical encoding of `value` to `out`.
pub fn encode_into(value: &BencodeValue, out: &mut Vec<u8>)
    ensures
        final(out)@ == old(out)@ + encode_spec(value@),
    decreases value,
{
    let ghost start = out@;
    match value {
        BencodeValue::Integer(n) => {
            out.push(0x69);
            push_signed(out, *n);
            out.push(0x65);
            assert(out@ =~= start + encode_spec(value@));
        },
        BencodeValue::Bytes(bytes) => {
            push_byte_string(out, bytes.as_slice());
        },
        BencodeValue::List(items) => {
            proof {
                lemma_view_of_children(*value);
            }
            let ghost views = value_views(items@);
            out.push(0x6c);
            let mut i: usize = 0;
            while i < items.len()
                invariant
                    i <= items@.len(),
                    *value == BencodeValue::List(*items),
                    views == value_views(items@),
                    out@ + encode_items_from(views, i as int) == start + seq![0x6cu8]
                        + encode_items_from(views, 0),
                decreases items@.len() - i,
            {
                let ghost before = out@;
                assert(decreases_to!(*items => items[i as int]));
                assert(value->List_0 == *items);
                assert(decreases_to!(*value => value->List_0));
                encode_into(&items[i], out);
                proof {
                    assert(views[i as int] == items@[i as int]@);
                    assert(before + encode_items_from(views, i as int) =~= out@
                        + encode_items_from(views, i + 1));
                }
                i += 1;
            }
            out.push(0x65);
            assert(out@ =~= start + encode_spec(value@));
        },
        BencodeValue::Dict(entries) => {
            proof {
                lemma_view_of_children(*value);
            }
            let ghost views = entry_views(entries@);
            out.push(0x64);
            let mut i: usize = 0;
            while i < entries.len()
                invariant
                    i <= entries@.len(),
                    *value == BencodeValue::Dict(*entries),
                    views == entry_views(entries@),
                    out@ + encode_entries_from(views, i as int) == start + seq![0x64u8]
                        + encode_entries_from(views, 0),
                decreases entries@.len() - i,
            {
                let ghost before = out@;
                push_byte_string(out, entries[i].0.as_slice());
                assert(decreases_to!(*entries => entries[i as int]));
                assert(value->Dict_0 == *entries);
                assert(decreases_to!(*value => value->Dict_0));
                assert(decreases_to!(entries[i as int] => entries[i as int].1));
                encode_into(&entries[i].1, out);
                proof {
                    assert(views[i as int] == (entries@[i as int].0@, entries@[i as int].1@));
                    assert(before + encode_entries_from(views, i as int) =~= out@
                        + encode_entries_from(views, i + 1));
                }
                i += 1;
            }
            out.push(0x65);
            assert(out@ =~= start + encode_spec(value@));
        },
    }
}

/// The canonical encoding of `data`.
pub fn encode(data: &BencodeValue) -> (bytes: Vec<u8>)
    ensures
        bytes@ == encode_spec(data@),
{
    let mut out: Vec<u8> = Vec::new();
    encode_into(data, &mut out);
    assert(out@ =~= encode_spec(data@));
    out
}

} // verus!
