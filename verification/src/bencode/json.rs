use vstd::prelude::*;
use crate::bencode::encoder::{encode, encode_spec};
use crate::bencode::value::{
    dict_insert, entry_views, insert_entry, lemma_view_of_children, value_views, Bencode,
    BencodeValue,
};
use crate::utils::bytes::{raw_bytes, RawBytesExt};

verus! {

/// A JSON value, as far as writing it in bencode has to tell its kinds
/// apart.
#[derive(Debug, PartialEq, Eq)]
pub enum JsonValue {
    Null,
    Bool(bool),
    /// A number: the number itself if it is a 64-bit integer, and nothing
    /// for any other number.
    Number(Option<i64>),
    /// A text that holds one byte per character.
    Text(String),
    Array(Vec<JsonValue>),
    /// The members of an object, each a name and a value.
    Object(Vec<(String, JsonValue)>),
}

/// Why a JSON value cannot be written in bencode.
#[derive(Debug, Clone, Copy, PartialEq, Eq, Structural)]
pub enum EncodeError {
    /// A number is no 64-bit integer.
    NotAnInteger,
}

/// The bencoded value that stands for a JSON value, if there is one.
///
/// Null is the empty list, and true and false are 1 and 0. An integer is
/// itself, and no other number can be written. A text is the byte string of
/// its characters, each cut down to a byte. An array is the list of its
/// items, and an object the dictionary of its members, in the order of
/// their names' bytes; of members with the same name the last one stays.
pub open spec fn json_bencode(value: JsonValue) -> Option<Bencode>
    decreases value, 0nat,
{
    match value {
        JsonValue::Null => Some(Bencode::List(Seq::empty())),
        JsonValue::Bool(flag) => Some(
            Bencode::Integer(
                if flag {
                    1
                } else {
                    0
                },
            ),
        ),
        JsonValue::Number(number) => match number {
            Some(n) => Some(Bencode::Integer(n)),
            None => None,
        },
        JsonValue::Text(text) => Some(Bencode::Bytes(raw_bytes(text@))),
        JsonValue::Array(items) => match json_items(items, items.len() as nat) {
            Some(list) => Some(Bencode::List(list)),
            None => None,
        },
        JsonValue::Object(members) => match json_members(members, members.len() as nat) {
            Some(entries) => Some(Bencode::Dict(entries)),
            None => None,
        },
    }
}

/// The bencoded values that stand for the first `n` items of an array, if
/// each of them has one.
pub open spec fn json_items(items: Vec<JsonValue>, n: nat) -> Option<Seq<Bencode>>
    decreases items, n,
{
    if n == 0 || n > items.len() {
        Some(Seq::empty())
    } else {
        match json_items(items, (n - 1) as nat) {
            None => None,
            Some(done) => match json_bencode(items[n - 1]) {
                None => None,
                Some(item) => Some(done.push(item)),
            },
        }
    }
}

/// The dictionary entries that stand for the first `n` members of an
/// object, if the value of each of them can be written.
pub open spec fn json_members(members: Vec<(String, JsonValue)>, n: nat) -> Option<
    Seq<(Seq<u8>, Bencode)>,
>
    decreases members, n,
{
    if n == 0 || n > members.len() {
        Some(Seq::empty())
    } else {
        match json_members(members, (n - 1) as nat) {
            None => None,
            Some(done) => match json_bencode(members[n - 1].1) {
                None => None,
                Some(item) => Some(dict_insert(done, raw_bytes(members[n - 1].0@), item)),
            },
        }
    }
}

proof fn lemma_items_stay_none(items: Vec<JsonValue>, n: nat, m: nat)
    requires
        1 <= n <= m <= items.len(),
        json_items(items, n) is None,
    ensures
        json_items(items, m) is None,
    decreases m - n,
{
    if n < m {
        lemma_items_stay_none(items, n, (m - 1) as nat);
    }
}

proof fn lemma_members_stay_none(members: Vec<(String, JsonValue)>, n: nat, m: nat)
    requires
        1 <= n <= m <= members.len(),
        json_members(members, n) is None,
    ensures
        json_members(members, m) is None,
    decreases m - n,
{
    if n < m {
        lemma_members_stay_none(members, n, (m - 1) as nat);
    }
}

/// The bencoded value that stands for a JSON value, as `json_bencode` says.
///
/// Fails, with `NotAnInteger`, exactly when the value holds, at any depth,
/// a number that is no 64-bit integer.
pub fn to_bencode(value: &JsonValue) -> (converted: Result<BencodeValue, EncodeError>)
    ensures
        match converted {
            Ok(v) => json_bencode(*value) == Some(v@),
            Err(e) => json_bencode(*value) is None && e == EncodeError::NotAnInteger,
        },
    decreases value,
{
    match value {
        JsonValue::Null => {
            let list = BencodeValue::List(Vec::new());
            proof {
                lemma_view_of_children(list);
                assert(list@->List_0 =~= Seq::<Bencode>::empty());
            }
            Ok(list)
        },
        JsonValue::Bool(flag) => Ok(
            BencodeValue::Integer(
                if *flag {
                    1
                } else {
                    0
                },
            ),
        ),
        JsonValue::Number(number) => match number {
            Some(n) => Ok(BencodeValue::Integer(*n)),
            None => Err(EncodeError::NotAnInteger),
        },
        JsonValue::Text(text) => Ok(BencodeValue::Bytes(text.as_str().to_raw_bytes())),
        JsonValue::Array(items) => {
            let mut list: Vec<BencodeValue> = Vec::new();
            let mut i: usize = 0;
            assert(value_views(list@) =~= Seq::<Bencode>::empty());
            while i < items.len()
                invariant
                    i <= items@.len(),
                    value is Array,
                    value->Array_0 == *items,
                    json_items(*items, i as nat) == Some(value_views(list@)),
                decreases items@.len() - i,
            {
                assert(decreases_to!(*items => items[i as int]));
                assert(decreases_to!(*value => value->Array_0));
                match to_bencode(&items[i]) {
                    Ok(item) => {
                        let ghost before = value_views(list@);
                        list.push(item);
                        assert(value_views(list@) =~= before.push(item@));
                    },
                    Err(e) => {
                        proof {
                            lemma_items_stay_none(*items, (i + 1) as nat, items@.len());
                        }
                        return Err(e);
                    },
                }
                i += 1;
            }
            let converted = BencodeValue::List(list);
            proof {
                lemma_view_of_children(converted);
            }
            Ok(converted)
        },
        JsonValue::Object(members) => {
            let mut entries: Vec<(Vec<u8>, BencodeValue)> = Vec::new();
            let mut i: usize = 0;
            assert(entry_views(entries@) =~= Seq::<(Seq<u8>, Bencode)>::empty());
            while i < members.len()
                invariant
                    i <= members@.len(),
                    value is Object,
                    value->Object_0 == *members,
                    json_members(*members, i as nat) == Some(entry_views(entries@)),
                decreases members@.len() - i,
            {
                assert(decreases_to!(*members => members[i as int]));
                assert(decreases_to!(*value => value->Object_0));
                assert(decreases_to!(members[i as int] => members[i as int].1));
                match to_bencode(&members[i].1) {
                    Ok(item) => {
                        insert_entry(&mut entries, members[i].0.as_str().to_raw_bytes(), item);
                    },
                    Err(e) => {
                        proof {
                            lemma_members_stay_none(*members, (i + 1) as nat, members@.len());
                        }
                        return Err(e);
                    },
                }
                i += 1;
            }
            let converted = BencodeValue::Dict(entries);
            proof {
                lemma_view_of_children(converted);
            }
            Ok(converted)
        },
    }
}

/// Writes a JSON value in canonical bencode: the encoding of the bencoded
/// value that stands for it.
///
/// Fails, with `NotAnInteger`, exactly when the value holds, at any depth,
/// a number that is no 64-bit integer.
pub fn encode_json(data: &JsonValue) -> (bytes: Result<Vec<u8>, EncodeError>)
    ensures
        match bytes {
            Ok(b) => json_bencode(*data) matches Some(v) && b@ == encode_spec(v),
            Err(e) => json_bencode(*data) is None && e == EncodeError::NotAnInteger,
        },
{
    match to_bencode(data) {
        Ok(value) => Ok(encode(&value)),
        Err(e) => Err(e),
    }
}

} // verus!
