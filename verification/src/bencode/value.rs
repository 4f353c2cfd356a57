use vstd::prelude::*;
use crate::utils::bytes::bytes_equal;

verus! {

/// A bencoded value as a mathematical value.
pub enum Bencode {
    Integer(i64),
    Bytes(Seq<u8>),
    List(Seq<Bencode>),
    Dict(Seq<(Seq<u8>, Bencode)>),
}

/// A bencoded value: an integer, a byte string, a list of values, or a
/// dictionary from byte strings to values.
///
/// A dictionary is held as its entries. The parser and `insert_entry` keep
/// them in the order of their keys, each key once.
#[derive(Debug, PartialEq, Eq)]
pub enum BencodeValue {
    Integer(i64),
    Bytes(Vec<u8>),
    List(Vec<BencodeValue>),
    Dict(Vec<(Vec<u8>, BencodeValue)>),
}

/// The views of a list of values, in order.
pub open spec fn value_views(items: Seq<BencodeValue>) -> Seq<Bencode> {
    Seq::new(items.len(), |i: int| items[i]@)
}

/// The views of a list of entries, in order.
pub open spec fn entry_views(entries: Seq<(Vec<u8>, BencodeValue)>) -> Seq<(Seq<u8>, Bencode)> {
    Seq::new(entries.len(), |i: int| (entries[i].0@, entries[i].1@))
}

impl View for BencodeValue {
    type V = Bencode;

    open spec fn view(&self) -> Bencode {
        view_of(*self)
    }
}

/// The mathematical value of a bencoded value.
pub open spec fn view_of(value: BencodeValue) -> Bencode
    decreases value, 0nat,
{
    match value {
        BencodeValue::Integer(n) => Bencode::Integer(n),
        BencodeValue::Bytes(bytes) => Bencode::Bytes(bytes@),
        BencodeValue::List(items) => Bencode::List(first_views(items, items.len() as nat)),
        BencodeValue::Dict(entries) => Bencode::Dict(
            first_entry_views(entries, entries.len() as nat),
        ),
    }
}

/// The views of the first `n` items of a list.
pub open spec fn first_views(items: Vec<BencodeValue>, n: nat) -> Seq<Bencode>
    decreases items, n,
{
    if n == 0 || n > items.len() {
        Seq::empty()
    } else {
        first_views(items, (n - 1) as nat).push(view_of(items[n - 1]))
    }
}

/// The views of the first `n` entries of a dictionary.
pub open spec fn first_entry_views(entries: Vec<(Vec<u8>, BencodeValue)>, n: nat) -> Seq<
    (Seq<u8>, Bencode),
>
    decreases entries, n,
{
    if n == 0 || n > entries.len() {
        Seq::empty()
    } else {
        first_entry_views(entries, (n - 1) as nat).push(
            (entries[n - 1].0@, view_of(entries[n - 1].1)),
        )
    }
}

proof fn lemma_first_views(items: Vec<BencodeValue>, n: nat)
    requires
        n <= items.len(),
    ensures
        first_views(items, n) == value_views(items@.subrange(0, n as int)),
    decreases n,
{
    if n > 0 {
        lemma_first_views(items, (n - 1) as nat);
        assert(items@.subrange(0, n - 1) =~= items@.subrange(0, n as int).drop_last());
    }
    assert(first_views(items, n) =~= value_views(items@.subrange(0, n as int)));
}

proof fn lemma_first_entry_views(entries: Vec<(Vec<u8>, BencodeValue)>, n: nat)
    requires
        n <= entries.len(),
    ensures
        first_entry_views(entries, n) == entry_views(entries@.subrange(0, n as int)),
    decreases n,
{
    if n > 0 {
        lemma_first_entry_views(entries, (n - 1) as nat);
        assert(entries@.subrange(0, n - 1) =~= entries@.subrange(0, n as int).drop_last());
    }
    assert(first_entry_views(entries, n) =~= entry_views(entries@.subrange(0, n as int)));
}

/// The view of a list is the list of the views, and likewise for the entries
/// of a dictionary.
pub proof fn lemma_view_of_children(value: BencodeValue)
    ensures
        value matches BencodeValue::List(items) ==> value@ == Bencode::List(value_views(items@)),
        value matches BencodeValue::Dict(entries) ==> value@ == Bencode::Dict(
            entry_views(entries@),
        ),
{
    match value {
        BencodeValue::List(items) => {
            lemma_first_views(items, items.len() as nat);
            assert(items@.subrange(0, items@.len() as int) =~= items@);
        },
        BencodeValue::Dict(entries) => {
            lemma_first_entry_views(entries, entries.len() as nat);
            assert(entries@.subrange(0, entries@.len() as int) =~= entries@);
        },
        _ => {},
    }
}

/// The order of dictionary keys: byte by byte, a proper prefix first.
pub open spec fn key_lt(a: Seq<u8>, b: Seq<u8>) -> bool
    decreases a.len(),
{
    if b.len() == 0 {
        false
    } else if a.len() == 0 {
        true
    } else if a[0] != b[0] {
        a[0] < b[0]
    } else {
        key_lt(a.drop_first(), b.drop_first())
    }
}

/// No key comes before itself.
pub proof fn lemma_key_lt_irreflexive(a: Seq<u8>)
    ensures
        !key_lt(a, a),
    decreases a.len(),
{
    if a.len() > 0 {
        lemma_key_lt_irreflexive(a.drop_first());
    }
}

/// Of two different keys one comes before the other.
pub proof fn lemma_key_lt_total(a: Seq<u8>, b: Seq<u8>)
    ensures
        a == b || key_lt(a, b) || key_lt(b, a),
    decreases a.len(),
{
    if a.len() == 0 || b.len() == 0 {
        if a.len() == 0 && b.len() == 0 {
            assert(a =~= b);
        }
    } else if a[0] == b[0] {
        lemma_key_lt_total(a.drop_first(), b.drop_first());
        if a.drop_first() == b.drop_first() {
            assert(a =~= seq![a[0]] + a.drop_first());
            assert(b =~= seq![b[0]] + b.drop_first());
        }
    }
}

/// The order of keys is transitive.
pub proof fn lemma_key_lt_transitive(a: Seq<u8>, b: Seq<u8>, c: Seq<u8>)
    requires
        key_lt(a, b),
        key_lt(b, c),
    ensures
        key_lt(a, c),
    decreases a.len(),
{
    if a.len() > 0 && a[0] == b[0] && b[0] == c[0] {
        lemma_key_lt_transitive(a.drop_first(), b.drop_first(), c.drop_first());
    }
}

/// Whether the keys of a list of entries rise strictly.
pub open spec fn keys_sorted(entries: Seq<(Seq<u8>, Bencode)>) -> bool {
    forall|i: int, j: int| 0 <= i < j < entries.len() ==> key_lt(entries[i].0, entries[j].0)
}

/// Whether a value is in canonical form: in every dictionary, at any depth,
/// the keys rise strictly.
pub open spec fn well_formed(value: Bencode) -> bool
    decreases value,
{
    match value {
        Bencode::Integer(_) => true,
        Bencode::Bytes(_) => true,
        Bencode::List(items) => forall|i: int|
            0 <= i < items.len() ==> well_formed(#[trigger] items[i]),
        Bencode::Dict(entries) => keys_sorted(entries) && forall|i: int|
            0 <= i < entries.len() ==> well_formed((#[trigger] entries[i]).1),
    }
}

/// Where an entry with the given key belongs among entries in key order:
/// the first position at or after `from` whose key does not come before it.
pub open spec fn insert_position(entries: Seq<(Seq<u8>, Bencode)>, key: Seq<u8>, from: int) -> int
    decreases entries.len() - from,
{
    if from < 0 || from >= entries.len() {
        entries.len() as int
    } else if key_lt(entries[from].0, key) {
        insert_position(entries, key, from + 1)
    } else {
        from
    }
}

/// The entries after an insertion: the value replaces that of an equal key
/// where the new entry belongs, and else the entry is put in there.
pub open spec fn dict_insert(entries: Seq<(Seq<u8>, Bencode)>, key: Seq<u8>, value: Bencode) -> Seq<
    (Seq<u8>, Bencode),
> {
    let at = insert_position(entries, key, 0);
    if at < entries.len() && entries[at].0 == key {
        entries.update(at, (key, value))
    } else {
        entries.insert(at, (key, value))
    }
}

/// The first position at or after `from` that holds the key, or the number
/// of entries if none does.
pub open spec fn key_position(entries: Seq<(Seq<u8>, Bencode)>, key: Seq<u8>, from: int) -> int
    decreases entries.len() - from,
{
    if from < 0 || from >= entries.len() {
        entries.len() as int
    } else if entries[from].0 == key {
        from
    } else {
        key_position(entries, key, from + 1)
    }
}

/// The value that the first entry with the given key holds.
pub open spec fn dict_get(entries: Seq<(Seq<u8>, Bencode)>, key: Seq<u8>) -> Option<Bencode> {
    let at = key_position(entries, key, 0);
    if at < entries.len() {
        Some(entries[at].1)
    } else {
        None
    }
}

/// What is known of `insert_position`: it lies between `from` and the end,
/// every key from `from` up to it comes before the given key, and the key
/// at it, if any, does not.
pub proof fn lemma_insert_position(entries: Seq<(Seq<u8>, Bencode)>, key: Seq<u8>, from: int)
    requires
        0 <= from <= entries.len(),
    ensures
        from <= insert_position(entries, key, from) <= entries.len(),
        forall|i: int|
            from <= i < insert_position(entries, key, from) ==> key_lt(
                (#[trigger] entries[i]).0,
                key,
            ),
        insert_position(entries, key, from) < entries.len() ==> !key_lt(
            entries[insert_position(entries, key, from)].0,
            key,
        ),
    decreases entries.len() - from,
{
    if from < entries.len() && key_lt(entries[from].0, key) {
        lemma_insert_position(entries, key, from + 1);
    }
}

/// An insertion into entries in key order leaves them in key order.
pub proof fn lemma_dict_insert_sorted(entries: Seq<(Seq<u8>, Bencode)>, key: Seq<u8>, value: Bencode)
    requires
        keys_sorted(entries),
    ensures
        keys_sorted(dict_insert(entries, key, value)),
{
    let at = insert_position(entries, key, 0);
    lemma_insert_position(entries, key, 0);
    let after = dict_insert(entries, key, value);
    if at < entries.len() && entries[at].0 == key {
        assert forall|i: int, j: int| 0 <= i < j < after.len() implies key_lt(
            after[i].0,
            after[j].0,
        ) by {
            assert(after[i].0 == entries[i].0);
            assert(after[j].0 == entries[j].0);
        }
    } else {
        assert forall|i: int, j: int| 0 <= i < j < after.len() implies key_lt(
            after[i].0,
            after[j].0,
        ) by {
            if j < at {
                assert(after[i] == entries[i] && after[j] == entries[j]);
            } else if j == at {
                assert(after[i] == entries[i]);
            } else if i < at {
                assert(after[i] == entries[i] && after[j] == entries[j - 1]);
            } else if i == at {
                // The key comes before the entry that it displaced, and so
                // before all that follow.
                lemma_key_lt_total(entries[at].0, key);
                assert(after[j] == entries[j - 1]);
                if j - 1 > at {
                    lemma_key_lt_transitive(key, entries[at].0, entries[j - 1].0);
                }
            } else {
                assert(after[i] == entries[i - 1] && after[j] == entries[j - 1]);
            }
        }
    }
}

/// An entry whose key comes after all the others goes to the end.
pub proof fn lemma_dict_insert_last(entries: Seq<(Seq<u8>, Bencode)>, key: Seq<u8>, value: Bencode)
    requires
        forall|i: int| 0 <= i < entries.len() ==> key_lt((#[trigger] entries[i]).0, key),
    ensures
        dict_insert(entries, key, value) == entries.push((key, value)),
{
    lemma_insert_position(entries, key, 0);
    let at = insert_position(entries, key, 0);
    if at < entries.len() {
        assert(key_lt(entries[at].0, key));
    }
    assert(entries.insert(at, (key, value)) =~= entries.push((key, value)));
}

/// Whether key `a` comes before key `b`.
pub fn key_before(a: &[u8], b: &[u8]) -> (before: bool)
    ensures
        before == key_lt(a@, b@),
{
    let mut i: usize = 0;
    assert(a@.subrange(0, a@.len() as int) =~= a@);
    assert(b@.subrange(0, b@.len() as int) =~= b@);
    while i < a.len() && i < b.len()
        invariant
            i <= a@.len(),
            i <= b@.len(),
            key_lt(a@, b@) == key_lt(
                a@.subrange(i as int, a@.len() as int),
                b@.subrange(i as int, b@.len() as int),
            ),
        decreases a@.len() - i,
    {
        let ghost ra = a@.subrange(i as int, a@.len() as int);
        let ghost rb = b@.subrange(i as int, b@.len() as int);
        assert(ra[0] == a@[i as int] && rb[0] == b@[i as int]);
        if a[i] != b[i] {
            return a[i] < b[i];
        }
        assert(ra.drop_first() =~= a@.subrange(i + 1, a@.len() as int));
        assert(rb.drop_first() =~= b@.subrange(i + 1, b@.len() as int));
        i += 1;
    }
    i < b.len()
}

impl BencodeValue {
    /// The integer that this value is, if it is one.
    pub fn as_integer(&self) -> (n: Option<i64>)
        ensures
            n == (match self@ {
                Bencode::Integer(i) => Some(i),
                _ => None,
            }),
    {
        match self {
            BencodeValue::Integer(n) => Some(*n),
            _ => None,
        }
    }

    /// The byte string that this value is, if it is one.
    pub fn as_bytes(&self) -> (bytes: Option<&Vec<u8>>)
        ensures
            match bytes {
                Some(b) => self@ == Bencode::Bytes(b@),
                None => !(self@ is Bytes),
            },
    {
        match self {
            BencodeValue::Bytes(b) => Some(b),
            _ => None,
        }
    }

    /// The value under a key of this dictionary: that of the first entry
    /// with the key. `None` if this is no dictionary or has no such key.
    pub fn get(&self, key: &[u8]) -> (found: Option<&BencodeValue>)
        ensures
            match found {
                Some(v) => self@ matches Bencode::Dict(entries) && dict_get(entries, key@) == Some(
                    v@,
                ),
                None => self@ matches Bencode::Dict(entries) ==> dict_get(entries, key@) is None,
            },
    {
        match self {
            BencodeValue::Dict(entries) => {
                proof {
                    lemma_view_of_children(*self);
                }
                let ghost views = entry_views(entries@);
                let mut i: usize = 0;
                while i < entries.len()
                    invariant
                        i <= entries@.len(),
                        views == entry_views(entries@),
                        self@ == Bencode::Dict(views),
                        key_position(views, key@, 0) == key_position(views, key@, i as int),
                    decreases entries@.len() - i,
                {
                    assert(views[i as int].0 == entries@[i as int].0@);
                    if bytes_equal(entries[i].0.as_slice(), key) {
                        assert(views[i as int].1 == entries@[i as int].1@);
                        return Some(&entries[i].1);
                    }
                    i += 1;
                }
                None
            },
            _ => None,
        }
    }
}

/// Puts an entry into the entries of a dictionary, as `dict_insert` says.
pub fn insert_entry(entries: &mut Vec<(Vec<u8>, BencodeValue)>, key: Vec<u8>, value: BencodeValue)
    ensures
        entry_views(final(entries)@) == dict_insert(entry_views(old(entries)@), key@, value@),
{
    let ghost views = entry_views(entries@);
    let mut at: usize = 0;
    loop
        invariant
            at <= entries@.len(),
            entries@ == old(entries)@,
            views == entry_views(entries@),
            insert_position(views, key@, 0) == insert_position(views, key@, at as int),
        ensures
            at <= entries@.len(),
            entries@ == old(entries)@,
            at == insert_position(views, key@, 0),
        decreases entries@.len() - at,
    {
        if at >= entries.len() {
            break;
        }
        assert(views[at as int].0 == entries@[at as int].0@);
        if !key_before(entries[at].0.as_slice(), key.as_slice()) {
            break;
        }
        at += 1;
    }
    let replace = at < entries.len() && bytes_equal(entries[at].0.as_slice(), key.as_slice());
    assert(replace == (at < views.len() && views[at as int].0 == key@));
    if replace {
        entries[at] = (key, value);
        assert(entry_views(entries@) =~= views.update(at as int, (key@, value@)));
    } else {
        entries.insert(at, (key, value));
        assert(entry_views(entries@) =~= views.insert(at as int, (key@, value@)));
    }
}

} // verus!
