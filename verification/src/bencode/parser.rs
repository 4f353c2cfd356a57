use vstd::prelude::*;
use vstd::string::StringSliceAdditionalSpecFns;
use crate::bencode::value::{
    dict_insert, entry_views, insert_entry, lemma_view_of_children, value_views, Bencode,
    BencodeValue,
};
use crate::utils::bytes::{bytes_equal, copy_range};
use crate::utils::decimal::{decimal_in_range, is_digit, parse_decimal};

verus! {

/// Why bytes are not a bencoded value.
#[derive(Debug, Clone, Copy, PartialEq, Eq, Structural)]
pub enum BencodeError {
    /// A value was expected where the input ends.
    UnexpectedEnd,
    /// A value starts with a byte that starts none.
    UnhandledPrefix,
    /// A byte string's length is not followed by a colon.
    MissingColon,
    /// A byte string's length is not a decimal number that fits `usize`.
    InvalidLength,
    /// A byte string is longer than what is left of the input.
    LengthExceedsInput,
    /// An integer is not closed by `e`.
    MissingIntegerEnd,
    /// An integer is not a decimal number that fits `i64`.
    InvalidInteger,
    /// A list is not closed by `e`.
    UnterminatedList,
    /// A dictionary is not closed by `e`.
    UnterminatedDictionary,
    /// A dictionary key is not a byte string.
    NonStringKey,
    /// Bytes follow the value.
    TrailingData,
}

/// The first position at or after `from` that holds `byte`, or the length
/// of the input if none does.
pub open spec fn find_byte_spec(input: Seq<u8>, from: int, byte: u8) -> int
    decreases input.len() - from,
{
    if from < 0 || from >= input.len() {
        input.len() as int
    } else if input[from] == byte {
        from
    } else {
        find_byte_spec(input, from + 1, byte)
    }
}

/// The number that the text of an integer writes: an optional sign, then
/// digits, at least one, that stay within `i64`.
pub open spec fn integer_of_text(text: Seq<u8>) -> Option<i64> {
    if text.len() == 0 {
        None
    } else {
        let negative = text[0] == 0x2d;
        let signed = negative || text[0] == 0x2b;
        let digits = if signed {
            text.subrange(1, text.len() as int)
        } else {
            text
        };
        let max = if negative {
            0x8000_0000_0000_0000u64
        } else {
            0x7fff_ffff_ffff_ffffu64
        };
        match decimal_in_range(digits, max) {
            None => None,
            Some(m) => Some(
                if negative {
                    (-(m as int)) as i64
                } else {
                    m as i64
                },
            ),
        }
    }
}

/// An integer at `pos`: `i`, the text of the number, `e`.
pub open spec fn parse_integer_spec(input: Seq<u8>, pos: int) -> Result<(Bencode, int), BencodeError> {
    let end = find_byte_spec(input, pos + 1, 0x65);
    if end >= input.len() {
        Err(BencodeError::MissingIntegerEnd)
    } else {
        match integer_of_text(input.subrange(pos + 1, end)) {
            None => Err(BencodeError::InvalidInteger),
            Some(n) => Ok((Bencode::Integer(n), end + 1)),
        }
    }
}

/// A byte string at `pos`: its length in decimal, a colon, so many bytes.
pub open spec fn parse_bytes_spec(input: Seq<u8>, pos: int) -> Result<(Bencode, int), BencodeError> {
    let colon = find_byte_spec(input, pos, 0x3a);
    if colon >= input.len() {
        Err(BencodeError::MissingColon)
    } else {
        match decimal_in_range(input.subrange(pos, colon), usize::MAX as u64) {
            None => Err(BencodeError::InvalidLength),
            Some(n) => {
                if colon + 1 + n > input.len() {
                    Err(BencodeError::LengthExceedsInput)
                } else {
                    Ok((Bencode::Bytes(input.subrange(colon + 1, colon + 1 + n)), colon + 1 + n))
                }
            },
        }
    }
}

/// The value that starts at `pos`, and the position after it.
pub open spec fn parse_value_spec(input: Seq<u8>, pos: int) -> Result<(Bencode, int), BencodeError>
    decreases input.len() - pos, 0nat,
{
    if pos < 0 || pos >= input.len() {
        Err(BencodeError::UnexpectedEnd)
    } else if input[pos] == 0x69 {
        parse_integer_spec(input, pos)
    } else if input[pos] == 0x6c {
        match parse_items_spec(input, pos + 1, Seq::empty()) {
            Ok((items, end)) => Ok((Bencode::List(items), end)),
            Err(e) => Err(e),
        }
    } else if input[pos] == 0x64 {
        match parse_entries_spec(input, pos + 1, Seq::empty()) {
            Ok((entries, end)) => Ok((Bencode::Dict(entries), end)),
            Err(e) => Err(e),
        }
    } else if is_digit(input[pos]) {
        parse_bytes_spec(input, pos)
    } else {
        Err(BencodeError::UnhandledPrefix)
    }
}

/// The rest of a list from `pos`, after the items in `done`: values up to
/// the closing `e`.
pub open spec fn parse_items_spec(input: Seq<u8>, pos: int, done: Seq<Bencode>) -> Result<
    (Seq<Bencode>, int),
    BencodeError,
>
    decreases input.len() - pos, 1nat,
{
    if pos < 0 || pos >= input.len() {
        Err(BencodeError::UnterminatedList)
    } else if input[pos] == 0x65 {
        Ok((done, pos + 1))
    } else {
        match parse_value_spec(input, pos) {
            Err(e) => Err(e),
            Ok((item, next)) => {
                if next <= pos || next > input.len() {
                    Err(BencodeError::UnexpectedEnd)
                } else {
                    parse_items_spec(input, next, done.push(item))
                }
            },
        }
    }
}

/// The rest of a dictionary from `pos`, after the entries in `done`: keys,
/// each a byte string, and values in turn up to the closing `e`. Each entry
/// goes where its key belongs; a key that occurs again replaces the value.
pub open spec fn parse_entries_spec(
    input: Seq<u8>,
    pos: int,
    done: Seq<(Seq<u8>, Bencode)>,
) -> Result<(Seq<(Seq<u8>, Bencode)>, int), BencodeError>
    decreases input.len() - pos, 1nat,
{
    if pos < 0 || pos >= input.len() {
        Err(BencodeError::UnterminatedDictionary)
    } else if input[pos] == 0x65 {
        Ok((done, pos + 1))
    } else {
        match parse_value_spec(input, pos) {
            Err(e) => Err(e),
            Ok((Bencode::Bytes(key), mid)) => {
                if mid <= pos || mid > input.len() {
                    Err(BencodeError::UnexpectedEnd)
                } else {
                    match parse_value_spec(input, mid) {
                        Err(e) => Err(e),
                        Ok((value, next)) => {
                            if next <= mid || next > input.len() {
                                Err(BencodeError::UnexpectedEnd)
                            } else {
                                parse_entries_spec(input, next, dict_insert(done, key, value))
                            }
                        },
                    }
                }
            },
            Ok(_) => Err(BencodeError::NonStringKey),
        }
    }
}

/// The value that the whole input writes.
pub open spec fn decode_spec(input: Seq<u8>) -> Result<Bencode, BencodeError> {
    match parse_value_spec(input, 0) {
        Err(e) => Err(e),
        Ok((value, end)) => {
            if end == input.len() {
                Ok(value)
            } else {
                Err(BencodeError::TrailingData)
            }
        },
    }
}

/// Whether an exec parse result is the given spec result.
pub open spec fn parsed_as(
    outcome: Result<(BencodeValue, usize), BencodeError>,
    expected: Result<(Bencode, int), BencodeError>,
) -> bool {
    match outcome {
        Ok((value, end)) => expected == Ok::<(Bencode, int), BencodeError>((value@, end as int)),
        Err(e) => expected == Err::<(Bencode, int), BencodeError>(e),
    }
}

/// The first position at or after `from` that holds `byte`, or the length
/// of the input.
pub fn find_byte(input: &[u8], from: usize, byte: u8) -> (at: usize)
    requires
        from <= input@.len(),
    ensures
        at == find_byte_spec(input@, from as int, byte),
        from <= at <= input@.len(),
        at < input@.len() ==> input@[at as int] == byte,
        forall|i: int| from <= i < at ==> input@[i] != byte,
{
    let mut at: usize = from;
    while at < input.len() && input[at] != byte
        invariant
            from <= at <= input@.len(),
            find_byte_spec(input@, from as int, byte) == find_byte_spec(input@, at as int, byte),
            forall|i: int| from <= i < at ==> input@[i] != byte,
        decreases input@.len() - at,
    {
        at += 1;
    }
    at
}

fn parse_integer_at(input: &[u8], pos: usize) -> (outcome: Result<
    (BencodeValue, usize),
    BencodeError,
>)
    requires
        pos < input@.len(),
    ensures
        parsed_as(outcome, parse_integer_spec(input@, pos as int)),
        outcome matches Ok((_, end)) ==> pos < end <= input@.len(),
{
    let len: usize = input.len();
    let start: usize = pos + 1;
    let end: usize = find_byte(input, start, 0x65);
    if end >= len {
        return Err(BencodeError::MissingIntegerEnd);
    }
    let ghost text = input@.subrange(start as int, end as int);
    if start == end {
        return Err(BencodeError::InvalidInteger);
    }
    let first: u8 = input[start];
    assert(first == text[0]);
    let negative: bool = first == 0x2d;
    let signed: bool = negative || first == 0x2b;
    let digits_start: usize = if signed {
        start + 1
    } else {
        start
    };
    let max: u64 = if negative {
        0x8000_0000_0000_0000
    } else {
        0x7fff_ffff_ffff_ffff
    };
    proof {
        if signed {
            assert(input@.subrange(digits_start as int, end as int) =~= text.subrange(
                1,
                text.len() as int,
            ));
        }
    }
    match parse_decimal(input, digits_start, end, max) {
        None => Err(BencodeError::InvalidInteger),
        Some(m) => {
            let n: i64 = if negative {
                if m == 0x8000_0000_0000_0000 {
                    i64::MIN
                } else {
                    -(m as i64)
                }
            } else {
                m as i64
            };
            Ok((BencodeValue::Integer(n), end + 1))
        },
    }
}

fn parse_bytes_at(input: &[u8], pos: usize) -> (outcome: Result<
    (BencodeValue, usize),
    BencodeError,
>)
    requires
        pos < input@.len(),
    ensures
        parsed_as(outcome, parse_bytes_spec(input@, pos as int)),
        outcome matches Ok((_, end)) ==> pos < end <= input@.len(),
{
    let colon: usize = find_byte(input, pos, 0x3a);
    if colon >= input.len() {
        return Err(BencodeError::MissingColon);
    }
    match parse_decimal(input, pos, colon, usize::MAX as u64) {
        None => Err(BencodeError::InvalidLength),
        Some(n) => {
            let n: usize = n as usize;
            if n > input.len() - (colon + 1) {
                return Err(BencodeError::LengthExceedsInput);
            }
            let end: usize = colon + 1 + n;
            Ok((BencodeValue::Bytes(copy_range(input, colon + 1, end)), end))
        },
    }
}

/// Parses the value that starts at `pos`; returns it with the position
/// after it.
pub fn parse_at(input: &[u8], pos: usize) -> (outcome: Result<(BencodeValue, usize), BencodeError>)
    ensures
        parsed_as(outcome, parse_value_spec(input@, pos as int)),
        outcome matches Ok((_, end)) ==> pos < end <= input@.len(),
    decreases input@.len() - pos, 0nat,
{
    if pos >= input.len() {
        return Err(BencodeError::UnexpectedEnd);
    }
    let first: u8 = input[pos];
    if first == 0x69 {
        parse_integer_at(input, pos)
    } else if first == 0x6c {
        match parse_list_at(input, pos + 1) {
            Ok((items, end)) => {
                let value = BencodeValue::List(items);
                proof {
                    lemma_view_of_children(value);
                }
                Ok((value, end))
            },
            Err(e) => Err(e),
        }
    } else if first == 0x64 {
        match parse_dict_at(input, pos + 1) {
            Ok((entries, end)) => {
                let value = BencodeValue::Dict(entries);
                proof {
                    lemma_view_of_children(value);
                }
                Ok((value, end))
            },
            Err(e) => Err(e),
        }
    } else if first >= 0x30 && first <= 0x39 {
        parse_bytes_at(input, pos)
    } else {
        Err(BencodeError::UnhandledPrefix)
    }
}

fn parse_list_at(input: &[u8], pos: usize) -> (outcome: Result<
    (Vec<BencodeValue>, usize),
    BencodeError,
>)
    requires
        pos <= input@.len(),
    ensures
        match outcome {
            Ok((items, end)) => parse_items_spec(input@, pos as int, Seq::empty()) == Ok::<
                (Seq<Bencode>, int),
                BencodeError,
            >((value_views(items@), end as int)) && pos < end <= input@.len(),
            Err(e) => parse_items_spec(input@, pos as int, Seq::empty()) == Err::<
                (Seq<Bencode>, int),
                BencodeError,
            >(e),
        },
    decreases input@.len() - pos, 1nat,
{
    let mut items: Vec<BencodeValue> = Vec::new();
    let mut cur: usize = pos;
    assert(value_views(items@) =~= Seq::<Bencode>::empty());
    loop
        invariant
            pos <= cur <= input@.len(),
            parse_items_spec(input@, pos as int, Seq::empty()) == parse_items_spec(
                input@,
                cur as int,
                value_views(items@),
            ),
        decreases input@.len() - cur,
    {
        if cur >= input.len() {
            return Err(BencodeError::UnterminatedList);
        }
        if input[cur] == 0x65 {
            return Ok((items, cur + 1));
        }
        match parse_at(input, cur) {
            Err(e) => {
                return Err(e);
            },
            Ok((item, next)) => {
                let ghost before = value_views(items@);
                items.push(item);
                assert(value_views(items@) =~= before.push(item@));
                cur = next;
            },
        }
    }
}

fn parse_dict_at(input: &[u8], pos: usize) -> (outcome: Result<
    (Vec<(Vec<u8>, BencodeValue)>, usize),
    BencodeError,
>)
    requires
        pos <= input@.len(),
    ensures
        match outcome {
            Ok((entries, end)) => parse_entries_spec(input@, pos as int, Seq::empty()) == Ok::<
                (Seq<(Seq<u8>, Bencode)>, int),
                BencodeError,
            >((entry_views(entries@), end as int)) && pos < end <= input@.len(),
            Err(e) => parse_entries_spec(input@, pos as int, Seq::empty()) == Err::<
                (Seq<(Seq<u8>, Bencode)>, int),
                BencodeError,
            >(e),
        },
    decreases input@.len() - pos, 1nat,
{
    let mut entries: Vec<(Vec<u8>, BencodeValue)> = Vec::new();
    let mut cur: usize = pos;
    assert(entry_views(entries@) =~= Seq::<(Seq<u8>, Bencode)>::empty());
    loop
        invariant
            pos <= cur <= input@.len(),
            parse_entries_spec(input@, pos as int, Seq::empty()) == parse_entries_spec(
                input@,
                cur as int,
                entry_views(entries@),
            ),
        decreases input@.len() - cur,
    {
        if cur >= input.len() {
            return Err(BencodeError::UnterminatedDictionary);
        }
        if input[cur] == 0x65 {
            return Ok((entries, cur + 1));
        }
        let (key, mid) = match parse_at(input, cur) {
            Err(e) => {
                return Err(e);
            },
            Ok((BencodeValue::Bytes(key), mid)) => (key, mid),
            Ok(_) => {
                return Err(BencodeError::NonStringKey);
            },
        };
        match parse_at(input, mid) {
            Err(e) => {
                return Err(e);
            },
            Ok((value, next)) => {
                insert_entry(&mut entries, key, value);
                cur = next;
            },
        }
    }
}

/// Parses bytes that hold one bencoded value and nothing else.
pub fn parse_bytes(encoded_value: Vec<u8>) -> (decoded: Result<BencodeValue, BencodeError>)
    ensures
        match decoded {
            Ok(value) => decode_spec(encoded_value@) == Ok::<Bencode, BencodeError>(value@),
            Err(e) => decode_spec(encoded_value@) == Err::<Bencode, BencodeError>(e),
        },
{
    decode(encoded_value.as_slice())
}

/// Parses a text whose UTF-8 bytes hold one bencoded value and nothing
/// else.
pub fn parse_string(encoded_value: &str) -> (decoded: Result<BencodeValue, BencodeError>)
    ensures
        match decoded {
            Ok(value) => decode_spec(encoded_value.spec_bytes()) == Ok::<Bencode, BencodeError>(
                value@,
            ),
            Err(e) => decode_spec(encoded_value.spec_bytes()) == Err::<Bencode, BencodeError>(e),
        },
{
    decode(encoded_value.as_bytes())
}

/// Parses bytes that hold one bencoded value and nothing else.
pub fn decode(input: &[u8]) -> (decoded: Result<BencodeValue, BencodeError>)
    ensures
        match decoded {
            Ok(value) => decode_spec(input@) == Ok::<Bencode, BencodeError>(value@),
            Err(e) => decode_spec(input@) == Err::<Bencode, BencodeError>(e),
        },
{
    match parse_at(input, 0) {
        Err(e) => Err(e),
        Ok((value, end)) => {
            if end == input.len() {
                Ok(value)
            } else {
                Err(BencodeError::TrailingData)
            }
        },
    }
}

/// Where, among the entries of a dictionary written from `pos` on, the
/// value of the last entry with the given key stands: its first position
/// and the position after it. `found` is what earlier entries gave.
pub open spec fn entry_span_spec(
    input: Seq<u8>,
    pos: int,
    key: Seq<u8>,
    found: Option<(int, int)>,
) -> Result<Option<(int, int)>, BencodeError>
    decreases input.len() - pos,
{
    if pos < 0 || pos >= input.len() {
        Err(BencodeError::UnterminatedDictionary)
    } else if input[pos] == 0x65 {
        Ok(found)
    } else {
        match parse_value_spec(input, pos) {
            Err(e) => Err(e),
            Ok((Bencode::Bytes(name), mid)) => {
                if mid <= pos || mid > input.len() {
                    Err(BencodeError::UnexpectedEnd)
                } else {
                    match parse_value_spec(input, mid) {
                        Err(e) => Err(e),
                        Ok((_, next)) => {
                            if next <= mid || next > input.len() {
                                Err(BencodeError::UnexpectedEnd)
                            } else {
                                entry_span_spec(
                                    input,
                                    next,
                                    key,
                                    if name == key {
                                        Some((mid, next))
                                    } else {
                                        found
                                    },
                                )
                            }
                        },
                    }
                }
            },
            Ok(_) => Err(BencodeError::NonStringKey),
        }
    }
}

/// Where the value under a key of the dictionary that the input starts
/// with stands, if the dictionary has the key. An input that starts with
/// anything else has no such value.
pub open spec fn value_span_spec(input: Seq<u8>, key: Seq<u8>) -> Result<
    Option<(int, int)>,
    BencodeError,
> {
    if input.len() > 0 && input[0] == 0x64 {
        entry_span_spec(input, 1, key, None)
    } else {
        Ok(None)
    }
}

/// Finds the bytes of the value under `key` in the dictionary that `input`
/// starts with: `Some((start, end))` when `input[start..end]` writes that
/// value, `None` when there is no such entry or no dictionary.
///
/// Fails as the parser does on the entries that it has to read.
pub fn find_value_span(input: &[u8], key: &[u8]) -> (span: Result<
    Option<(usize, usize)>,
    BencodeError,
>)
    ensures
        match span {
            Ok(Some((start, end))) => value_span_spec(input@, key@) == Ok::<
                Option<(int, int)>,
                BencodeError,
            >(Some((start as int, end as int))) && start < end <= input@.len(),
            Ok(None) => value_span_spec(input@, key@) == Ok::<Option<(int, int)>, BencodeError>(
                None,
            ),
            Err(e) => value_span_spec(input@, key@) == Err::<Option<(int, int)>, BencodeError>(e),
        },
{
    if input.len() == 0 || input[0] != 0x64 {
        return Ok(None);
    }
    let mut found: Option<(usize, usize)> = None;
    let mut cur: usize = 1;
    loop
        invariant
            1 <= cur <= input@.len(),
            input@[0] == 0x64u8,
            found matches Some((start, end)) ==> start < end <= input@.len(),
            entry_span_spec(input@, 1, key@, None) == entry_span_spec(
                input@,
                cur as int,
                key@,
                match found {
                    Some((start, end)) => Some((start as int, end as int)),
                    None => None,
                },
            ),
        decreases input@.len() - cur,
    {
        if cur >= input.len() {
            return Err(BencodeError::UnterminatedDictionary);
        }
        if input[cur] == 0x65 {
            return Ok(found);
        }
        let (name, mid) = match parse_at(input, cur) {
            Err(e) => {
                return Err(e);
            },
            Ok((BencodeValue::Bytes(name), mid)) => (name, mid),
            Ok(_) => {
                return Err(BencodeError::NonStringKey);
            },
        };
        match parse_at(input, mid) {
            Err(e) => {
                return Err(e);
            },
            Ok((_, next)) => {
                if bytes_equal(name.as_slice(), key) {
                    found = Some((mid, next));
                }
                cur = next;
            },
        }
    }
}

/// A cursor over bencoded input: the bytes and how far they have been read.
pub struct BencodeParser {
    input: Vec<u8>,
    index: usize,
}

impl BencodeParser {
    /// The bytes being parsed.
    pub closed spec fn input(&self) -> Seq<u8> {
        self.input@
    }

    /// How many bytes have been read.
    pub closed spec fn position(&self) -> int {
        self.index as int
    }

    /// A parser at the start of `input`.
    pub fn new(input: Vec<u8>) -> (parser: Self)
        ensures
            parser.input() == input@,
            parser.position() == 0,
    {
        Self { input, index: 0 }
    }

    /// Reads the value at the current position and moves past it. On an
    /// error the position stays.
    pub fn parse_value(&mut self) -> (value: Result<BencodeValue, BencodeError>)
        ensures
            final(self).input() == old(self).input(),
            match value {
                Ok(v) => parse_value_spec(old(self).input(), old(self).position()) == Ok::<
                    (Bencode, int),
                    BencodeError,
                >((v@, final(self).position())),
                Err(e) => parse_value_spec(old(self).input(), old(self).position()) == Err::<
                    (Bencode, int),
                    BencodeError,
                >(e) && final(self).position() == old(self).position(),
            },
    {
        match parse_at(self.input.as_slice(), self.index) {
            Ok((value, end)) => {
                self.index = end;
                Ok(value)
            },
            Err(e) => Err(e),
        }
    }

    /// Succeeds when the whole input has been read, and fails with
    /// `TrailingData` otherwise.
    pub fn ensure_consumed(&self) -> (consumed: Result<(), BencodeError>)
        ensures
            consumed is Ok <==> self.position() == self.input().len(),
            consumed matches Err(e) ==> e == BencodeError::TrailingData,
    {
        if self.index != self.input.len() {
            Err(BencodeError::TrailingData)
        } else {
            Ok(())
        }
    }

    /// The byte at the current position, if the input has not ended.
    pub fn peek(&self) -> (byte: Option<u8>)
        ensures
            byte == if 0 <= self.position() < self.input().len() {
                Some(self.input()[self.position()])
            } else {
                None
            },
    {
        if self.index < self.input.len() {
            Some(self.input[self.index])
        } else {
            None
        }
    }
}

} // verus!
