use vstd::prelude::*;
use vstd::string::{StringExecFns, StringSliceAdditionalSpecFns};
use vstd::utf8::{decode_utf8, valid_utf8};
use crate::bencode::encoder::{encode, encode_spec};
use crate::bencode::laws::{has_at, is_canonical, lemma_parse_encoded, lemma_value_span_bounds};
use crate::bencode::parser::{
    decode, decode_spec, find_value_span, parse_at, parse_value_spec, value_span_spec,
    BencodeError,
};
use crate::bencode::value::{dict_get, well_formed, Bencode, BencodeValue};
use crate::tracker::client::TrackerRequest;
use crate::utils::bytes::{copy_range, raw_text, string_from_utf8, RawStringExt};
use crate::utils::decimal::{decimal_digits, u64_to_decimal};
use crate::utils::hash::{sha1, sha1_digest};
use crate::utils::hex::{hex_encode, hex_text};

verus! {

/// Key of the tracker URL in a metainfo file.
pub const KEY_ANNOUNCE: &'static str = "announce";

/// Key of the info dictionary in a metainfo file.
pub const KEY_INFO: &'static str = "info";

/// Key of the file length in an info dictionary.
pub const KEY_LENGTH: &'static str = "length";

/// Key of the piece length in an info dictionary.
pub const KEY_PIECE_LENGTH: &'static str = "piece length";

/// Key of the piece hashes in an info dictionary.
pub const KEY_PIECES: &'static str = "pieces";

/// Length of one piece hash.
pub const HASH_LEN: usize = 20;

/// Why bytes are not the metainfo of a single-file torrent.
#[derive(Debug, Clone, Copy, PartialEq, Eq, Structural)]
pub enum MetainfoError {
    /// The bytes are not bencode where they had to be read.
    Bencode(BencodeError),
    /// There is no `announce` entry.
    MissingAnnounce,
    /// The tracker URL is not a byte string of valid UTF-8.
    InvalidAnnounce,
    /// There is no `info` entry.
    MissingInfo,
    /// The info dictionary has no `piece length` that is a number from 0 up.
    MissingPieceLength,
    /// The info dictionary has no `pieces` that is a byte string.
    MissingPieces,
    /// The info dictionary has no `length` that is a number from 0 up.
    MissingLength,
    /// A length is too large to be written as a bencoded integer.
    IntegerRange,
}

/// The metainfo of a single-file torrent.
#[derive(Debug, Clone, PartialEq, Eq)]
pub struct TorrentMetainfo {
    /// The tracker's announce URL.
    pub announce: String,
    /// The length of every piece but the last, in bytes.
    pub piece_length: u64,
    /// The SHA-1 hashes of the pieces, 20 bytes each, one after the other.
    pub pieces: Vec<u8>,
    /// The length of the file, in bytes.
    pub length: u64,
    /// The SHA-1 hash of the info dictionary as it was written.
    pub info_hash: Vec<u8>,
}

/// A `TorrentMetainfo` as a mathematical value.
pub struct MetainfoView {
    pub announce: Seq<char>,
    pub piece_length: u64,
    pub pieces: Seq<u8>,
    pub length: u64,
    pub info_hash: Seq<u8>,
}

impl View for TorrentMetainfo {
    type V = MetainfoView;

    open spec fn view(&self) -> MetainfoView {
        MetainfoView {
            announce: self.announce@,
            piece_length: self.piece_length,
            pieces: self.pieces@,
            length: self.length,
            info_hash: self.info_hash@,
        }
    }
}

/// The number under a key of a dictionary, if it is a number from 0 up.
pub open spec fn dict_u64(value: Bencode, key: Seq<u8>) -> Option<u64> {
    match value {
        Bencode::Dict(entries) => match dict_get(entries, key) {
            Some(Bencode::Integer(n)) => if n >= 0 {
                Some(n as u64)
            } else {
                None
            },
            _ => None,
        },
        _ => None,
    }
}

/// The byte string under a key of a dictionary, if it is one.
pub open spec fn dict_bytes(value: Bencode, key: Seq<u8>) -> Option<Seq<u8>> {
    match value {
        Bencode::Dict(entries) => match dict_get(entries, key) {
            Some(Bencode::Bytes(bytes)) => Some(bytes),
            _ => None,
        },
        _ => None,
    }
}

/// Piece length, piece hashes and file length of an info dictionary, or what
/// is missing first.
pub open spec fn info_fields(info: Bencode) -> Result<(u64, Seq<u8>, u64), MetainfoError> {
    match dict_u64(info, KEY_PIECE_LENGTH.spec_bytes()) {
        None => Err(MetainfoError::MissingPieceLength),
        Some(piece_length) => match dict_bytes(info, KEY_PIECES.spec_bytes()) {
            None => Err(MetainfoError::MissingPieces),
            Some(pieces) => match dict_u64(info, KEY_LENGTH.spec_bytes()) {
                None => Err(MetainfoError::MissingLength),
                Some(length) => Ok((piece_length, pieces, length)),
            },
        },
    }
}

/// The metainfo that an info dictionary gives under a tracker URL: its
/// fields, and the SHA-1 of the bytes that write it.
pub open spec fn metainfo_of_info(announce: Seq<char>, info: Bencode, raw: Seq<u8>) -> Result<
    MetainfoView,
    MetainfoError,
> {
    match info_fields(info) {
        Err(e) => Err(e),
        Ok((piece_length, pieces, length)) => Ok(
            MetainfoView { announce, piece_length, pieces, length, info_hash: sha1_digest(raw) },
        ),
    }
}

/// The tracker URL of a metainfo file: the `announce` entry, a byte string
/// of valid UTF-8.
pub open spec fn announce_of(input: Seq<u8>) -> Result<Seq<char>, MetainfoError> {
    match value_span_spec(input, KEY_ANNOUNCE.spec_bytes()) {
        Err(e) => Err(MetainfoError::Bencode(e)),
        Ok(None) => Err(MetainfoError::MissingAnnounce),
        Ok(Some((start, _))) => match parse_value_spec(input, start) {
            Err(e) => Err(MetainfoError::Bencode(e)),
            Ok((Bencode::Bytes(url), _)) => if valid_utf8(url) {
                Ok(decode_utf8(url))
            } else {
                Err(MetainfoError::InvalidAnnounce)
            },
            Ok(_) => Err(MetainfoError::InvalidAnnounce),
        },
    }
}

/// The metainfo that a file holds. The file is a dictionary; its info hash
/// is the SHA-1 of the bytes of the `info` entry's value exactly as the
/// file writes them.
pub open spec fn metainfo_of(input: Seq<u8>) -> Result<MetainfoView, MetainfoError> {
    match announce_of(input) {
        Err(e) => Err(e),
        Ok(announce) => match value_span_spec(input, KEY_INFO.spec_bytes()) {
            Err(e) => Err(MetainfoError::Bencode(e)),
            Ok(None) => Err(MetainfoError::MissingInfo),
            Ok(Some((start, end))) => match parse_value_spec(input, start) {
                Err(e) => Err(MetainfoError::Bencode(e)),
                Ok((info, _)) => metainfo_of_info(announce, info, input.subrange(start, end)),
            },
        },
    }
}

/// The number of pieces of a file: its length divided by the piece length,
/// rounded up.
pub open spec fn spec_piece_count(length: u64, piece_length: u64) -> int
    recommends
        piece_length > 0,
{
    length as int / piece_length as int + if length as int % piece_length as int != 0 {
        1int
    } else {
        0int
    }
}

/// The length of piece `index`: the piece length, but for the last piece
/// what is left of the file after the others.
pub open spec fn spec_piece_len(length: u64, piece_length: u64, index: int) -> int
    recommends
        piece_length > 0,
        0 <= index < spec_piece_count(length, piece_length),
{
    if index == spec_piece_count(length, piece_length) - 1 {
        length - index * piece_length
    } else {
        piece_length as int
    }
}

/// The lengths of the first `count` pieces, added up.
pub open spec fn pieces_total(length: u64, piece_length: u64, count: int) -> int
    decreases count,
{
    if count <= 0 {
        0
    } else {
        pieces_total(length, piece_length, count - 1) + spec_piece_len(
            length,
            piece_length,
            count - 1,
        )
    }
}

/// The pieces make up the file: every piece but the last has the piece
/// length, the last is not empty and not longer, and all the lengths add up
/// to the length of the file.
pub proof fn lemma_pieces_cover_file(length: u64, piece_length: u64)
    requires
        piece_length > 0,
    ensures
        pieces_total(length, piece_length, spec_piece_count(length, piece_length)) == length,
        forall|i: int|
            0 <= i < spec_piece_count(length, piece_length) - 1 ==> #[trigger] spec_piece_len(
                length,
                piece_length,
                i,
            ) == piece_length,
        forall|i: int|
            0 <= i < spec_piece_count(length, piece_length) ==> 0 < #[trigger] spec_piece_len(
                length,
                piece_length,
                i,
            ) <= piece_length,
{
    let n = spec_piece_count(length, piece_length);
    let l = length as int;
    let p = piece_length as int;
    assert(l == p * (l / p) + l % p && 0 <= l % p < p) by (nonlinear_arith)
        requires
            p > 0,
            l >= 0,
    ;
    assert(0 <= l / p) by (nonlinear_arith)
        requires
            p > 0,
            l >= 0,
    ;
    if n > 0 {
        lemma_full_pieces_total(length, piece_length, n - 1);
        assert(pieces_total(length, piece_length, n) == pieces_total(length, piece_length, n - 1)
            + spec_piece_len(length, piece_length, n - 1));
        assert(spec_piece_len(length, piece_length, n - 1) == l - (n - 1) * p);
        assert(0 < l - (n - 1) * p <= p) by (nonlinear_arith)
            requires
                l == p * (l / p) + l % p,
                0 <= l % p < p,
                n == l / p + if l % p != 0 {
                    1int
                } else {
                    0int
                },
                n > 0,
        ;
    } else {
        assert(l == 0) by (nonlinear_arith)
            requires
                l == p * (l / p) + l % p,
                0 <= l % p < p,
                0 <= l / p,
                l / p + if l % p != 0 {
                    1int
                } else {
                    0int
                } <= 0,
        ;
    }
}

/// Every piece lies within the file: piece `index` starts at `index` times
/// the piece length and ends, at the latest, where the file ends.
pub proof fn lemma_piece_within_file(length: u64, piece_length: u64, index: int)
    requires
        piece_length > 0,
        0 <= index < spec_piece_count(length, piece_length),
    ensures
        0 <= index * piece_length,
        index * piece_length + spec_piece_len(length, piece_length, index) <= length,
{
    lemma_pieces_cover_file(length, piece_length);
    let n = spec_piece_count(length, piece_length);
    let p = piece_length as int;
    let l = length as int;
    assert(spec_piece_len(length, piece_length, n - 1) == l - (n - 1) * p);
    assert(0 <= index * p) by (nonlinear_arith)
        requires
            0 <= index,
            0 < p,
    ;
    if index < n - 1 {
        assert((index + 1) * p <= (n - 1) * p) by (nonlinear_arith)
            requires
                index + 1 <= n - 1,
                0 < p,
        ;
        assert((index + 1) * p == index * p + p) by (nonlinear_arith);
    }
}

proof fn lemma_full_pieces_total(length: u64, piece_length: u64, count: int)
    requires
        0 <= count < spec_piece_count(length, piece_length),
    ensures
        pieces_total(length, piece_length, count) == count * piece_length,
    decreases count,
{
    let p = piece_length as int;
    if count > 0 {
        lemma_full_pieces_total(length, piece_length, count - 1);
        assert(pieces_total(length, piece_length, count) == pieces_total(
            length,
            piece_length,
            count - 1,
        ) + spec_piece_len(length, piece_length, count - 1));
        assert(spec_piece_len(length, piece_length, count - 1) == p);
        assert((count - 1) * p + p == count * p) by (nonlinear_arith);
    } else {
        assert(pieces_total(length, piece_length, count) == 0);
        assert(count * p == 0) by (nonlinear_arith)
            requires
                count == 0,
        ;
    }
}

/// Where canonical bytes stand in the input, the parser reads the value
/// that they encode, and ends where they end.
pub proof fn lemma_canonical_span_parses(input: Seq<u8>, start: int, end: int)
    requires
        0 <= start <= end <= input.len() <= usize::MAX,
        is_canonical(input.subrange(start, end)),
    ensures
        parse_value_spec(input, start) is Ok,
        parse_value_spec(input, start)->Ok_0.1 == end,
        encode_spec(parse_value_spec(input, start)->Ok_0.0) == input.subrange(start, end),
{
    let raw = input.subrange(start, end);
    let value = choose|value: Bencode| well_formed(value) && #[trigger] encode_spec(value) == raw;
    assert(has_at(input, start, encode_spec(value)));
    lemma_parse_encoded(value, input, start);
}

/// Re-encoding keeps the info hash: where a file gives a metainfo and
/// writes its info dictionary canonically, the info hash of the metainfo is
/// the SHA-1 of the canonical encoding of the info dictionary as it was
/// read.
pub proof fn lemma_info_hash_roundtrip(input: Seq<u8>)
    requires
        input.len() <= usize::MAX,
        metainfo_of(input) is Ok,
        value_span_spec(input, KEY_INFO.spec_bytes()) matches Ok(Some((start, end)))
            && is_canonical(input.subrange(start, end)),
    ensures
        ({
            let start = value_span_spec(input, KEY_INFO.spec_bytes())->Ok_0->Some_0.0;
            let info = parse_value_spec(input, start)->Ok_0.0;
            metainfo_of(input)->Ok_0.info_hash == sha1_digest(encode_spec(info))
        }),
{
    lemma_value_span_bounds(input, KEY_INFO.spec_bytes());
    let span = value_span_spec(input, KEY_INFO.spec_bytes())->Ok_0->Some_0;
    lemma_canonical_span_parses(input, span.0, span.1);
}

/// The info hash survives the way to the tracker: where a file gives a
/// metainfo and writes its info dictionary canonically, the info hash that
/// an announce carries percent-encoded decodes to the SHA-1 of the
/// canonical encoding of the info dictionary.
pub proof fn lemma_announced_info_hash(input: Seq<u8>)
    requires
        input.len() <= usize::MAX,
        metainfo_of(input) is Ok,
        value_span_spec(input, KEY_INFO.spec_bytes()) matches Ok(Some((start, end)))
            && is_canonical(input.subrange(start, end)),
    ensures
        ({
            let start = value_span_spec(input, KEY_INFO.spec_bytes())->Ok_0->Some_0.0;
            let info = parse_value_spec(input, start)->Ok_0.0;
            crate::utils::url::percent_decoded(
                crate::utils::url::percent_encoded(metainfo_of(input)->Ok_0.info_hash),
            ) == Some(sha1_digest(encode_spec(info)))
        }),
{
    lemma_info_hash_roundtrip(input);
    crate::utils::url::lemma_percent_roundtrip(metainfo_of(input)->Ok_0.info_hash);
}

/// The same for an info dictionary by itself: where the bytes of an info
/// dictionary are canonical and give a metainfo, its info hash is the SHA-1
/// of the canonical encoding of what the bytes decode to.
pub proof fn lemma_info_bytes_hash_roundtrip(announce: Seq<char>, info_bytes: Seq<u8>)
    requires
        info_bytes.len() <= usize::MAX,
        is_canonical(info_bytes),
        decode_spec(info_bytes) matches Ok(info) && metainfo_of_info(announce, info, info_bytes)
            is Ok,
    ensures
        ({
            let info = decode_spec(info_bytes)->Ok_0;
            metainfo_of_info(announce, info, info_bytes)->Ok_0.info_hash == sha1_digest(
                encode_spec(info),
            )
        }),
{
    crate::bencode::laws::lemma_encode_decode(info_bytes);
}

fn u64_field(info: &BencodeValue, key: &str) -> (field: Option<u64>)
    ensures
        field == dict_u64(info@, key.spec_bytes()),
{
    match info.get(key.as_bytes()) {
        Some(value) => match value.as_integer() {
            Some(n) => {
                if n >= 0 {
                    Some(n as u64)
                } else {
                    None
                }
            },
            None => None,
        },
        None => None,
    }
}

fn bytes_field(info: &BencodeValue, key: &str) -> (field: Option<Vec<u8>>)
    ensures
        match field {
            Some(bytes) => dict_bytes(info@, key.spec_bytes()) == Some(bytes@),
            None => dict_bytes(info@, key.spec_bytes()) is None,
        },
{
    match info.get(key.as_bytes()) {
        Some(value) => match value.as_bytes() {
            Some(bytes) => Some(bytes.clone()),
            None => None,
        },
        None => None,
    }
}

fn read_announce(bytes: &[u8]) -> (announce: Result<String, MetainfoError>)
    ensures
        match announce {
            Ok(url) => announce_of(bytes@) == Ok::<Seq<char>, MetainfoError>(url@),
            Err(e) => announce_of(bytes@) == Err::<Seq<char>, MetainfoError>(e),
        },
{
    let start: usize = match find_value_span(bytes, KEY_ANNOUNCE.as_bytes()) {
        Err(e) => {
            return Err(MetainfoError::Bencode(e));
        },
        Ok(None) => {
            return Err(MetainfoError::MissingAnnounce);
        },
        Ok(Some((start, _))) => start,
    };
    match parse_at(bytes, start) {
        Err(e) => Err(MetainfoError::Bencode(e)),
        Ok((BencodeValue::Bytes(url), _)) => match string_from_utf8(url) {
            Some(text) => Ok(text),
            None => Err(MetainfoError::InvalidAnnounce),
        },
        Ok(_) => Err(MetainfoError::InvalidAnnounce),
    }
}

fn build(announce: String, info: &BencodeValue, raw: &[u8]) -> (built: Result<
    TorrentMetainfo,
    MetainfoError,
>)
    ensures
        match built {
            Ok(m) => metainfo_of_info(announce@, info@, raw@) == Ok::<MetainfoView, MetainfoError>(
                m@,
            ),
            Err(e) => metainfo_of_info(announce@, info@, raw@) == Err::<
                MetainfoView,
                MetainfoError,
            >(e),
        },
{
    let piece_length: u64 = match u64_field(info, KEY_PIECE_LENGTH) {
        Some(n) => n,
        None => {
            return Err(MetainfoError::MissingPieceLength);
        },
    };
    let pieces: Vec<u8> = match bytes_field(info, KEY_PIECES) {
        Some(bytes) => bytes,
        None => {
            return Err(MetainfoError::MissingPieces);
        },
    };
    let length: u64 = match u64_field(info, KEY_LENGTH) {
        Some(n) => n,
        None => {
            return Err(MetainfoError::MissingLength);
        },
    };
    Ok(TorrentMetainfo { announce, piece_length, pieces, length, info_hash: sha1(raw) })
}

impl TorrentMetainfo {
    /// Reads the metainfo that a file's bytes hold.
    pub fn from_bytes(bytes: &[u8]) -> (parsed: Result<Self, MetainfoError>)
        ensures
            match parsed {
                Ok(m) => metainfo_of(bytes@) == Ok::<MetainfoView, MetainfoError>(m@),
                Err(e) => metainfo_of(bytes@) == Err::<MetainfoView, MetainfoError>(e),
            },
    {
        let announce: String = match read_announce(bytes) {
            Ok(url) => url,
            Err(e) => {
                return Err(e);
            },
        };
        let (start, end) = match find_value_span(bytes, KEY_INFO.as_bytes()) {
            Err(e) => {
                return Err(MetainfoError::Bencode(e));
            },
            Ok(None) => {
                return Err(MetainfoError::MissingInfo);
            },
            Ok(Some(span)) => span,
        };
        match parse_at(bytes, start) {
            Err(e) => Err(MetainfoError::Bencode(e)),
            Ok((info, _)) => build(
                announce,
                &info,
                vstd::slice::slice_subrange(bytes, start, end),
            ),
        }
    }

    /// Makes the metainfo of a tracker URL and the bytes of an info
    /// dictionary. The info hash is the SHA-1 of those bytes.
    pub fn from_info_bytes(announce: String, info_bytes: &[u8]) -> (parsed: Result<
        Self,
        MetainfoError,
    >)
        ensures
            match parsed {
                Ok(m) => decode_spec(info_bytes@) matches Ok(info) && metainfo_of_info(
                    announce@,
                    info,
                    info_bytes@,
                ) == Ok::<MetainfoView, MetainfoError>(m@),
                Err(e) => match decode_spec(info_bytes@) {
                    Err(b) => e == MetainfoError::Bencode(b),
                    Ok(info) => metainfo_of_info(announce@, info, info_bytes@) == Err::<
                        MetainfoView,
                        MetainfoError,
                    >(e),
                },
            },
    {
        match decode(info_bytes) {
            Err(e) => Err(MetainfoError::Bencode(e)),
            Ok(info) => build(announce, &info, info_bytes),
        }
    }

    /// The value that `to_bytes` encodes: the tracker URL under `announce`
    /// and, under `info`, the length, the piece length and the piece hashes.
    pub open spec fn as_bencode(&self) -> Bencode {
        Bencode::Dict(
            seq![
                (
                    KEY_ANNOUNCE.spec_bytes(),
                    Bencode::Bytes(vstd::utf8::encode_utf8(self.announce@)),
                ),
                (
                    KEY_INFO.spec_bytes(),
                    Bencode::Dict(
                        seq![
                            (KEY_LENGTH.spec_bytes(), Bencode::Integer(self.length as i64)),
                            (
                                KEY_PIECE_LENGTH.spec_bytes(),
                                Bencode::Integer(self.piece_length as i64),
                            ),
                            (KEY_PIECES.spec_bytes(), Bencode::Bytes(self.pieces@)),
                        ],
                    ),
                ),
            ],
        )
    }

    /// Writes the metainfo as a file.
    ///
    /// Fails, with `IntegerRange`, exactly when the length or the piece
    /// length is above the largest bencoded integer.
    pub fn to_bytes(&self) -> (bytes: Result<Vec<u8>, MetainfoError>)
        ensures
            match bytes {
                Ok(b) => self.length <= i64::MAX && self.piece_length <= i64::MAX && b@
                    == encode_spec(self.as_bencode()),
                Err(e) => e == MetainfoError::IntegerRange && (self.length > i64::MAX
                    || self.piece_length > i64::MAX),
            },
    {
        if self.length > i64::MAX as u64 || self.piece_length > i64::MAX as u64 {
            return Err(MetainfoError::IntegerRange);
        }
        let mut info: Vec<(Vec<u8>, BencodeValue)> = Vec::new();
        info.push((copy_key(KEY_LENGTH), BencodeValue::Integer(self.length as i64)));
        info.push((copy_key(KEY_PIECE_LENGTH), BencodeValue::Integer(self.piece_length as i64)));
        info.push((copy_key(KEY_PIECES), BencodeValue::Bytes(self.pieces.clone())));
        let info_value = BencodeValue::Dict(info);
        let mut top: Vec<(Vec<u8>, BencodeValue)> = Vec::new();
        let raw = self.announce.as_str().as_bytes();
        let url = copy_range(raw, 0, raw.len());
        assert(url@ =~= raw@);
        top.push((copy_key(KEY_ANNOUNCE), BencodeValue::Bytes(url)));
        top.push((copy_key(KEY_INFO), info_value));
        let value = BencodeValue::Dict(top);
        proof {
            crate::bencode::value::lemma_view_of_children(info_value);
            crate::bencode::value::lemma_view_of_children(value);
            assert(info_value@->Dict_0 =~= self.as_bencode()->Dict_0[1].1->Dict_0);
            assert(url@ =~= vstd::utf8::encode_utf8(self.announce@));
            assert(value@->Dict_0 =~= self.as_bencode()->Dict_0);
        }
        Ok(encode(&value))
    }

    /// The info hash in lower-case hexadecimal.
    pub fn get_info_hash_hex(&self) -> (text: String)
        ensures
            text@ == hex_text(self.info_hash@),
    {
        hex_encode(self.info_hash.as_slice())
    }

    /// The number of whole piece hashes.
    pub fn get_piece_count(&self) -> (count: usize)
        ensures
            count == self.pieces@.len() / 20,
    {
        self.pieces.len() / HASH_LEN
    }

    /// The piece hashes in lower-case hexadecimal, one text per 20 bytes; a
    /// shorter rest at the end gives one more, shorter text.
    pub fn get_piece_hashes(&self) -> (hashes: Vec<String>)
        ensures
            hashes@.len() == (self.pieces@.len() + 19) / 20,
            forall|i: int|
                0 <= i < hashes@.len() ==> (#[trigger] hashes@[i])@ == hex_text(
                    self.pieces@.subrange(
                        20 * i,
                        if 20 * i + 20 <= self.pieces@.len() {
                            20 * i + 20
                        } else {
                            self.pieces@.len() as int
                        },
                    ),
                ),
    {
        let mut hashes: Vec<String> = Vec::new();
        let total: usize = self.pieces.len();
        let count: usize = total / HASH_LEN + if total % HASH_LEN != 0 {
            1
        } else {
            0
        };
        let mut i: usize = 0;
        while i < count
            invariant
                total == self.pieces@.len(),
                count == (total + 19) / 20,
                i <= count,
                hashes@.len() == i,
                forall|k: int|
                    0 <= k < hashes@.len() ==> (#[trigger] hashes@[k])@ == hex_text(
                        self.pieces@.subrange(
                            20 * k,
                            if 20 * k + 20 <= total {
                                20 * k + 20
                            } else {
                                total as int
                            },
                        ),
                    ),
            decreases count - i,
        {
            let start: usize = i * HASH_LEN;
            let end: usize = if total - start >= HASH_LEN {
                start + HASH_LEN
            } else {
                total
            };
            let text = hex_encode(vstd::slice::slice_subrange(self.pieces.as_slice(), start, end));
            hashes.push(text);
            i += 1;
        }
        hashes
    }

    /// The summary of the metainfo, line by line: the tracker URL, the
    /// length, the info hash, the piece length, and after a heading the
    /// hash of each piece.
    pub fn info_lines(&self) -> (lines: Vec<String>)
        ensures
            lines@.len() == 5 + (self.pieces@.len() + 19) / 20,
            lines@[0]@ == "Tracker URL: "@ + self.announce@,
            lines@[1]@ == "Length: "@ + raw_text(decimal_digits(self.length as nat)),
            lines@[2]@ == "Info Hash: "@ + hex_text(self.info_hash@),
            lines@[3]@ == "Piece Length: "@ + raw_text(decimal_digits(self.piece_length as nat)),
            lines@[4]@ == "Piece Hashes:"@,
            forall|i: int|
                0 <= i < (self.pieces@.len() + 19) / 20 ==> (#[trigger] lines@[5 + i])@
                    == hex_text(
                    self.pieces@.subrange(
                        20 * i,
                        if 20 * i + 20 <= self.pieces@.len() {
                            20 * i + 20
                        } else {
                            self.pieces@.len() as int
                        },
                    ),
                ),
    {
        let mut lines: Vec<String> = Vec::new();
        let mut tracker = String::from_str("Tracker URL: ");
        tracker.append(self.announce.as_str());
        lines.push(tracker);
        let mut length = String::from_str("Length: ");
        length.append(u64_to_decimal(self.length).as_slice().to_raw_string().as_str());
        lines.push(length);
        let mut info_hash = String::from_str("Info Hash: ");
        info_hash.append(self.get_info_hash_hex().as_str());
        lines.push(info_hash);
        let mut piece_length = String::from_str("Piece Length: ");
        piece_length.append(u64_to_decimal(self.piece_length).as_slice().to_raw_string().as_str());
        lines.push(piece_length);
        lines.push(String::from_str("Piece Hashes:"));
        let mut hashes = self.get_piece_hashes();
        let ghost head = lines@;
        let ghost tail = hashes@;
        lines.append(&mut hashes);
        assert(lines@ == head + tail);
        assert forall|i: int| 0 <= i < tail.len() implies lines@[5 + i] == tail[i] by {}
        lines
    }

    /// The announce for this torrent under a client id: nothing has been
    /// downloaded, and the whole file is left.
    pub fn announce_request(&self, client_id: &str) -> (request: TrackerRequest)
        ensures
            request.info_hash@ == self.info_hash@,
            request.peer_id@ == client_id@,
            request.port == 6881,
            request.uploaded == 0,
            request.downloaded == 0,
            request.left == self.length,
            request.compact == 1,
    {
        TrackerRequest {
            info_hash: self.info_hash.clone(),
            peer_id: String::from_str(client_id),
            port: 6881,
            uploaded: 0,
            downloaded: 0,
            left: self.length,
            compact: 1,
        }
    }

    /// The hash of piece `index`.
    pub fn get_piece_hash_bytes(&self, index: usize) -> (hash: &[u8])
        requires
            index < self.pieces@.len() / 20,
        ensures
            hash@ == self.pieces@.subrange(20 * index, 20 * index + 20),
    {
        let total: usize = self.pieces.len();
        assert(20 * index + 20 <= total);
        let start: usize = index * HASH_LEN;
        vstd::slice::slice_subrange(self.pieces.as_slice(), start, start + HASH_LEN)
    }

    /// Whether the metainfo describes a file that can be downloaded: the
    /// piece length is not zero, the hashes are a whole number of 20-byte
    /// hashes, and there is one hash for each piece of the file.
    pub open spec fn is_consistent(&self) -> bool {
        &&& self.piece_length > 0
        &&& self.pieces@.len() % 20 == 0
        &&& self.pieces@.len() / 20 == spec_piece_count(self.length, self.piece_length)
    }

    /// Checks `is_consistent`.
    pub fn check_consistent(&self) -> (consistent: bool)
        ensures
            consistent == self.is_consistent(),
    {
        if self.piece_length == 0 || self.pieces.len() % HASH_LEN != 0 {
            return false;
        }
        let full: u64 = self.length / self.piece_length;
        let count: u64 = if self.length % self.piece_length != 0 {
            // `full` is below the largest `u64` here, since the piece length
            // is at least 2.
            assert(full < u64::MAX) by (nonlinear_arith)
                requires
                    full == self.length as int / self.piece_length as int,
                    self.length as int % self.piece_length as int != 0,
                    self.piece_length > 0,
                    self.length <= u64::MAX,
            ;
            full + 1
        } else {
            full
        };
        (self.pieces.len() / HASH_LEN) as u64 == count
    }

    /// The number of pieces of the file: its length divided by the piece
    /// length, rounded up.
    pub fn piece_count(&self) -> (count: u64)
        requires
            self.piece_length > 0,
        ensures
            count == spec_piece_count(self.length, self.piece_length),
    {
        let full: u64 = self.length / self.piece_length;
        if self.length % self.piece_length != 0 {
            assert(full < u64::MAX) by (nonlinear_arith)
                requires
                    full == self.length as int / self.piece_length as int,
                    self.length as int % self.piece_length as int != 0,
                    self.piece_length > 0,
                    self.length <= u64::MAX,
            ;
            full + 1
        } else {
            full
        }
    }

    /// The length of piece `index` in bytes: the piece length, but for the
    /// last piece what is left of the file after the others.
    pub fn piece_len(&self, index: u64) -> (len: u64)
        requires
            self.piece_length > 0,
            index < spec_piece_count(self.length, self.piece_length),
        ensures
            len == spec_piece_len(self.length, self.piece_length, index as int),
            0 < len <= self.piece_length,
    {
        proof {
            lemma_pieces_cover_file(self.length, self.piece_length);
        }
        let count = self.piece_count();
        if index == count - 1 {
            let ghost l = self.length as int;
            let ghost p = self.piece_length as int;
            assert(0 <= index * p <= l) by (nonlinear_arith)
                requires
                    0 < l - index * p <= p,
                    index >= 0,
                    p > 0,
            ;
            self.length - index * self.piece_length
        } else {
            self.piece_length
        }
    }
}

fn copy_key(key: &str) -> (bytes: Vec<u8>)
    ensures
        bytes@ == key.spec_bytes(),
{
    let raw = key.as_bytes();
    copy_range(raw, 0, raw.len())
}

} // verus!
