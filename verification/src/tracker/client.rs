use vstd::prelude::*;
use vstd::slice::slice_subrange;
use vstd::string::{StringExecFns, StringSliceAdditionalSpecFns};
use crate::bencode::parser::{decode, decode_spec, BencodeError};
use crate::bencode::value::{dict_get, Bencode, BencodeValue};
use crate::utils::bytes::{raw_bytes, raw_text, RawBytesExt, RawStringExt};
use crate::utils::decimal::{decimal_digits, digits_value, push_decimal, u64_to_decimal};
use crate::utils::text::{
    all_digit_chars, chars_of, find_char, first_index_of, number_of_text, parse_number,
};
use crate::utils::url::{percent_encoded, url_encode};

verus! {

/// Key of the interval in a tracker's answer.
pub const KEY_INTERVAL: &'static str = "interval";

/// Key of the peers in a tracker's answer.
pub const KEY_PEERS: &'static str = "peers";

/// The port that stands in for one that cannot be read.
pub const DEFAULT_PORT: u16 = 6881;

/// What an announce tells the tracker.
pub struct TrackerRequest {
    pub info_hash: Vec<u8>,
    pub peer_id: String,
    pub port: u16,
    pub uploaded: u64,
    pub downloaded: u64,
    pub left: u64,
    pub compact: u8,
}

/// What the tracker answers.
pub struct TrackerResponse {
    pub interval: u32,
    pub peers: Vec<Peer>,
}

/// The address of a peer: IPv4 octets and a port.
#[derive(Debug, Clone, Copy, PartialEq, Eq)]
pub struct Peer {
    pub ip: [u8; 4],
    pub port: u16,
}

/// Why a tracker's answer could not be read.
#[derive(Debug, Clone, Copy, PartialEq, Eq, Structural)]
pub enum TrackerError {
    /// The answer is not bencode.
    Bencode(BencodeError),
    /// The list of peers is not a whole number of 6-byte records.
    InvalidPeers,
    /// A text is not the address of a peer.
    InvalidAddress,
}

/// A peer address as text: the four octets in decimal with dots between
/// them, a colon, the port in decimal.
pub open spec fn peer_text(ip: Seq<u8>, port: u16) -> Seq<u8>
    recommends
        ip.len() == 4,
{
    decimal_digits(ip[0] as nat) + seq![0x2eu8] + decimal_digits(ip[1] as nat) + seq![0x2eu8]
        + decimal_digits(ip[2] as nat) + seq![0x2eu8] + decimal_digits(ip[3] as nat) + seq![
        0x3au8,
    ] + decimal_digits(port as nat)
}

/// The octet that a text writes: one to three digits, without a leading
/// zero, that write a number up to 255.
pub open spec fn octet_of(text: Seq<char>) -> Option<u8> {
    if 1 <= text.len() <= 3 && all_digit_chars(text) && (text.len() == 1 || text[0] != '0')
        && digits_value(raw_bytes(text)) <= 255 {
        Some(digits_value(raw_bytes(text)) as u8)
    } else {
        None
    }
}

/// The port that a text writes, or the default port if it writes none.
pub open spec fn port_of(text: Seq<char>) -> u16 {
    match number_of_text(text, 65535) {
        Some(port) => port as u16,
        None => DEFAULT_PORT,
    }
}

/// The part of a text before the first `c`.
pub open spec fn before_first(text: Seq<char>, c: char) -> Seq<char> {
    text.subrange(0, first_index_of(text, c))
}

/// The part of a text after the first `c`, if there is a `c`.
pub open spec fn after_first(text: Seq<char>, c: char) -> Option<Seq<char>> {
    if first_index_of(text, c) < text.len() {
        Some(text.subrange(first_index_of(text, c) + 1, text.len() as int))
    } else {
        None
    }
}

/// The four octets that a dotted text writes.
pub open spec fn octets_of(text: Seq<char>) -> Option<Seq<u8>> {
    match after_first(text, '.') {
        None => None,
        Some(rest1) => match after_first(rest1, '.') {
            None => None,
            Some(rest2) => match after_first(rest2, '.') {
                None => None,
                Some(last) => match (
                    octet_of(before_first(text, '.')),
                    octet_of(before_first(rest1, '.')),
                    octet_of(before_first(rest2, '.')),
                    octet_of(last),
                ) {
                    (Some(a), Some(b), Some(c), Some(d)) => Some(seq![a, b, c, d]),
                    _ => None,
                },
            },
        },
    }
}

/// The peer that a text names: four octets with dots between them, a
/// colon, and a port, for which the default stands in if what follows the
/// colon, up to another colon, is no port.
pub open spec fn peer_of_text(text: Seq<char>) -> Option<(Seq<u8>, u16)> {
    match after_first(text, ':') {
        None => None,
        Some(rest) => match octets_of(before_first(text, ':')) {
            None => None,
            Some(ip) => Some((ip, port_of(before_first(rest, ':')))),
        },
    }
}

/// The number that an interval entry gives: its low 32 bits if it is a
/// number from 0 up, and else 0.
pub open spec fn interval_of(entry: Option<Bencode>) -> u32 {
    match entry {
        Some(Bencode::Integer(n)) => if n >= 0 {
            (n as int % 0x1_0000_0000) as u32
        } else {
            0
        },
        _ => 0,
    }
}

/// Whether peers are those that compact records list: each record is four
/// octets and a port, most significant byte first.
pub open spec fn are_peers_of(peers: Seq<Peer>, records: Seq<u8>) -> bool {
    &&& records.len() % 6 == 0
    &&& peers.len() == records.len() / 6
    &&& forall|i: int|
        0 <= i < peers.len() ==> (#[trigger] peers[i]).ip@ == records.subrange(6 * i, 6 * i + 4)
            && peers[i].port == records[6 * i + 4] * 256 + records[6 * i + 5]
}

/// The URL of an announce: the tracker's URL, then the request as a query.
/// The info hash is percent-encoded; the peer id is written as it is.
pub open spec fn announce_url_spec(
    announce_url: Seq<char>,
    info_hash: Seq<u8>,
    peer_id: Seq<char>,
    port: u16,
    uploaded: u64,
    downloaded: u64,
    left: u64,
    compact: u8,
) -> Seq<char> {
    announce_url + "?info_hash="@ + raw_text(percent_encoded(info_hash)) + "&peer_id="@ + peer_id
        + "&port="@ + raw_text(decimal_digits(port as nat)) + "&uploaded="@ + raw_text(
        decimal_digits(uploaded as nat),
    ) + "&downloaded="@ + raw_text(decimal_digits(downloaded as nat)) + "&left="@ + raw_text(
        decimal_digits(left as nat),
    ) + "&compact="@ + raw_text(decimal_digits(compact as nat))
}

fn append_number(text: &mut String, n: u64)
    ensures
        final(text)@ == old(text)@ + raw_text(decimal_digits(n as nat)),
{
    let digits = u64_to_decimal(n).as_slice().to_raw_string();
    text.append(digits.as_str());
}

/// The URL to fetch for an announce.
pub fn announce_url(tracker_url: &str, request: &TrackerRequest) -> (url: String)
    ensures
        url@ == announce_url_spec(
            tracker_url@,
            request.info_hash@,
            request.peer_id@,
            request.port,
            request.uploaded,
            request.downloaded,
            request.left,
            request.compact,
        ),
{
    let mut url = String::from_str(tracker_url);
    url.append("?info_hash=");
    url.append(url_encode(request.info_hash.as_slice()).as_str());
    url.append("&peer_id=");
    url.append(request.peer_id.as_str());
    url.append("&port=");
    append_number(&mut url, request.port as u64);
    url.append("&uploaded=");
    append_number(&mut url, request.uploaded);
    url.append("&downloaded=");
    append_number(&mut url, request.downloaded);
    url.append("&left=");
    append_number(&mut url, request.left);
    url.append("&compact=");
    append_number(&mut url, request.compact as u64);
    url
}

/// Reads compact peer records: 6 bytes each, four octets and a port.
///
/// Fails, with `InvalidPeers`, exactly when the bytes are not a whole
/// number of records.
pub fn parse_peer_records(records: &[u8]) -> (peers: Result<Vec<Peer>, TrackerError>)
    ensures
        match peers {
            Ok(p) => are_peers_of(p@, records@),
            Err(e) => e == TrackerError::InvalidPeers && records@.len() % 6 != 0,
        },
{
    if records.len() % 6 != 0 {
        return Err(TrackerError::InvalidPeers);
    }
    let total: usize = records.len();
    let count: usize = total / 6;
    let mut peers: Vec<Peer> = Vec::new();
    let mut i: usize = 0;
    while i < count
        invariant
            i <= count,
            total == records@.len(),
            count == records@.len() / 6,
            records@.len() % 6 == 0,
            peers@.len() == i,
            forall|k: int|
                0 <= k < i ==> (#[trigger] peers@[k]).ip@ == records@.subrange(6 * k, 6 * k + 4)
                    && peers@[k].port == records@[6 * k + 4] * 256 + records@[6 * k + 5],
        decreases count - i,
    {
        let at: usize = i * 6;
        let ip: [u8; 4] = [records[at], records[at + 1], records[at + 2], records[at + 3]];
        assert(ip@ =~= records@.subrange(6 * i, 6 * i + 4));
        let port: u16 = records[at + 4] as u16 * 256 + records[at + 5] as u16;
        peers.push(Peer { ip, port });
        i += 1;
    }
    Ok(peers)
}

/// Reads compact peer records from a text that holds one byte per
/// character.
pub fn parse_peers(peers: &str) -> (parsed: Result<Vec<Peer>, TrackerError>)
    ensures
        match parsed {
            Ok(p) => are_peers_of(p@, raw_bytes(peers@)),
            Err(e) => e == TrackerError::InvalidPeers && peers@.len() % 6 != 0,
        },
{
    let records = peers.to_raw_bytes();
    parse_peer_records(records.as_slice())
}

/// Reads a tracker's answer: a bencoded dictionary with the interval and
/// the peers as compact records. An answer without an interval has the
/// interval 0, and one without a byte string of peers has no peers; so has
/// an answer that is no dictionary.
pub fn parse_announce_response(bytes: &[u8]) -> (response: Result<TrackerResponse, TrackerError>)
    ensures
        match response {
            Ok(r) => decode_spec(bytes@) matches Ok(value) && (match value {
                Bencode::Dict(entries) => {
                    &&& r.interval == interval_of(dict_get(entries, KEY_INTERVAL.spec_bytes()))
                    &&& match dict_get(entries, KEY_PEERS.spec_bytes()) {
                        Some(Bencode::Bytes(records)) => are_peers_of(r.peers@, records),
                        _ => r.peers@.len() == 0,
                    }
                },
                _ => r.interval == 0 && r.peers@.len() == 0,
            }),
            Err(e) => match decode_spec(bytes@) {
                Err(b) => e == TrackerError::Bencode(b),
                Ok(Bencode::Dict(entries)) => e == TrackerError::InvalidPeers && (dict_get(
                    entries,
                    KEY_PEERS.spec_bytes(),
                ) matches Some(Bencode::Bytes(records)) && records.len() % 6 != 0),
                Ok(_) => false,
            },
        },
{
    let value: BencodeValue = match decode(bytes) {
        Ok(value) => value,
        Err(e) => {
            return Err(TrackerError::Bencode(e));
        },
    };
    let interval: u32 = match value.get(KEY_INTERVAL.as_bytes()) {
        Some(entry) => match entry.as_integer() {
            Some(n) => {
                if n >= 0 {
                    (n as u64 % 0x1_0000_0000) as u32
                } else {
                    0
                }
            },
            None => 0,
        },
        None => 0,
    };
    let peers: Vec<Peer> = match value.get(KEY_PEERS.as_bytes()) {
        Some(entry) => match entry.as_bytes() {
            Some(records) => match parse_peer_records(records.as_slice()) {
                Ok(peers) => peers,
                Err(e) => {
                    return Err(e);
                },
            },
            None => Vec::new(),
        },
        None => Vec::new(),
    };
    Ok(TrackerResponse { interval, peers })
}

fn parse_octet(text: &[char]) -> (octet: Option<u8>)
    ensures
        octet == octet_of(text@),
{
    if text.len() < 1 || text.len() > 3 {
        return None;
    }
    if text[0] == '+' {
        assert(!crate::utils::text::is_digit_char(text@[0]));
        return None;
    }
    if text.len() > 1 && text[0] == '0' {
        return None;
    }
    assert(crate::utils::text::without_plus(text@) == text@);
    match parse_number(text, 255) {
        Some(n) => Some(n as u8),
        None => None,
    }
}

fn parse_octets(text: &[char]) -> (octets: Option<[u8; 4]>)
    ensures
        match octets {
            Some(ip) => octets_of(text@) == Some(ip@),
            None => octets_of(text@) is None,
        },
{
    let dot1: usize = find_char(text, '.');
    if dot1 >= text.len() {
        return None;
    }
    let rest1 = slice_subrange(text, dot1 + 1, text.len());
    let dot2: usize = find_char(rest1, '.');
    if dot2 >= rest1.len() {
        return None;
    }
    let rest2 = slice_subrange(rest1, dot2 + 1, rest1.len());
    let dot3: usize = find_char(rest2, '.');
    if dot3 >= rest2.len() {
        return None;
    }
    let last = slice_subrange(rest2, dot3 + 1, rest2.len());
    let a = parse_octet(slice_subrange(text, 0, dot1));
    let b = parse_octet(slice_subrange(rest1, 0, dot2));
    let c = parse_octet(slice_subrange(rest2, 0, dot3));
    let d = parse_octet(last);
    match (a, b, c, d) {
        (Some(a), Some(b), Some(c), Some(d)) => {
            let ip: [u8; 4] = [a, b, c, d];
            assert(ip@ =~= seq![a, b, c, d]);
            Some(ip)
        },
        _ => None,
    }
}

impl Peer {
    /// The address as `a.b.c.d:port`.
    pub fn to_string(&self) -> (text: String)
        ensures
            text@ == raw_text(peer_text(self.ip@, self.port)),
    {
        let mut out: Vec<u8> = Vec::new();
        push_decimal(&mut out, self.ip[0] as u64);
        out.push(0x2e);
        push_decimal(&mut out, self.ip[1] as u64);
        out.push(0x2e);
        push_decimal(&mut out, self.ip[2] as u64);
        out.push(0x2e);
        push_decimal(&mut out, self.ip[3] as u64);
        out.push(0x3a);
        push_decimal(&mut out, self.port as u64);
        assert(out@ =~= peer_text(self.ip@, self.port));
        out.as_slice().to_raw_string()
    }

    /// Reads an address written as `a.b.c.d:port`, as `peer_of_text` says.
    pub fn parse(text: &str) -> (peer: Option<Peer>)
        ensures
            match peer {
                Some(p) => peer_of_text(text@) == Some((p.ip@, p.port)),
                None => peer_of_text(text@) is None,
            },
    {
        let chars = chars_of(text);
        let colon: usize = find_char(chars.as_slice(), ':');
        if colon >= chars.len() {
            return None;
        }
        let ip: [u8; 4] = match parse_octets(slice_subrange(chars.as_slice(), 0, colon)) {
            Some(ip) => ip,
            None => {
                return None;
            },
        };
        let rest = slice_subrange(chars.as_slice(), colon + 1, chars.len());
        let end: usize = find_char(rest, ':');
        let port: u16 = match parse_number(slice_subrange(rest, 0, end), 65535) {
            Some(port) => port as u16,
            None => DEFAULT_PORT,
        };
        Some(Peer { ip, port })
    }
}

impl core::str::FromStr for Peer {
    type Err = TrackerError;

    fn from_str(s: &str) -> (peer: Result<Self, Self::Err>)
        ensures
            match peer {
                Ok(p) => peer_of_text(s@) == Some((p.ip@, p.port)),
                Err(e) => e == TrackerError::InvalidAddress && peer_of_text(s@) is None,
            },
    {
        match Peer::parse(s) {
            Some(peer) => Ok(peer),
            None => Err(TrackerError::InvalidAddress),
        }
    }
}

} // verus!
