use vstd::prelude::*;
use vstd::slice::slice_subrange;
use crate::utils::hex::{hex_bytes, hex_decode, is_hex_text};
use crate::utils::text::{
    chars_of, find_char, first_index_from, first_index_of, has_prefix, last_index_of,
    number_of_text, parse_number, rfind_char, starts_with, string_of,
};

verus! {

/// The scheme of a magnet link.
pub const MAGNET_SCHEME: &'static str = "magnet";

/// What an exact topic with a version 1 info hash starts with.
pub const BTIH_PREFIX: &'static str = "urn:btih:";

/// What an exact topic with a version 2 info hash starts with.
pub const BTMH_PREFIX: &'static str = "urn:btmh:";

/// Key of the exact topics.
pub const KEY_XT: &'static str = "xt";

/// Key of the display name.
pub const KEY_DN: &'static str = "dn";

/// Key of the trackers.
pub const KEY_TR: &'static str = "tr";

/// Key of the web seeds.
pub const KEY_WS: &'static str = "ws";

/// Key of the acceptable sources.
pub const KEY_AS: &'static str = "as";

/// Key of the exact sources.
pub const KEY_XS: &'static str = "xs";

/// Key of the peers.
pub const KEY_PE: &'static str = "x.pe";

/// Key of the exact length.
pub const KEY_XL: &'static str = "xl";

/// Key of the selected files.
pub const KEY_SO: &'static str = "so";

/// Scheme and decoded query pairs of a URL, as `Url::parse`, `Url::scheme`
/// and `Url::query_pairs` give them; `None` for a text that is no URL.
pub uninterp spec fn url_parts_of(text: Seq<char>) -> Option<
    (Seq<char>, Seq<(Seq<char>, Seq<char>)>),
>;

/// A URL as `Url::parse` writes it back; `None` for a text that is no URL.
pub uninterp spec fn url_normal_form(text: Seq<char>) -> Option<Seq<char>>;

/// The views of a list of pairs of texts.
pub open spec fn pair_views(pairs: Seq<(String, String)>) -> Seq<(Seq<char>, Seq<char>)> {
    Seq::new(pairs.len(), |i: int| (pairs[i].0@, pairs[i].1@))
}

/// The views of a list of texts.
pub open spec fn string_views(items: Seq<String>) -> Seq<Seq<char>> {
    Seq::new(items.len(), |i: int| items[i]@)
}

/// Parses a URL with `Url::parse` and takes its scheme (`Url::scheme`) and
/// the pairs of its query, decoded, in their order (`Url::query_pairs`).
///
/// Trusted: the result depends on the text alone; it is named, not
/// described.
#[verifier::external_body]
fn url_parts(text: &str) -> (parts: Option<(String, Vec<(String, String)>)>)
    ensures
        parts is Some <==> url_parts_of(text@) is Some,
        parts matches Some((scheme, pairs)) ==> url_parts_of(text@) == Some(
            (scheme@, pair_views(pairs@)),
        ),
{
    match reqwest::Url::parse(text) {
        Ok(url) => Some((url.scheme().to_string(), url.query_pairs().into_owned().collect())),
        Err(_) => None,
    }
}

/// Parses a URL with `Url::parse` and writes it back as text.
///
/// Trusted: the result depends on the text alone; it is named, not
/// described.
#[verifier::external_body]
fn normalize_url(text: &str) -> (url: Option<String>)
    ensures
        url is Some <==> url_normal_form(text@) is Some,
        url matches Some(u) ==> url_normal_form(text@) == Some(u@),
{
    match reqwest::Url::parse(text) {
        Ok(url) => Some(String::from(url)),
        Err(_) => None,
    }
}

/// Why a text is not a magnet link, or why a magnet link gives no info
/// hash.
#[derive(Debug, Clone, Copy, PartialEq, Eq, Structural)]
pub enum MagnetError {
    /// The text is no URL.
    InvalidUrl,
    /// The URL's scheme is not `magnet`.
    NotMagnet,
    /// There is no `xt` parameter.
    MissingExactTopic,
    /// A `tr` value is no URL.
    InvalidTracker,
    /// A `ws` value is no URL.
    InvalidWebSeed,
    /// An `as` value is no URL.
    InvalidAcceptableSource,
    /// An `xs` value is no URL.
    InvalidExactSource,
    /// An `x.pe` value is not a host, a colon and a port.
    InvalidPeer,
    /// The `xl` value is not a number that fits 64 bits.
    InvalidLength,
    /// The `so` value is not a list of indices and ranges.
    InvalidSelectOnly,
    /// The first exact topic is neither `urn:btih:` nor `urn:btmh:`.
    UnsupportedTopic,
    /// The hash of the first exact topic is not hexadecimal.
    InvalidInfoHash,
}

/// An exact topic of a magnet link.
#[derive(Debug, Clone, PartialEq, Eq)]
pub enum ExactTopic {
    /// `urn:btih:` and a version 1 info hash.
    Btih(String),
    /// `urn:btmh:` and a version 2 info hash.
    Btmh(String),
    /// Anything else, as it was written.
    Other(String),
}

/// An `ExactTopic` as a mathematical value.
pub enum ExactTopicView {
    Btih(Seq<char>),
    Btmh(Seq<char>),
    Other(Seq<char>),
}

impl View for ExactTopic {
    type V = ExactTopicView;

    open spec fn view(&self) -> ExactTopicView {
        match *self {
            ExactTopic::Btih(hash) => ExactTopicView::Btih(hash@),
            ExactTopic::Btmh(hash) => ExactTopicView::Btmh(hash@),
            ExactTopic::Other(topic) => ExactTopicView::Other(topic@),
        }
    }
}

impl ExactTopic {
    /// The hash of a `btih` or `btmh` topic as it was written.
    pub fn get_hash(&self) -> (hash: Option<&str>)
        ensures
            match hash {
                Some(h) => self@ == ExactTopicView::Btih(h@) || self@ == ExactTopicView::Btmh(h@),
                None => self@ is Other,
            },
    {
        match self {
            ExactTopic::Btih(s) => Some(s.as_str()),
            ExactTopic::Btmh(s) => Some(s.as_str()),
            ExactTopic::Other(_) => None,
        }
    }
}

/// The address of a peer that a magnet link names.
#[derive(Debug, Clone, PartialEq, Eq)]
pub struct PeerAddress {
    pub host: String,
    pub port: u16,
}

/// What a magnet link says.
#[derive(Debug, Clone, PartialEq, Eq)]
pub struct MagnetLink {
    /// The exact topics (`xt`), in order.
    pub exact_topics: Vec<ExactTopic>,
    /// The display name: the last `dn`.
    pub display_name: Option<String>,
    /// The trackers (`tr`), each as the URL parser writes it back.
    pub trackers: Vec<String>,
    /// The web seeds (`ws`).
    pub web_seeds: Vec<String>,
    /// The acceptable sources (`as`).
    pub acceptable_sources: Vec<String>,
    /// The exact sources (`xs`).
    pub exact_sources: Vec<String>,
    /// The peers (`x.pe`).
    pub peers: Vec<PeerAddress>,
    /// The exact length in bytes: the last `xl`.
    pub length: Option<u64>,
    /// The indices of the selected files: the last `so`.
    pub select_only: Option<Vec<u32>>,
    /// The parameters that were not interpreted, in order.
    pub other_params: Vec<(String, String)>,
}

/// A `MagnetLink` as a mathematical value.
pub struct MagnetView {
    pub exact_topics: Seq<ExactTopicView>,
    pub display_name: Option<Seq<char>>,
    pub trackers: Seq<Seq<char>>,
    pub web_seeds: Seq<Seq<char>>,
    pub acceptable_sources: Seq<Seq<char>>,
    pub exact_sources: Seq<Seq<char>>,
    pub peers: Seq<(Seq<char>, u16)>,
    pub length: Option<u64>,
    pub select_only: Option<Seq<u32>>,
    pub other_params: Seq<(Seq<char>, Seq<char>)>,
}

/// The views of a list of exact topics.
pub open spec fn topic_views(topics: Seq<ExactTopic>) -> Seq<ExactTopicView> {
    Seq::new(topics.len(), |i: int| topics[i]@)
}

/// The views of a list of peer addresses.
pub open spec fn peer_views(peers: Seq<PeerAddress>) -> Seq<(Seq<char>, u16)> {
    Seq::new(peers.len(), |i: int| (peers[i].host@, peers[i].port))
}

impl View for MagnetLink {
    type V = MagnetView;

    open spec fn view(&self) -> MagnetView {
        MagnetView {
            exact_topics: topic_views(self.exact_topics@),
            display_name: match self.display_name {
                Some(name) => Some(name@),
                None => None,
            },
            trackers: string_views(self.trackers@),
            web_seeds: string_views(self.web_seeds@),
            acceptable_sources: string_views(self.acceptable_sources@),
            exact_sources: string_views(self.exact_sources@),
            peers: peer_views(self.peers@),
            length: self.length,
            select_only: match self.select_only {
                Some(indices) => Some(indices@),
                None => None,
            },
            other_params: pair_views(self.other_params@),
        }
    }
}

/// The values that the first `n` pairs give for a key, in order.
pub open spec fn values_of(pairs: Seq<(Seq<char>, Seq<char>)>, key: Seq<char>, n: int) -> Seq<
    Seq<char>,
>
    decreases n,
{
    if n <= 0 {
        Seq::empty()
    } else if pairs[n - 1].0 == key {
        values_of(pairs, key, n - 1).push(pairs[n - 1].1)
    } else {
        values_of(pairs, key, n - 1)
    }
}

/// All the values that the pairs give for a key, in order.
pub open spec fn all_values(pairs: Seq<(Seq<char>, Seq<char>)>, key: Seq<char>) -> Seq<Seq<char>> {
    values_of(pairs, key, pairs.len() as int)
}

/// Whether a key is one that a magnet link interprets.
pub open spec fn is_known_key(key: Seq<char>) -> bool {
    ||| key == KEY_XT@
    ||| key == KEY_DN@
    ||| key == KEY_TR@
    ||| key == KEY_WS@
    ||| key == KEY_AS@
    ||| key == KEY_XS@
    ||| key == KEY_PE@
    ||| key == KEY_XL@
    ||| key == KEY_SO@
}

/// Those of the first `n` pairs whose key is not interpreted, in order.
pub open spec fn others_of(pairs: Seq<(Seq<char>, Seq<char>)>, n: int) -> Seq<
    (Seq<char>, Seq<char>),
>
    decreases n,
{
    if n <= 0 {
        Seq::empty()
    } else if is_known_key(pairs[n - 1].0) {
        others_of(pairs, n - 1)
    } else {
        others_of(pairs, n - 1).push(pairs[n - 1])
    }
}

/// The topic that an `xt` value names.
pub open spec fn topic_of(xt: Seq<char>) -> ExactTopicView {
    if starts_with(xt, BTIH_PREFIX@) {
        ExactTopicView::Btih(xt.subrange(BTIH_PREFIX@.len() as int, xt.len() as int))
    } else if starts_with(xt, BTMH_PREFIX@) {
        ExactTopicView::Btmh(xt.subrange(BTMH_PREFIX@.len() as int, xt.len() as int))
    } else {
        ExactTopicView::Other(xt)
    }
}

/// The topics that `xt` values name.
pub open spec fn topics_of(values: Seq<Seq<char>>) -> Seq<ExactTopicView> {
    Seq::new(values.len(), |i: int| topic_of(values[i]))
}

/// The first `n` values as URLs written back, if all of them are URLs.
pub open spec fn urls_of(values: Seq<Seq<char>>, n: int) -> Option<Seq<Seq<char>>>
    decreases n,
{
    if n <= 0 {
        Some(Seq::empty())
    } else {
        match urls_of(values, n - 1) {
            None => None,
            Some(urls) => match url_normal_form(values[n - 1]) {
                None => None,
                Some(url) => Some(urls.push(url)),
            },
        }
    }
}

/// The peer that an `x.pe` value names: the host before the last colon and
/// the port after it.
pub open spec fn peer_of(value: Seq<char>) -> Option<(Seq<char>, u16)> {
    match last_index_of(value, ':') {
        None => None,
        Some(at) => match number_of_text(value.subrange(at + 1, value.len() as int), 65535) {
            None => None,
            Some(port) => Some((value.subrange(0, at), port as u16)),
        },
    }
}

/// The peers that the first `n` values name, if all of them name one.
pub open spec fn peers_of(values: Seq<Seq<char>>, n: int) -> Option<Seq<(Seq<char>, u16)>>
    decreases n,
{
    if n <= 0 {
        Some(Seq::empty())
    } else {
        match peers_of(values, n - 1) {
            None => None,
            Some(peers) => match peer_of(values[n - 1]) {
                None => None,
                Some(peer) => Some(peers.push(peer)),
            },
        }
    }
}

/// The last of a list of values.
pub open spec fn last_value(values: Seq<Seq<char>>) -> Option<Seq<char>> {
    if values.len() == 0 {
        None
    } else {
        Some(values.last())
    }
}

/// Whether a character is white space.
pub open spec fn is_space(c: char) -> bool {
    ||| '\u{9}' <= c <= '\u{d}'
    ||| c == ' '
    ||| c == '\u{85}'
    ||| c == '\u{a0}'
    ||| c == '\u{1680}'
    ||| '\u{2000}' <= c <= '\u{200a}'
    ||| c == '\u{2028}'
    ||| c == '\u{2029}'
    ||| c == '\u{202f}'
    ||| c == '\u{205f}'
    ||| c == '\u{3000}'
}

/// The first position from `from` on that holds no white space, or the
/// length of the text.
pub open spec fn skip_spaces(text: Seq<char>, from: int) -> int
    decreases text.len() - from,
{
    if from < 0 || from >= text.len() {
        text.len() as int
    } else if is_space(text[from]) {
        skip_spaces(text, from + 1)
    } else {
        from
    }
}

/// The position after the last character before `upto` that is no white
/// space, or 0.
pub open spec fn drop_spaces(text: Seq<char>, upto: int) -> int
    decreases upto,
{
    if upto <= 0 || upto > text.len() {
        0
    } else if is_space(text[upto - 1]) {
        drop_spaces(text, upto - 1)
    } else {
        upto
    }
}

/// A text without the white space at its ends.
pub open spec fn trimmed(text: Seq<char>) -> Seq<char> {
    let start = skip_spaces(text, 0);
    let end = drop_spaces(text, text.len() as int);
    if start < end {
        text.subrange(start, end)
    } else {
        Seq::empty()
    }
}

/// The indices that one part of an `so` value names: one index, or every
/// index of a range `first-last`.
pub open spec fn part_indices(part: Seq<char>) -> Option<Seq<u32>> {
    let dash = first_index_of(part, '-');
    if dash < part.len() {
        match number_of_text(part.subrange(0, dash), 0xffff_ffff) {
            None => None,
            Some(first) => match number_of_text(
                part.subrange(dash + 1, part.len() as int),
                0xffff_ffff,
            ) {
                None => None,
                Some(last) => if first > last {
                    None
                } else {
                    Some(Seq::new((last - first + 1) as nat, |i: int| (first + i) as u32))
                },
            },
        }
    } else {
        match number_of_text(part, 0xffff_ffff) {
            None => None,
            Some(index) => Some(seq![index as u32]),
        }
    }
}

/// The indices that an `so` value names from position `from` on, after
/// those in `done`: the parts between commas, trimmed, empty ones left out.
pub open spec fn select_only_from(text: Seq<char>, from: int, done: Seq<u32>) -> Option<Seq<u32>>
    decreases text.len() - from,
{
    if from < 0 || from > text.len() {
        Some(done)
    } else {
        let comma = first_index_from(text, ',', from);
        let part = trimmed(text.subrange(from, comma));
        let more = if part.len() == 0 {
            Some(Seq::empty())
        } else {
            part_indices(part)
        };
        match more {
            None => None,
            Some(indices) => if comma >= text.len() || comma < from {
                Some(done + indices)
            } else {
                select_only_from(text, comma + 1, done + indices)
            },
        }
    }
}

/// The indices that an `so` value names.
pub open spec fn select_only_of(text: Seq<char>) -> Option<Seq<u32>> {
    select_only_from(text, 0, Seq::empty())
}

/// What the pairs of a magnet link's query say, or what is wrong with them
/// first: a missing `xt`, then a `tr`, `ws`, `as` or `xs` that is no URL,
/// an `x.pe` that names no peer, an `xl` that is no length, an `so` that
/// is no selection.
pub open spec fn magnet_of_pairs(pairs: Seq<(Seq<char>, Seq<char>)>) -> Result<
    MagnetView,
    MagnetError,
> {
    let topics = all_values(pairs, KEY_XT@);
    let trackers = all_values(pairs, KEY_TR@);
    let web_seeds = all_values(pairs, KEY_WS@);
    let acceptable = all_values(pairs, KEY_AS@);
    let exact = all_values(pairs, KEY_XS@);
    let peers = all_values(pairs, KEY_PE@);
    let length = last_value(all_values(pairs, KEY_XL@));
    let selected = last_value(all_values(pairs, KEY_SO@));
    if topics.len() == 0 {
        Err(MagnetError::MissingExactTopic)
    } else if urls_of(trackers, trackers.len() as int) is None {
        Err(MagnetError::InvalidTracker)
    } else if urls_of(web_seeds, web_seeds.len() as int) is None {
        Err(MagnetError::InvalidWebSeed)
    } else if urls_of(acceptable, acceptable.len() as int) is None {
        Err(MagnetError::InvalidAcceptableSource)
    } else if urls_of(exact, exact.len() as int) is None {
        Err(MagnetError::InvalidExactSource)
    } else if peers_of(peers, peers.len() as int) is None {
        Err(MagnetError::InvalidPeer)
    } else if length is Some && number_of_text(length.unwrap(), u64::MAX) is None {
        Err(MagnetError::InvalidLength)
    } else if selected is Some && select_only_of(selected.unwrap()) is None {
        Err(MagnetError::InvalidSelectOnly)
    } else {
        Ok(
            MagnetView {
                exact_topics: topics_of(topics),
                display_name: last_value(all_values(pairs, KEY_DN@)),
                trackers: urls_of(trackers, trackers.len() as int).unwrap(),
                web_seeds: urls_of(web_seeds, web_seeds.len() as int).unwrap(),
                acceptable_sources: urls_of(acceptable, acceptable.len() as int).unwrap(),
                exact_sources: urls_of(exact, exact.len() as int).unwrap(),
                peers: peers_of(peers, peers.len() as int).unwrap(),
                length: match length {
                    Some(text) => number_of_text(text, u64::MAX),
                    None => None,
                },
                select_only: match selected {
                    Some(text) => select_only_of(text),
                    None => None,
                },
                other_params: others_of(pairs, pairs.len() as int),
            },
        )
    }
}

/// What a text says as a magnet link: it has to be a URL with the scheme
/// `magnet`, and then says what the pairs of its query say.
pub open spec fn magnet_of(input: Seq<char>) -> Result<MagnetView, MagnetError> {
    match url_parts_of(input) {
        None => Err(MagnetError::InvalidUrl),
        Some((scheme, pairs)) => if scheme != MAGNET_SCHEME@ {
            Err(MagnetError::NotMagnet)
        } else {
            magnet_of_pairs(pairs)
        },
    }
}

fn collect_values(pairs: &Vec<(String, String)>, key: &str) -> (values: Vec<String>)
    ensures
        string_views(values@) == all_values(pair_views(pairs@), key@),
{
    let wanted: String = key.to_owned();
    let ghost views = pair_views(pairs@);
    let mut values: Vec<String> = Vec::new();
    let mut i: usize = 0;
    assert(string_views(values@) =~= Seq::empty());
    while i < pairs.len()
        invariant
            i <= pairs@.len(),
            wanted@ == key@,
            views == pair_views(pairs@),
            string_views(values@) == values_of(views, key@, i as int),
        decreases pairs@.len() - i,
    {
        assert(views[i as int] == (pairs@[i as int].0@, pairs@[i as int].1@));
        if pairs[i].0 == wanted {
            let ghost before = string_views(values@);
            let value = pairs[i].1.clone();
            values.push(value);
            assert(string_views(values@) =~= before.push(value@));
        }
        i += 1;
    }
    values
}

fn last_of(values: &Vec<String>) -> (last: Option<String>)
    ensures
        match last {
            Some(text) => last_value(string_views(values@)) == Some(text@),
            None => last_value(string_views(values@)) is None,
        },
{
    if values.len() == 0 {
        None
    } else {
        Some(values[values.len() - 1].clone())
    }
}

fn collect_urls(values: &Vec<String>) -> (urls: Option<Vec<String>>)
    ensures
        match urls {
            Some(u) => urls_of(string_views(values@), values@.len() as int) == Some(
                string_views(u@),
            ),
            None => urls_of(string_views(values@), values@.len() as int) is None,
        },
{
    let ghost views = string_views(values@);
    let mut urls: Vec<String> = Vec::new();
    let mut i: usize = 0;
    assert(string_views(urls@) =~= Seq::empty());
    while i < values.len()
        invariant
            i <= values@.len(),
            views == string_views(values@),
            urls_of(views, i as int) == Some(string_views(urls@)),
        decreases values@.len() - i,
    {
        assert(views[i as int] == values@[i as int]@);
        match normalize_url(values[i].as_str()) {
            None => {
                proof {
                    lemma_urls_stay_none(views, i as int + 1, values@.len() as int);
                }
                return None;
            },
            Some(url) => {
                let ghost before = string_views(urls@);
                urls.push(url);
                assert(string_views(urls@) =~= before.push(url@));
            },
        }
        i += 1;
    }
    Some(urls)
}

proof fn lemma_urls_stay_none(values: Seq<Seq<char>>, n: int, m: int)
    requires
        n <= m,
        urls_of(values, n) is None,
    ensures
        urls_of(values, m) is None,
    decreases m - n,
{
    if n < m {
        lemma_urls_stay_none(values, n, m - 1);
    }
}

proof fn lemma_peers_stay_none(values: Seq<Seq<char>>, n: int, m: int)
    requires
        n <= m,
        peers_of(values, n) is None,
    ensures
        peers_of(values, m) is None,
    decreases m - n,
{
    if n < m {
        lemma_peers_stay_none(values, n, m - 1);
    }
}

/// Reads an `xt` value.
pub fn parse_exact_topic(xt: &str) -> (topic: ExactTopic)
    ensures
        topic@ == topic_of(xt@),
{
    let chars = chars_of(xt);
    let btih = chars_of(BTIH_PREFIX);
    let btmh = chars_of(BTMH_PREFIX);
    if has_prefix(chars.as_slice(), btih.as_slice()) {
        ExactTopic::Btih(string_of(slice_subrange(chars.as_slice(), btih.len(), chars.len())))
    } else if has_prefix(chars.as_slice(), btmh.as_slice()) {
        ExactTopic::Btmh(string_of(slice_subrange(chars.as_slice(), btmh.len(), chars.len())))
    } else {
        ExactTopic::Other(string_of(chars.as_slice()))
    }
}

/// Reads an `x.pe` value: a host, a colon, a port. The host is what stands
/// before the last colon.
pub fn parse_peer(value: &str) -> (peer: Option<PeerAddress>)
    ensures
        match peer {
            Some(p) => peer_of(value@) == Some((p.host@, p.port)),
            None => peer_of(value@) is None,
        },
{
    let chars = chars_of(value);
    let at: usize = match rfind_char(chars.as_slice(), ':') {
        None => {
            return None;
        },
        Some(at) => at,
    };
    let port: u64 = match parse_number(
        slice_subrange(chars.as_slice(), at + 1, chars.len()),
        65535,
    ) {
        None => {
            return None;
        },
        Some(port) => port,
    };
    Some(PeerAddress { host: string_of(slice_subrange(chars.as_slice(), 0, at)), port: port as u16 })
}

fn is_space_char(c: char) -> (space: bool)
    ensures
        space == is_space(c),
{
    ('\u{9}' <= c && c <= '\u{d}') || c == ' ' || c == '\u{85}' || c == '\u{a0}' || c
        == '\u{1680}' || ('\u{2000}' <= c && c <= '\u{200a}') || c == '\u{2028}' || c
        == '\u{2029}' || c == '\u{202f}' || c == '\u{205f}' || c == '\u{3000}'
}

fn trim(chars: &[char]) -> (kept: &[char])
    ensures
        kept@ == trimmed(chars@),
{
    let mut start: usize = 0;
    while start < chars.len() && is_space_char(chars[start])
        invariant
            start <= chars@.len(),
            skip_spaces(chars@, 0) == skip_spaces(chars@, start as int),
        decreases chars@.len() - start,
    {
        start += 1;
    }
    let mut end: usize = chars.len();
    while end > 0 && is_space_char(chars[end - 1])
        invariant
            end <= chars@.len(),
            drop_spaces(chars@, chars@.len() as int) == drop_spaces(chars@, end as int),
        decreases end,
    {
        end -= 1;
    }
    if start < end {
        slice_subrange(chars, start, end)
    } else {
        let none = slice_subrange(chars, 0, 0);
        assert(none@ =~= Seq::<char>::empty());
        none
    }
}

fn push_part(part: &[char], result: &mut Vec<u32>) -> (read: bool)
    ensures
        match part_indices(part@) {
            Some(indices) => read && final(result)@ == old(result)@ + indices,
            None => !read,
        },
{
    let dash: usize = find_char(part, '-');
    if dash < part.len() {
        let first: u32 = match parse_number(slice_subrange(part, 0, dash), 0xffff_ffff) {
            None => {
                return false;
            },
            Some(n) => n as u32,
        };
        let last: u32 = match parse_number(
            slice_subrange(part, dash + 1, part.len()),
            0xffff_ffff,
        ) {
            None => {
                return false;
            },
            Some(n) => n as u32,
        };
        if first > last {
            return false;
        }
        let ghost indices = Seq::new((last - first + 1) as nat, |i: int| (first + i) as u32);
        let mut next: u32 = first;
        loop
            invariant_except_break
                result@ == old(result)@ + indices.subrange(0, next - first),
            invariant
                first <= next <= last,
                indices == Seq::new((last - first + 1) as nat, |i: int| (first + i) as u32),
            ensures
                result@ == old(result)@ + indices,
            decreases last - next,
        {
            result.push(next);
            assert(result@ =~= old(result)@ + indices.subrange(0, next - first + 1));
            if next == last {
                assert(indices.subrange(0, next - first + 1) =~= indices);
                break;
            }
            next += 1;
        }
        true
    } else {
        match parse_number(part, 0xffff_ffff) {
            None => false,
            Some(n) => {
                result.push(n as u32);
                assert(result@ =~= old(result)@ + seq![n as u32]);
                true
            },
        }
    }
}

/// Reads an `so` value: indices and ranges `first-last`, separated by
/// commas. White space around a part is dropped, and so are empty parts.
pub fn parse_select_only(value: &str) -> (selected: Option<Vec<u32>>)
    ensures
        match selected {
            Some(indices) => select_only_of(value@) == Some(indices@),
            None => select_only_of(value@) is None,
        },
{
    let chars = chars_of(value);
    let mut result: Vec<u32> = Vec::new();
    let mut from: usize = 0;
    loop
        invariant
            from <= chars@.len(),
            chars@ == value@,
            select_only_of(value@) == select_only_from(chars@, from as int, result@),
        decreases chars@.len() - from,
    {
        let rest = slice_subrange(chars.as_slice(), from, chars.len());
        let offset: usize = find_char(rest, ',');
        let comma: usize = from + offset;
        proof {
            lemma_first_index_shift(chars@, ',', from as int, from as int);
        }
        let part = trim(slice_subrange(chars.as_slice(), from, comma));
        let ghost before = result@;
        if part.len() > 0 {
            if !push_part(part, &mut result) {
                return None;
            }
        } else {
            assert(before + Seq::<u32>::empty() =~= before);
        }
        if comma >= chars.len() {
            return Some(result);
        }
        from = comma + 1;
    }
}

proof fn lemma_first_index_shift(text: Seq<char>, c: char, base: int, from: int)
    requires
        0 <= base <= from <= text.len(),
    ensures
        first_index_from(text, c, from) == base + first_index_from(
            text.subrange(base, text.len() as int),
            c,
            from - base,
        ),
    decreases text.len() - from,
{
    let rest = text.subrange(base, text.len() as int);
    if from < text.len() {
        assert(rest[from - base] == text[from]);
        if text[from] != c {
            lemma_first_index_shift(text, c, base, from + 1);
        }
    }
}

fn collect_peers(values: &Vec<String>) -> (peers: Option<Vec<PeerAddress>>)
    ensures
        match peers {
            Some(p) => peers_of(string_views(values@), values@.len() as int) == Some(
                peer_views(p@),
            ),
            None => peers_of(string_views(values@), values@.len() as int) is None,
        },
{
    let ghost views = string_views(values@);
    let mut peers: Vec<PeerAddress> = Vec::new();
    let mut i: usize = 0;
    assert(peer_views(peers@) =~= Seq::empty());
    while i < values.len()
        invariant
            i <= values@.len(),
            views == string_views(values@),
            peers_of(views, i as int) == Some(peer_views(peers@)),
        decreases values@.len() - i,
    {
        assert(views[i as int] == values@[i as int]@);
        match parse_peer(values[i].as_str()) {
            None => {
                proof {
                    lemma_peers_stay_none(views, i as int + 1, values@.len() as int);
                }
                return None;
            },
            Some(peer) => {
                let ghost before = peer_views(peers@);
                peers.push(peer);
                assert(peer_views(peers@) =~= before.push((peer.host@, peer.port)));
            },
        }
        i += 1;
    }
    Some(peers)
}

fn collect_topics(values: &Vec<String>) -> (topics: Vec<ExactTopic>)
    ensures
        topic_views(topics@) == topics_of(string_views(values@)),
{
    let mut topics: Vec<ExactTopic> = Vec::new();
    let mut i: usize = 0;
    while i < values.len()
        invariant
            i <= values@.len(),
            topics@.len() == i,
            forall|k: int| 0 <= k < i ==> (#[trigger] topics@[k])@ == topic_of(values@[k]@),
        decreases values@.len() - i,
    {
        topics.push(parse_exact_topic(values[i].as_str()));
        i += 1;
    }
    assert(topic_views(topics@) =~= topics_of(string_views(values@)));
    topics
}

fn collect_others(pairs: &Vec<(String, String)>) -> (others: Vec<(String, String)>)
    ensures
        pair_views(others@) == others_of(pair_views(pairs@), pairs@.len() as int),
{
    let xt: String = KEY_XT.to_owned();
    let dn: String = KEY_DN.to_owned();
    let tr: String = KEY_TR.to_owned();
    let ws: String = KEY_WS.to_owned();
    let acceptable: String = KEY_AS.to_owned();
    let xs: String = KEY_XS.to_owned();
    let pe: String = KEY_PE.to_owned();
    let xl: String = KEY_XL.to_owned();
    let so: String = KEY_SO.to_owned();
    let ghost views = pair_views(pairs@);
    let mut others: Vec<(String, String)> = Vec::new();
    let mut i: usize = 0;
    assert(pair_views(others@) =~= Seq::empty());
    while i < pairs.len()
        invariant
            i <= pairs@.len(),
            xt@ == KEY_XT@,
            dn@ == KEY_DN@,
            tr@ == KEY_TR@,
            ws@ == KEY_WS@,
            acceptable@ == KEY_AS@,
            xs@ == KEY_XS@,
            pe@ == KEY_PE@,
            xl@ == KEY_XL@,
            so@ == KEY_SO@,
            views == pair_views(pairs@),
            pair_views(others@) == others_of(views, i as int),
        decreases pairs@.len() - i,
    {
        assert(views[i as int] == (pairs@[i as int].0@, pairs@[i as int].1@));
        let key = &pairs[i].0;
        let known = *key == xt || *key == dn || *key == tr || *key == ws || *key == acceptable
            || *key == xs || *key == pe || *key == xl || *key == so;
        if !known {
            let ghost before = pair_views(others@);
            let pair = (pairs[i].0.clone(), pairs[i].1.clone());
            others.push(pair);
            assert(pair_views(others@) =~= before.push(views[i as int]));
        }
        i += 1;
    }
    others
}

impl MagnetLink {
    /// Makes a magnet link of the decoded pairs of its query, as
    /// `magnet_of_pairs` says.
    pub fn from_query_pairs(pairs: &Vec<(String, String)>) -> (link: Result<
        MagnetLink,
        MagnetError,
    >)
        ensures
            match link {
                Ok(l) => magnet_of_pairs(pair_views(pairs@)) == Ok::<MagnetView, MagnetError>(l@),
                Err(e) => magnet_of_pairs(pair_views(pairs@)) == Err::<MagnetView, MagnetError>(e),
            },
    {
        let topics = collect_values(pairs, KEY_XT);
        if topics.len() == 0 {
            return Err(MagnetError::MissingExactTopic);
        }
        let exact_topics = collect_topics(&topics);
        let display_name = last_of(&collect_values(pairs, KEY_DN));
        let trackers = match collect_urls(&collect_values(pairs, KEY_TR)) {
            Some(urls) => urls,
            None => {
                return Err(MagnetError::InvalidTracker);
            },
        };
        let web_seeds = match collect_urls(&collect_values(pairs, KEY_WS)) {
            Some(urls) => urls,
            None => {
                return Err(MagnetError::InvalidWebSeed);
            },
        };
        let acceptable_sources = match collect_urls(&collect_values(pairs, KEY_AS)) {
            Some(urls) => urls,
            None => {
                return Err(MagnetError::InvalidAcceptableSource);
            },
        };
        let exact_sources = match collect_urls(&collect_values(pairs, KEY_XS)) {
            Some(urls) => urls,
            None => {
                return Err(MagnetError::InvalidExactSource);
            },
        };
        let peers = match collect_peers(&collect_values(pairs, KEY_PE)) {
            Some(peers) => peers,
            None => {
                return Err(MagnetError::InvalidPeer);
            },
        };
        let length: Option<u64> = match last_of(&collect_values(pairs, KEY_XL)) {
            None => None,
            Some(text) => match parse_number(chars_of(text.as_str()).as_slice(), u64::MAX) {
                None => {
                    return Err(MagnetError::InvalidLength);
                },
                Some(n) => Some(n),
            },
        };
        let select_only: Option<Vec<u32>> = match last_of(&collect_values(pairs, KEY_SO)) {
            None => None,
            Some(text) => match parse_select_only(text.as_str()) {
                None => {
                    return Err(MagnetError::InvalidSelectOnly);
                },
                Some(indices) => Some(indices),
            },
        };
        let other_params = collect_others(pairs);
        Ok(
            MagnetLink {
                exact_topics,
                display_name,
                trackers,
                web_seeds,
                acceptable_sources,
                exact_sources,
                peers,
                length,
                select_only,
                other_params,
            },
        )
    }

    /// Reads a magnet link, as `magnet_of` says.
    pub fn parse(input: &str) -> (link: Result<MagnetLink, MagnetError>)
        ensures
            match link {
                Ok(l) => magnet_of(input@) == Ok::<MagnetView, MagnetError>(l@),
                Err(e) => magnet_of(input@) == Err::<MagnetView, MagnetError>(e),
            },
    {
        let (scheme, pairs) = match url_parts(input) {
            None => {
                return Err(MagnetError::InvalidUrl);
            },
            Some(parts) => parts,
        };
        if scheme != MAGNET_SCHEME.to_owned() {
            return Err(MagnetError::NotMagnet);
        }
        Self::from_query_pairs(&pairs)
    }

    /// The info hash that the link's first exact topic gives, or why it
    /// gives none.
    pub open spec fn spec_info_hash(view: MagnetView) -> Result<Seq<u8>, MagnetError> {
        if view.exact_topics.len() == 0 {
            Err(MagnetError::MissingExactTopic)
        } else {
            match view.exact_topics[0] {
                ExactTopicView::Other(_) => Err(MagnetError::UnsupportedTopic),
                ExactTopicView::Btih(hash) | ExactTopicView::Btmh(hash) => if is_hex_text(hash) {
                    Ok(hex_bytes(hash))
                } else {
                    Err(MagnetError::InvalidInfoHash)
                },
            }
        }
    }

    /// The info hash of the torrent: the bytes that the hash of the first
    /// exact topic writes in hexadecimal.
    pub fn info_hash(&self) -> (hash: Result<Vec<u8>, MagnetError>)
        ensures
            match hash {
                Ok(h) => Self::spec_info_hash(self@) == Ok::<Seq<u8>, MagnetError>(h@),
                Err(e) => Self::spec_info_hash(self@) == Err::<Seq<u8>, MagnetError>(e),
            },
    {
        if self.exact_topics.len() == 0 {
            return Err(MagnetError::MissingExactTopic);
        }
        assert(self@.exact_topics[0] == self.exact_topics@[0]@);
        match self.exact_topics[0].get_hash() {
            None => Err(MagnetError::UnsupportedTopic),
            Some(text) => match hex_decode(text) {
                Ok(bytes) => Ok(bytes),
                Err(_) => Err(MagnetError::InvalidInfoHash),
            },
        }
    }

    /// The first tracker of the link, if it names any.
    pub fn first_tracker(&self) -> (tracker: Option<&String>)
        ensures
            match tracker {
                Some(url) => self@.trackers.len() > 0 && url@ == self@.trackers[0],
                None => self@.trackers.len() == 0,
            },
    {
        if self.trackers.len() == 0 {
            None
        } else {
            Some(&self.trackers[0])
        }
    }
}

} // verus!
