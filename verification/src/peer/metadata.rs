use vstd::prelude::*;
use vstd::string::StringSliceAdditionalSpecFns;
use std::collections::HashSet;
use crate::bencode::encoder::{encode, encode_spec};
use crate::bencode::parser::{decode_spec, parse_at, parse_value_spec, BencodeError};
use crate::bencode::value::{lemma_view_of_children, Bencode, BencodeValue};
use crate::peer::connection::{command_views, PeerCommand, PeerCommandView, PeerEvent, PeerEventView};
use crate::peer::extension::{
    decode_payload_spec, extension_id, payload_bencode, ExtensionError,
    ExtensionHandshakePayload, PayloadView, METADATA_EXTENSION_NAME,
};
use crate::peer::session::{
    HandlerEffect, HandlerEffectView, HandlerInputView, HandlerStep, HandlerStepView,
    PeerSessionHandler, SessionControl,
};
use crate::torrent::magnet::{MagnetError, MagnetLink, MagnetView};
use crate::torrent::metainfo::{
    dict_u64, metainfo_of_info, MetainfoError, MetainfoView, TorrentMetainfo,
};
use crate::tracker::client::TrackerRequest;
use crate::utils::bytes::{bytes_equal, copy_into, copy_range, overwritten};
use crate::utils::hash::{sha1, sha1_digest};

verus! {

broadcast use vstd::std_specs::hash::group_hash_axioms;

/// The id that we assign to the metadata extension in our handshake.
pub const MY_METADATA_EXTENSION_MESSAGE_ID: u8 = 42;

/// The size of a piece of metadata, but for the last.
pub const METADATA_PIECE_SIZE: usize = 16384;

/// Key of the message type in a metadata message.
pub const KEY_MSG_TYPE: &'static str = "msg_type";

/// Key of the piece index in a metadata message.
pub const KEY_PIECE: &'static str = "piece";

/// The message type of a request for a piece.
pub const MSG_REQUEST: u64 = 0;

/// The message type of a piece of metadata.
pub const MSG_DATA: u64 = 1;

/// The message type of a refusal.
pub const MSG_REJECT: u64 = 2;

/// Why fetching metadata from a peer failed.
#[derive(Debug, Clone, Copy, PartialEq, Eq, Structural)]
pub enum MetadataError {
    /// Our extension handshake could not be written, or the peer's could
    /// not be read.
    Handshake(ExtensionError),
    /// The peer's extension handshake tells no metadata size.
    MissingMetadataSize,
    /// The metadata is larger than memory can address.
    MetadataTooLarge,
    /// The peer has assigned no id to the metadata extension.
    MissingMetadataId,
    /// A metadata message does not start with a bencoded value.
    Bencode(BencodeError),
    /// A metadata message has no message type or no piece index.
    InvalidHeader,
    /// The peer asked us for metadata.
    UnexpectedRequest,
    /// The peer refused our request.
    Rejected,
    /// A piece of metadata came without data.
    EmptyPiece,
    /// A piece of metadata lies beyond the metadata.
    PieceOutOfRange,
    /// A piece of metadata does not have the size of its place.
    PieceSize,
    /// The connection failed.
    Io,
    /// The magnet link names no tracker.
    NoTracker,
    /// The magnet link gives no info hash.
    Magnet(MagnetError),
    /// The metadata does not have the info hash of the magnet link.
    InfoHashMismatch,
    /// The metadata is not an info dictionary.
    Metainfo(MetainfoError),
}

/// What fetching metadata has given.
pub struct MetadataFetchResult {
    /// The id that the peer gave itself in its handshake.
    pub peer_id: Option<Vec<u8>>,
    /// The id that the peer assigned to the metadata extension.
    pub peer_metadata_id: Option<u8>,
    /// The metainfo, once all the metadata has been received.
    pub metainfo: Option<TorrentMetainfo>,
}

/// Fetches the info dictionary of a magnet link from one peer with the
/// metadata extension.
pub struct MetadataFetcher {
    magnet_link: MagnetLink,
    client_id: String,
    ext_handshake_sent: bool,
    metadata_bytes: Option<Vec<u8>>,
    total_size: Option<usize>,
    requested_pieces: HashSet<u64>,
    received_pieces: HashSet<u64>,
    peer_metadata_id: Option<u8>,
    peer_id: Option<Vec<u8>>,
    handshake_only: bool,
}

/// What changes in a metadata fetcher.
pub struct FetcherView {
    /// Whether our extension handshake has been sent.
    pub handshake_sent: bool,
    /// The metadata as far as it has been received; zero elsewhere.
    pub buffer: Option<Seq<u8>>,
    /// The pieces that have been asked for.
    pub requested: Set<u64>,
    /// The pieces that have been received.
    pub received: Set<u64>,
    /// The id that the peer assigned to the metadata extension.
    pub peer_metadata_id: Option<u8>,
    /// The id that the peer gave itself.
    pub peer_id: Option<Seq<u8>>,
    /// Whether the fetcher stops after the extension handshake.
    pub handshake_only: bool,
}

/// The outcome of a step of the fetcher: what it has become and its
/// answer.
pub struct FetcherOutcome {
    pub fetcher: FetcherView,
    pub answer: Result<HandlerStepView, MetadataError>,
}

/// How many pieces metadata of a size has.
pub open spec fn metadata_piece_count(size: nat) -> nat {
    (size + 16383) / 16384
}

/// The size of a piece of metadata: 16 KiB, but for the last piece what is
/// left of the metadata.
pub open spec fn metadata_piece_size(size: nat, piece: nat) -> int {
    if size - piece * 16384 < 16384 {
        size - piece * 16384
    } else {
        16384
    }
}

/// Whether all the pieces of metadata of a size have been received.
pub open spec fn all_received(received: Set<u64>, size: nat) -> bool {
    forall|i: u64| 0 <= i < metadata_piece_count(size) ==> received.contains(i)
}

/// The payload that asks for a piece of metadata: a dictionary with the
/// message type 0 and the piece index.
pub open spec fn request_payload(piece: u64) -> Seq<u8> {
    encode_spec(
        Bencode::Dict(
            seq![
                (KEY_MSG_TYPE.spec_bytes(), Bencode::Integer(0)),
                (KEY_PIECE.spec_bytes(), Bencode::Integer(piece as i64)),
            ],
        ),
    )
}

/// The command that asks for a piece of metadata.
pub open spec fn request_command(metadata_id: u8, piece: u64) -> PeerCommandView {
    PeerCommandView::Extended { ext_id: metadata_id, payload: request_payload(piece) }
}

/// The requests for those of the first `n` pieces that have not been asked
/// for, in order.
pub open spec fn missing_requests(metadata_id: u8, requested: Set<u64>, n: nat) -> Seq<
    PeerCommandView,
>
    decreases n,
{
    if n == 0 {
        Seq::empty()
    } else if requested.contains((n - 1) as u64) {
        missing_requests(metadata_id, requested, (n - 1) as nat)
    } else {
        missing_requests(metadata_id, requested, (n - 1) as nat).push(
            request_command(metadata_id, (n - 1) as u64),
        )
    }
}

/// The first `n` pieces, added to those that have been asked for.
pub open spec fn with_first(requested: Set<u64>, n: nat) -> Set<u64> {
    Set::new(|i: u64| requested.contains(i) || i < n)
}

/// Our extension handshake: the metadata extension under our id.
pub open spec fn our_handshake() -> Seq<u8> {
    encode_spec(
        payload_bencode(
            PayloadView {
                extensions: seq![(METADATA_EXTENSION_NAME@, MY_METADATA_EXTENSION_MESSAGE_ID)],
                metadata_size: None,
                client_name: None,
            },
        ),
    )
}

/// The answer to the peer's handshake: our extension handshake, once, if
/// the peer supports extensions.
pub open spec fn on_handshake_spec(fetcher: FetcherView, extension_supported: bool) -> FetcherOutcome {
    if extension_supported && !fetcher.handshake_sent {
        FetcherOutcome {
            fetcher: FetcherView { handshake_sent: true, ..fetcher },
            answer: Ok(
                HandlerStepView::send(
                    PeerCommandView::Extended { ext_id: 0, payload: our_handshake() },
                ),
            ),
        }
    } else {
        FetcherOutcome { fetcher, answer: Ok(HandlerStepView::only(SessionControl::Continue)) }
    }
}

/// The answer to the peer's extension handshake.
///
/// The id that the peer assigned to the metadata extension is kept, if
/// there is one. The handshake has to tell the size of the metadata, of
/// which a buffer of zeros is made. A fetcher that only shakes hands then
/// stops; another asks for piece 0, for which it needs the peer's id.
pub open spec fn on_extension_handshake_spec(fetcher: FetcherView, payload: Seq<u8>) -> FetcherOutcome {
    match decode_payload_spec(payload) {
        Err(e) => FetcherOutcome { fetcher, answer: Err(MetadataError::Handshake(e)) },
        Ok(theirs) => {
            let id = match extension_id(theirs.extensions, METADATA_EXTENSION_NAME@, 0) {
                Some(id) => Some(id),
                None => fetcher.peer_metadata_id,
            };
            let known = FetcherView { peer_metadata_id: id, ..fetcher };
            match theirs.metadata_size {
                None => FetcherOutcome {
                    fetcher: known,
                    answer: Err(MetadataError::MissingMetadataSize),
                },
                Some(size) => if size > usize::MAX {
                    FetcherOutcome { fetcher: known, answer: Err(MetadataError::MetadataTooLarge) }
                } else {
                    let ready = FetcherView {
                        buffer: Some(Seq::new(size as nat, |i: int| 0u8)),
                        ..known
                    };
                    if fetcher.handshake_only {
                        FetcherOutcome {
                            fetcher: ready,
                            answer: Ok(HandlerStepView::only(SessionControl::Stop)),
                        }
                    } else {
                        match id {
                            None => FetcherOutcome {
                                fetcher: ready,
                                answer: Err(MetadataError::MissingMetadataId),
                            },
                            Some(metadata_id) => FetcherOutcome {
                                fetcher: FetcherView {
                                    requested: ready.requested.insert(0),
                                    ..ready
                                },
                                answer: Ok(HandlerStepView::send(request_command(metadata_id, 0))),
                            },
                        }
                    }
                },
            }
        },
    }
}

/// Message type, piece index and the position of the data of a metadata
/// message: the message starts with a bencoded dictionary that holds the
/// two numbers, and the data follows the dictionary.
pub open spec fn metadata_header(payload: Seq<u8>) -> Result<(u64, u64, int), MetadataError> {
    match parse_value_spec(payload, 0) {
        Err(e) => Err(MetadataError::Bencode(e)),
        Ok((value, end)) => match dict_u64(value, KEY_MSG_TYPE.spec_bytes()) {
            None => Err(MetadataError::InvalidHeader),
            Some(msg_type) => match dict_u64(value, KEY_PIECE.spec_bytes()) {
                None => Err(MetadataError::InvalidHeader),
                Some(piece) => Ok((msg_type, piece, end)),
            },
        },
    }
}

/// The answer to a metadata message.
///
/// A request and a refusal are errors, and any type but data is ignored.
/// The data must not be empty, must lie within the metadata, whose size
/// the handshake has told, and must have the size of its piece. It is
/// written to its place. With the last piece the fetcher stops; else it
/// asks for each piece that it has not asked for yet.
pub open spec fn on_metadata_spec(fetcher: FetcherView, payload: Seq<u8>) -> FetcherOutcome {
    match metadata_header(payload) {
        Err(e) => FetcherOutcome { fetcher, answer: Err(e) },
        Ok((msg_type, piece, start)) => {
            let data = payload.subrange(start, payload.len() as int);
            if msg_type == MSG_REQUEST {
                FetcherOutcome { fetcher, answer: Err(MetadataError::UnexpectedRequest) }
            } else if msg_type == MSG_REJECT {
                FetcherOutcome { fetcher, answer: Err(MetadataError::Rejected) }
            } else if msg_type != MSG_DATA {
                FetcherOutcome {
                    fetcher,
                    answer: Ok(HandlerStepView::only(SessionControl::Continue)),
                }
            } else if data.len() == 0 {
                FetcherOutcome { fetcher, answer: Err(MetadataError::EmptyPiece) }
            } else {
                match fetcher.buffer {
                    None => FetcherOutcome {
                        fetcher,
                        answer: Err(MetadataError::MissingMetadataSize),
                    },
                    Some(buffer) => if piece * 16384 >= buffer.len() {
                        FetcherOutcome { fetcher, answer: Err(MetadataError::PieceOutOfRange) }
                    } else if data.len() != metadata_piece_size(buffer.len(), piece as nat) {
                        FetcherOutcome { fetcher, answer: Err(MetadataError::PieceSize) }
                    } else {
                        let filled = FetcherView {
                            buffer: Some(overwritten(buffer, piece * 16384, data)),
                            received: fetcher.received.insert(piece),
                            ..fetcher
                        };
                        if all_received(filled.received, buffer.len()) {
                            FetcherOutcome {
                                fetcher: filled,
                                answer: Ok(HandlerStepView::only(SessionControl::Stop)),
                            }
                        } else {
                            match fetcher.peer_metadata_id {
                                None => FetcherOutcome {
                                    fetcher: filled,
                                    answer: Err(MetadataError::MissingMetadataId),
                                },
                                Some(id) => FetcherOutcome {
                                    fetcher: FetcherView {
                                        requested: with_first(
                                            filled.requested,
                                            metadata_piece_count(buffer.len()),
                                        ),
                                        ..filled
                                    },
                                    answer: Ok(
                                        HandlerStepView {
                                            control: SessionControl::Continue,
                                            commands: missing_requests(
                                                id,
                                                fetcher.requested,
                                                metadata_piece_count(buffer.len()),
                                            ),
                                            effect: HandlerEffectView::Nothing,
                                        },
                                    ),
                                },
                            }
                        }
                    },
                }
            }
        },
    }
}

/// The answer to an event.
///
/// The peer's handshake is answered with ours. An extended message with id
/// 0 is the peer's extension handshake, and one with our id is a metadata
/// message. An I/O error is an error. Everything else is ignored.
pub open spec fn on_event_spec(fetcher: FetcherView, event: PeerEventView) -> FetcherOutcome {
    match event {
        PeerEventView::HandshakeComplete { extension_supported, .. } => on_handshake_spec(
            fetcher,
            extension_supported,
        ),
        PeerEventView::Extended { ext_id, payload } => if ext_id == 0 {
            on_extension_handshake_spec(fetcher, payload)
        } else if ext_id == MY_METADATA_EXTENSION_MESSAGE_ID {
            on_metadata_spec(fetcher, payload)
        } else {
            FetcherOutcome { fetcher, answer: Ok(HandlerStepView::only(SessionControl::Continue)) }
        },
        PeerEventView::IoError(_) => FetcherOutcome { fetcher, answer: Err(MetadataError::Io) },
        _ => FetcherOutcome { fetcher, answer: Ok(HandlerStepView::only(SessionControl::Continue)) },
    }
}

/// The metainfo that a fetcher has for a link.
///
/// There is none before all the pieces of the metadata have been received.
/// Then the metadata has to have the info hash of the link, and to be an
/// info dictionary; the tracker of the metainfo is the link's first, or
/// empty if the link names none.
pub open spec fn fetched_metainfo(fetcher: FetcherView, link: MagnetView) -> Result<
    Option<MetainfoView>,
    MetadataError,
> {
    match fetcher.buffer {
        None => Ok(None),
        Some(bytes) => if !all_received(fetcher.received, bytes.len()) {
            Ok(None)
        } else {
            match MagnetLink::spec_info_hash(link) {
                Err(e) => Err(MetadataError::Magnet(e)),
                Ok(hash) => if hash != sha1_digest(bytes) {
                    Err(MetadataError::InfoHashMismatch)
                } else {
                    match decode_spec(bytes) {
                        Err(e) => Err(MetadataError::Metainfo(MetainfoError::Bencode(e))),
                        Ok(info) => match metainfo_of_info(
                            if link.trackers.len() > 0 {
                                link.trackers[0]
                            } else {
                                Seq::empty()
                            },
                            info,
                            bytes,
                        ) {
                            Err(e) => Err(MetadataError::Metainfo(e)),
                            Ok(metainfo) => Ok(Some(metainfo)),
                        },
                    }
                },
            }
        },
    }
}

/// The outcome of telling the fetcher something: a new connection has the
/// peer's id noted, an event is answered as `on_event_spec` says, and the
/// end of an effect, for which the fetcher never asks, changes nothing.
pub open spec fn fetcher_outcome(fetcher: FetcherView, input: HandlerInputView) -> FetcherOutcome {
    match input {
        HandlerInputView::Connected(peer_id) => FetcherOutcome {
            fetcher: FetcherView { peer_id: Some(peer_id), ..fetcher },
            answer: Ok(HandlerStepView::only(SessionControl::Continue)),
        },
        HandlerInputView::Event(event) => on_event_spec(fetcher, event),
        HandlerInputView::EffectDone(_) => FetcherOutcome {
            fetcher,
            answer: Ok(HandlerStepView::only(SessionControl::Continue)),
        },
    }
}

/// Whether an answer is the one that an outcome holds.
pub open spec fn answers(answer: Result<HandlerStep, MetadataError>, outcome: FetcherOutcome) -> bool {
    match answer {
        Ok(step) => outcome.answer == Ok::<HandlerStepView, MetadataError>(step@),
        Err(e) => outcome.answer == Err::<HandlerStepView, MetadataError>(e),
    }
}

fn key_of(key: &str) -> (bytes: Vec<u8>)
    ensures
        bytes@ == key.spec_bytes(),
{
    let raw = key.as_bytes();
    let bytes = copy_range(raw, 0, raw.len());
    assert(bytes@ =~= raw@);
    bytes
}

fn u64_of(value: &BencodeValue, key: &str) -> (field: Option<u64>)
    ensures
        field == dict_u64(value@, key.spec_bytes()),
{
    match value.get(key.as_bytes()) {
        Some(found) => match found.as_integer() {
            Some(n) => {
                if n >= 0 {
                    Some(n as u64)
                } else {
                    None
                }
            },
            None => None,
        },
        None => None,
    }
}

/// The command that asks the peer for a piece of metadata.
pub fn request_metadata_piece(metadata_id: u8, piece: u64) -> (command: PeerCommand)
    requires
        piece <= i64::MAX,
    ensures
        command@ == request_command(metadata_id, piece),
{
    let mut entries: Vec<(Vec<u8>, BencodeValue)> = Vec::new();
    entries.push((key_of(KEY_MSG_TYPE), BencodeValue::Integer(0)));
    entries.push((key_of(KEY_PIECE), BencodeValue::Integer(piece as i64)));
    let value = BencodeValue::Dict(entries);
    proof {
        lemma_view_of_children(value);
        assert(value@->Dict_0 =~= seq![
            (KEY_MSG_TYPE.spec_bytes(), Bencode::Integer(0)),
            (KEY_PIECE.spec_bytes(), Bencode::Integer(piece as i64)),
        ]);
    }
    PeerCommand::Extended { ext_id: metadata_id, payload: encode(&value) }
}

impl MetadataFetcher {
    /// What changes in the fetcher.
    pub closed spec fn view(&self) -> FetcherView {
        FetcherView {
            handshake_sent: self.ext_handshake_sent,
            buffer: match self.metadata_bytes {
                Some(bytes) => Some(bytes@),
                None => None,
            },
            requested: self.requested_pieces@,
            received: self.received_pieces@,
            peer_metadata_id: self.peer_metadata_id,
            peer_id: match self.peer_id {
                Some(id) => Some(id@),
                None => None,
            },
            handshake_only: self.handshake_only,
        }
    }

    /// The magnet link whose metadata is fetched.
    pub closed spec fn link(&self) -> MagnetView {
        self.magnet_link@
    }

    /// The id under which the fetcher presents itself.
    pub closed spec fn spec_client_id(&self) -> Seq<char> {
        self.client_id@
    }

    /// The fetcher's invariant: the size of the metadata is that of its
    /// buffer.
    pub closed spec fn wf(&self) -> bool {
        match self.metadata_bytes {
            Some(bytes) => self.total_size == Some(bytes@.len() as usize),
            None => true,
        }
    }

    /// A fetcher for a magnet link that has received nothing.
    pub fn new(link: &str, client_id: String, handshake_only: bool) -> (fetcher: Result<
        Self,
        MagnetError,
    >)
        ensures
            match fetcher {
                Ok(f) => {
                    &&& crate::torrent::magnet::magnet_of(link@) == Ok::<MagnetView, MagnetError>(
                        f.link(),
                    )
                    &&& f.wf()
                    &&& f.spec_client_id() == client_id@
                    &&& f.view() == (FetcherView {
                        handshake_sent: false,
                        buffer: None,
                        requested: Set::empty(),
                        received: Set::empty(),
                        peer_metadata_id: None,
                        peer_id: None,
                        handshake_only,
                    })
                },
                Err(e) => crate::torrent::magnet::magnet_of(link@) == Err::<
                    MagnetView,
                    MagnetError,
                >(e),
            },
    {
        let magnet_link = match MagnetLink::parse(link) {
            Ok(parsed) => parsed,
            Err(e) => {
                return Err(e);
            },
        };
        Ok(
            Self {
                magnet_link,
                client_id,
                ext_handshake_sent: false,
                metadata_bytes: None,
                total_size: None,
                requested_pieces: HashSet::new(),
                received_pieces: HashSet::new(),
                peer_metadata_id: None,
                peer_id: None,
                handshake_only,
            },
        )
    }

    fn handle_connect(&mut self, peer_id: Option<&[u8]>) -> (answer: Result<
        HandlerStep,
        MetadataError,
    >)
        requires
            old(self).wf(),
        ensures
            final(self).wf(),
            final(self).link() == old(self).link(),
            final(self).spec_client_id() == old(self).spec_client_id(),
            final(self).view() == (FetcherView {
                peer_id: match peer_id {
                    Some(id) => Some(id@),
                    None => old(self).view().peer_id,
                },
                ..old(self).view()
            }),
            answer matches Ok(step) && step@ == HandlerStepView::only(SessionControl::Continue),
    {
        match peer_id {
            Some(id) => {
                let kept = copy_range(id, 0, id.len());
                assert(kept@ =~= id@);
                self.peer_id = Some(kept);
            },
            None => {},
        }
        Ok(HandlerStep::only(SessionControl::Continue))
    }

    fn on_handshake(&mut self, extension_supported: bool) -> (answer: Result<
        HandlerStep,
        MetadataError,
    >)
        requires
            old(self).wf(),
        ensures
            final(self).wf(),
            final(self).link() == old(self).link(),
            final(self).spec_client_id() == old(self).spec_client_id(),
            final(self).view() == on_handshake_spec(old(self).view(), extension_supported).fetcher,
            answers(answer, on_handshake_spec(old(self).view(), extension_supported)),
    {
        if extension_supported && !self.ext_handshake_sent {
            let ours = ExtensionHandshakePayload::with_metadata_id(
                MY_METADATA_EXTENSION_MESSAGE_ID,
            );
            let payload = match ours.encode() {
                Ok(bytes) => bytes,
                // Our handshake tells no size, which is all that cannot be written.
                Err(_) => vstd::pervasive::unreached(),
            };
            self.ext_handshake_sent = true;
            Ok(HandlerStep::send(PeerCommand::Extended { ext_id: 0, payload }))
        } else {
            Ok(HandlerStep::only(SessionControl::Continue))
        }
    }

    fn on_extension_handshake(&mut self, payload: &[u8]) -> (answer: Result<
        HandlerStep,
        MetadataError,
    >)
        requires
            old(self).wf(),
        ensures
            final(self).wf(),
            final(self).link() == old(self).link(),
            final(self).spec_client_id() == old(self).spec_client_id(),
            final(self).view() == on_extension_handshake_spec(old(self).view(), payload@).fetcher,
            answers(answer, on_extension_handshake_spec(old(self).view(), payload@)),
    {
        let theirs = match ExtensionHandshakePayload::decode(payload) {
            Ok(theirs) => theirs,
            Err(e) => {
                return Err(MetadataError::Handshake(e));
            },
        };
        match theirs.get_extension_id(METADATA_EXTENSION_NAME) {
            Some(id) => {
                self.peer_metadata_id = Some(id);
            },
            None => {},
        }
        let size: u64 = match theirs.metadata_size {
            Some(size) => size,
            None => {
                return Err(MetadataError::MissingMetadataSize);
            },
        };
        if size > usize::MAX as u64 {
            return Err(MetadataError::MetadataTooLarge);
        }
        let buffer: Vec<u8> = vec![0u8; size as usize];
        assert(buffer@ =~= Seq::new(size as nat, |i: int| 0u8));
        self.total_size = Some(size as usize);
        self.metadata_bytes = Some(buffer);
        if self.handshake_only {
            return Ok(HandlerStep::only(SessionControl::Stop));
        }
        let metadata_id: u8 = match self.peer_metadata_id {
            Some(id) => id,
            None => {
                return Err(MetadataError::MissingMetadataId);
            },
        };
        let command = request_metadata_piece(metadata_id, 0);
        self.requested_pieces.insert(0);
        Ok(HandlerStep::send(command))
    }

    fn all_pieces_received(&self, count: usize) -> (complete: bool)
        ensures
            complete == (forall|i: u64| 0 <= i < count ==> self.view().received.contains(i)),
    {
        let mut i: usize = 0;
        while i < count
            invariant
                i <= count,
                forall|k: u64| 0 <= k < i ==> self.received_pieces@.contains(k),
            decreases count - i,
        {
            let piece: u64 = i as u64;
            if !self.received_pieces.contains(&piece) {
                assert(!self.view().received.contains(piece));
                return false;
            }
            i += 1;
        }
        true
    }

    fn request_missing_pieces(&mut self, metadata_id: u8, count: usize) -> (commands: Vec<
        PeerCommand,
    >)
        requires
            old(self).wf(),
            count <= i64::MAX,
        ensures
            final(self).wf(),
            final(self).link() == old(self).link(),
            final(self).spec_client_id() == old(self).spec_client_id(),
            final(self).view() == (FetcherView {
                requested: with_first(old(self).view().requested, count as nat),
                ..old(self).view()
            }),
            command_views(commands@) == missing_requests(
                metadata_id,
                old(self).view().requested,
                count as nat,
            ),
    {
        let ghost before = self.requested_pieces@;
        let mut commands: Vec<PeerCommand> = Vec::new();
        let mut i: usize = 0;
        assert(command_views(commands@) =~= Seq::empty());
        assert(self.requested_pieces@ =~= with_first(before, 0));
        while i < count
            invariant
                i <= count <= i64::MAX,
                self.wf(),
                self.link() == old(self).link(),
                self.spec_client_id() == old(self).spec_client_id(),
                self.view() == (FetcherView {
                    requested: with_first(before, i as nat),
                    ..old(self).view()
                }),
                before == old(self).view().requested,
                command_views(commands@) == missing_requests(metadata_id, before, i as nat),
            decreases count - i,
        {
            let piece: u64 = i as u64;
            assert(self.requested_pieces@.contains(piece) == before.contains(piece));
            if !self.requested_pieces.contains(&piece) {
                let command = request_metadata_piece(metadata_id, piece);
                let ghost sent = command_views(commands@);
                commands.push(command);
                assert(command_views(commands@) =~= sent.push(command@));
                self.requested_pieces.insert(piece);
            }
            i += 1;
            assert(self.requested_pieces@ =~= with_first(before, i as nat));
        }
        commands
    }

    fn handle_metadata_message(&mut self, payload: &[u8]) -> (answer: Result<
        HandlerStep,
        MetadataError,
    >)
        requires
            old(self).wf(),
        ensures
            final(self).wf(),
            final(self).link() == old(self).link(),
            final(self).spec_client_id() == old(self).spec_client_id(),
            final(self).view() == on_metadata_spec(old(self).view(), payload@).fetcher,
            answers(answer, on_metadata_spec(old(self).view(), payload@)),
    {
        let (header, start) = match parse_at(payload, 0) {
            Ok(parsed) => parsed,
            Err(e) => {
                return Err(MetadataError::Bencode(e));
            },
        };
        let msg_type: u64 = match u64_of(&header, KEY_MSG_TYPE) {
            Some(n) => n,
            None => {
                return Err(MetadataError::InvalidHeader);
            },
        };
        let piece: u64 = match u64_of(&header, KEY_PIECE) {
            Some(n) => n,
            None => {
                return Err(MetadataError::InvalidHeader);
            },
        };
        if msg_type == MSG_REQUEST {
            return Err(MetadataError::UnexpectedRequest);
        }
        if msg_type == MSG_REJECT {
            return Err(MetadataError::Rejected);
        }
        if msg_type != MSG_DATA {
            return Ok(HandlerStep::only(SessionControl::Continue));
        }
        let data = vstd::slice::slice_subrange(payload, start, payload.len());
        if data.len() == 0 {
            return Err(MetadataError::EmptyPiece);
        }
        let mut buffer: Vec<u8> = match self.metadata_bytes.take() {
            Some(buffer) => buffer,
            None => {
                return Err(MetadataError::MissingMetadataSize);
            },
        };
        let size: usize = buffer.len();
        if piece >= (size / METADATA_PIECE_SIZE) as u64 + 1 || piece as usize
            * METADATA_PIECE_SIZE >= size {
            self.metadata_bytes = Some(buffer);
            return Err(MetadataError::PieceOutOfRange);
        }
        let offset: usize = piece as usize * METADATA_PIECE_SIZE;
        let expected: usize = if size - offset < METADATA_PIECE_SIZE {
            size - offset
        } else {
            METADATA_PIECE_SIZE
        };
        if data.len() != expected {
            self.metadata_bytes = Some(buffer);
            return Err(MetadataError::PieceSize);
        }
        copy_into(&mut buffer, offset, data);
        self.metadata_bytes = Some(buffer);
        self.received_pieces.insert(piece);
        let count: usize = size / METADATA_PIECE_SIZE + if size % METADATA_PIECE_SIZE != 0 {
            1
        } else {
            0
        };
        assert(count == metadata_piece_count(size as nat));
        if self.all_pieces_received(count) {
            return Ok(HandlerStep::only(SessionControl::Stop));
        }
        let metadata_id: u8 = match self.peer_metadata_id {
            Some(id) => id,
            None => {
                return Err(MetadataError::MissingMetadataId);
            },
        };
        let commands = self.request_missing_pieces(metadata_id, count);
        Ok(HandlerStep { control: SessionControl::Continue, commands, effect: HandlerEffect::Nothing })
    }

    fn handle_event(&mut self, event: PeerEvent) -> (answer: Result<HandlerStep, MetadataError>)
        requires
            old(self).wf(),
        ensures
            final(self).wf(),
            final(self).link() == old(self).link(),
            final(self).spec_client_id() == old(self).spec_client_id(),
            final(self).view() == on_event_spec(old(self).view(), event@).fetcher,
            answers(answer, on_event_spec(old(self).view(), event@)),
    {
        match event {
            PeerEvent::HandshakeComplete { extension_supported, .. } => self.on_handshake(
                extension_supported,
            ),
            PeerEvent::Extended { ext_id, payload } => {
                if ext_id == 0 {
                    self.on_extension_handshake(payload.as_slice())
                } else if ext_id == MY_METADATA_EXTENSION_MESSAGE_ID {
                    self.handle_metadata_message(payload.as_slice())
                } else {
                    Ok(HandlerStep::only(SessionControl::Continue))
                }
            },
            PeerEvent::IoError(_) => Err(MetadataError::Io),
            _ => Ok(HandlerStep::only(SessionControl::Continue)),
        }
    }

    /// Whom to ask for peers, and what to tell: the link's first tracker,
    /// and an announce for its info hash under our client id.
    pub fn announce_request(&self) -> (request: Result<(String, TrackerRequest), MetadataError>)
        ensures
            match request {
                Ok((url, r)) => {
                    &&& self.link().trackers.len() > 0
                    &&& url@ == self.link().trackers[0]
                    &&& MagnetLink::spec_info_hash(self.link()) == Ok::<Seq<u8>, MagnetError>(
                        r.info_hash@,
                    )
                    &&& r.peer_id@ == self.spec_client_id()
                    &&& r.port == 6881
                    &&& r.uploaded == 0
                    &&& r.downloaded == 0
                    &&& r.left == 999
                    &&& r.compact == 1
                },
                Err(e) => if self.link().trackers.len() == 0 {
                    e == MetadataError::NoTracker
                } else {
                    MagnetLink::spec_info_hash(self.link()) matches Err(m) && e
                        == MetadataError::Magnet(m)
                },
            },
    {
        let url: String = match self.magnet_link.first_tracker() {
            Some(url) => url.clone(),
            None => {
                return Err(MetadataError::NoTracker);
            },
        };
        let info_hash = match self.magnet_link.info_hash() {
            Ok(hash) => hash,
            Err(e) => {
                return Err(MetadataError::Magnet(e));
            },
        };
        Ok(
            (
                url,
                TrackerRequest {
                    info_hash,
                    peer_id: self.client_id.clone(),
                    port: 6881,
                    uploaded: 0,
                    downloaded: 0,
                    left: 999,
                    compact: 1,
                },
            ),
        )
    }

    /// What has been fetched: the ids that the peer gave, and the metainfo
    /// as `fetched_metainfo` says.
    pub fn result(&self) -> (fetched: Result<MetadataFetchResult, MetadataError>)
        requires
            self.wf(),
        ensures
            match fetched {
                Ok(r) => {
                    &&& r.peer_metadata_id == self.view().peer_metadata_id
                    &&& match r.peer_id {
                        Some(id) => self.view().peer_id == Some(id@),
                        None => self.view().peer_id is None,
                    }
                    &&& match r.metainfo {
                        Some(m) => fetched_metainfo(self.view(), self.link()) == Ok::<
                            Option<MetainfoView>,
                            MetadataError,
                        >(Some(m@)),
                        None => fetched_metainfo(self.view(), self.link()) == Ok::<
                            Option<MetainfoView>,
                            MetadataError,
                        >(None),
                    }
                },
                Err(e) => fetched_metainfo(self.view(), self.link()) == Err::<
                    Option<MetainfoView>,
                    MetadataError,
                >(e),
            },
    {
        let peer_id: Option<Vec<u8>> = match &self.peer_id {
            Some(id) => Some(id.clone()),
            None => None,
        };
        let metainfo: Option<TorrentMetainfo> = match &self.metadata_bytes {
            None => None,
            Some(bytes) => {
                let size: usize = bytes.len();
                let count: usize = size / METADATA_PIECE_SIZE + if size % METADATA_PIECE_SIZE
                    != 0 {
                    1
                } else {
                    0
                };
                assert(count == metadata_piece_count(size as nat));
                if !self.all_pieces_received(count) {
                    None
                } else {
                    let expected = match self.magnet_link.info_hash() {
                        Ok(hash) => hash,
                        Err(e) => {
                            return Err(MetadataError::Magnet(e));
                        },
                    };
                    let actual = sha1(bytes.as_slice());
                    if !bytes_equal(expected.as_slice(), actual.as_slice()) {
                        return Err(MetadataError::InfoHashMismatch);
                    }
                    let announce: String = match self.magnet_link.first_tracker() {
                        Some(url) => url.clone(),
                        None => String::new(),
                    };
                    match TorrentMetainfo::from_info_bytes(announce, bytes.as_slice()) {
                        Ok(metainfo) => Some(metainfo),
                        Err(e) => {
                            return Err(MetadataError::Metainfo(e));
                        },
                    }
                }
            },
        };
        Ok(MetadataFetchResult { peer_id, peer_metadata_id: self.peer_metadata_id, metainfo })
    }
}

impl PeerSessionHandler for MetadataFetcher {
    type Shared = ();

    type Error = MetadataError;

    open spec fn valid(&self) -> bool {
        self.wf()
    }

    /// The fetcher never wishes to stop by itself.
    open spec fn stops(&self, shared: ()) -> bool {
        false
    }

    /// The fetcher's answer is that of `fetcher_outcome`.
    open spec fn answer(&self, shared: (), input: HandlerInputView) -> Result<
        HandlerStepView,
        MetadataError,
    > {
        fetcher_outcome(self.view(), input).answer
    }

    /// The fetcher keeps its link and client id, and becomes what
    /// `fetcher_outcome` says.
    open spec fn becomes(
        &self,
        shared: (),
        input: HandlerInputView,
        after: MetadataFetcher,
        shared_after: (),
    ) -> bool {
        &&& after.link() == self.link()
        &&& after.spec_client_id() == self.spec_client_id()
        &&& after.view() == fetcher_outcome(self.view(), input).fetcher
    }

    /// Whether the session should end by the fetcher's wish: never.
    fn should_stop(&self, shared: &()) -> (stop: bool) {
        false
    }

    /// Notes the id that the peer of a new connection gave itself, and goes
    /// on.
    fn on_connect(&mut self, shared: &mut (), peer_id: &[u8]) -> (answer: Result<
        HandlerStep,
        MetadataError,
    >) {
        self.handle_connect(Some(peer_id))
    }

    /// Answers an event of the connection, as `on_event_spec` says.
    fn on_event(&mut self, shared: &mut (), event: PeerEvent) -> (answer: Result<
        HandlerStep,
        MetadataError,
    >) {
        self.handle_event(event)
    }

    /// Goes on; the fetcher asks for no effect.
    fn on_effect_done(&mut self, shared: &mut (), succeeded: bool) -> (answer: Result<
        HandlerStep,
        MetadataError,
    >) {
        Ok(HandlerStep::only(SessionControl::Continue))
    }
}

} // verus!
