use vstd::prelude::*;
use vstd::string::StringExecFns;
use crate::peer::message::{
    has_extension_support, spec_has_extension_support, HandshakeError, HandshakeRequest,
    HandshakeResponse, PeerMessage, PeerMessageType,
};
use crate::utils::bytes::{copy_range, extend_bytes, raw_text, RawStringExt};
use crate::utils::decimal::{decimal_digits, u64_to_decimal};

verus! {

/// What a peer connection reports to its owner: the completed handshake,
/// each message received, and the error that ends the stream.
#[derive(Debug, Clone, PartialEq, Eq)]
pub enum PeerEvent {
    HandshakeComplete { peer_id: Option<Vec<u8>>, reserved: [u8; 8], extension_supported: bool },
    KeepAlive,
    Choke,
    Unchoke,
    Interested,
    NotInterested,
    Have(u32),
    Bitfield(Vec<u8>),
    Request { index: u32, begin: u32, length: u32 },
    Piece { index: u32, begin: u32, data: Vec<u8> },
    Cancel { index: u32, begin: u32, length: u32 },
    Extended { ext_id: u8, payload: Vec<u8> },
    Unknown { id: u8, payload: Vec<u8> },
    IoError(String),
}

/// A `PeerEvent` as a mathematical value.
pub enum PeerEventView {
    HandshakeComplete { peer_id: Option<Seq<u8>>, reserved: Seq<u8>, extension_supported: bool },
    KeepAlive,
    Choke,
    Unchoke,
    Interested,
    NotInterested,
    Have(u32),
    Bitfield(Seq<u8>),
    Request { index: u32, begin: u32, length: u32 },
    Piece { index: u32, begin: u32, data: Seq<u8> },
    Cancel { index: u32, begin: u32, length: u32 },
    Extended { ext_id: u8, payload: Seq<u8> },
    Unknown { id: u8, payload: Seq<u8> },
    IoError(Seq<char>),
}

impl View for PeerEvent {
    type V = PeerEventView;

    open spec fn view(&self) -> PeerEventView {
        match *self {
            PeerEvent::HandshakeComplete { peer_id, reserved, extension_supported } => {
                PeerEventView::HandshakeComplete {
                    peer_id: match peer_id {
                        Some(id) => Some(id@),
                        None => None,
                    },
                    reserved: reserved@,
                    extension_supported,
                }
            },
            PeerEvent::KeepAlive => PeerEventView::KeepAlive,
            PeerEvent::Choke => PeerEventView::Choke,
            PeerEvent::Unchoke => PeerEventView::Unchoke,
            PeerEvent::Interested => PeerEventView::Interested,
            PeerEvent::NotInterested => PeerEventView::NotInterested,
            PeerEvent::Have(index) => PeerEventView::Have(index),
            PeerEvent::Bitfield(bits) => PeerEventView::Bitfield(bits@),
            PeerEvent::Request { index, begin, length } => PeerEventView::Request {
                index,
                begin,
                length,
            },
            PeerEvent::Piece { index, begin, data } => PeerEventView::Piece {
                index,
                begin,
                data: data@,
            },
            PeerEvent::Cancel { index, begin, length } => PeerEventView::Cancel {
                index,
                begin,
                length,
            },
            PeerEvent::Extended { ext_id, payload } => PeerEventView::Extended {
                ext_id,
                payload: payload@,
            },
            PeerEvent::Unknown { id, payload } => PeerEventView::Unknown { id, payload: payload@ },
            PeerEvent::IoError(message) => PeerEventView::IoError(message@),
        }
    }
}

/// What the owner of a connection can send.
#[derive(Debug, Clone, PartialEq, Eq)]
pub enum PeerCommand {
    KeepAlive,
    Interested,
    NotInterested,
    Request { index: u32, begin: u32, length: u32 },
    Cancel { index: u32, begin: u32, length: u32 },
    Extended { ext_id: u8, payload: Vec<u8> },
}

/// A `PeerCommand` as a mathematical value.
pub enum PeerCommandView {
    KeepAlive,
    Interested,
    NotInterested,
    Request { index: u32, begin: u32, length: u32 },
    Cancel { index: u32, begin: u32, length: u32 },
    Extended { ext_id: u8, payload: Seq<u8> },
}

impl View for PeerCommand {
    type V = PeerCommandView;

    open spec fn view(&self) -> PeerCommandView {
        match *self {
            PeerCommand::KeepAlive => PeerCommandView::KeepAlive,
            PeerCommand::Interested => PeerCommandView::Interested,
            PeerCommand::NotInterested => PeerCommandView::NotInterested,
            PeerCommand::Request { index, begin, length } => PeerCommandView::Request {
                index,
                begin,
                length,
            },
            PeerCommand::Cancel { index, begin, length } => PeerCommandView::Cancel {
                index,
                begin,
                length,
            },
            PeerCommand::Extended { ext_id, payload } => PeerCommandView::Extended {
                ext_id,
                payload: payload@,
            },
        }
    }
}

/// The views of a list of commands, in order.
pub open spec fn command_views(commands: Seq<PeerCommand>) -> Seq<PeerCommandView> {
    Seq::new(commands.len(), |i: int| commands[i]@)
}

/// What is known of the two sides of a connection.
#[derive(Debug, Clone, Copy, PartialEq, Eq, Structural)]
pub struct PeerStateSnapshot {
    /// The peer is choking us.
    pub choked: bool,
    /// We have told the peer that we are interested.
    pub interested: bool,
    /// The peer has told us that it is interested.
    pub peer_interested: bool,
    /// The peer's handshake advertised the extension protocol.
    pub extension_supported: bool,
}

/// Why bytes could not be framed or a frame could not be read.
#[derive(Debug, Clone, Copy, PartialEq, Eq, Structural)]
pub enum WireError {
    /// The payload does not fit the 32-bit length prefix.
    PayloadTooLarge,
    /// Fewer than the four bytes of a length prefix.
    TruncatedFrame,
    /// The bytes after the prefix are not as many as the prefix says.
    LengthMismatch,
    /// The payload is shorter than the fixed fields of its message.
    TruncatedPayload,
    /// The id is none of the protocol's table.
    UnknownMessage,
    /// The message is not of the kind that was waited for.
    UnexpectedMessage,
}

/// The snapshot of a connection right after the handshake.
pub open spec fn initial_snapshot(extension_supported: bool) -> PeerStateSnapshot {
    PeerStateSnapshot {
        choked: true,
        interested: false,
        peer_interested: false,
        extension_supported,
    }
}

/// The snapshot after an event: choke and unchoke set `choked`, interested
/// and not-interested set `peer_interested`, a handshake records extension
/// support, and nothing else changes anything.
pub open spec fn next_snapshot(state: PeerStateSnapshot, event: PeerEventView) -> PeerStateSnapshot {
    match event {
        PeerEventView::Choke => PeerStateSnapshot { choked: true, ..state },
        PeerEventView::Unchoke => PeerStateSnapshot { choked: false, ..state },
        PeerEventView::Interested => PeerStateSnapshot { peer_interested: true, ..state },
        PeerEventView::NotInterested => PeerStateSnapshot { peer_interested: false, ..state },
        PeerEventView::HandshakeComplete { extension_supported, .. } => PeerStateSnapshot {
            extension_supported,
            ..state
        },
        _ => state,
    }
}

/// Brings the snapshot up to date with an event just received.
pub fn update_state(state: &mut PeerStateSnapshot, evt: &PeerEvent)
    ensures
        *final(state) == next_snapshot(*old(state), evt@),
{
    match evt {
        PeerEvent::Choke => {
            state.choked = true;
        },
        PeerEvent::Unchoke => {
            state.choked = false;
        },
        PeerEvent::Interested => {
            state.peer_interested = true;
        },
        PeerEvent::NotInterested => {
            state.peer_interested = false;
        },
        PeerEvent::HandshakeComplete { extension_supported, .. } => {
            state.extension_supported = *extension_supported;
        },
        _ => {},
    }
}

/// The four bytes of `n`, most significant first.
pub open spec fn be32(n: u32) -> Seq<u8> {
    seq![
        (n / 0x100_0000) as u8,
        (n / 0x1_0000 % 0x100) as u8,
        (n / 0x100 % 0x100) as u8,
        (n % 0x100) as u8,
    ]
}

/// The number that four bytes write, most significant first.
pub open spec fn be32_value(bytes: Seq<u8>) -> u32
    recommends
        bytes.len() == 4,
{
    (bytes[0] * 0x100_0000 + bytes[1] * 0x1_0000 + bytes[2] * 0x100 + bytes[3]) as u32
}

/// Reading the four bytes of a number gives the number, and writing the
/// number of four bytes gives the bytes.
pub proof fn lemma_be32_roundtrip(n: u32, bytes: Seq<u8>)
    requires
        bytes.len() == 4,
    ensures
        be32(n).len() == 4,
        be32_value(be32(n)) == n,
        be32(be32_value(bytes)) == bytes,
{
    assert(n / 0x100_0000 < 0x100 && (n / 0x100_0000) * 0x100_0000 + (n / 0x1_0000 % 0x100)
        * 0x1_0000 + (n / 0x100 % 0x100) * 0x100 + n % 0x100 == n) by (bit_vector);
    let b0 = bytes[0] as u32;
    let b1 = bytes[1] as u32;
    let b2 = bytes[2] as u32;
    let b3 = bytes[3] as u32;
    let v = be32_value(bytes);
    assert(v == b0 * 0x100_0000 + b1 * 0x1_0000 + b2 * 0x100 + b3);
    assert(b0 < 0x100 && b1 < 0x100 && b2 < 0x100 && b3 < 0x100 ==> {
        let w = (b0 * 0x100_0000 + b1 * 0x1_0000 + b2 * 0x100 + b3) as u32;
        &&& w / 0x100_0000 == b0
        &&& w / 0x1_0000 % 0x100 == b1
        &&& w / 0x100 % 0x100 == b2
        &&& w % 0x100 == b3
    }) by (bit_vector);
    assert(be32(v) =~= bytes);
}

/// A message on the wire: the length of id and payload, the id, the payload.
pub open spec fn message_frame(id: u8, payload: Seq<u8>) -> Seq<u8> {
    be32((1 + payload.len()) as u32) + seq![id] + payload
}

/// Id and payload of a command's message; `None` for a keep-alive.
pub open spec fn command_message(cmd: PeerCommandView) -> Option<(u8, Seq<u8>)> {
    match cmd {
        PeerCommandView::KeepAlive => None,
        PeerCommandView::Interested => Some((2u8, Seq::empty())),
        PeerCommandView::NotInterested => Some((3u8, Seq::empty())),
        PeerCommandView::Request { index, begin, length } => Some(
            (6u8, be32(index) + be32(begin) + be32(length)),
        ),
        PeerCommandView::Cancel { index, begin, length } => Some(
            (8u8, be32(index) + be32(begin) + be32(length)),
        ),
        PeerCommandView::Extended { ext_id, payload } => Some((20u8, seq![ext_id] + payload)),
    }
}

/// Whether a command's message fits the 32-bit length prefix.
pub open spec fn command_fits(cmd: PeerCommandView) -> bool {
    match command_message(cmd) {
        None => true,
        Some((_, payload)) => 1 + payload.len() <= u32::MAX,
    }
}

/// A command on the wire: four zero bytes for a keep-alive, else the frame of
/// its message.
pub open spec fn command_frame(cmd: PeerCommandView) -> Seq<u8> {
    match command_message(cmd) {
        None => be32(0),
        Some((id, payload)) => message_frame(id, payload),
    }
}

/// The event that the receiver of a command sees.
pub open spec fn command_event(cmd: PeerCommandView) -> PeerEventView {
    match cmd {
        PeerCommandView::KeepAlive => PeerEventView::KeepAlive,
        PeerCommandView::Interested => PeerEventView::Interested,
        PeerCommandView::NotInterested => PeerEventView::NotInterested,
        PeerCommandView::Request { index, begin, length } => PeerEventView::Request {
            index,
            begin,
            length,
        },
        PeerCommandView::Cancel { index, begin, length } => PeerEventView::Cancel {
            index,
            begin,
            length,
        },
        PeerCommandView::Extended { ext_id, payload } => PeerEventView::Extended {
            ext_id,
            payload,
        },
    }
}

/// The event that a message stands for. Messages with fixed fields need
/// their whole width and ignore what follows; an extended message needs the
/// byte of its extension id; an unknown id is kept with its payload.
pub open spec fn decode_message_spec(id: u8, payload: Seq<u8>) -> Result<PeerEventView, WireError> {
    if id == 0 {
        Ok(PeerEventView::Choke)
    } else if id == 1 {
        Ok(PeerEventView::Unchoke)
    } else if id == 2 {
        Ok(PeerEventView::Interested)
    } else if id == 3 {
        Ok(PeerEventView::NotInterested)
    } else if id == 4 {
        if payload.len() < 4 {
            Err(WireError::TruncatedPayload)
        } else {
            Ok(PeerEventView::Have(be32_value(payload.subrange(0, 4))))
        }
    } else if id == 5 {
        Ok(PeerEventView::Bitfield(payload))
    } else if id == 6 || id == 8 {
        if payload.len() < 12 {
            Err(WireError::TruncatedPayload)
        } else {
            let index = be32_value(payload.subrange(0, 4));
            let begin = be32_value(payload.subrange(4, 8));
            let length = be32_value(payload.subrange(8, 12));
            if id == 6 {
                Ok(PeerEventView::Request { index, begin, length })
            } else {
                Ok(PeerEventView::Cancel { index, begin, length })
            }
        }
    } else if id == 7 {
        if payload.len() < 8 {
            Err(WireError::TruncatedPayload)
        } else {
            Ok(
                PeerEventView::Piece {
                    index: be32_value(payload.subrange(0, 4)),
                    begin: be32_value(payload.subrange(4, 8)),
                    data: payload.subrange(8, payload.len() as int),
                },
            )
        }
    } else if id == 20 {
        if payload.len() < 1 {
            Err(WireError::TruncatedPayload)
        } else {
            Ok(
                PeerEventView::Extended {
                    ext_id: payload[0],
                    payload: payload.subrange(1, payload.len() as int),
                },
            )
        }
    } else {
        Ok(PeerEventView::Unknown { id, payload })
    }
}

/// The event that the bytes after a length prefix stand for: a keep-alive
/// if there are none, else the message of the first byte's id.
pub open spec fn decode_body_spec(body: Seq<u8>) -> Result<PeerEventView, WireError> {
    if body.len() == 0 {
        Ok(PeerEventView::KeepAlive)
    } else {
        decode_message_spec(body[0], body.subrange(1, body.len() as int))
    }
}

/// The event that a whole frame stands for.
pub open spec fn decode_frame_spec(frame: Seq<u8>) -> Result<PeerEventView, WireError> {
    if frame.len() < 4 {
        Err(WireError::TruncatedFrame)
    } else if frame.len() - 4 != be32_value(frame.subrange(0, 4)) {
        Err(WireError::LengthMismatch)
    } else {
        decode_body_spec(frame.subrange(4, frame.len() as int))
    }
}

/// Appends the four bytes of `n`, most significant first.
pub fn push_be32(out: &mut Vec<u8>, n: u32)
    ensures
        final(out)@ == old(out)@ + be32(n),
{
    out.push((n / 0x100_0000) as u8);
    out.push((n / 0x1_0000 % 0x100) as u8);
    out.push((n / 0x100 % 0x100) as u8);
    out.push((n % 0x100) as u8);
    assert(out@ =~= old(out)@ + be32(n));
}

/// Reads four bytes at `at` as a number, most significant first.
pub fn read_be32(bytes: &[u8], at: usize) -> (n: u32)
    requires
        at + 4 <= bytes@.len(),
    ensures
        n == be32_value(bytes@.subrange(at as int, at + 4)),
{
    let b0: u32 = bytes[at] as u32;
    let b1: u32 = bytes[at + 1] as u32;
    let b2: u32 = bytes[at + 2] as u32;
    let b3: u32 = bytes[at + 3] as u32;
    b0 * 0x100_0000 + b1 * 0x1_0000 + b2 * 0x100 + b3
}

/// The length that a frame's four-byte prefix announces.
pub fn frame_length(prefix: &[u8; 4]) -> (length: u32)
    ensures
        length == be32_value(prefix@),
{
    let n = read_be32(prefix.as_slice(), 0);
    assert(prefix@.subrange(0, 4) =~= prefix@);
    n
}

/// Frames a command for the wire.
///
/// Fails, with `PayloadTooLarge`, exactly when the payload of an extended
/// message does not fit the length prefix.
pub fn encode_command(cmd: &PeerCommand) -> (frame: Result<Vec<u8>, WireError>)
    ensures
        match frame {
            Ok(bytes) => command_fits(cmd@) && bytes@ == command_frame(cmd@),
            Err(e) => !command_fits(cmd@) && e == WireError::PayloadTooLarge,
        },
{
    let mut buf: Vec<u8> = Vec::new();
    match cmd {
        PeerCommand::KeepAlive => {
            push_be32(&mut buf, 0);
        },
        PeerCommand::Interested => {
            push_be32(&mut buf, 1);
            buf.push(2);
        },
        PeerCommand::NotInterested => {
            push_be32(&mut buf, 1);
            buf.push(3);
        },
        PeerCommand::Request { index, begin, length } => {
            push_be32(&mut buf, 13);
            buf.push(6);
            push_be32(&mut buf, *index);
            push_be32(&mut buf, *begin);
            push_be32(&mut buf, *length);
        },
        PeerCommand::Cancel { index, begin, length } => {
            push_be32(&mut buf, 13);
            buf.push(8);
            push_be32(&mut buf, *index);
            push_be32(&mut buf, *begin);
            push_be32(&mut buf, *length);
        },
        PeerCommand::Extended { ext_id, payload } => {
            if payload.len() > 0xffff_fffd {
                return Err(WireError::PayloadTooLarge);
            }
            push_be32(&mut buf, payload.len() as u32 + 2);
            buf.push(20);
            buf.push(*ext_id);
            extend_bytes(&mut buf, payload.as_slice());
        },
    }
    assert(buf@ =~= command_frame(cmd@));
    Ok(buf)
}

/// Reads the message with the given id and payload.
///
/// Fails, with `TruncatedPayload`, exactly when the payload is shorter than
/// the fixed fields of the message: 4 bytes for have, 12 for request and
/// cancel, 8 for piece, 1 for extended.
pub fn decode_message(id: u8, payload: &[u8]) -> (event: Result<PeerEvent, WireError>)
    ensures
        match event {
            Ok(ev) => decode_message_spec(id, payload@) == Ok::<PeerEventView, WireError>(ev@),
            Err(e) => decode_message_spec(id, payload@) == Err::<PeerEventView, WireError>(e),
        },
{
    let n: usize = payload.len();
    match id {
        0 => Ok(PeerEvent::Choke),
        1 => Ok(PeerEvent::Unchoke),
        2 => Ok(PeerEvent::Interested),
        3 => Ok(PeerEvent::NotInterested),
        4 => {
            if n < 4 {
                return Err(WireError::TruncatedPayload);
            }
            Ok(PeerEvent::Have(read_be32(payload, 0)))
        },
        5 => {
            let bits = copy_range(payload, 0, n);
            assert(bits@ =~= payload@);
            Ok(PeerEvent::Bitfield(bits))
        },
        6 | 8 => {
            if n < 12 {
                return Err(WireError::TruncatedPayload);
            }
            let index = read_be32(payload, 0);
            let begin = read_be32(payload, 4);
            let length = read_be32(payload, 8);
            if id == 6 {
                Ok(PeerEvent::Request { index, begin, length })
            } else {
                Ok(PeerEvent::Cancel { index, begin, length })
            }
        },
        7 => {
            if n < 8 {
                return Err(WireError::TruncatedPayload);
            }
            let index = read_be32(payload, 0);
            let begin = read_be32(payload, 4);
            let data = copy_range(payload, 8, n);
            Ok(PeerEvent::Piece { index, begin, data })
        },
        20 => {
            if n < 1 {
                return Err(WireError::TruncatedPayload);
            }
            Ok(PeerEvent::Extended { ext_id: payload[0], payload: copy_range(payload, 1, n) })
        },
        _ => {
            let kept = copy_range(payload, 0, n);
            assert(kept@ =~= payload@);
            Ok(PeerEvent::Unknown { id, payload: kept })
        },
    }
}

/// Reads what follows a length prefix: no bytes are a keep-alive, else the
/// first byte is the id and the rest the payload.
pub fn decode_body(body: &[u8]) -> (event: Result<PeerEvent, WireError>)
    ensures
        match event {
            Ok(ev) => decode_body_spec(body@) == Ok::<PeerEventView, WireError>(ev@),
            Err(e) => decode_body_spec(body@) == Err::<PeerEventView, WireError>(e),
        },
{
    if body.len() == 0 {
        return Ok(PeerEvent::KeepAlive);
    }
    decode_message(body[0], vstd::slice::slice_subrange(body, 1, body.len()))
}

/// Reads one whole frame, prefix included.
///
/// Fails with `TruncatedFrame` on fewer than four bytes, with
/// `LengthMismatch` when the prefix does not count the bytes that follow,
/// and as `decode_message` does.
pub fn decode_frame(frame: &[u8]) -> (event: Result<PeerEvent, WireError>)
    ensures
        match event {
            Ok(ev) => decode_frame_spec(frame@) == Ok::<PeerEventView, WireError>(ev@),
            Err(e) => decode_frame_spec(frame@) == Err::<PeerEventView, WireError>(e),
        },
{
    if frame.len() < 4 {
        return Err(WireError::TruncatedFrame);
    }
    let length = read_be32(frame, 0);
    if (frame.len() - 4) as u64 != length as u64 {
        return Err(WireError::LengthMismatch);
    }
    decode_body(vstd::slice::slice_subrange(frame, 4, frame.len()))
}

/// Every command that can be framed reads back as the event that stands for
/// it.
pub proof fn lemma_command_roundtrip(cmd: PeerCommandView)
    requires
        command_fits(cmd),
    ensures
        decode_frame_spec(command_frame(cmd)) == Ok::<PeerEventView, WireError>(
            command_event(cmd),
        ),
{
    let frame = command_frame(cmd);
    match command_message(cmd) {
        None => {
            assert(frame.subrange(0, 4) =~= be32(0));
            assert(frame.subrange(4, frame.len() as int) =~= Seq::<u8>::empty());
        },
        Some((id, payload)) => {
            lemma_frame_decodes(id, payload);
            match cmd {
                PeerCommandView::Request { index, begin, length } => {
                    lemma_triple_roundtrip(index, begin, length);
                },
                PeerCommandView::Cancel { index, begin, length } => {
                    lemma_triple_roundtrip(index, begin, length);
                },
                PeerCommandView::Extended { ext_id, payload: p } => {
                    assert(payload.subrange(1, payload.len() as int) =~= p);
                },
                _ => {},
            }
        },
    }
}

/// A message with an id outside the protocol's table reads back as
/// `Unknown` with the same id and payload.
pub proof fn lemma_unknown_roundtrip(id: u8, payload: Seq<u8>)
    requires
        PeerMessageType::spec_from_id(id) is None,
        1 + payload.len() <= u32::MAX,
    ensures
        decode_frame_spec(message_frame(id, payload)) == Ok::<PeerEventView, WireError>(
            PeerEventView::Unknown { id, payload },
        ),
{
    lemma_frame_decodes(id, payload);
}

proof fn lemma_frame_decodes(id: u8, payload: Seq<u8>)
    requires
        1 + payload.len() <= u32::MAX,
    ensures
        decode_frame_spec(message_frame(id, payload)) == decode_message_spec(id, payload),
{
    let frame = message_frame(id, payload);
    let n = (1 + payload.len()) as u32;
    assert(frame.subrange(0, 4) =~= be32(n));
    lemma_be32_roundtrip(n, be32(n));
    let body = frame.subrange(4, frame.len() as int);
    assert(body =~= seq![id] + payload);
    assert(body.subrange(1, body.len() as int) =~= payload);
}

proof fn lemma_triple_roundtrip(a: u32, b: u32, c: u32)
    ensures
        ({
            let p = be32(a) + be32(b) + be32(c);
            &&& p.len() == 12
            &&& be32_value(p.subrange(0, 4)) == a
            &&& be32_value(p.subrange(4, 8)) == b
            &&& be32_value(p.subrange(8, 12)) == c
        }),
{
    let p = be32(a) + be32(b) + be32(c);
    assert(p.subrange(0, 4) =~= be32(a));
    assert(p.subrange(4, 8) =~= be32(b));
    assert(p.subrange(8, 12) =~= be32(c));
    lemma_be32_roundtrip(a, be32(a));
    lemma_be32_roundtrip(b, be32(b));
    lemma_be32_roundtrip(c, be32(c));
}

/// The size of a block, the unit in which a piece is requested.
pub const BLOCK_SIZE: u32 = 16384;

impl PeerMessage {
    /// The message on the wire: the length prefix as the message holds it,
    /// the id of its kind, if it has one, and the payload.
    pub open spec fn wire(&self) -> Seq<u8> {
        be32(self.len) + match self.msg_type.spec_id() {
            Some(id) => seq![id],
            None => Seq::empty(),
        } + self.payload@
    }

    /// The message as it goes on the wire.
    pub fn to_bytes(&self) -> (bytes: Vec<u8>)
        ensures
            bytes@ == self.wire(),
    {
        let mut buf: Vec<u8> = Vec::new();
        push_be32(&mut buf, self.len);
        match self.msg_type.id() {
            Some(id) => {
                buf.push(id);
            },
            None => {},
        }
        extend_bytes(&mut buf, self.payload.as_slice());
        assert(buf@ =~= self.wire());
        buf
    }

    /// Whether this is the message that was waited for: `Ok(true)` for a
    /// message of the expected kind, `Ok(false)` for a keep-alive, after
    /// which the wait goes on, and an error for any other message.
    pub fn expect(&self, expected: PeerMessageType) -> (met: Result<bool, WireError>)
        ensures
            met == if self.msg_type == PeerMessageType::KeepAlive {
                Ok::<bool, WireError>(false)
            } else if self.msg_type == expected {
                Ok::<bool, WireError>(true)
            } else {
                Err::<bool, WireError>(WireError::UnexpectedMessage)
            },
    {
        if self.msg_type == PeerMessageType::KeepAlive {
            Ok(false)
        } else if self.msg_type == expected {
            Ok(true)
        } else {
            Err(WireError::UnexpectedMessage)
        }
    }

    /// Makes a message of the length that a prefix announced and the bytes
    /// that followed it.
    ///
    /// Fails with `LengthMismatch` when the bytes are not as many as
    /// announced, and else with `UnknownMessage` when the first of them is
    /// no id of the protocol's table.
    pub fn from_frame(length: u32, body: &[u8]) -> (message: Result<PeerMessage, WireError>)
        ensures
            match message {
                Ok(m) => {
                    &&& body@.len() == length
                    &&& m.len == length
                    &&& length == 0 ==> m.msg_type == PeerMessageType::KeepAlive
                        && m.payload@.len() == 0
                    &&& length > 0 ==> PeerMessageType::spec_from_id(body@[0]) == Some(m.msg_type)
                        && m.payload@ == body@.subrange(1, body@.len() as int)
                },
                Err(e) => if body@.len() != length {
                    e == WireError::LengthMismatch
                } else {
                    e == WireError::UnknownMessage && length > 0 && PeerMessageType::spec_from_id(
                        body@[0],
                    ) is None
                },
            },
    {
        if body.len() as u64 != length as u64 {
            return Err(WireError::LengthMismatch);
        }
        if length == 0 {
            return Ok(
                PeerMessage { len: 0, msg_type: PeerMessageType::KeepAlive, payload: Vec::new() },
            );
        }
        match PeerMessageType::from_id(body[0]) {
            Some(msg_type) => Ok(
                PeerMessage { len: length, msg_type, payload: copy_range(body, 1, body.len()) },
            ),
            None => Err(WireError::UnknownMessage),
        }
    }
}

/// How many blocks a piece of a length has.
pub open spec fn block_count(piece_length: u32) -> int {
    (piece_length + BLOCK_SIZE - 1) / (BLOCK_SIZE as int)
}

/// The length of block `k` of a piece: a block's size, or what is left of
/// the piece if that is less.
pub open spec fn block_length(piece_length: u32, k: int) -> int {
    if piece_length - k * BLOCK_SIZE < BLOCK_SIZE {
        piece_length - k * BLOCK_SIZE
    } else {
        BLOCK_SIZE as int
    }
}

/// The request for block `k` of a piece: it starts at `k` blocks into the
/// piece and asks for the length of the block.
pub open spec fn block_request(piece_index: u32, piece_length: u32, k: int) -> Seq<u8> {
    be32(piece_index) + be32((k * BLOCK_SIZE) as u32) + be32(block_length(piece_length, k) as u32)
}

/// The blocks make up the piece: each is at most a block's size and not
/// empty, each starts where the one before it ends, and the last ends where
/// the piece ends.
pub proof fn lemma_blocks_cover_piece(piece_length: u32, k: int)
    requires
        0 <= k < block_count(piece_length),
    ensures
        0 < block_length(piece_length, k) <= BLOCK_SIZE,
        k * BLOCK_SIZE + block_length(piece_length, k) <= piece_length,
        k + 1 < block_count(piece_length) ==> block_length(piece_length, k) == BLOCK_SIZE,
        k + 1 == block_count(piece_length) ==> k * BLOCK_SIZE + block_length(piece_length, k)
            == piece_length,
{
}

/// The requests that fetch a whole piece, block by block, in order.
pub fn block_requests(piece_index: u32, piece_length: u32) -> (requests: Vec<PeerMessage>)
    ensures
        requests@.len() == block_count(piece_length),
        forall|k: int|
            0 <= k < requests@.len() ==> {
                &&& (#[trigger] requests@[k]).len == 13
                &&& requests@[k].msg_type == PeerMessageType::Request
                &&& requests@[k].payload@ == block_request(piece_index, piece_length, k)
            },
{
    let count: u32 = piece_length / BLOCK_SIZE + if piece_length % BLOCK_SIZE != 0 {
        1
    } else {
        0
    };
    assert(count == block_count(piece_length));
    let mut requests: Vec<PeerMessage> = Vec::new();
    let mut k: u32 = 0;
    while k < count
        invariant
            k <= count,
            count == block_count(piece_length),
            requests@.len() == k,
            forall|j: int|
                0 <= j < requests@.len() ==> {
                    &&& (#[trigger] requests@[j]).len == 13
                    &&& requests@[j].msg_type == PeerMessageType::Request
                    &&& requests@[j].payload@ == block_request(piece_index, piece_length, j)
                },
        decreases count - k,
    {
        assert(k * BLOCK_SIZE < piece_length);
        let begin: u32 = k * BLOCK_SIZE;
        let left: u32 = piece_length - begin;
        let length: u32 = if left < BLOCK_SIZE {
            left
        } else {
            BLOCK_SIZE
        };
        let mut payload: Vec<u8> = Vec::new();
        push_be32(&mut payload, piece_index);
        push_be32(&mut payload, begin);
        push_be32(&mut payload, length);
        assert(payload@ =~= block_request(piece_index, piece_length, k as int));
        requests.push(PeerMessage { len: 13, msg_type: PeerMessageType::Request, payload });
        k += 1;
    }
    requests
}

/// What a completed handshake establishes.
pub struct Handshaken {
    /// The id that the peer gave itself.
    pub peer_id: Vec<u8>,
    /// The peer's reserved bytes.
    pub reserved: [u8; 8],
    /// The connection's first snapshot.
    pub state: PeerStateSnapshot,
    /// The event that opens the connection's event stream.
    pub event: PeerEvent,
}

/// Why a peer's handshake bytes are not accepted for a request, if they are
/// not: a wrong length first, then another protocol name, then another info
/// hash.
pub open spec fn response_failure(request: &HandshakeRequest, bytes: Seq<u8>) -> Option<
    HandshakeError,
> {
    if bytes.len() == 0 || bytes.len() != 49 + bytes[0] {
        Some(HandshakeError::ResponseLength)
    } else if raw_text(bytes.subrange(1, 1 + bytes[0])) != request.pstr@ {
        Some(HandshakeError::PstrMismatch)
    } else if bytes.subrange(9 + bytes[0], 29 + bytes[0]) != request.info_hash@ {
        Some(HandshakeError::InfoHashMismatch)
    } else {
        None
    }
}

/// Reads the peer's handshake and checks it against ours.
///
/// On success the peer id and reserved bytes are the peer's, the snapshot is
/// the initial one, and the event is `HandshakeComplete` with the same
/// values.
pub fn accept_handshake(request: &HandshakeRequest, response: &[u8]) -> (accepted: Result<
    Handshaken,
    HandshakeError,
>)
    ensures
        match accepted {
            Ok(h) => {
                let n = response@[0] as int;
                &&& response_failure(request, response@) is None
                &&& h.peer_id@ == response@.subrange(29 + n, 49 + n)
                &&& h.reserved@ == response@.subrange(1 + n, 9 + n)
                &&& h.state == initial_snapshot(spec_has_extension_support(h.reserved))
                &&& h.event@ == PeerEventView::HandshakeComplete {
                    peer_id: Some(h.peer_id@),
                    reserved: h.reserved@,
                    extension_supported: spec_has_extension_support(h.reserved),
                }
            },
            Err(e) => response_failure(request, response@) == Some(e),
        },
{
    let parsed = match HandshakeResponse::parse(response) {
        Ok(parsed) => parsed,
        Err(e) => {
            return Err(e);
        },
    };
    match request.check_response(&parsed) {
        Ok(_) => {},
        Err(e) => {
            return Err(e);
        },
    }
    let supported = has_extension_support(&parsed.reserved);
    let state = PeerStateSnapshot {
        choked: true,
        interested: false,
        peer_interested: false,
        extension_supported: supported,
    };
    let event = PeerEvent::HandshakeComplete {
        peer_id: Some(parsed.peer_id.clone()),
        reserved: parsed.reserved,
        extension_supported: supported,
    };
    Ok(Handshaken { peer_id: parsed.peer_id, reserved: parsed.reserved, state, event })
}

/// Formats an event with its `Debug` impl (`format!`).
///
/// Trusted: nothing is claimed of the text.
#[verifier::external_body]
fn debug_text(event: &PeerEvent) -> String {
    format!("{:?}", event)
}

/// The one-line summary of a piece message: its index, its offset and the
/// length of its data, never the data.
pub open spec fn piece_summary(index: u32, begin: u32, data_len: nat) -> Seq<char> {
    "Piece { index: "@ + raw_text(decimal_digits(index as nat)) + ", begin: "@ + raw_text(
        decimal_digits(begin as nat),
    ) + ", data_len: "@ + raw_text(decimal_digits(data_len)) + " }"@
}

impl PeerEvent {
    /// A short text for logs. A piece message is summarised without its
    /// data; every other event is shown as `Debug` shows it.
    pub fn print_simple(&self) -> (text: String)
        ensures
            self@ matches PeerEventView::Piece { index, begin, data } ==> text@ == piece_summary(
                index,
                begin,
                data.len(),
            ),
    {
        match self {
            PeerEvent::Piece { index, begin, data } => {
                let mut text = String::from_str("Piece { index: ");
                text.append(u64_to_decimal(*index as u64).as_slice().to_raw_string().as_str());
                text.append(", begin: ");
                text.append(u64_to_decimal(*begin as u64).as_slice().to_raw_string().as_str());
                text.append(", data_len: ");
                text.append(u64_to_decimal(data.len() as u64).as_slice().to_raw_string().as_str());
                text.append(" }");
                text
            },
            _ => debug_text(self),
        }
    }
}

} // verus!
