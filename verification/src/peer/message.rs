use vstd::prelude::*;
use vstd::string::StringSliceAdditionalSpecFns;
use crate::utils::bytes::{bytes_equal, copy_range, extend_bytes, raw_text, RawStringExt};

verus! {

/// The protocol name that opens every handshake.
pub const PROTOCOL_NAME: &'static str = "BitTorrent protocol";

/// Index of the reserved byte that carries the extension-protocol bit.
pub const EXTENSION_BYTE: usize = 5;

/// The extension-protocol bit within that byte.
pub const EXTENSION_BIT: u8 = 0x10;

/// The kinds of message of the peer wire protocol.
#[derive(Debug, PartialEq, Eq, Clone, Copy, Structural)]
pub enum PeerMessageType {
    KeepAlive,
    Choke,
    Unchoke,
    Interested,
    NotInterested,
    Have,
    Bitfield,
    Request,
    Piece,
    Cancel,
    /// Extension-protocol message (id 20).
    Extended,
}

impl PeerMessageType {
    /// The id byte of this kind on the wire; a keep-alive has none.
    pub open spec fn spec_id(self) -> Option<u8> {
        match self {
            PeerMessageType::KeepAlive => None,
            PeerMessageType::Choke => Some(0u8),
            PeerMessageType::Unchoke => Some(1u8),
            PeerMessageType::Interested => Some(2u8),
            PeerMessageType::NotInterested => Some(3u8),
            PeerMessageType::Have => Some(4u8),
            PeerMessageType::Bitfield => Some(5u8),
            PeerMessageType::Request => Some(6u8),
            PeerMessageType::Piece => Some(7u8),
            PeerMessageType::Cancel => Some(8u8),
            PeerMessageType::Extended => Some(20u8),
        }
    }

    /// The kind that an id byte stands for, if it is a known one.
    pub open spec fn spec_from_id(id: u8) -> Option<PeerMessageType> {
        if id == 0 {
            Some(PeerMessageType::Choke)
        } else if id == 1 {
            Some(PeerMessageType::Unchoke)
        } else if id == 2 {
            Some(PeerMessageType::Interested)
        } else if id == 3 {
            Some(PeerMessageType::NotInterested)
        } else if id == 4 {
            Some(PeerMessageType::Have)
        } else if id == 5 {
            Some(PeerMessageType::Bitfield)
        } else if id == 6 {
            Some(PeerMessageType::Request)
        } else if id == 7 {
            Some(PeerMessageType::Piece)
        } else if id == 8 {
            Some(PeerMessageType::Cancel)
        } else if id == 20 {
            Some(PeerMessageType::Extended)
        } else {
            None
        }
    }

    /// The id byte of this kind on the wire; `None` for a keep-alive.
    pub fn id(self) -> (id: Option<u8>)
        ensures
            id == self.spec_id(),
            id matches Some(b) ==> Self::spec_from_id(b) == Some(self),
    {
        match self {
            PeerMessageType::KeepAlive => None,
            PeerMessageType::Choke => Some(0),
            PeerMessageType::Unchoke => Some(1),
            PeerMessageType::Interested => Some(2),
            PeerMessageType::NotInterested => Some(3),
            PeerMessageType::Have => Some(4),
            PeerMessageType::Bitfield => Some(5),
            PeerMessageType::Request => Some(6),
            PeerMessageType::Piece => Some(7),
            PeerMessageType::Cancel => Some(8),
            PeerMessageType::Extended => Some(20),
        }
    }

    /// The kind that an id byte stands for; `None` for an unknown id.
    pub fn from_id(id: u8) -> (kind: Option<PeerMessageType>)
        ensures
            kind == Self::spec_from_id(id),
            kind matches Some(k) ==> k.spec_id() == Some(id),
    {
        match id {
            0 => Some(PeerMessageType::Choke),
            1 => Some(PeerMessageType::Unchoke),
            2 => Some(PeerMessageType::Interested),
            3 => Some(PeerMessageType::NotInterested),
            4 => Some(PeerMessageType::Have),
            5 => Some(PeerMessageType::Bitfield),
            6 => Some(PeerMessageType::Request),
            7 => Some(PeerMessageType::Piece),
            8 => Some(PeerMessageType::Cancel),
            20 => Some(PeerMessageType::Extended),
            _ => None,
        }
    }
}

/// One framed message: the length prefix as sent, the kind, and the payload
/// after the id byte.
pub struct PeerMessage {
    pub len: u32,
    pub msg_type: PeerMessageType,
    pub payload: Vec<u8>,
}

/// Why a handshake could not be written, read or accepted.
#[derive(Debug, PartialEq, Eq, Clone, Copy, Structural)]
pub enum HandshakeError {
    /// The protocol name is longer than 255 bytes.
    PstrTooLong,
    /// The info hash is not 20 bytes long.
    InfoHashLength,
    /// The peer id is not 20 bytes long.
    PeerIdLength,
    /// The response is not `49 + pstrlen` bytes long.
    ResponseLength,
    /// The peer answered with another protocol name.
    PstrMismatch,
    /// The peer answered with another info hash.
    InfoHashMismatch,
}

impl HandshakeError {
    /// Whether the peer's answer was well-formed but did not match ours.
    pub open spec fn is_mismatch(self) -> bool {
        self == HandshakeError::PstrMismatch || self == HandshakeError::InfoHashMismatch
    }
}

/// Our side of the handshake.
pub struct HandshakeRequest {
    pub pstr: &'static str,
    pub reserved: [u8; 8],
    pub info_hash: Vec<u8>,
    pub peer_id: Vec<u8>,
}

/// The peer's side of the handshake. `pstr` holds one character per byte
/// received.
pub struct HandshakeResponse {
    pub pstr: String,
    pub reserved: [u8; 8],
    pub info_hash: Vec<u8>,
    pub peer_id: Vec<u8>,
}

/// Whether reserved bytes advertise the extension protocol: bit `0x10` of
/// byte 5.
pub open spec fn spec_has_extension_support(reserved: [u8; 8]) -> bool {
    reserved[5] & 0x10 != 0
}

/// The reserved bytes that advertise nothing.
pub open spec fn plain_reserved() -> Seq<u8> {
    seq![0u8, 0u8, 0u8, 0u8, 0u8, 0u8, 0u8, 0u8]
}

/// The reserved bytes that advertise the extension protocol and nothing else.
pub open spec fn extension_reserved() -> Seq<u8> {
    seq![0u8, 0u8, 0u8, 0u8, 0u8, 0x10u8, 0u8, 0u8]
}

/// Reserved bytes with the extension-protocol bit set and all others clear.
pub fn get_reserved_extension_support_bytes() -> (reserved: [u8; 8])
    ensures
        reserved@ == extension_reserved(),
        spec_has_extension_support(reserved),
{
    let reserved: [u8; 8] = [0, 0, 0, 0, 0, EXTENSION_BIT, 0, 0];
    assert(reserved@ =~= extension_reserved());
    assert(0x10u8 & 0x10 != 0) by (bit_vector);
    reserved
}

/// Whether reserved bytes advertise the extension protocol.
pub fn has_extension_support(reserved: &[u8; 8]) -> (supported: bool)
    ensures
        supported == spec_has_extension_support(*reserved),
{
    reserved[EXTENSION_BYTE] & EXTENSION_BIT != 0
}

/// The bytes of a handshake: the length of the protocol name, the name, the
/// reserved bytes, the info hash, the peer id.
pub open spec fn handshake_bytes(
    pstr: Seq<u8>,
    reserved: Seq<u8>,
    info_hash: Seq<u8>,
    peer_id: Seq<u8>,
) -> Seq<u8> {
    seq![pstr.len() as u8] + pstr + reserved + info_hash + peer_id
}

impl HandshakeRequest {
    /// A handshake that advertises no extension.
    pub fn new(info_hash: Vec<u8>, peer_id: Vec<u8>) -> (request: Self)
        ensures
            request.pstr@ == PROTOCOL_NAME@,
            request.reserved@ == plain_reserved(),
            !spec_has_extension_support(request.reserved),
            request.info_hash == info_hash,
            request.peer_id == peer_id,
    {
        let reserved: [u8; 8] = [0, 0, 0, 0, 0, 0, 0, 0];
        assert(reserved@ =~= plain_reserved());
        assert(0u8 & 0x10 == 0) by (bit_vector);
        Self { pstr: PROTOCOL_NAME, reserved, info_hash, peer_id }
    }

    /// A handshake that advertises the extension protocol.
    pub fn new_with_extension_support(info_hash: Vec<u8>, peer_id: Vec<u8>) -> (request: Self)
        ensures
            request.pstr@ == PROTOCOL_NAME@,
            request.reserved@ == extension_reserved(),
            spec_has_extension_support(request.reserved),
            request.info_hash == info_hash,
            request.peer_id == peer_id,
    {
        Self {
            pstr: PROTOCOL_NAME,
            reserved: get_reserved_extension_support_bytes(),
            info_hash,
            peer_id,
        }
    }

    /// The bytes that `as_bytes` writes when it succeeds.
    pub open spec fn wire(&self) -> Seq<u8> {
        handshake_bytes(self.pstr.spec_bytes(), self.reserved@, self.info_hash@, self.peer_id@)
    }

    /// Which error, if any, stops this request from being written.
    pub open spec fn wire_error(&self) -> Option<HandshakeError> {
        if self.pstr.spec_bytes().len() > 255 {
            Some(HandshakeError::PstrTooLong)
        } else if self.info_hash@.len() != 20 {
            Some(HandshakeError::InfoHashLength)
        } else if self.peer_id@.len() != 20 {
            Some(HandshakeError::PeerIdLength)
        } else {
            None
        }
    }

    /// The handshake as it goes on the wire.
    pub fn as_bytes(&self) -> (bytes: Result<Vec<u8>, HandshakeError>)
        ensures
            match bytes {
                Ok(b) => self.wire_error() is None && b@ == self.wire(),
                Err(e) => self.wire_error() == Some(e),
            },
    {
        let pstr_bytes = self.pstr.as_bytes();
        if pstr_bytes.len() > 255 {
            return Err(HandshakeError::PstrTooLong);
        }
        if self.info_hash.len() != 20 {
            return Err(HandshakeError::InfoHashLength);
        }
        if self.peer_id.len() != 20 {
            return Err(HandshakeError::PeerIdLength);
        }
        let mut buf: Vec<u8> = Vec::new();
        buf.push(pstr_bytes.len() as u8);
        extend_bytes(&mut buf, pstr_bytes);
        extend_bytes(&mut buf, self.reserved.as_slice());
        extend_bytes(&mut buf, self.info_hash.as_slice());
        extend_bytes(&mut buf, self.peer_id.as_slice());
        assert(buf@ =~= self.wire());
        Ok(buf)
    }

    /// Which mismatch, if any, a well-formed response shows against this
    /// request: the protocol name is compared first, then the info hash.
    pub open spec fn mismatch(&self, response: &HandshakeResponse) -> Option<HandshakeError> {
        if response.pstr@ != self.pstr@ {
            Some(HandshakeError::PstrMismatch)
        } else if response.info_hash@ != self.info_hash@ {
            Some(HandshakeError::InfoHashMismatch)
        } else {
            None
        }
    }

    /// Accepts a response whose protocol name and info hash are ours.
    pub fn check_response(&self, response: &HandshakeResponse) -> (checked: Result<
        (),
        HandshakeError,
    >)
        ensures
            match checked {
                Ok(_) => self.mismatch(response) is None,
                Err(e) => self.mismatch(response) == Some(e) && e.is_mismatch(),
            },
    {
        let ours: String = self.pstr.to_owned();
        if response.pstr != ours {
            return Err(HandshakeError::PstrMismatch);
        }
        if !bytes_equal(response.info_hash.as_slice(), self.info_hash.as_slice()) {
            return Err(HandshakeError::InfoHashMismatch);
        }
        Ok(())
    }
}

/// The handshake as it goes on the wire; the same as `as_bytes`.
pub fn build_handshake_bytes(req: &HandshakeRequest) -> (bytes: Result<Vec<u8>, HandshakeError>)
    ensures
        match bytes {
            Ok(b) => req.wire_error() is None && b@ == req.wire(),
            Err(e) => req.wire_error() == Some(e),
        },
{
    req.as_bytes()
}

/// How many bytes of a handshake follow its first byte, the length of the
/// protocol name.
pub fn handshake_rest_len(pstrlen: u8) -> (rest: usize)
    ensures
        rest == pstrlen + 48,
{
    pstrlen as usize + 48
}

impl HandshakeResponse {
    /// Splits a whole handshake, `49 + pstrlen` bytes, into its fields.
    pub fn parse(bytes: &[u8]) -> (parsed: Result<HandshakeResponse, HandshakeError>)
        ensures
            match parsed {
                Ok(r) => {
                    let n = bytes@[0] as int;
                    &&& bytes@.len() == 49 + n
                    &&& r.pstr@ == raw_text(bytes@.subrange(1, 1 + n))
                    &&& r.reserved@ == bytes@.subrange(1 + n, 9 + n)
                    &&& r.info_hash@ == bytes@.subrange(9 + n, 29 + n)
                    &&& r.peer_id@ == bytes@.subrange(29 + n, 49 + n)
                },
                Err(e) => {
                    &&& e == HandshakeError::ResponseLength
                    &&& (bytes@.len() == 0 || bytes@.len() != 49 + bytes@[0])
                },
            },
    {
        if bytes.len() == 0 {
            return Err(HandshakeError::ResponseLength);
        }
        let n: usize = bytes[0] as usize;
        if bytes.len() != 49 + n {
            return Err(HandshakeError::ResponseLength);
        }
        let pstr = vstd::slice::slice_subrange(bytes, 1, 1 + n).to_raw_string();
        let r: usize = 1 + n;
        let reserved: [u8; 8] = [
            bytes[r],
            bytes[r + 1],
            bytes[r + 2],
            bytes[r + 3],
            bytes[r + 4],
            bytes[r + 5],
            bytes[r + 6],
            bytes[r + 7],
        ];
        assert(reserved@ =~= bytes@.subrange(1 + n, 9 + n));
        let info_hash = copy_range(bytes, 9 + n, 29 + n);
        let peer_id = copy_range(bytes, 29 + n, 49 + n);
        Ok(HandshakeResponse { pstr, reserved, info_hash, peer_id })
    }
}

/// What the wire shows of the extension bit: in a written handshake the
/// byte at offset `1 + pstrlen + 5` carries bit `0x10` exactly when the
/// request's reserved bytes advertise the extension protocol.
pub proof fn lemma_handshake_extension_bit(request: HandshakeRequest)
    requires
        request.wire_error() is None,
    ensures
        request.wire().len() == 49 + request.pstr.spec_bytes().len(),
        (request.wire()[request.pstr.spec_bytes().len() as int + 6] & 0x10 != 0)
            == spec_has_extension_support(request.reserved),
{
    let n = request.pstr.spec_bytes().len() as int;
    assert(request.reserved@.len() == 8);
    assert(request.wire()[n + 6] == request.reserved@[5]);
}

} // verus!
