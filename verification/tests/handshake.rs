use codecrafters_bittorrent::peer::connection::{
    accept_handshake, update_state, PeerEvent, PeerStateSnapshot,
};
use codecrafters_bittorrent::peer::message::{
    build_handshake_bytes, get_reserved_extension_support_bytes, handshake_rest_len,
    has_extension_support,
    HandshakeError, HandshakeRequest, HandshakeResponse, PeerMessageType,
};

fn sample_response(pstr: &[u8], reserved: [u8; 8], info_hash: &[u8], peer_id: &[u8]) -> Vec<u8> {
    let mut bytes = vec![pstr.len() as u8];
    bytes.extend_from_slice(pstr);
    bytes.extend_from_slice(&reserved);
    bytes.extend_from_slice(info_hash);
    bytes.extend_from_slice(peer_id);
    bytes
}

#[test]
fn get_reserved_bytes() {
    let reserved = get_reserved_extension_support_bytes();
    let hex_reserved = hex::encode(&reserved);
    assert_eq!(hex_reserved, "0000000000100000");
}

#[test]
fn plain_handshake_is_68_bytes_with_clear_reserved_bytes() {
    let request = HandshakeRequest::new(vec![0xAB; 20], b"-CT0001-123456789012".to_vec());
    let bytes = request.as_bytes().unwrap();
    assert_eq!(build_handshake_bytes(&request), Ok(bytes.clone()));
    assert_eq!(bytes.len(), 68);
    assert_eq!(bytes[0], 19);
    assert_eq!(&bytes[1..20], b"BitTorrent protocol");
    assert_eq!(&bytes[20..28], &[0u8; 8]);
    assert_eq!(&bytes[28..48], &[0xAB; 20]);
    assert_eq!(&bytes[48..68], b"-CT0001-123456789012");
    assert!(!has_extension_support(&request.reserved));
    assert_eq!(bytes[25] & 0x10, 0);
}

#[test]
fn extension_handshake_sets_bit_0x10_of_byte_5() {
    let request =
        HandshakeRequest::new_with_extension_support(vec![1; 20], vec![2; 20]);
    assert_eq!(request.reserved, [0, 0, 0, 0, 0, 0x10, 0, 0]);
    assert!(has_extension_support(&request.reserved));
    let bytes = request.as_bytes().unwrap();
    assert_eq!(bytes[25], 0x10);
    assert_eq!(bytes[25] & 0x10, 0x10);
}

#[test]
fn extension_support_looks_at_one_bit_only() {
    assert!(has_extension_support(&[0, 0, 0, 0, 0, 0xFF, 0, 0]));
    assert!(!has_extension_support(&[0xFF, 0xFF, 0xFF, 0xFF, 0xFF, 0xEF, 0xFF, 0xFF]));
}

#[test]
fn handshake_rejects_wrong_lengths() {
    let short_hash = HandshakeRequest::new(vec![1; 19], vec![2; 20]);
    assert_eq!(short_hash.as_bytes(), Err(HandshakeError::InfoHashLength));
    let long_id = HandshakeRequest::new(vec![1; 20], vec![2; 21]);
    assert_eq!(long_id.as_bytes(), Err(HandshakeError::PeerIdLength));
    let both = HandshakeRequest::new(vec![], vec![]);
    assert_eq!(both.as_bytes(), Err(HandshakeError::InfoHashLength));
}

#[test]
fn response_is_split_into_its_fields() {
    let bytes = sample_response(
        b"BitTorrent protocol",
        [0, 0, 0, 0, 0, 0x10, 0, 4],
        &[7; 20],
        &[9; 20],
    );
    assert_eq!(bytes.len(), 1 + handshake_rest_len(19));
    let response = HandshakeResponse::parse(&bytes).unwrap();
    assert_eq!(response.pstr, "BitTorrent protocol");
    assert_eq!(response.reserved, [0, 0, 0, 0, 0, 0x10, 0, 4]);
    assert_eq!(response.info_hash, vec![7; 20]);
    assert_eq!(response.peer_id, vec![9; 20]);
}

#[test]
fn response_of_wrong_length_is_rejected() {
    let mut bytes = sample_response(b"BitTorrent protocol", [0; 8], &[7; 20], &[9; 20]);
    bytes.pop();
    assert_eq!(
        HandshakeResponse::parse(&bytes).err(),
        Some(HandshakeError::ResponseLength)
    );
    assert_eq!(
        HandshakeResponse::parse(&[]).err(),
        Some(HandshakeError::ResponseLength)
    );
}

#[test]
fn accepted_handshake_gives_peer_id_state_and_first_event() {
    let request = HandshakeRequest::new_with_extension_support(vec![7; 20], vec![1; 20]);
    let bytes = sample_response(
        b"BitTorrent protocol",
        [0, 0, 0, 0, 0, 0x10, 0, 0],
        &[7; 20],
        &[9; 20],
    );
    let accepted = accept_handshake(&request, &bytes).unwrap();
    assert_eq!(accepted.peer_id, vec![9; 20]);
    assert_eq!(accepted.reserved, [0, 0, 0, 0, 0, 0x10, 0, 0]);
    assert_eq!(
        accepted.state,
        PeerStateSnapshot {
            choked: true,
            interested: false,
            peer_interested: false,
            extension_supported: true,
        }
    );
    assert_eq!(
        accepted.event,
        PeerEvent::HandshakeComplete {
            peer_id: Some(vec![9; 20]),
            reserved: [0, 0, 0, 0, 0, 0x10, 0, 0],
            extension_supported: true,
        }
    );
}

#[test]
fn handshake_mismatch_is_reported() {
    let request = HandshakeRequest::new(vec![7; 20], vec![1; 20]);
    let other_name = sample_response(b"BitTorrent protocoL", [0; 8], &[7; 20], &[9; 20]);
    assert_eq!(
        accept_handshake(&request, &other_name).err(),
        Some(HandshakeError::PstrMismatch)
    );
    let other_hash = sample_response(b"BitTorrent protocol", [0; 8], &[8; 20], &[9; 20]);
    assert_eq!(
        accept_handshake(&request, &other_hash).err(),
        Some(HandshakeError::InfoHashMismatch)
    );
    let both = sample_response(b"xx", [0; 8], &[8; 20], &[9; 20]);
    assert_eq!(
        accept_handshake(&request, &both).err(),
        Some(HandshakeError::PstrMismatch)
    );
    assert_eq!(
        accept_handshake(&request, &[19, 1, 2]).err(),
        Some(HandshakeError::ResponseLength)
    );
}

#[test]
fn message_ids_follow_the_table() {
    let table = [
        (PeerMessageType::Choke, 0u8),
        (PeerMessageType::Unchoke, 1),
        (PeerMessageType::Interested, 2),
        (PeerMessageType::NotInterested, 3),
        (PeerMessageType::Have, 4),
        (PeerMessageType::Bitfield, 5),
        (PeerMessageType::Request, 6),
        (PeerMessageType::Piece, 7),
        (PeerMessageType::Cancel, 8),
        (PeerMessageType::Extended, 20),
    ];
    for (kind, id) in table {
        assert_eq!(kind.id(), Some(id));
        assert_eq!(PeerMessageType::from_id(id), Some(kind));
    }
    assert_eq!(PeerMessageType::KeepAlive.id(), None);
    assert_eq!(PeerMessageType::from_id(9), None);
    assert_eq!(PeerMessageType::from_id(255), None);
}

#[test]
fn snapshot_follows_the_events() {
    let mut state = PeerStateSnapshot {
        choked: true,
        interested: false,
        peer_interested: false,
        extension_supported: false,
    };
    update_state(&mut state, &PeerEvent::Unchoke);
    assert!(!state.choked);
    update_state(&mut state, &PeerEvent::Interested);
    assert!(state.peer_interested);
    update_state(&mut state, &PeerEvent::Have(3));
    assert!(!state.choked && state.peer_interested && !state.extension_supported);
    update_state(&mut state, &PeerEvent::NotInterested);
    assert!(!state.peer_interested);
    update_state(&mut state, &PeerEvent::Choke);
    assert!(state.choked);
    update_state(
        &mut state,
        &PeerEvent::HandshakeComplete {
            peer_id: None,
            reserved: [0; 8],
            extension_supported: true,
        },
    );
    assert!(state.extension_supported);
    assert!(!state.interested);
}
