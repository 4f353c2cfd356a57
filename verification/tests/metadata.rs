use codecrafters_bittorrent::bencode::BencodeError;
use codecrafters_bittorrent::peer::metadata::{
    request_metadata_piece, MetadataError, MetadataFetcher,
};
use codecrafters_bittorrent::peer::session::{
    HandlerEffect, HandlerStep, PeerSessionHandler, SessionControl,
};
use codecrafters_bittorrent::peer::{PeerCommand, PeerEvent};
use codecrafters_bittorrent::torrent::magnet::MagnetError;
use sha1::Digest;

fn info_bytes(total: usize) -> Vec<u8> {
    let mut pieces = Vec::new();
    let mut n: u32 = 1;
    while pieces.len() < total {
        n = n.wrapping_mul(1103515245).wrapping_add(12345);
        pieces.push((n >> 16) as u8);
    }
    pieces.truncate(total - total % 20);
    let mut info = format!("d6:lengthi{}e12:piece lengthi16384e6:pieces{}:", 16384 * (pieces.len() / 20), pieces.len()).into_bytes();
    info.extend_from_slice(&pieces);
    info.push(b'e');
    info
}

fn link_for(info: &[u8]) -> String {
    format!(
        "magnet:?xt=urn:btih:{}&tr=http%3A%2F%2Ftracker.example.com%2Fannounce",
        hex::encode(sha1::Sha1::digest(info))
    )
}

fn data_message(piece: usize, total: usize, data: &[u8]) -> PeerEvent {
    let mut payload =
        format!("d8:msg_typei1e5:piecei{}e10:total_sizei{}ee", piece, total).into_bytes();
    payload.extend_from_slice(data);
    PeerEvent::Extended { ext_id: 42, payload }
}

fn handshake_event(supported: bool) -> PeerEvent {
    PeerEvent::HandshakeComplete {
        peer_id: Some(vec![9; 20]),
        reserved: [0, 0, 0, 0, 0, if supported { 0x10 } else { 0 }, 0, 0],
        extension_supported: supported,
    }
}

fn extension_handshake(metadata_id: u8, size: usize) -> PeerEvent {
    PeerEvent::Extended {
        ext_id: 0,
        payload: format!("d1:md11:ut_metadatai{}ee13:metadata_sizei{}ee", metadata_id, size)
            .into_bytes(),
    }
}

fn continue_with(commands: Vec<PeerCommand>) -> Result<HandlerStep, MetadataError> {
    Ok(HandlerStep { control: SessionControl::Continue, commands, effect: HandlerEffect::Nothing })
}

fn only(control: SessionControl) -> Result<HandlerStep, MetadataError> {
    Ok(HandlerStep { control, commands: vec![], effect: HandlerEffect::Nothing })
}

#[test]
fn metadata_of_three_pieces_is_fetched_and_checked() {
    let info = info_bytes(40000);
    assert!(info.len() > 2 * 16384 && info.len() < 3 * 16384);
    let mut fetcher =
        MetadataFetcher::new(&link_for(&info), "-CT0001-123456789012".to_string(), false).unwrap();
    assert!(!fetcher.should_stop(&()));
    assert_eq!(fetcher.on_connect(&mut (), &[9; 20]), only(SessionControl::Continue));

    assert_eq!(
        fetcher.on_event(&mut (), handshake_event(true)),
        continue_with(vec![PeerCommand::Extended {
            ext_id: 0,
            payload: b"d1:md11:ut_metadatai42eee".to_vec(),
        }])
    );
    assert_eq!(fetcher.on_event(&mut (), handshake_event(true)), only(SessionControl::Continue));

    assert_eq!(
        fetcher.on_event(&mut (), extension_handshake(7, info.len())),
        continue_with(vec![request_metadata_piece(7, 0)])
    );
    let unfinished = fetcher.result().unwrap();
    assert!(unfinished.metainfo.is_none());
    assert_eq!(unfinished.peer_metadata_id, Some(7));
    assert_eq!(unfinished.peer_id, Some(vec![9; 20]));

    assert_eq!(
        fetcher.on_event(&mut (), data_message(0, info.len(), &info[..16384])),
        continue_with(vec![request_metadata_piece(7, 1), request_metadata_piece(7, 2)])
    );
    assert_eq!(
        fetcher.on_event(&mut (), data_message(2, info.len(), &info[32768..])),
        continue_with(vec![])
    );
    assert_eq!(
        fetcher.on_event(&mut (), data_message(1, info.len(), &info[16384..32768])),
        only(SessionControl::Stop)
    );

    let fetched = fetcher.result().unwrap();
    let metainfo = fetched.metainfo.unwrap();
    assert_eq!(metainfo.announce, "http://tracker.example.com/announce");
    assert_eq!(metainfo.piece_length, 16384);
    assert_eq!(metainfo.info_hash, sha1::Sha1::digest(&info).to_vec());
    assert_eq!(&info[info.len() - 1 - metainfo.pieces.len()..info.len() - 1], &metainfo.pieces[..]);
}

#[test]
fn a_handshake_only_fetcher_stops_after_the_extension_handshake() {
    let info = info_bytes(100);
    let mut fetcher = MetadataFetcher::new(&link_for(&info), "id".to_string(), true).unwrap();
    fetcher.on_event(&mut (), handshake_event(true)).unwrap();
    assert_eq!(
        fetcher.on_event(&mut (), extension_handshake(3, info.len())),
        only(SessionControl::Stop)
    );
    let result = fetcher.result().unwrap();
    assert_eq!(result.peer_metadata_id, Some(3));
    assert_eq!(result.peer_id, None);
    assert!(result.metainfo.is_none());
}

#[test]
fn a_peer_without_extensions_gets_no_handshake() {
    let mut fetcher =
        MetadataFetcher::new(&link_for(b"de"), "id".to_string(), false).unwrap();
    assert_eq!(fetcher.on_event(&mut (), handshake_event(false)), only(SessionControl::Continue));
    assert_eq!(fetcher.on_event(&mut (), PeerEvent::Unchoke), only(SessionControl::Continue));
    assert_eq!(
        fetcher.on_event(&mut (), PeerEvent::Extended { ext_id: 5, payload: vec![1] }),
        only(SessionControl::Continue)
    );
    assert_eq!(
        fetcher.on_event(&mut (), PeerEvent::IoError("closed".to_string())),
        Err(MetadataError::Io)
    );
}

#[test]
fn each_metadata_error_has_an_input() {
    let info = info_bytes(20000);
    let fresh = || {
        let mut fetcher =
            MetadataFetcher::new(&link_for(&info), "id".to_string(), false).unwrap();
        fetcher.on_event(&mut (), extension_handshake(7, info.len())).unwrap();
        fetcher
    };
    let extended = |payload: &[u8]| PeerEvent::Extended { ext_id: 42, payload: payload.to_vec() };

    let mut no_size = MetadataFetcher::new(&link_for(&info), "id".to_string(), false).unwrap();
    assert_eq!(
        no_size.on_event(&mut (), PeerEvent::Extended { ext_id: 0, payload: b"d1:mdee".to_vec() }),
        Err(MetadataError::MissingMetadataSize)
    );
    assert_eq!(
        no_size.on_event(&mut (), data_message(0, 1, b"x")),
        Err(MetadataError::MissingMetadataSize)
    );
    let mut no_id = MetadataFetcher::new(&link_for(&info), "id".to_string(), false).unwrap();
    assert_eq!(
        no_id.on_event(&mut (), PeerEvent::Extended {
            ext_id: 0,
            payload: b"d1:mde13:metadata_sizei5ee".to_vec(),
        }),
        Err(MetadataError::MissingMetadataId)
    );
    let mut bad = MetadataFetcher::new(&link_for(&info), "id".to_string(), false).unwrap();
    assert!(matches!(
        bad.on_event(&mut (), PeerEvent::Extended { ext_id: 0, payload: b"i1e".to_vec() }),
        Err(MetadataError::Handshake(_))
    ));

    assert_eq!(
        fresh().on_event(&mut (), extended(b"x")),
        Err(MetadataError::Bencode(BencodeError::UnhandledPrefix))
    );
    assert_eq!(fresh().on_event(&mut (), extended(b"de")), Err(MetadataError::InvalidHeader));
    assert_eq!(
        fresh().on_event(&mut (), extended(b"d8:msg_typei1eex")),
        Err(MetadataError::InvalidHeader)
    );
    assert_eq!(
        fresh().on_event(&mut (), extended(b"d8:msg_typei0e5:piecei0ee")),
        Err(MetadataError::UnexpectedRequest)
    );
    assert_eq!(
        fresh().on_event(&mut (), extended(b"d8:msg_typei2e5:piecei0ee")),
        Err(MetadataError::Rejected)
    );
    assert_eq!(
        fresh().on_event(&mut (), extended(b"d8:msg_typei3e5:piecei0ee")),
        only(SessionControl::Continue)
    );
    assert_eq!(
        fresh().on_event(&mut (), extended(b"d8:msg_typei1e5:piecei0ee")),
        Err(MetadataError::EmptyPiece)
    );
    assert_eq!(
        fresh().on_event(&mut (), data_message(2, info.len(), &info[..10])),
        Err(MetadataError::PieceOutOfRange)
    );
    assert_eq!(
        fresh().on_event(&mut (), data_message(0, info.len(), &info[..16383])),
        Err(MetadataError::PieceSize)
    );
    assert_eq!(
        fresh().on_event(&mut (), data_message(1, info.len(), &info[16384..info.len() - 1])),
        Err(MetadataError::PieceSize)
    );
}

#[test]
fn metadata_with_another_hash_is_refused() {
    let info = info_bytes(100);
    let mut fetcher = MetadataFetcher::new(&link_for(b"other"), "id".to_string(), false).unwrap();
    fetcher.on_event(&mut (), extension_handshake(7, info.len())).unwrap();
    assert_eq!(
        fetcher.on_event(&mut (), data_message(0, info.len(), &info)),
        only(SessionControl::Stop)
    );
    assert_eq!(fetcher.result().err(), Some(MetadataError::InfoHashMismatch));
}

#[test]
fn the_announce_of_a_fetcher_names_tracker_and_info_hash() {
    let info = info_bytes(100);
    let fetcher =
        MetadataFetcher::new(&link_for(&info), "-CT0001-123456789012".to_string(), true).unwrap();
    let (url, request) = fetcher.announce_request().unwrap();
    assert_eq!(url, "http://tracker.example.com/announce");
    assert_eq!(request.info_hash, sha1::Sha1::digest(&info).to_vec());
    assert_eq!(request.peer_id, "-CT0001-123456789012");
    assert_eq!(
        (request.port, request.uploaded, request.downloaded, request.left, request.compact),
        (6881, 0, 0, 999, 1)
    );

    let no_tracker =
        MetadataFetcher::new("magnet:?xt=urn:btih:00", "id".to_string(), true).unwrap();
    assert_eq!(no_tracker.announce_request().err(), Some(MetadataError::NoTracker));
    let no_hash = MetadataFetcher::new(
        "magnet:?xt=urn:sha1:00&tr=http%3A%2F%2Ft.example",
        "id".to_string(),
        true,
    )
    .unwrap();
    assert_eq!(
        no_hash.announce_request().err(),
        Some(MetadataError::Magnet(MagnetError::UnsupportedTopic))
    );
    assert_eq!(
        MetadataFetcher::new("magnet:?dn=x", "id".to_string(), true).err(),
        Some(MagnetError::MissingExactTopic)
    );
}

#[test]
fn a_magnet_handshake_records_peer_id_and_metadata_id() {
    let mut fetcher = MetadataFetcher::new(
        "magnet:?xt=urn:btih:ad42ce8109f54c99613ce38f9b4d87e70f24a165&dn=magnet1.gif\
         &tr=http%3A%2F%2Fbittorrent-test-tracker.codecrafters.io%2Fannounce",
        "-CT0001-123456789012".to_string(),
        true,
    )
    .unwrap();
    let peer_id: Vec<u8> = (0..20).collect();
    assert_eq!(fetcher.on_connect(&mut (), &peer_id), only(SessionControl::Continue));
    assert_eq!(
        fetcher.on_event(&mut (), handshake_event(true)),
        continue_with(vec![PeerCommand::Extended {
            ext_id: 0,
            payload: b"d1:md11:ut_metadatai42eee".to_vec(),
        }])
    );
    assert_eq!(
        fetcher.on_event(
            &mut (),
            PeerEvent::Extended {
                ext_id: 0,
                payload: b"d1:md11:ut_metadatai16ee13:metadata_sizei132ee".to_vec(),
            }
        ),
        only(SessionControl::Stop)
    );
    let result = fetcher.result().unwrap();
    assert_eq!(hex::encode(result.peer_id.unwrap()), "000102030405060708090a0b0c0d0e0f10111213");
    assert_eq!(result.peer_metadata_id, Some(16));
    assert!(result.metainfo.is_none());
}
