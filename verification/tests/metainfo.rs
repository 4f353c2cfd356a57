use codecrafters_bittorrent::bencode::BencodeError;
use sha1::Digest;
use codecrafters_bittorrent::torrent::metainfo::{MetainfoError, TorrentMetainfo};

const PIECE_HASHES: [&str; 3] = [
    "e876f67a2a8886e8f36b136726c30fa29703022d",
    "6e2275e604a0766656736e81ff10b55204ad8d35",
    "f00d937a0213df1982bc8d097227ad9e909acc17",
];

fn sample_info() -> Vec<u8> {
    let mut info = b"d6:lengthi92063e4:name10:sample.txt12:piece lengthi32768e6:pieces60:".to_vec();
    for hash in PIECE_HASHES {
        info.extend_from_slice(&hex::decode(hash).unwrap());
    }
    info.push(b'e');
    info
}

fn sample_torrent() -> Vec<u8> {
    let mut file =
        b"d8:announce55:http://bittorrent-test-tracker.codecrafters.io/announce10:created by13:mktorrent 1.14:info"
            .to_vec();
    file.extend_from_slice(&sample_info());
    file.push(b'e');
    file
}

#[test]
fn test_parse_torrent_file() {
    let description = TorrentMetainfo::from_bytes(&sample_torrent()).unwrap();
    let piece_hashes = description.get_piece_hashes();

    assert_eq!(
        description.announce,
        "http://bittorrent-test-tracker.codecrafters.io/announce"
    );
    assert_eq!(description.length, 92063);
    assert_eq!(description.piece_length, 32768);
    assert_eq!(
        description.get_info_hash_hex(),
        "d69f91e6b2ae4c542468d1073a71d4ea13879a7f"
    );
    assert_eq!(description.pieces.len(), 60);
    assert_eq!(piece_hashes.len(), 3);
    assert_eq!(piece_hashes[0], "e876f67a2a8886e8f36b136726c30fa29703022d");
    assert_eq!(piece_hashes[1], "6e2275e604a0766656736e81ff10b55204ad8d35");
    assert_eq!(piece_hashes[2], "f00d937a0213df1982bc8d097227ad9e909acc17");
}

#[test]
fn info_bytes_give_the_same_metainfo_under_a_tracker() {
    let from_file = TorrentMetainfo::from_bytes(&sample_torrent()).unwrap();
    let from_info = TorrentMetainfo::from_info_bytes(
        "http://bittorrent-test-tracker.codecrafters.io/announce".to_string(),
        &sample_info(),
    )
    .unwrap();
    assert_eq!(from_file, from_info);
}

#[test]
fn info_hash_is_that_of_the_bytes_as_written() {
    // The same dictionary with its keys out of order hashes differently.
    let mut info = b"d12:piece lengthi32768e6:lengthi92063e6:pieces60:".to_vec();
    for hash in PIECE_HASHES {
        info.extend_from_slice(&hex::decode(hash).unwrap());
    }
    info.push(b'e');
    let metainfo = TorrentMetainfo::from_info_bytes("t".to_string(), &info).unwrap();
    assert_eq!(metainfo.length, 92063);
    assert_eq!(metainfo.info_hash, compute(&info));
    assert_ne!(metainfo.get_info_hash_hex(), "d69f91e6b2ae4c542468d1073a71d4ea13879a7f");
}

fn compute(bytes: &[u8]) -> Vec<u8> {
    sha1::Sha1::digest(bytes).to_vec()
}

#[test]
fn re_encoding_a_canonical_info_dictionary_keeps_the_info_hash() {
    let info = sample_info();
    let value = codecrafters_bittorrent::bencode::decode(&info).unwrap();
    let encoded = codecrafters_bittorrent::bencode::encode(&value);
    assert_eq!(encoded, info);
    assert_eq!(
        hex::encode(compute(&encoded)),
        "d69f91e6b2ae4c542468d1073a71d4ea13879a7f"
    );
}

#[test]
fn pieces_cover_the_file() {
    let metainfo = TorrentMetainfo::from_bytes(&sample_torrent()).unwrap();
    assert!(metainfo.check_consistent());
    assert_eq!(metainfo.get_piece_count(), 3);
    assert_eq!(metainfo.piece_count(), 3);
    assert_eq!(metainfo.piece_len(0), 32768);
    assert_eq!(metainfo.piece_len(1), 32768);
    assert_eq!(metainfo.piece_len(2), 92063 - 2 * 32768);
    let total: u64 = (0..3).map(|i| metainfo.piece_len(i)).sum();
    assert_eq!(total, 92063);
    assert_eq!(
        metainfo.get_piece_hash_bytes(1),
        &hex::decode(PIECE_HASHES[1]).unwrap()[..]
    );
}

#[test]
fn a_file_of_whole_pieces_has_a_full_last_piece() {
    let metainfo = TorrentMetainfo {
        announce: String::new(),
        piece_length: 16,
        pieces: vec![0; 80],
        length: 64,
        info_hash: vec![0; 20],
    };
    assert_eq!(metainfo.piece_count(), 4);
    assert_eq!(metainfo.piece_len(3), 16);
    assert!(metainfo.check_consistent());
    let short = TorrentMetainfo { length: 65, ..metainfo.clone() };
    assert!(!short.check_consistent());
    let fitting = TorrentMetainfo { pieces: vec![0; 100], length: 65, ..metainfo.clone() };
    assert!(fitting.check_consistent());
    assert_eq!(fitting.piece_len(3), 16);
    assert_eq!(fitting.piece_len(4), 1);
    let none = TorrentMetainfo { pieces: vec![], length: 0, ..metainfo.clone() };
    assert_eq!(none.piece_count(), 0);
    assert!(none.check_consistent());
    let no_length = TorrentMetainfo { piece_length: 0, ..metainfo.clone() };
    assert!(!no_length.check_consistent());
    let ragged = TorrentMetainfo { pieces: vec![0; 81], ..metainfo };
    assert!(!ragged.check_consistent());
    assert_eq!(ragged.get_piece_count(), 4);
    assert_eq!(ragged.get_piece_hashes().len(), 5);
    assert_eq!(ragged.get_piece_hashes()[4], "00");
}

#[test]
fn written_metainfo_reads_back() {
    let metainfo = TorrentMetainfo::from_bytes(&sample_torrent()).unwrap();
    let written = metainfo.to_bytes().unwrap();
    let mut expected =
        b"d8:announce55:http://bittorrent-test-tracker.codecrafters.io/announce4:infod6:lengthi92063e12:piece lengthi32768e6:pieces60:"
            .to_vec();
    expected.extend_from_slice(&metainfo.pieces);
    expected.extend_from_slice(b"ee");
    assert_eq!(written, expected);
    let read = TorrentMetainfo::from_bytes(&written).unwrap();
    assert_eq!(read.announce, metainfo.announce);
    assert_eq!(read.length, metainfo.length);
    assert_eq!(read.piece_length, metainfo.piece_length);
    assert_eq!(read.pieces, metainfo.pieces);
    let too_long = TorrentMetainfo { length: u64::MAX, ..metainfo };
    assert_eq!(too_long.to_bytes(), Err(MetainfoError::IntegerRange));
}

#[test]
fn missing_and_malformed_fields_are_reported() {
    let read = |bytes: &[u8]| TorrentMetainfo::from_bytes(bytes).err();
    assert_eq!(read(b"d4:infodee"), Some(MetainfoError::MissingAnnounce));
    assert_eq!(read(b"i1e"), Some(MetainfoError::MissingAnnounce));
    assert_eq!(read(b"d8:announcei1ee"), Some(MetainfoError::InvalidAnnounce));
    assert_eq!(read(b"d8:announce1:\xffe"), Some(MetainfoError::InvalidAnnounce));
    assert_eq!(read(b"d8:announce1:te"), Some(MetainfoError::MissingInfo));
    assert_eq!(
        read(b"d8:announce1:t4:infodee"),
        Some(MetainfoError::MissingPieceLength)
    );
    assert_eq!(
        read(b"d8:announce1:t4:infod12:piece lengthi-1eee"),
        Some(MetainfoError::MissingPieceLength)
    );
    assert_eq!(
        read(b"d8:announce1:t4:infod12:piece lengthi4eee"),
        Some(MetainfoError::MissingPieces)
    );
    assert_eq!(
        read(b"d8:announce1:t4:infod12:piece lengthi4e6:pieces0:ee"),
        Some(MetainfoError::MissingLength)
    );
    assert_eq!(
        read(b"d8:announce1:t4:infod"),
        Some(MetainfoError::Bencode(BencodeError::UnterminatedDictionary))
    );
    assert_eq!(
        TorrentMetainfo::from_info_bytes(String::new(), b"de ").err(),
        Some(MetainfoError::Bencode(BencodeError::TrailingData))
    );
}

#[test]
fn the_summary_lists_the_values_in_order() {
    let mut file = b"d8:announce23:http://tracker/announce4:info".to_vec();
    file.extend_from_slice(&sample_info());
    file.push(b'e');
    let metainfo = TorrentMetainfo::from_bytes(&file).unwrap();
    assert_eq!(
        metainfo.info_lines(),
        vec![
            "Tracker URL: http://tracker/announce".to_string(),
            "Length: 92063".to_string(),
            "Info Hash: d69f91e6b2ae4c542468d1073a71d4ea13879a7f".to_string(),
            "Piece Length: 32768".to_string(),
            "Piece Hashes:".to_string(),
            "e876f67a2a8886e8f36b136726c30fa29703022d".to_string(),
            "6e2275e604a0766656736e81ff10b55204ad8d35".to_string(),
            "f00d937a0213df1982bc8d097227ad9e909acc17".to_string(),
        ]
    );
    let request = metainfo.announce_request("-CT0001-123456789012");
    assert_eq!(request.info_hash, metainfo.info_hash);
    assert_eq!(request.peer_id, "-CT0001-123456789012");
    assert_eq!(
        (request.port, request.uploaded, request.downloaded, request.left, request.compact),
        (6881, 0, 0, 92063, 1)
    );
}
