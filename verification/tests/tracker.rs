use codecrafters_bittorrent::bencode::BencodeError;
use codecrafters_bittorrent::tracker::client::{
    parse_peer_records, TrackerError,
};
use codecrafters_bittorrent::tracker::{
    announce_url, parse_announce_response, parse_peers, Peer, TrackerRequest,
};
use codecrafters_bittorrent::utils::RawStringExt;

#[test]
fn parse_peers_valid() {
    let peers_bytes = b"\x7F\x00\x00\x01\x1A\xE1\xC0\xA8\x01\x68\x1A\xE2";
    let peers = parse_peers(peers_bytes.to_raw_string().as_str()).unwrap();

    assert_eq!(peers.len(), 2);
    assert_eq!(peers[0].ip, [127, 0, 0, 1]);
    assert_eq!(peers[0].port, 6881);
    assert_eq!(peers[1].ip, [192, 168, 1, 104]);
    assert_eq!(peers[1].port, 6882);
}

#[test]
fn parse_peers_panics_on_invalid_length() {
    let peers_bytes = b"\x7F\x00\x00\x01\x1A";
    assert_eq!(
        parse_peers(peers_bytes.to_raw_string().as_str()),
        Err(TrackerError::InvalidPeers)
    );
}

#[test]
fn peer_records_are_read_from_bytes() {
    assert_eq!(
        parse_peer_records(&[0x7F, 0, 0, 1, 0x1A, 0xE1, 0xC0, 0xA8, 1, 0x68, 0x1A, 0xE2]),
        Ok(vec![
            Peer { ip: [127, 0, 0, 1], port: 6881 },
            Peer { ip: [192, 168, 1, 104], port: 6882 },
        ])
    );
    assert_eq!(parse_peer_records(&[]), Ok(vec![]));
    assert_eq!(
        parse_peer_records(&[255, 255, 255, 255, 255, 255]),
        Ok(vec![Peer { ip: [255, 255, 255, 255], port: 65535 }])
    );
    assert_eq!(parse_peer_records(&[1, 2, 3, 4, 5, 6, 7]), Err(TrackerError::InvalidPeers));
}

#[test]
fn peers_are_written_and_read_as_text() {
    let peer = Peer { ip: [192, 168, 1, 104], port: 6882 };
    assert_eq!(peer.to_string(), "192.168.1.104:6882");
    assert_eq!(Peer::parse("192.168.1.104:6882"), Some(peer));
    assert_eq!("127.0.0.1:6881".parse::<Peer>(), Ok(Peer { ip: [127, 0, 0, 1], port: 6881 }));
    let edge = Peer { ip: [0, 255, 10, 0], port: 0 };
    assert_eq!(edge.to_string(), "0.255.10.0:0");
    assert_eq!(Peer::parse(&edge.to_string()), Some(edge));
    assert_eq!(Peer::parse("1.2.3.4:x"), Some(Peer { ip: [1, 2, 3, 4], port: 6881 }));
    assert_eq!(Peer::parse("1.2.3.4:70000"), Some(Peer { ip: [1, 2, 3, 4], port: 6881 }));
    assert_eq!(Peer::parse("1.2.3.4:80:90"), Some(Peer { ip: [1, 2, 3, 4], port: 80 }));
    assert_eq!(Peer::parse("1.2.3.4"), None);
    assert_eq!(Peer::parse("1.2.3:80"), None);
    assert_eq!(Peer::parse("1.2.3.4.5:80"), None);
    assert_eq!(Peer::parse("256.2.3.4:80"), None);
    assert_eq!(Peer::parse("01.2.3.4:80"), None);
    assert_eq!(Peer::parse("+1.2.3.4:80"), None);
    assert_eq!(Peer::parse("1..3.4:80"), None);
    assert_eq!(Peer::parse("a.b.c.d:80"), None);
    assert_eq!("nonsense".parse::<Peer>(), Err(TrackerError::InvalidAddress));
}

#[test]
fn the_announce_url_carries_the_request_as_a_query() {
    let request = TrackerRequest {
        info_hash: hex::decode("d69f91e6b2ae4c542468d1073a71d4ea13879a7f").unwrap(),
        peer_id: "-CT0001-123456789012".to_string(),
        port: 6881,
        uploaded: 0,
        downloaded: 12,
        left: 92063,
        compact: 1,
    };
    assert_eq!(
        announce_url("http://tracker/announce", &request),
        "http://tracker/announce?info_hash=%D6%9F%91%E6%B2%AELT%24h%D1%07%3Aq%D4%EA%13%87%9A%7F\
         &peer_id=-CT0001-123456789012&port=6881&uploaded=0&downloaded=12&left=92063&compact=1"
    );
}

#[test]
fn the_answer_of_a_tracker_is_read() {
    let mut answer = b"d8:intervali60e5:peers12:".to_vec();
    answer.extend_from_slice(&[0x7F, 0, 0, 1, 0x1A, 0xE1, 0xC0, 0xA8, 1, 0x68, 0x1A, 0xE2]);
    answer.push(b'e');
    let response = parse_announce_response(&answer).unwrap();
    assert_eq!(response.interval, 60);
    assert_eq!(
        response.peers,
        vec![
            Peer { ip: [127, 0, 0, 1], port: 6881 },
            Peer { ip: [192, 168, 1, 104], port: 6882 },
        ]
    );
}

#[test]
fn missing_parts_of_an_answer_have_defaults() {
    let empty = parse_announce_response(b"de").unwrap();
    assert_eq!(empty.interval, 0);
    assert!(empty.peers.is_empty());
    let negative = parse_announce_response(b"d8:intervali-5ee").unwrap();
    assert_eq!(negative.interval, 0);
    let wide = parse_announce_response(b"d8:intervali4294967297ee").unwrap();
    assert_eq!(wide.interval, 1);
    let list = parse_announce_response(b"d5:peerslee").unwrap();
    assert!(list.peers.is_empty());
    let no_dictionary = parse_announce_response(b"i7e").unwrap();
    assert_eq!(no_dictionary.interval, 0);
    assert!(no_dictionary.peers.is_empty());
}

#[test]
fn a_broken_answer_is_an_error() {
    assert_eq!(
        parse_announce_response(b"d5:peers5:12345e").err(),
        Some(TrackerError::InvalidPeers)
    );
    assert_eq!(
        parse_announce_response(b"d8:interval").err(),
        Some(TrackerError::Bencode(BencodeError::UnexpectedEnd))
    );
    assert_eq!(
        parse_announce_response(b"dex").err(),
        Some(TrackerError::Bencode(BencodeError::TrailingData))
    );
}
