use codecrafters_bittorrent::torrent::magnet::{
    parse_exact_topic, parse_peer, parse_select_only, ExactTopic, MagnetError, MagnetLink,
    PeerAddress,
};

#[test]
fn parse_magnet_link() {
    let magnet_link = "magnet:?xt=urn:btih:abcdef1234567890abcdef1234567890abcdef12&dn=example_file.txt&tr=http%3A%2F%2Ftracker.example.com%2Fannounce";
    let result = MagnetLink::parse(magnet_link);
    assert!(result.is_ok());
}

#[test]
fn parse_magnet_link_with_unknown_xt() {
    let magnet_link = "magnet:?xt=urn:invalid:abcdef1234567890abcdef1234567890abcdef12&dn=example_file.txt&tr=http%3A%2F%2Ftracker.example.com%2Fannounce";
    let magnet = MagnetLink::parse(magnet_link).unwrap();
    assert!(match &magnet.exact_topics[0] {
        ExactTopic::Other(_) => true,
        _ => false,
    });
}

#[test]
fn parse_magnet_link_missing_params() {
    let magnet_link =
        "magnet:?dn=example_file.txt&tr=http%3A%2F%2Ftracker.example.com%2Fannounce";
    let result = MagnetLink::parse(magnet_link);
    assert!(result.is_err());
}

#[test]
fn parse_magnet_link_multiple_xt() {
    let magnet_link = "magnet:?xt=urn:btih:abcdef1234567890abcdef1234567890abcdef12&xt=urn:btih:1234567890abcdef1234567890abcdef12345678&dn=example_file.txt&tr=http%3A%2F%2Ftracker.example.com%2Fannounce";
    let result = MagnetLink::parse(magnet_link).unwrap();
    assert_eq!(result.exact_topics.len(), 2);
}

#[test]
fn every_field_of_a_magnet_link_is_read() {
    let link = MagnetLink::parse(
        "magnet:?xt=urn:btih:ad42ce8109f54c99613ce38f9b4d87e70f24a165&dn=first&dn=magnet1.gif\
         &tr=http%3A%2F%2Ftracker.example.com%2Fannounce&tr=http%3A%2F%2Fb.example\
         &ws=http%3A%2F%2Fseed.example%2Ffile&as=http%3A%2F%2Fas.example%2Fx\
         &xs=http%3A%2F%2Fxs.example%2Fy&x.pe=peer.example%3A51413&x.pe=10.0.0.1%3A80\
         &xl=92063&so=0,2,4-6&foo=bar&xt=urn:btmh:1220cafe",
    )
    .unwrap();
    assert_eq!(
        link.exact_topics,
        vec![
            ExactTopic::Btih("ad42ce8109f54c99613ce38f9b4d87e70f24a165".to_string()),
            ExactTopic::Btmh("1220cafe".to_string()),
        ]
    );
    assert_eq!(link.display_name, Some("magnet1.gif".to_string()));
    assert_eq!(
        link.trackers,
        vec![
            "http://tracker.example.com/announce".to_string(),
            "http://b.example/".to_string(),
        ]
    );
    assert_eq!(link.web_seeds, vec!["http://seed.example/file".to_string()]);
    assert_eq!(link.acceptable_sources, vec!["http://as.example/x".to_string()]);
    assert_eq!(link.exact_sources, vec!["http://xs.example/y".to_string()]);
    assert_eq!(
        link.peers,
        vec![
            PeerAddress { host: "peer.example".to_string(), port: 51413 },
            PeerAddress { host: "10.0.0.1".to_string(), port: 80 },
        ]
    );
    assert_eq!(link.length, Some(92063));
    assert_eq!(link.select_only, Some(vec![0, 2, 4, 5, 6]));
    assert_eq!(link.other_params, vec![("foo".to_string(), "bar".to_string())]);
    assert_eq!(
        link.info_hash(),
        Ok(hex::decode("ad42ce8109f54c99613ce38f9b4d87e70f24a165").unwrap())
    );
    assert_eq!(
        link.first_tracker(),
        Some(&"http://tracker.example.com/announce".to_string())
    );
}

#[test]
fn each_magnet_error_has_an_input() {
    let failure = |text: &str| MagnetLink::parse(text).err();
    assert_eq!(failure("not a url"), Some(MagnetError::InvalidUrl));
    assert_eq!(failure("http://example.com/?xt=urn:btih:00"), Some(MagnetError::NotMagnet));
    assert_eq!(failure("magnet:?dn=x"), Some(MagnetError::MissingExactTopic));
    assert_eq!(failure("magnet:?xt=a&tr=nourl"), Some(MagnetError::InvalidTracker));
    assert_eq!(failure("magnet:?xt=a&ws=nourl"), Some(MagnetError::InvalidWebSeed));
    assert_eq!(failure("magnet:?xt=a&as=nourl"), Some(MagnetError::InvalidAcceptableSource));
    assert_eq!(failure("magnet:?xt=a&xs=nourl"), Some(MagnetError::InvalidExactSource));
    assert_eq!(failure("magnet:?xt=a&x.pe=host"), Some(MagnetError::InvalidPeer));
    assert_eq!(failure("magnet:?xt=a&x.pe=host:99999"), Some(MagnetError::InvalidPeer));
    assert_eq!(failure("magnet:?xt=a&xl=-1"), Some(MagnetError::InvalidLength));
    assert_eq!(failure("magnet:?xt=a&so=3-1"), Some(MagnetError::InvalidSelectOnly));
    assert_eq!(
        failure("magnet:?xt=a&so=x&xl=y&tr=nourl"),
        Some(MagnetError::InvalidTracker)
    );
    let other = MagnetLink::parse("magnet:?xt=urn:sha1:abcd").unwrap();
    assert_eq!(other.info_hash(), Err(MagnetError::UnsupportedTopic));
    let odd = MagnetLink::parse("magnet:?xt=urn:btih:abc").unwrap();
    assert_eq!(odd.info_hash(), Err(MagnetError::InvalidInfoHash));
    let not_hex = MagnetLink::parse("magnet:?xt=urn:btih:zz").unwrap();
    assert_eq!(not_hex.info_hash(), Err(MagnetError::InvalidInfoHash));
    assert_eq!(other.first_tracker(), None);
}

#[test]
fn pairs_are_read_without_a_url() {
    let pairs = vec![
        ("xt".to_string(), "urn:btih:00ff".to_string()),
        ("xl".to_string(), "7".to_string()),
        ("xl".to_string(), "+8".to_string()),
        ("other".to_string(), "1".to_string()),
        ("other".to_string(), "2".to_string()),
    ];
    let link = MagnetLink::from_query_pairs(&pairs).unwrap();
    assert_eq!(link.length, Some(8));
    assert_eq!(link.info_hash(), Ok(vec![0x00, 0xff]));
    assert_eq!(
        link.other_params,
        vec![
            ("other".to_string(), "1".to_string()),
            ("other".to_string(), "2".to_string()),
        ]
    );
    assert_eq!(link.select_only, None);
    assert_eq!(link.display_name, None);
    assert!(link.trackers.is_empty() && link.peers.is_empty());
}

#[test]
fn exact_topics_are_told_apart_by_their_prefix() {
    assert_eq!(parse_exact_topic("urn:btih:abc"), ExactTopic::Btih("abc".to_string()));
    assert_eq!(parse_exact_topic("urn:btih:"), ExactTopic::Btih(String::new()));
    assert_eq!(parse_exact_topic("urn:btmh:1220"), ExactTopic::Btmh("1220".to_string()));
    assert_eq!(parse_exact_topic("urn:bti"), ExactTopic::Other("urn:bti".to_string()));
    assert_eq!(parse_exact_topic("URN:BTIH:abc"), ExactTopic::Other("URN:BTIH:abc".to_string()));
    assert_eq!(ExactTopic::Btih("ab".to_string()).get_hash(), Some("ab"));
    assert_eq!(ExactTopic::Btmh("cd".to_string()).get_hash(), Some("cd"));
    assert_eq!(ExactTopic::Other("ef".to_string()).get_hash(), None);
}

#[test]
fn peers_are_split_at_the_last_colon() {
    assert_eq!(
        parse_peer("[2001:db8::1]:51413"),
        Some(PeerAddress { host: "[2001:db8::1]".to_string(), port: 51413 })
    );
    assert_eq!(
        parse_peer("1.2.3.4:0"),
        Some(PeerAddress { host: "1.2.3.4".to_string(), port: 0 })
    );
    assert_eq!(parse_peer(":65535"), Some(PeerAddress { host: String::new(), port: 65535 }));
    assert_eq!(parse_peer("host:65536"), None);
    assert_eq!(parse_peer("host:"), None);
    assert_eq!(parse_peer("host:80 "), None);
    assert_eq!(parse_peer("host"), None);
}

#[test]
fn selections_are_lists_of_indices_and_ranges() {
    assert_eq!(parse_select_only("0,2,4,6-8"), Some(vec![0, 2, 4, 6, 7, 8]));
    assert_eq!(parse_select_only(" 1 , ,3-3,"), Some(vec![1, 3]));
    assert_eq!(parse_select_only(""), Some(vec![]));
    assert_eq!(parse_select_only(",,"), Some(vec![]));
    assert_eq!(parse_select_only("4294967295"), Some(vec![u32::MAX]));
    assert_eq!(
        parse_select_only("4294967294-4294967295"),
        Some(vec![u32::MAX - 1, u32::MAX])
    );
    assert_eq!(parse_select_only("4294967296"), None);
    assert_eq!(parse_select_only("5-2"), None);
    assert_eq!(parse_select_only("1 - 2"), None);
    assert_eq!(parse_select_only("1-2-3"), None);
    assert_eq!(parse_select_only("a"), None);
    assert_eq!(parse_select_only("1,x,2"), None);
    assert_eq!(parse_select_only("-"), None);
}
