use codecrafters_bittorrent::bencode::{decode, BencodeError, BencodeValue};
use codecrafters_bittorrent::peer::extension::{
    ExtensionError, ExtensionHandshakePayload, ExtensionMessage, METADATA_EXTENSION_ID,
};
use codecrafters_bittorrent::peer::metadata::request_metadata_piece;
use codecrafters_bittorrent::peer::PeerCommand;

#[test]
fn test_piece_request_message() {
    let payload = match request_metadata_piece(3, 0) {
        PeerCommand::Extended { ext_id, payload } => {
            assert_eq!(ext_id, 3);
            payload
        }
        other => panic!("unexpected command {:?}", other),
    };
    assert_eq!(payload, b"d8:msg_typei0e5:piecei0ee".to_vec());

    let deserialized = decode(&payload).unwrap();
    assert_eq!(deserialized.get(b"msg_type"), Some(&BencodeValue::Integer(0)));
    assert_eq!(deserialized.get(b"piece"), Some(&BencodeValue::Integer(0)));
    let theirs: serde_bencode::value::Value = serde_bencode::from_bytes(&payload).unwrap();
    assert_eq!(serde_bencode::to_bytes(&theirs).unwrap(), payload);
}

#[test]
fn test_bencode_decode_with_extra_data() {
    let encoded = "d4:city4:test6:street4:teste_kekekekek".as_bytes();
    let (decoded, end) = codecrafters_bittorrent::bencode::parse_at(encoded, 0).unwrap();
    assert_eq!(end, 28);
    assert_eq!(decoded.get(b"city"), Some(&BencodeValue::Bytes(b"test".to_vec())));
    assert_eq!(decoded.get(b"street"), Some(&BencodeValue::Bytes(b"test".to_vec())));
}

#[test]
fn test_metadata_response_message_len() {
    let header = BencodeValue::Dict(vec![
        (b"msg_type".to_vec(), BencodeValue::Integer(1)),
        (b"piece".to_vec(), BencodeValue::Integer(0)),
        (b"total_size".to_vec(), BencodeValue::Integer(1234)),
    ]);
    let payload = codecrafters_bittorrent::bencode::encode(&header);
    assert_eq!(payload.len(), 44);
}

#[test]
fn handshake_payloads_are_written_in_key_order() {
    assert_eq!(ExtensionHandshakePayload::new().encode(), Ok(b"d1:mdee".to_vec()));
    let ours = ExtensionHandshakePayload::default_extensions();
    assert_eq!(ours.extensions, vec![("ut_metadata".to_string(), METADATA_EXTENSION_ID)]);
    assert_eq!(ours.encode(), Ok(b"d1:md11:ut_metadatai17eee".to_vec()));
    assert_eq!(
        ExtensionHandshakePayload::with_metadata_id(42).encode(),
        Ok(b"d1:md11:ut_metadatai42eee".to_vec())
    );
    let full = ExtensionHandshakePayload {
        extensions: vec![
            ("ut_pex".to_string(), 2),
            ("ut_metadata".to_string(), 1),
            ("ut_pex".to_string(), 3),
        ],
        metadata_size: Some(31235),
        client_name: Some("client".to_string()),
    };
    assert_eq!(
        full.encode(),
        Ok(b"d11:client_name6:client1:md11:ut_metadatai1e6:ut_pexi3ee13:metadata_sizei31235ee"
            .to_vec())
    );
    let too_large = ExtensionHandshakePayload {
        extensions: vec![],
        metadata_size: Some(u64::MAX),
        client_name: None,
    };
    assert_eq!(too_large.encode(), Err(ExtensionError::InvalidMetadataSize));
}

#[test]
fn handshake_payloads_are_read() {
    let payload = ExtensionHandshakePayload::decode(
        b"d1:md11:ut_metadatai16e6:ut_pexi2ee13:metadata_sizei132e1:pi6881e4:reqqi250ee trailing",
    )
    .unwrap();
    assert_eq!(
        payload.extensions,
        vec![("ut_metadata".to_string(), 16), ("ut_pex".to_string(), 2)]
    );
    assert_eq!(payload.metadata_size, Some(132));
    assert_eq!(payload.client_name, None);
    assert_eq!(payload.get_metadata_extension_id(), Some(16));
    assert_eq!(payload.get_extension_id("ut_pex"), Some(2));
    assert_eq!(payload.get_extension_id("ut_holepunch"), None);

    let named =
        ExtensionHandshakePayload::decode(b"d11:client_name3:abc1:mdee").unwrap();
    assert_eq!(named.client_name, Some("abc".to_string()));
    assert_eq!(named.get_metadata_extension_id(), None);
}

#[test]
fn a_written_payload_reads_back() {
    let payload = ExtensionHandshakePayload {
        extensions: vec![("a".to_string(), 0), ("b".to_string(), 255)],
        metadata_size: Some(0),
        client_name: Some("é".to_string()),
    };
    assert_eq!(
        ExtensionHandshakePayload::decode(&payload.encode().unwrap()),
        Ok(payload)
    );
}

#[test]
fn each_handshake_payload_error_has_an_input() {
    let failure = |bytes: &[u8]| ExtensionHandshakePayload::decode(bytes).err();
    assert_eq!(failure(b""), Some(ExtensionError::Bencode(BencodeError::UnexpectedEnd)));
    assert_eq!(failure(b"i1e"), Some(ExtensionError::NotADictionary));
    assert_eq!(failure(b"de"), Some(ExtensionError::MissingExtensions));
    assert_eq!(failure(b"d1:mi1ee"), Some(ExtensionError::MissingExtensions));
    assert_eq!(failure(b"d1:md1:ai256eee"), Some(ExtensionError::InvalidExtensions));
    assert_eq!(failure(b"d1:md1:ai-1eee"), Some(ExtensionError::InvalidExtensions));
    assert_eq!(failure(b"d1:md1:a1:bee"), Some(ExtensionError::InvalidExtensions));
    assert_eq!(failure(b"d1:md1:\xffi1eee"), Some(ExtensionError::InvalidExtensions));
    assert_eq!(
        failure(b"d1:mde13:metadata_sizei-1ee"),
        Some(ExtensionError::InvalidMetadataSize)
    );
    assert_eq!(
        failure(b"d1:mde13:metadata_size1:xe"),
        Some(ExtensionError::InvalidMetadataSize)
    );
    assert_eq!(
        failure(b"d11:client_namei1e1:mdee"),
        Some(ExtensionError::InvalidClientName)
    );
    assert_eq!(
        failure(b"d11:client_name1:\xff1:mdee"),
        Some(ExtensionError::InvalidClientName)
    );
}

#[test]
fn extension_messages_start_with_their_id() {
    let message = ExtensionMessage { msg_id: 42, payload: vec![1, 2, 3] };
    assert_eq!(message.to_bytes(), vec![42, 1, 2, 3]);
    assert_eq!(ExtensionMessage { msg_id: 0, payload: vec![] }.to_bytes(), vec![0]);
}
