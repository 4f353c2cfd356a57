use codecrafters_bittorrent::utils::url::{url_encode, url_encode_bytes};

#[test]
fn utils_encodes_unreserved_as_is() {
    let s = "Az09-._~";
    assert_eq!(url_encode_bytes(s.as_bytes()), s);
}

#[test]
fn utils_encodes_spaces_and_binary() {
    let bytes = vec![b' ', 0x00, 0xFF, b'a'];
    assert_eq!(url_encode_bytes(&bytes), "%20%00%FFa");
}

#[test]
fn encoding_encodes_unreserved_as_is() {
    let s = "Az09-._~";
    assert_eq!(url_encode_bytes(s.as_bytes()), s);
}

#[test]
fn encoding_encodes_spaces_and_binary() {
    let bytes = vec![b' ', 0x00, 0xFF, b'a'];
    assert_eq!(url_encode_bytes(&bytes), "%20%00%FFa");
}

#[test]
fn url_encodes_unreserved_as_is() {
    let s = "Az09-._~";
    assert_eq!(url_encode(s.as_bytes()), s);
}

#[test]
fn url_encodes_spaces_and_binary() {
    let bytes = vec![b' ', 0x00, 0xFF, b'a'];
    assert_eq!(url_encode(&bytes), "%20%00%FFa");
}
