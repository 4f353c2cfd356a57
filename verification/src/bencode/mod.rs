//! Bencode: the value type, its canonical encoding, and the parser.

pub mod encoder;
pub mod json;
pub mod laws;
pub mod parser;
pub mod value;

pub use encoder::encode;
pub use json::{encode_json, EncodeError, JsonValue};
pub use parser::{
    decode, find_value_span, parse_at, parse_bytes, parse_string, BencodeError, BencodeParser,
};
pub use value::BencodeValue;
