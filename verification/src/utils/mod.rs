//! Byte, text and hashing helpers shared by the rest of the library.

pub mod bytes;
pub mod decimal;
pub mod hash;
pub mod hex;
pub mod text;
pub mod url;

pub use bytes::{RawBytesExt, RawStringExt};
pub use hash::compute_sha1_hash;
pub use url::{url_encode, url_encode_bytes};
