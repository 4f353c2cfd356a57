//! A BitTorrent client library: bencode, metainfo and magnet parsing, the peer
//! wire protocol, and the per-peer download state machines, with their
//! behaviour stated in contracts and proved.

pub mod bencode;
pub mod download;
pub mod peer;
pub mod torrent;
pub mod tracker;
pub mod utils;
