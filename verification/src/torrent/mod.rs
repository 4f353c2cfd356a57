//! What describes a torrent: the metainfo file and the magnet link.

pub mod magnet;
pub mod metainfo;

pub use magnet::{ExactTopic, MagnetLink, PeerAddress};
pub use metainfo::TorrentMetainfo;
