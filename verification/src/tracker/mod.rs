//! The tracker's side: the announce request, its URL, and the peers that
//! the answer lists.

pub mod client;
pub mod laws;

pub use client::{
    announce_url, parse_announce_response, parse_peers, Peer, TrackerRequest, TrackerResponse,
};
