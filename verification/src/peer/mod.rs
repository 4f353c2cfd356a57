//! The peer wire protocol: handshake, message framing, extension payloads,
//! and the state machines that drive one peer.

pub mod connection;
pub mod extension;
pub mod message;
pub mod metadata;
pub mod session;

pub use connection::{PeerCommand, PeerEvent, PeerStateSnapshot};
pub use message::{HandshakeRequest, HandshakeResponse, PeerMessage, PeerMessageType};
pub use session::{PeerSession, PeerSessionConfig, PeerSessionHandler, SessionControl};
pub use extension::{ExtensionHandshakePayload, ExtensionMessage};
pub use metadata::{MetadataFetchResult, MetadataFetcher};
