//! Downloading a file: the queue of pieces, the worker that fetches them
//! from one peer, and the plan of a whole download.

pub mod file_worker;
pub mod manager;
pub mod queue;
pub mod worker;

pub use file_worker::FileWorker;
pub use manager::DownloadManager;
pub use queue::PieceQueue;
pub use worker::PeerWorker;
