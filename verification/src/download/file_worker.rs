use vstd::prelude::*;
use std::sync::Arc;
use crate::download::manager::ANNOUNCE_PORT;
use crate::torrent::metainfo::{MetainfoView, TorrentMetainfo};
use crate::tracker::client::TrackerRequest;

verus! {

/// Prepares the download of a torrent's file into a directory.
pub struct FileWorker {
    metainfo: Arc<TorrentMetainfo>,
    client_id: String,
    output_dir: String,
}

impl FileWorker {
    /// The metainfo of the torrent.
    pub closed spec fn meta(&self) -> MetainfoView {
        self.metainfo@
    }

    /// The id under which the client presents itself.
    pub closed spec fn spec_client_id(&self) -> Seq<char> {
        self.client_id@
    }

    /// A worker for a torrent, a client id and an output directory.
    pub fn new(metainfo: Arc<TorrentMetainfo>, client_id: String, output_dir: String) -> (worker:
        Self)
        ensures
            worker.meta() == metainfo@,
            worker.spec_client_id() == client_id@,
    {
        Self { metainfo, client_id, output_dir }
    }

    /// The announce that opens the download: the whole file is left.
    pub fn announce_request(&self) -> (request: TrackerRequest)
        ensures
            request.info_hash@ == self.meta().info_hash,
            request.peer_id@ == self.spec_client_id(),
            request.port == ANNOUNCE_PORT,
            request.uploaded == 0,
            request.downloaded == 0,
            request.left == self.meta().length,
            request.compact == 1,
    {
        TrackerRequest {
            info_hash: self.metainfo.info_hash.clone(),
            peer_id: self.client_id.clone(),
            port: ANNOUNCE_PORT,
            uploaded: 0,
            downloaded: 0,
            left: self.metainfo.length,
            compact: 1,
        }
    }

    /// Prepares the announce and succeeds; nothing else is done yet.
    pub fn run(&mut self) -> (done: Result<(), ()>)
        ensures
            done is Ok,
            final(self).meta() == old(self).meta(),
            final(self).spec_client_id() == old(self).spec_client_id(),
    {
        let _request = self.announce_request();
        Ok(())
    }
}

} // verus!
