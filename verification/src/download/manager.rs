use vstd::prelude::*;
use std::sync::Arc;
use crate::download::queue::{PieceQueue, PieceQueueView};
use crate::download::worker::{PeerWorker, WorkerView};
use crate::peer::session::PeerSessionConfig;
use crate::torrent::metainfo::{
    lemma_piece_within_file, spec_piece_count, spec_piece_len, MetainfoView, TorrentMetainfo,
};
use crate::tracker::client::{Peer, TrackerRequest};

verus! {

/// The port that announces name.
pub const ANNOUNCE_PORT: u16 = 6881;

/// Why a download cannot be planned.
#[derive(Debug, Clone, Copy, PartialEq, Eq, Structural)]
pub enum DownloadError {
    /// The metainfo does not describe a file that can be downloaded.
    InvalidMetainfo,
    /// The file has more pieces than the wire protocol can index.
    TooManyPieces,
    /// The file has no piece of the index asked for.
    UnknownPiece,
}

/// What a download starts from: the announce to make, the queue of the
/// pieces to fetch, the length that the output file is given, and where in
/// the torrent's file the output's first byte lies.
pub struct DownloadPlan {
    pub request: TrackerRequest,
    pub queue: PieceQueue,
    pub file_length: u64,
    pub base_offset: u64,
}

/// Plans the download of a torrent's file: one worker per peer, all of them
/// on one queue of pieces and one output file.
pub struct DownloadManager {
    metainfo: Arc<TorrentMetainfo>,
    client_id: String,
    output_path: String,
}

/// The indices `0, 1, ..` up to `count`, in order.
pub open spec fn first_indices(count: nat) -> Seq<u32> {
    Seq::new(count, |i: int| i as u32)
}

impl DownloadManager {
    /// The metainfo of the torrent.
    pub closed spec fn meta(&self) -> MetainfoView {
        self.metainfo@
    }

    /// The id under which the client presents itself.
    pub closed spec fn spec_client_id(&self) -> Seq<char> {
        self.client_id@
    }

    /// Where the file is written.
    pub closed spec fn spec_output_path(&self) -> Seq<char> {
        self.output_path@
    }

    /// A manager for a torrent, a client id and an output path.
    pub fn new(metainfo: TorrentMetainfo, client_id: String, output_path: String) -> (manager: Self)
        ensures
            manager.meta() == metainfo@,
            manager.spec_client_id() == client_id@,
            manager.spec_output_path() == output_path@,
    {
        Self { metainfo: Arc::new(metainfo), client_id, output_path }
    }

    /// Where the file is written.
    pub fn output_path(&self) -> (path: &String)
        ensures
            path@ == self.spec_output_path(),
    {
        &self.output_path
    }

    /// The tracker to announce to.
    pub fn announce(&self) -> (url: &String)
        ensures
            url@ == self.meta().announce,
    {
        &self.metainfo.announce
    }

    /// The announce that opens the download: the whole file is left.
    pub fn announce_request(&self) -> (request: TrackerRequest)
        ensures
            request.info_hash@ == self.meta().info_hash,
            request.peer_id@ == self.spec_client_id(),
            request.port == ANNOUNCE_PORT,
            request.uploaded == 0,
            request.downloaded == 0,
            request.left == self.meta().length,
            request.compact == 1,
    {
        TrackerRequest {
            info_hash: self.metainfo.info_hash.clone(),
            peer_id: self.client_id.clone(),
            port: ANNOUNCE_PORT,
            uploaded: 0,
            downloaded: 0,
            left: self.metainfo.length,
            compact: 1,
        }
    }

    /// The indices of all the pieces, in order.
    ///
    /// Fails with `InvalidMetainfo` when the metainfo is not consistent,
    /// and else with `TooManyPieces` when there are more pieces than 32 bits
    /// can index.
    pub fn piece_ids(&self) -> (ids: Result<Vec<u32>, DownloadError>)
        ensures
            match ids {
                Ok(v) => crate::download::worker::consistent(self.meta()) && v@ == first_indices(
                    self.meta().pieces.len() / 20,
                ) && v@.len() <= u32::MAX,
                Err(e) => if !crate::download::worker::consistent(self.meta()) {
                    e == DownloadError::InvalidMetainfo
                } else {
                    e == DownloadError::TooManyPieces && self.meta().pieces.len() / 20 > u32::MAX
                },
            },
    {
        if !self.metainfo.check_consistent() {
            return Err(DownloadError::InvalidMetainfo);
        }
        let count: usize = self.metainfo.get_piece_count();
        if count > u32::MAX as usize {
            return Err(DownloadError::TooManyPieces);
        }
        let mut ids: Vec<u32> = Vec::new();
        let mut i: usize = 0;
        while i < count
            invariant
                i <= count <= u32::MAX,
                ids@ == first_indices(i as nat),
            decreases count - i,
        {
            ids.push(i as u32);
            i += 1;
            assert(ids@ =~= first_indices(i as nat));
        }
        Ok(ids)
    }

    /// What the download starts from: the announce, a queue of all the
    /// pieces in order, and the length of the file.
    pub fn plan(&self) -> (plan: Result<DownloadPlan, DownloadError>)
        ensures
            match plan {
                Ok(p) => {
                    &&& crate::download::worker::consistent(self.meta())
                    &&& p.queue@ == PieceQueueView::fresh(
                        first_indices(self.meta().pieces.len() / 20),
                    )
                    &&& p.file_length == self.meta().length
                    &&& p.base_offset == 0
                    &&& p.request.info_hash@ == self.meta().info_hash
                    &&& p.request.peer_id@ == self.spec_client_id()
                    &&& p.request.port == ANNOUNCE_PORT
                    &&& p.request.uploaded == 0
                    &&& p.request.downloaded == 0
                    &&& p.request.left == self.meta().length
                    &&& p.request.compact == 1
                },
                Err(e) => if !crate::download::worker::consistent(self.meta()) {
                    e == DownloadError::InvalidMetainfo
                } else {
                    e == DownloadError::TooManyPieces && self.meta().pieces.len() / 20 > u32::MAX
                },
            },
    {
        let ids = match self.piece_ids() {
            Ok(ids) => ids,
            Err(e) => {
                return Err(e);
            },
        };
        Ok(
            DownloadPlan {
                request: self.announce_request(),
                queue: PieceQueue::new(&ids),
                file_length: self.metainfo.length,
                base_offset: 0,
            },
        )
    }

    /// What the download of one piece into a file of its own starts from:
    /// the announce, a queue of that piece alone, the length of the piece,
    /// and where the piece starts in the torrent's file.
    ///
    /// Fails with `InvalidMetainfo` when the metainfo is not consistent,
    /// and else with `UnknownPiece` when the file has no such piece.
    pub fn plan_piece(&self, piece_index: u32) -> (plan: Result<DownloadPlan, DownloadError>)
        ensures
            match plan {
                Ok(p) => {
                    &&& crate::download::worker::consistent(self.meta())
                    &&& piece_index < spec_piece_count(self.meta().length, self.meta().piece_length)
                    &&& p.queue@ == PieceQueueView::fresh(seq![piece_index])
                    &&& p.file_length == spec_piece_len(
                        self.meta().length,
                        self.meta().piece_length,
                        piece_index as int,
                    )
                    &&& p.base_offset == piece_index * self.meta().piece_length
                    &&& p.request.info_hash@ == self.meta().info_hash
                    &&& p.request.peer_id@ == self.spec_client_id()
                    &&& p.request.port == ANNOUNCE_PORT
                    &&& p.request.uploaded == 0
                    &&& p.request.downloaded == 0
                    &&& p.request.left == self.meta().length
                    &&& p.request.compact == 1
                },
                Err(e) => if !crate::download::worker::consistent(self.meta()) {
                    e == DownloadError::InvalidMetainfo
                } else {
                    e == DownloadError::UnknownPiece && piece_index >= spec_piece_count(
                        self.meta().length,
                        self.meta().piece_length,
                    )
                },
            },
    {
        if !self.metainfo.check_consistent() {
            return Err(DownloadError::InvalidMetainfo);
        }
        if piece_index as u64 >= self.metainfo.piece_count() {
            return Err(DownloadError::UnknownPiece);
        }
        proof {
            lemma_piece_within_file(
                self.metainfo@.length,
                self.metainfo@.piece_length,
                piece_index as int,
            );
        }
        let mut ids: Vec<u32> = Vec::new();
        ids.push(piece_index);
        assert(ids@ =~= seq![piece_index]);
        Ok(
            DownloadPlan {
                request: self.announce_request(),
                queue: PieceQueue::new(&ids),
                file_length: self.metainfo.piece_len(piece_index as u64),
                base_offset: piece_index as u64 * self.metainfo.piece_length,
            },
        )
    }

    /// A worker for one of the peers, with the default retry policy.
    pub fn worker(&self, peer: Peer) -> (worker: PeerWorker)
        ensures
            worker.wf(),
            worker.view() == WorkerView::idle(),
            worker.meta() == self.meta(),
            worker.spec_peer() == peer,
            worker.spec_client_id() == self.spec_client_id(),
            worker.spec_config() == (PeerSessionConfig {
                backoff_base_ms: 1000,
                backoff_cap_ms: 3000,
                max_retries: 2,
            }),
    {
        PeerWorker::new(
            peer,
            self.metainfo.clone(),
            self.client_id.clone(),
            PeerSessionConfig::default(),
        )
    }
}

} // verus!
