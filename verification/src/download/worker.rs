use vstd::prelude::*;
use std::sync::Arc;
use crate::download::queue::{PieceQueue, PieceQueueView};
use crate::peer::connection::{
    PeerCommand, PeerCommandView, PeerEvent, PeerEventView, BLOCK_SIZE,
};
use crate::peer::session::{
    HandlerEffect, HandlerEffectView, HandlerInputView, HandlerStep, HandlerStepView,
    PeerSession, PeerSessionConfig, PeerSessionHandler, PieceWrite, SessionControl,
    SessionPhase, SessionState,
};
use crate::torrent::metainfo::{
    lemma_piece_within_file, spec_piece_count, spec_piece_len, MetainfoView, TorrentMetainfo,
};
use crate::tracker::client::Peer;
use crate::utils::bytes::bytes_equal;
use crate::utils::hash::{sha1, sha1_digest};

verus! {

/// Why a worker gives up on its peer.
#[derive(Debug, Clone, Copy, PartialEq, Eq, Structural)]
pub enum WorkerError {
    /// The metainfo does not describe a file that can be downloaded.
    InvalidMetainfo,
    /// The queue handed out an index that the torrent has no piece for.
    UnknownPiece(u32),
    /// A piece is longer than the wire protocol can address.
    PieceTooLarge(u32),
    /// A block reaches beyond the end of its piece.
    BlockOverrun(u32),
    /// A completed piece does not have the hash that the metainfo gives.
    HashMismatch(u32),
    /// A verified piece could not be written to the output.
    StoreFailed(u32),
}

/// The piece that a worker is downloading.
struct DownloadState {
    index: u32,
    offset: u32,
    length: u32,
    buffer: Vec<u8>,
}

/// The piece that a worker is downloading, as a mathematical value: its
/// index, its length, and the bytes received so far.
pub struct ActiveView {
    pub index: u32,
    pub length: u32,
    pub received: Seq<u8>,
}

/// What changes in a worker: the piece that it is downloading, if any, and
/// the piece that it has handed over to be stored, if any.
pub struct WorkerView {
    pub active: Option<ActiveView>,
    pub storing: Option<u32>,
}

impl WorkerView {
    /// The index that the worker has taken from the queue and not yet
    /// given back or reported as completed.
    pub open spec fn held(self) -> Option<u32> {
        match self.active {
            Some(a) => Some(a.index),
            None => self.storing,
        }
    }

    /// A worker that holds nothing.
    pub open spec fn idle() -> WorkerView {
        WorkerView { active: None, storing: None }
    }
}

/// Downloads pieces from one peer: takes indices from the shared queue,
/// requests each piece block by block, checks its hash, and hands it over
/// to be stored.
pub struct PeerWorker {
    peer: Peer,
    metainfo: Arc<TorrentMetainfo>,
    client_id: String,
    config: PeerSessionConfig,
    active_download: Option<DownloadState>,
    storing: Option<u32>,
}

/// The request for the next block of a piece: from the first byte not yet
/// received, a block's size or what is left of the piece if that is less.
pub open spec fn next_request(active: ActiveView) -> PeerCommandView {
    let left = active.length - active.received.len();
    PeerCommandView::Request {
        index: active.index,
        begin: active.received.len() as u32,
        length: if left < BLOCK_SIZE {
            left as u32
        } else {
            BLOCK_SIZE
        },
    }
}

/// The hash that the metainfo gives for a piece.
pub open spec fn expected_hash(meta: MetainfoView, index: u32) -> Seq<u8> {
    meta.pieces.subrange(20 * index, 20 * index + 20)
}

/// Whether the metainfo describes a file that can be downloaded.
pub open spec fn consistent(meta: MetainfoView) -> bool {
    &&& meta.piece_length > 0
    &&& meta.pieces.len() % 20 == 0
    &&& meta.pieces.len() / 20 == spec_piece_count(meta.length, meta.piece_length)
}

/// The outcome of a step of the worker: what it has become, what the queue
/// has become, and its answer.
pub struct WorkerOutcome {
    pub worker: WorkerView,
    pub queue: PieceQueueView,
    pub answer: Result<HandlerStepView, WorkerError>,
}

/// Giving up what is held: the index goes back to the end of the queue.
pub open spec fn abandoned(worker: WorkerView, queue: PieceQueueView) -> (WorkerView, PieceQueueView) {
    match worker.held() {
        Some(index) => (WorkerView::idle(), queue.after_push(index)),
        None => (worker, queue),
    }
}

/// Taking up the next piece, for a worker that holds nothing.
///
/// A finished queue stops the session. An empty one makes the worker wait
/// for work. Otherwise the first index is taken; it goes back to the queue
/// with an error if the metainfo is not consistent, if the torrent has no
/// such piece, or if the piece is too long for the wire; and else it becomes
/// the active piece, and its first block is requested.
pub open spec fn begin_next(meta: MetainfoView, queue: PieceQueueView) -> WorkerOutcome {
    if queue.finished {
        WorkerOutcome {
            worker: WorkerView::idle(),
            queue,
            answer: Ok(HandlerStepView::only(SessionControl::Stop)),
        }
    } else {
        match queue.front() {
            None => WorkerOutcome {
                worker: WorkerView::idle(),
                queue,
                answer: Ok(
                    HandlerStepView {
                        control: SessionControl::Continue,
                        commands: Seq::empty(),
                        effect: HandlerEffectView::AwaitWork,
                    },
                ),
            },
            Some(index) => {
                let taken = queue.after_pop();
                if !consistent(meta) {
                    WorkerOutcome {
                        worker: WorkerView::idle(),
                        queue: taken.after_push(index),
                        answer: Err(WorkerError::InvalidMetainfo),
                    }
                } else if index >= spec_piece_count(meta.length, meta.piece_length) {
                    WorkerOutcome {
                        worker: WorkerView::idle(),
                        queue: taken.after_push(index),
                        answer: Err(WorkerError::UnknownPiece(index)),
                    }
                } else if spec_piece_len(meta.length, meta.piece_length, index as int)
                    > u32::MAX {
                    WorkerOutcome {
                        worker: WorkerView::idle(),
                        queue: taken.after_push(index),
                        answer: Err(WorkerError::PieceTooLarge(index)),
                    }
                } else {
                    let active = ActiveView {
                        index,
                        length: spec_piece_len(meta.length, meta.piece_length, index as int) as u32,
                        received: Seq::empty(),
                    };
                    WorkerOutcome {
                        worker: WorkerView { active: Some(active), storing: None },
                        queue: taken,
                        answer: Ok(HandlerStepView::send(next_request(active))),
                    }
                }
            },
        }
    }
}

/// The worker's answer to a block.
///
/// A block that is not the next block of the active piece is ignored. One
/// that reaches beyond the piece gives the piece back with an error. Else
/// it is added; a piece that is complete is given back with an error if its
/// hash is wrong, and else handed over to be stored at its place in the
/// file; a piece that is not complete has its next block requested.
pub open spec fn on_block(
    meta: MetainfoView,
    worker: WorkerView,
    queue: PieceQueueView,
    index: u32,
    begin: u32,
    data: Seq<u8>,
) -> WorkerOutcome {
    match worker.active {
        None => WorkerOutcome {
            worker,
            queue,
            answer: Ok(HandlerStepView::only(SessionControl::Continue)),
        },
        Some(active) => {
            if active.index != index || active.received.len() != begin {
                WorkerOutcome {
                    worker,
                    queue,
                    answer: Ok(HandlerStepView::only(SessionControl::Continue)),
                }
            } else if data.len() > active.length - active.received.len() {
                WorkerOutcome {
                    worker: WorkerView::idle(),
                    queue: queue.after_push(index),
                    answer: Err(WorkerError::BlockOverrun(index)),
                }
            } else {
                let more = ActiveView { received: active.received + data, ..active };
                if more.received.len() < more.length {
                    WorkerOutcome {
                        worker: WorkerView { active: Some(more), storing: None },
                        queue,
                        answer: Ok(HandlerStepView::send(next_request(more))),
                    }
                } else if sha1_digest(more.received) != expected_hash(meta, index) {
                    WorkerOutcome {
                        worker: WorkerView::idle(),
                        queue: queue.after_push(index),
                        answer: Err(WorkerError::HashMismatch(index)),
                    }
                } else {
                    WorkerOutcome {
                        worker: WorkerView { active: None, storing: Some(index) },
                        queue,
                        answer: Ok(
                            HandlerStepView {
                                control: SessionControl::Continue,
                                commands: Seq::empty(),
                                effect: HandlerEffectView::StorePiece {
                                    index,
                                    offset: (index * meta.piece_length) as u64,
                                    data: more.received,
                                },
                            },
                        ),
                    }
                }
            }
        },
    }
}

/// The worker's answer to an event.
///
/// A choke and an I/O error give up what is held and ask to reconnect. An
/// unchoke requests the next block of the active piece, leaves a piece that
/// is being stored alone, and else takes up the next piece. A block is
/// answered as `on_block` says. Everything else is ignored.
pub open spec fn on_event_spec(
    meta: MetainfoView,
    worker: WorkerView,
    queue: PieceQueueView,
    event: PeerEventView,
) -> WorkerOutcome {
    match event {
        PeerEventView::Choke | PeerEventView::IoError(_) => WorkerOutcome {
            worker: abandoned(worker, queue).0,
            queue: abandoned(worker, queue).1,
            answer: Ok(HandlerStepView::only(SessionControl::Reconnect)),
        },
        PeerEventView::Unchoke => match worker.active {
            Some(active) => WorkerOutcome {
                worker,
                queue,
                answer: Ok(
                    if active.received.len() < active.length {
                        HandlerStepView::send(next_request(active))
                    } else {
                        HandlerStepView::only(SessionControl::Continue)
                    },
                ),
            },
            None => if worker.storing is Some {
                WorkerOutcome {
                    worker,
                    queue,
                    answer: Ok(HandlerStepView::only(SessionControl::Continue)),
                }
            } else {
                begin_next(meta, queue)
            },
        },
        PeerEventView::Piece { index, begin, data } => on_block(
            meta,
            worker,
            queue,
            index,
            begin,
            data,
        ),
        _ => WorkerOutcome {
            worker,
            queue,
            answer: Ok(HandlerStepView::only(SessionControl::Continue)),
        },
    }
}

/// The worker's answer to a new connection: what is held is given up, and
/// the peer is told that we are interested.
pub open spec fn on_connect_spec(worker: WorkerView, queue: PieceQueueView) -> WorkerOutcome {
    WorkerOutcome {
        worker: abandoned(worker, queue).0,
        queue: abandoned(worker, queue).1,
        answer: Ok(HandlerStepView::send(PeerCommandView::Interested)),
    }
}

/// The worker's answer to the outcome of storing a piece: a stored piece is
/// marked completed and the next one taken up; a piece that could not be
/// stored goes back to the queue with an error. A worker that is storing
/// nothing just goes on.
pub open spec fn on_stored_spec(
    meta: MetainfoView,
    worker: WorkerView,
    queue: PieceQueueView,
    stored: bool,
) -> WorkerOutcome {
    match worker.storing {
        None => WorkerOutcome {
            worker,
            queue,
            answer: Ok(HandlerStepView::only(SessionControl::Continue)),
        },
        Some(index) => if stored {
            begin_next(meta, queue.after_mark_completed())
        } else {
            WorkerOutcome {
                worker: WorkerView::idle(),
                queue: queue.after_push(index),
                answer: Err(WorkerError::StoreFailed(index)),
            }
        },
    }
}

/// The worker's answer to the end of an effect: the outcome of storing a
/// piece is answered as `on_stored_spec` says; a worker that holds nothing
/// has waited for work and takes up the next piece; and a worker with an
/// active piece just goes on.
pub open spec fn on_effect_done_spec(
    meta: MetainfoView,
    worker: WorkerView,
    queue: PieceQueueView,
    succeeded: bool,
) -> WorkerOutcome {
    if worker.active is None && worker.storing is Some {
        on_stored_spec(meta, worker, queue, succeeded)
    } else if worker.held() is None {
        begin_next(meta, queue)
    } else {
        WorkerOutcome { worker, queue, answer: Ok(HandlerStepView::only(SessionControl::Continue)) }
    }
}

/// The outcome of telling the worker something.
pub open spec fn worker_outcome(
    meta: MetainfoView,
    worker: WorkerView,
    queue: PieceQueueView,
    input: HandlerInputView,
) -> WorkerOutcome {
    match input {
        HandlerInputView::Connected(_) => on_connect_spec(worker, queue),
        HandlerInputView::Event(event) => on_event_spec(meta, worker, queue, event),
        HandlerInputView::EffectDone(succeeded) => on_effect_done_spec(
            meta,
            worker,
            queue,
            succeeded,
        ),
    }
}

/// Whether an answer is the one that an outcome holds.
pub open spec fn answers(
    answer: Result<HandlerStep, WorkerError>,
    outcome: WorkerOutcome,
) -> bool {
    match answer {
        Ok(step) => outcome.answer == Ok::<HandlerStepView, WorkerError>(step@),
        Err(e) => outcome.answer == Err::<HandlerStepView, WorkerError>(e),
    }
}

impl WorkerView {
    /// A worker never holds two pieces.
    pub open spec fn wf(self) -> bool {
        self.active is Some ==> self.storing is None
    }
}

/// Whether a worker that holds nothing has, with this outcome, left the
/// queue alone, or taken its first index and kept it, or taken its first
/// index and put it back at the end.
pub open spec fn taken_or_left(queue: PieceQueueView, outcome: WorkerOutcome) -> bool {
    ||| outcome.worker.held() is None && outcome.queue == queue
    ||| queue.front() is Some && outcome.worker.held() == queue.front() && outcome.queue
        == queue.after_pop()
    ||| queue.front() is Some && outcome.worker.held() is None && outcome.queue
        == queue.after_pop().after_push(queue.front().unwrap())
}

/// Whether an outcome accounts for the index that the worker held before:
/// the worker still holds it and the queue is as it was; or it went back
/// to the queue and the worker holds nothing; or it was marked completed,
/// after which the worker may have taken the next index.
pub open spec fn accounted(held: Option<u32>, queue: PieceQueueView, outcome: WorkerOutcome) -> bool {
    match held {
        None => taken_or_left(queue, outcome),
        Some(index) => {
            ||| outcome.worker.held() == Some(index) && outcome.queue == queue
            ||| outcome.worker.held() is None && outcome.queue == queue.after_push(index)
            ||| taken_or_left(queue.after_mark_completed(), outcome)
        },
    }
}

/// No index is lost: whatever the worker is told, the index that it held
/// is afterwards still held, back in the queue, or counted as completed,
/// and an index that it newly holds is the one that it took from the queue.
/// (Only a finished queue, which takes nothing back, lets an index go.)
pub proof fn lemma_worker_conserves(
    meta: MetainfoView,
    worker: WorkerView,
    queue: PieceQueueView,
    event: PeerEventView,
    stored: bool,
)
    requires
        worker.wf(),
    ensures
        accounted(worker.held(), queue, on_connect_spec(worker, queue)),
        accounted(worker.held(), queue, on_event_spec(meta, worker, queue, event)),
        accounted(worker.held(), queue, on_stored_spec(meta, worker, queue, stored)),
        accounted(worker.held(), queue, on_effect_done_spec(meta, worker, queue, stored)),
        worker.held() is None ==> accounted(None, queue, begin_next(meta, queue)),
        on_connect_spec(worker, queue).worker.wf(),
        on_event_spec(meta, worker, queue, event).worker.wf(),
        on_stored_spec(meta, worker, queue, stored).worker.wf(),
        on_effect_done_spec(meta, worker, queue, stored).worker.wf(),
{
    let done = queue.after_mark_completed();
    assert(taken_or_left(queue, begin_next(meta, queue)));
    assert(taken_or_left(done, begin_next(meta, done)));
}

/// What is handed over to be stored has the hash that the metainfo gives
/// for its piece, is as long as the piece, and goes where the piece starts
/// in the file. Only a block that completes the active piece hands
/// anything over.
pub proof fn lemma_stored_piece_is_verified(
    meta: MetainfoView,
    worker: WorkerView,
    queue: PieceQueueView,
    event: PeerEventView,
    stored: bool,
)
    ensures
        on_event_spec(meta, worker, queue, event).answer matches Ok(step) ==> (step.effect matches HandlerEffectView::StorePiece {
            index,
            offset,
            data,
        } ==> {
            &&& event is Piece
            &&& worker.active matches Some(active) && active.index == index && data.len()
                == active.length
            &&& sha1_digest(data) == expected_hash(meta, index)
            &&& offset == (index * meta.piece_length) as u64
        }),
        on_connect_spec(worker, queue).answer matches Ok(step) ==> !(step.effect is StorePiece),
        on_stored_spec(meta, worker, queue, stored).answer matches Ok(step) ==> !(step.effect
            is StorePiece),
        on_effect_done_spec(meta, worker, queue, stored).answer matches Ok(step) ==> !(step.effect
            is StorePiece),
{
}

impl PeerWorker {
    /// The metainfo of the torrent.
    pub closed spec fn meta(&self) -> MetainfoView {
        self.metainfo@
    }

    /// The peer to download from.
    pub closed spec fn spec_peer(&self) -> Peer {
        self.peer
    }

    /// The id under which the worker presents itself.
    pub closed spec fn spec_client_id(&self) -> Seq<char> {
        self.client_id@
    }

    /// The retry policy of the worker's sessions.
    pub closed spec fn spec_config(&self) -> PeerSessionConfig {
        self.config
    }

    /// What the worker holds.
    pub closed spec fn view(&self) -> WorkerView {
        WorkerView {
            active: match self.active_download {
                Some(state) => Some(
                    ActiveView {
                        index: state.index,
                        length: state.length,
                        received: state.buffer@.subrange(0, state.offset as int),
                    },
                ),
                None => None,
            },
            storing: self.storing,
        }
    }

    /// The worker's invariant: it holds at most one piece; an active piece
    /// is a piece of the torrent, has its length, and is not yet complete
    /// beyond it.
    pub closed spec fn wf(&self) -> bool {
        match self.active_download {
            Some(state) => {
                &&& self.storing is None
                &&& consistent(self.metainfo@)
                &&& state.index < spec_piece_count(
                    self.metainfo@.length,
                    self.metainfo@.piece_length,
                )
                &&& state.length == spec_piece_len(
                    self.metainfo@.length,
                    self.metainfo@.piece_length,
                    state.index as int,
                )
                &&& state.offset <= state.length
                &&& state.buffer@.len() == state.length
            },
            None => true,
        }
    }

    /// A worker for one peer that holds nothing yet.
    pub fn new(
        peer: Peer,
        metainfo: Arc<TorrentMetainfo>,
        client_id: String,
        config: PeerSessionConfig,
    ) -> (worker: Self)
        ensures
            worker.wf(),
            worker.view() == WorkerView::idle(),
            worker.meta() == metainfo@,
            worker.spec_peer() == peer,
            worker.spec_client_id() == client_id@,
            worker.spec_config() == config,
    {
        Self { peer, metainfo, client_id, config, active_download: None, storing: None }
    }

    /// The session that the worker runs: with its peer, for its torrent,
    /// under its client id and retry policy.
    pub fn session(&self) -> (session: PeerSession)
        ensures
            session.spec_peer() == self.spec_peer(),
            session.spec_info_hash() == self.meta().info_hash,
            session.spec_client_id() == self.spec_client_id(),
            session.spec_config() == self.spec_config(),
            session.state() == (SessionState { phase: SessionPhase::Idle, attempts: 0 }),
    {
        PeerSession::new(
            self.peer,
            self.metainfo.info_hash.clone(),
            self.client_id.clone(),
            self.config,
        )
    }

    /// The length of piece `piece_index`, or `None` if the metainfo is not
    /// consistent, the torrent has no such piece, or the piece is too long
    /// for the wire.
    pub fn get_piece_len(&self, piece_index: u32) -> (len: Option<u32>)
        ensures
            len == if consistent(self.meta()) && piece_index < spec_piece_count(
                self.meta().length,
                self.meta().piece_length,
            ) && spec_piece_len(self.meta().length, self.meta().piece_length, piece_index as int)
                <= u32::MAX {
                Some(
                    spec_piece_len(
                        self.meta().length,
                        self.meta().piece_length,
                        piece_index as int,
                    ) as u32,
                )
            } else {
                None
            },
    {
        if !self.metainfo.check_consistent() {
            return None;
        }
        if piece_index as u64 >= self.metainfo.piece_count() {
            return None;
        }
        let len: u64 = self.metainfo.piece_len(piece_index as u64);
        if len > u32::MAX as u64 {
            None
        } else {
            Some(len as u32)
        }
    }

    fn abandon_active_piece(&mut self, queue: &mut PieceQueue)
        requires
            old(self).wf(),
        ensures
            final(self).wf(),
            final(self).meta() == old(self).meta(),
            final(self).spec_peer() == old(self).spec_peer(),
            final(self).spec_client_id() == old(self).spec_client_id(),
            final(self).spec_config() == old(self).spec_config(),
            (final(self).view(), final(queue)@) == abandoned(old(self).view(), old(queue)@),
    {
        match self.active_download.take() {
            Some(state) => {
                self.storing = None;
                queue.push(state.index);
            },
            None => {
                match self.storing.take() {
                    Some(index) => {
                        queue.push(index);
                    },
                    None => {},
                }
            },
        }
    }

    fn request_for(state: &DownloadState) -> (command: PeerCommand)
        requires
            state.offset < state.length,
            state.buffer@.len() == state.length,
        ensures
            command@ == next_request(
                ActiveView {
                    index: state.index,
                    length: state.length,
                    received: state.buffer@.subrange(0, state.offset as int),
                },
            ),
    {
        let left: u32 = state.length - state.offset;
        let length: u32 = if left < BLOCK_SIZE {
            left
        } else {
            BLOCK_SIZE
        };
        PeerCommand::Request { index: state.index, begin: state.offset, length }
    }

    fn start_next_piece(&mut self, queue: &mut PieceQueue) -> (answer: Result<
        HandlerStep,
        WorkerError,
    >)
        requires
            old(self).wf(),
            old(self).view() == WorkerView::idle(),
        ensures
            final(self).wf(),
            final(self).meta() == old(self).meta(),
            final(self).spec_peer() == old(self).spec_peer(),
            final(self).spec_client_id() == old(self).spec_client_id(),
            final(self).spec_config() == old(self).spec_config(),
            final(self).view() == begin_next(old(self).meta(), old(queue)@).worker,
            final(queue)@ == begin_next(old(self).meta(), old(queue)@).queue,
            answers(answer, begin_next(old(self).meta(), old(queue)@)),
    {
        if queue.is_shutdown() {
            return Ok(HandlerStep::only(SessionControl::Stop));
        }
        let index: u32 = match queue.pop() {
            None => {
                let step = HandlerStep {
                    control: SessionControl::Continue,
                    commands: Vec::new(),
                    effect: HandlerEffect::AwaitWork,
                };
                assert(step@.commands =~= Seq::empty());
                return Ok(step);
            },
            Some(index) => index,
        };
        if !self.metainfo.check_consistent() {
            queue.push(index);
            return Err(WorkerError::InvalidMetainfo);
        }
        if index as u64 >= self.metainfo.piece_count() {
            queue.push(index);
            return Err(WorkerError::UnknownPiece(index));
        }
        let len: u64 = self.metainfo.piece_len(index as u64);
        if len > u32::MAX as u64 {
            queue.push(index);
            return Err(WorkerError::PieceTooLarge(index));
        }
        let state = DownloadState {
            index,
            offset: 0,
            length: len as u32,
            buffer: vec![0u8; len as usize],
        };
        let command = Self::request_for(&state);
        assert(state.buffer@.subrange(0, 0) =~= Seq::<u8>::empty());
        self.active_download = Some(state);
        Ok(HandlerStep::send(command))
    }

    fn handle_piece_event(
        &mut self,
        queue: &mut PieceQueue,
        index: u32,
        begin: u32,
        data: Vec<u8>,
    ) -> (answer: Result<HandlerStep, WorkerError>)
        requires
            old(self).wf(),
        ensures
            final(self).wf(),
            final(self).meta() == old(self).meta(),
            final(self).spec_peer() == old(self).spec_peer(),
            final(self).spec_client_id() == old(self).spec_client_id(),
            final(self).spec_config() == old(self).spec_config(),
            final(self).view() == on_block(
                old(self).meta(),
                old(self).view(),
                old(queue)@,
                index,
                begin,
                data@,
            ).worker,
            final(queue)@ == on_block(
                old(self).meta(),
                old(self).view(),
                old(queue)@,
                index,
                begin,
                data@,
            ).queue,
            answers(
                answer,
                on_block(old(self).meta(), old(self).view(), old(queue)@, index, begin, data@),
            ),
    {
        let mut state: DownloadState = match self.active_download.take() {
            None => {
                return Ok(HandlerStep::only(SessionControl::Continue));
            },
            Some(state) => state,
        };
        if state.index != index || state.offset != begin {
            self.active_download = Some(state);
            return Ok(HandlerStep::only(SessionControl::Continue));
        }
        if data.len() > (state.length - state.offset) as usize {
            queue.push(index);
            return Err(WorkerError::BlockOverrun(index));
        }
        let ghost before = state.buffer@;
        let ghost received = before.subrange(0, state.offset as int);
        let ghost length = state.length;
        let mut i: usize = 0;
        while i < data.len()
            invariant
                i <= data@.len(),
                state.index == index,
                state.offset == begin,
                state.length == length,
                state.offset + data@.len() <= state.length,
                state.buffer@.len() == state.length,
                state.buffer@.subrange(0, state.offset + i) == received + data@.subrange(
                    0,
                    i as int,
                ),
            decreases data@.len() - i,
        {
            let at: usize = state.offset as usize + i;
            let ghost prior = state.buffer@;
            state.buffer[at] = data[i];
            i += 1;
            assert(state.buffer@.subrange(0, state.offset + i) =~= prior.subrange(
                0,
                state.offset + i - 1,
            ).push(data@[i - 1]));
            assert(data@.subrange(0, i as int) =~= data@.subrange(0, i - 1).push(data@[i - 1]));
        }
        assert(data@.subrange(0, data@.len() as int) =~= data@);
        state.offset = state.offset + data.len() as u32;
        if state.offset < state.length {
            let command = Self::request_for(&state);
            self.active_download = Some(state);
            return Ok(HandlerStep::send(command));
        }
        assert(state.buffer@.subrange(0, state.offset as int) =~= state.buffer@);
        proof {
            lemma_piece_within_file(
                self.metainfo@.length,
                self.metainfo@.piece_length,
                index as int,
            );
        }
        let expected = self.metainfo.get_piece_hash_bytes(index as usize);
        let actual = sha1(state.buffer.as_slice());
        if !bytes_equal(expected, actual.as_slice()) {
            queue.push(index);
            return Err(WorkerError::HashMismatch(index));
        }
        let offset: u64 = index as u64 * self.metainfo.piece_length;
        self.storing = Some(index);
        let step = HandlerStep {
            control: SessionControl::Continue,
            commands: Vec::new(),
            effect: HandlerEffect::StorePiece(PieceWrite { index, offset, data: state.buffer }),
        };
        assert(step@.commands =~= Seq::empty());
        Ok(step)
    }

    fn handle_connect(&mut self, queue: &mut PieceQueue) -> (answer: Result<
        HandlerStep,
        WorkerError,
    >)
        requires
            old(self).wf(),
        ensures
            final(self).wf(),
            final(self).meta() == old(self).meta(),
            final(self).spec_peer() == old(self).spec_peer(),
            final(self).spec_client_id() == old(self).spec_client_id(),
            final(self).spec_config() == old(self).spec_config(),
            final(self).view() == on_connect_spec(old(self).view(), old(queue)@).worker,
            final(queue)@ == on_connect_spec(old(self).view(), old(queue)@).queue,
            answers(answer, on_connect_spec(old(self).view(), old(queue)@)),
    {
        self.abandon_active_piece(queue);
        Ok(HandlerStep::send(PeerCommand::Interested))
    }

    fn handle_event(&mut self, queue: &mut PieceQueue, event: PeerEvent) -> (answer: Result<
        HandlerStep,
        WorkerError,
    >)
        requires
            old(self).wf(),
        ensures
            final(self).wf(),
            final(self).meta() == old(self).meta(),
            final(self).spec_peer() == old(self).spec_peer(),
            final(self).spec_client_id() == old(self).spec_client_id(),
            final(self).spec_config() == old(self).spec_config(),
            final(self).view() == on_event_spec(
                old(self).meta(),
                old(self).view(),
                old(queue)@,
                event@,
            ).worker,
            final(queue)@ == on_event_spec(
                old(self).meta(),
                old(self).view(),
                old(queue)@,
                event@,
            ).queue,
            answers(
                answer,
                on_event_spec(old(self).meta(), old(self).view(), old(queue)@, event@),
            ),
    {
        match event {
            PeerEvent::Choke => {
                self.abandon_active_piece(queue);
                Ok(HandlerStep::only(SessionControl::Reconnect))
            },
            PeerEvent::IoError(_) => {
                self.abandon_active_piece(queue);
                Ok(HandlerStep::only(SessionControl::Reconnect))
            },
            PeerEvent::Unchoke => {
                match &self.active_download {
                    Some(state) => {
                        if state.offset < state.length {
                            Ok(HandlerStep::send(Self::request_for(state)))
                        } else {
                            Ok(HandlerStep::only(SessionControl::Continue))
                        }
                    },
                    None => {
                        if self.storing.is_some() {
                            Ok(HandlerStep::only(SessionControl::Continue))
                        } else {
                            self.start_next_piece(queue)
                        }
                    },
                }
            },
            PeerEvent::Piece { index, begin, data } => self.handle_piece_event(
                queue,
                index,
                begin,
                data,
            ),
            _ => Ok(HandlerStep::only(SessionControl::Continue)),
        }
    }

    /// Answers the outcome of storing the piece that was handed over, as
    /// `on_stored_spec` says.
    pub fn on_stored(&mut self, queue: &mut PieceQueue, stored: bool) -> (answer: Result<
        HandlerStep,
        WorkerError,
    >)
        requires
            old(self).wf(),
        ensures
            final(self).wf(),
            final(self).meta() == old(self).meta(),
            final(self).spec_peer() == old(self).spec_peer(),
            final(self).spec_client_id() == old(self).spec_client_id(),
            final(self).spec_config() == old(self).spec_config(),
            final(self).view() == on_stored_spec(
                old(self).meta(),
                old(self).view(),
                old(queue)@,
                stored,
            ).worker,
            final(queue)@ == on_stored_spec(
                old(self).meta(),
                old(self).view(),
                old(queue)@,
                stored,
            ).queue,
            answers(answer, on_stored_spec(old(self).meta(), old(self).view(), old(queue)@, stored)),
    {
        if self.active_download.is_some() {
            return Ok(HandlerStep::only(SessionControl::Continue));
        }
        match self.storing.take() {
            None => Ok(HandlerStep::only(SessionControl::Continue)),
            Some(index) => {
                if stored {
                    queue.mark_completed();
                    self.start_next_piece(queue)
                } else {
                    queue.push(index);
                    Err(WorkerError::StoreFailed(index))
                }
            },
        }
    }

    /// Takes up the next piece after waiting for work, if the worker holds
    /// nothing; a worker that holds a piece just goes on.
    pub fn resume(&mut self, queue: &mut PieceQueue) -> (answer: Result<HandlerStep, WorkerError>)
        requires
            old(self).wf(),
        ensures
            final(self).wf(),
            final(self).meta() == old(self).meta(),
            final(self).spec_peer() == old(self).spec_peer(),
            final(self).spec_client_id() == old(self).spec_client_id(),
            final(self).spec_config() == old(self).spec_config(),
            old(self).view().held() is None ==> {
                &&& final(self).view() == begin_next(old(self).meta(), old(queue)@).worker
                &&& final(queue)@ == begin_next(old(self).meta(), old(queue)@).queue
                &&& answers(answer, begin_next(old(self).meta(), old(queue)@))
            },
            old(self).view().held() is Some ==> {
                &&& final(self).view() == old(self).view()
                &&& final(queue)@ == old(queue)@
                &&& answer matches Ok(step) && step@ == HandlerStepView::only(
                    SessionControl::Continue,
                )
            },
    {
        if self.active_download.is_some() || self.storing.is_some() {
            return Ok(HandlerStep::only(SessionControl::Continue));
        }
        self.start_next_piece(queue)
    }
}

impl PeerSessionHandler for PeerWorker {
    type Shared = PieceQueue;

    type Error = WorkerError;

    open spec fn valid(&self) -> bool {
        self.wf()
    }

    /// The worker wishes to stop once the queue is finished.
    open spec fn stops(&self, shared: PieceQueue) -> bool {
        shared@.finished
    }

    /// The worker's answer is that of `worker_outcome`.
    open spec fn answer(&self, shared: PieceQueue, input: HandlerInputView) -> Result<
        HandlerStepView,
        WorkerError,
    > {
        worker_outcome(self.meta(), self.view(), shared@, input).answer
    }

    /// The worker keeps its torrent, peer, client id and retry policy, and
    /// what it holds and the queue become what `worker_outcome` says.
    open spec fn becomes(
        &self,
        shared: PieceQueue,
        input: HandlerInputView,
        after: PeerWorker,
        shared_after: PieceQueue,
    ) -> bool {
        &&& after.meta() == self.meta()
        &&& after.spec_peer() == self.spec_peer()
        &&& after.spec_client_id() == self.spec_client_id()
        &&& after.spec_config() == self.spec_config()
        &&& after.view() == worker_outcome(self.meta(), self.view(), shared@, input).worker
        &&& shared_after@ == worker_outcome(self.meta(), self.view(), shared@, input).queue
    }

    /// Whether the session should end: the queue is finished.
    fn should_stop(&self, shared: &PieceQueue) -> (stop: bool) {
        shared.is_shutdown()
    }

    /// Answers a new connection: what was held goes back to the queue, and
    /// the peer is told that we are interested.
    fn on_connect(&mut self, shared: &mut PieceQueue, peer_id: &[u8]) -> (answer: Result<
        HandlerStep,
        WorkerError,
    >) {
        self.handle_connect(shared)
    }

    /// Answers an event of the connection, as `on_event_spec` says.
    fn on_event(&mut self, shared: &mut PieceQueue, event: PeerEvent) -> (answer: Result<
        HandlerStep,
        WorkerError,
    >) {
        self.handle_event(shared, event)
    }

    /// Answers the end of an effect, as `on_effect_done_spec` says: the
    /// outcome of storing the piece that was handed over, or the end of a
    /// wait for work.
    fn on_effect_done(&mut self, shared: &mut PieceQueue, succeeded: bool) -> (answer: Result<
        HandlerStep,
        WorkerError,
    >) {
        if self.storing.is_some() && self.active_download.is_none() {
            self.on_stored(shared, succeeded)
        } else {
            self.resume(shared)
        }
    }
}

} // verus!
