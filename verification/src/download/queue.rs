use vstd::prelude::*;
use std::collections::VecDeque;

verus! {

/// A piece queue as a mathematical value.
pub struct PieceQueueView {
    /// The indices waiting to be handed out, the next one first.
    pub pending: Seq<u32>,
    /// How many pieces have been completed.
    pub completed: nat,
    /// Whether the queue is finished.
    pub finished: bool,
    /// The number of pieces it was made for.
    pub total: nat,
}

/// Whom an operation on the queue should wake among those waiting for it.
#[derive(Debug, Clone, Copy, PartialEq, Eq, Structural)]
pub enum Wake {
    Nobody,
    One,
    All,
}

/// Hands out piece indices in the order they were queued and counts the
/// pieces completed.
///
/// This is the state that the workers share. Its operations never block:
/// where a caller would have to wait, `would_block` and
/// `wait_until_finished` say so, and each change says whom to wake.
#[derive(Debug)]
pub struct PieceQueue {
    queue: VecDeque<u32>,
    completed: u32,
    finished: bool,
    total_pieces: u32,
}

impl View for PieceQueue {
    type V = PieceQueueView;

    closed spec fn view(&self) -> PieceQueueView {
        PieceQueueView {
            pending: self.queue@,
            completed: self.completed as nat,
            finished: self.finished,
            total: self.total_pieces as nat,
        }
    }
}

impl PieceQueueView {
    /// The queue made for a list of indices: all of them pending, none
    /// completed, not finished.
    pub open spec fn fresh(piece_ids: Seq<u32>) -> PieceQueueView {
        PieceQueueView { pending: piece_ids, completed: 0, finished: false, total: piece_ids.len() }
    }

    /// Never more pieces completed than there are.
    pub open spec fn wf(self) -> bool {
        self.completed <= self.total
    }

    /// Whether a caller of `pop` has to wait: nothing is pending and the
    /// queue is not finished.
    pub open spec fn would_block(self) -> bool {
        self.pending.len() == 0 && !self.finished
    }

    /// What `pop` returns: the first pending index, if there is one.
    pub open spec fn front(self) -> Option<u32> {
        if self.pending.len() > 0 {
            Some(self.pending[0])
        } else {
            None
        }
    }

    /// The queue after `pop`: without its first pending index.
    pub open spec fn after_pop(self) -> PieceQueueView {
        if self.pending.len() > 0 {
            PieceQueueView { pending: self.pending.subrange(1, self.pending.len() as int), ..self }
        } else {
            self
        }
    }

    /// The queue after `push`: the index is appended, unless the queue is
    /// finished.
    pub open spec fn after_push(self, piece_index: u32) -> PieceQueueView {
        if self.finished {
            self
        } else {
            PieceQueueView { pending: self.pending.push(piece_index), ..self }
        }
    }

    /// The queue after `mark_completed`: one more piece is completed, though
    /// never more than there are, and with the last one the queue is
    /// finished. A finished queue stays as it is.
    pub open spec fn after_mark_completed(self) -> PieceQueueView {
        if self.finished {
            self
        } else {
            let completed = if self.completed < self.total {
                self.completed + 1
            } else {
                self.completed
            };
            PieceQueueView { completed, finished: completed == self.total, ..self }
        }
    }

    /// The queue after `shutdown`: finished.
    pub open spec fn after_shutdown(self) -> PieceQueueView {
        PieceQueueView { finished: true, ..self }
    }

    /// Whether `next` is what one operation makes of `self`.
    pub open spec fn steps_to(self, next: PieceQueueView) -> bool {
        ||| next == self.after_pop()
        ||| next == self.after_mark_completed()
        ||| next == self.after_shutdown()
        ||| exists|piece_index: u32| next == self.after_push(piece_index)
    }
}

impl PieceQueue {
    /// A queue of the given indices.
    pub fn new(piece_ids: &Vec<u32>) -> (queue: Self)
        requires
            piece_ids@.len() <= u32::MAX,
        ensures
            queue@ == PieceQueueView::fresh(piece_ids@),
            queue@.wf(),
    {
        let mut queue: VecDeque<u32> = VecDeque::new();
        let mut i: usize = 0;
        while i < piece_ids.len()
            invariant
                i <= piece_ids@.len(),
                queue@ == piece_ids@.subrange(0, i as int),
            decreases piece_ids@.len() - i,
        {
            queue.push_back(piece_ids[i]);
            i += 1;
            assert(queue@ =~= piece_ids@.subrange(0, i as int));
        }
        assert(piece_ids@.subrange(0, i as int) =~= piece_ids@);
        Self { queue, completed: 0, finished: false, total_pieces: piece_ids.len() as u32 }
    }

    /// A queue made for no piece.
    pub fn empty() -> (queue: Self)
        ensures
            queue@ == PieceQueueView::fresh(Seq::empty()),
            queue@.wf(),
    {
        let ids: Vec<u32> = Vec::new();
        Self::new(&ids)
    }

    /// Takes the next pending index, if there is one.
    ///
    /// `None` means that nothing is pending: the caller is done if the queue
    /// is finished, and waits otherwise (`would_block`).
    pub fn pop(&mut self) -> (piece: Option<u32>)
        ensures
            piece == old(self)@.front(),
            final(self)@ == old(self)@.after_pop(),
            old(self)@.wf() ==> final(self)@.wf(),
    {
        self.queue.pop_front()
    }

    /// Whether a caller of `pop` has to wait for a `push` or for the end.
    pub fn would_block(&self) -> (blocked: bool)
        ensures
            blocked == self@.would_block(),
    {
        self.queue.len() == 0 && !self.finished
    }

    /// Puts an index at the end of the queue; a finished queue takes none.
    /// One waiter is to be woken when the index was taken.
    pub fn push(&mut self, piece_index: u32) -> (wake: Wake)
        ensures
            final(self)@ == old(self)@.after_push(piece_index),
            old(self)@.wf() ==> final(self)@.wf(),
            wake == if old(self)@.finished {
                Wake::Nobody
            } else {
                Wake::One
            },
    {
        if self.finished {
            return Wake::Nobody;
        }
        self.queue.push_back(piece_index);
        Wake::One
    }

    /// Counts one piece as completed. With the last piece the queue is
    /// finished and all waiters are to be woken.
    pub fn mark_completed(&mut self) -> (wake: Wake)
        ensures
            final(self)@ == old(self)@.after_mark_completed(),
            old(self)@.wf() ==> final(self)@.wf(),
            wake == if !old(self)@.finished && final(self)@.finished {
                Wake::All
            } else {
                Wake::Nobody
            },
    {
        if self.finished {
            return Wake::Nobody;
        }
        if self.completed < self.total_pieces {
            self.completed = self.completed + 1;
        }
        if self.completed == self.total_pieces {
            self.finished = true;
            Wake::All
        } else {
            Wake::Nobody
        }
    }

    /// Finishes the queue whatever has been completed; all waiters are to be
    /// woken if it was not finished before.
    pub fn shutdown(&mut self) -> (wake: Wake)
        ensures
            final(self)@ == old(self)@.after_shutdown(),
            old(self)@.wf() ==> final(self)@.wf(),
            wake == if old(self)@.finished {
                Wake::Nobody
            } else {
                Wake::All
            },
    {
        if self.finished {
            return Wake::Nobody;
        }
        self.finished = true;
        Wake::All
    }

    /// Whether the queue is finished.
    pub fn is_shutdown(&self) -> (finished: bool)
        ensures
            finished == self@.finished,
    {
        self.finished
    }

    /// Whether a caller that waits for the end may go on: `true` once the
    /// queue is finished, `false` while it has to wait.
    pub fn wait_until_finished(&self) -> (finished: bool)
        ensures
            finished == self@.finished,
    {
        self.finished
    }

    /// How many pieces have been completed.
    pub fn completed(&self) -> (completed: u32)
        ensures
            completed == self@.completed,
    {
        self.completed
    }

    /// The number of pieces the queue was made for.
    pub fn total_pieces(&self) -> (total: u32)
        ensures
            total == self@.total,
    {
        self.total_pieces
    }

    /// How many indices are pending.
    pub fn len(&self) -> (pending: usize)
        ensures
            pending == self@.pending.len(),
    {
        self.queue.len()
    }
}

/// Progress is monotonic: no operation lowers the number of completed
/// pieces, raises it above the total, changes the total, or reopens a
/// finished queue.
pub proof fn lemma_queue_progress(before: PieceQueueView, after: PieceQueueView)
    requires
        before.wf(),
        before.steps_to(after),
    ensures
        after.wf(),
        after.completed >= before.completed,
        after.total == before.total,
        before.finished ==> after.finished,
{
}

/// Completing the last piece finishes the queue: once as many pieces are
/// marked completed as the queue was made for, it is finished.
pub proof fn lemma_queue_finishes(before: PieceQueueView)
    requires
        before.wf(),
        !before.finished,
        before.completed + 1 >= before.total,
    ensures
        before.after_mark_completed().finished,
        before.after_mark_completed().completed == before.total,
{
}

/// Indices leave the queue in the order they entered: an index pushed onto
/// a queue that is not finished comes out after those pending before it,
/// and a finished queue keeps what it holds.
pub proof fn lemma_queue_fifo(before: PieceQueueView, piece_index: u32)
    ensures
        !before.finished ==> before.after_push(piece_index).pending == before.pending.push(
            piece_index,
        ),
        before.finished ==> before.after_push(piece_index) == before,
        before.pending.len() > 0 ==> before.after_push(piece_index).front() == before.front(),
{
}

} // verus!
