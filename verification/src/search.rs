//! The search session: cooperative cancellation, result accounting and
//! batching.
//!
//! The walk, the worker pool and the channels live outside the library;
//! what is decided here is when work may be scheduled, what the session
//! counters allow, and which events go out. The contracts pin the event
//! protocol: the one "files discovered" event precedes the one terminal
//! "completed" event, no work is scheduled after the stop flag is
//! observed, and the records delivered never outnumber the files
//! discovered.
use vstd::prelude::*;

verus! {

use crate::media::Media;

/// Number of records a batch holds before it is flushed.
pub const BATCH_SIZE: usize = 100;

/// An event of the result stream handed to the consumer.
#[derive(Debug)]
pub enum StateMedia {
    /// Terminal signal: the scan is over, nothing follows.
    Completed,
    /// One-time count of files discovered by the enumeration.
    Found(usize),
    /// A batch of finished records.
    Records(Vec<Media>),
    /// A discrete per-file error, which never aborts the session.
    Error(String),
}

/// One scan's session state: the shared stop flag and the accounting that
/// ties scheduled work to delivered records.
pub struct SearchMedia {
    stopped: bool,
    found: usize,
    pending: usize,
    delivered: usize,
    found_sent: bool,
    completed_sent: bool,
}

impl SearchMedia {
    /// The session's bookkeeping stays consistent: work in flight and
    /// records delivered never outnumber the files discovered, and the
    /// terminal signal waits for the discovery count.
    pub closed spec fn wf(&self) -> bool {
        &&& self.delivered + self.pending <= self.found
        &&& (self.completed_sent ==> self.found_sent)
    }

    /// The stop flag, checked by the enumeration and by every worker.
    pub closed spec fn is_stopped(&self) -> bool {
        self.stopped
    }

    /// Files discovered so far.
    pub closed spec fn found_count(&self) -> int {
        self.found as int
    }

    /// Scheduled files whose record or error has not come back yet.
    pub closed spec fn pending_count(&self) -> int {
        self.pending as int
    }

    /// Records delivered to the consumer so far.
    pub closed spec fn delivered_count(&self) -> int {
        self.delivered as int
    }

    /// The one-time discovery event went out.
    pub closed spec fn found_was_sent(&self) -> bool {
        self.found_sent
    }

    /// The terminal event went out.
    pub closed spec fn completed_was_sent(&self) -> bool {
        self.completed_sent
    }

    /// A fresh, idle session.
    pub fn new() -> (r: Self)
        ensures
            r.wf(),
            !r.is_stopped(),
            r.found_count() == 0,
            r.pending_count() == 0,
            r.delivered_count() == 0,
            !r.found_was_sent(),
            !r.completed_was_sent(),
    {
        SearchMedia {
            stopped: false,
            found: 0,
            pending: 0,
            delivered: 0,
            found_sent: false,
            completed_sent: false,
        }
    }

    /// Begins a scan: the stop flag and all counters are reset.
    pub fn start(&mut self)
        ensures
            final(self).wf(),
            !final(self).is_stopped(),
            final(self).found_count() == 0,
            final(self).pending_count() == 0,
            final(self).delivered_count() == 0,
            !final(self).found_was_sent(),
            !final(self).completed_was_sent(),
    {
        self.stopped = false;
        self.found = 0;
        self.pending = 0;
        self.delivered = 0;
        self.found_sent = false;
        self.completed_sent = false;
    }

    /// Requests cancellation. Advisory only: work in flight runs to
    /// completion, but nothing new may be scheduled once the flag is
    /// observed.
    pub fn stop(&mut self)
        ensures
            final(self).is_stopped(),
            final(self).wf() == old(self).wf(),
            final(self).found_count() == old(self).found_count(),
            final(self).pending_count() == old(self).pending_count(),
            final(self).delivered_count() == old(self).delivered_count(),
            final(self).found_was_sent() == old(self).found_was_sent(),
            final(self).completed_was_sent() == old(self).completed_was_sent(),
    {
        self.stopped = true;
    }

    /// The check the enumeration loop and each worker make before taking
    /// up work.
    pub fn should_continue(&self) -> (r: bool)
        ensures
            r == !self.is_stopped(),
    {
        !self.stopped
    }

    /// Accounts for one discovered media file handed to the worker pool.
    /// Scheduling is only allowed while the session is live and the
    /// discovery event has not gone out.
    pub fn on_file_found(&mut self)
        requires
            old(self).wf(),
            !old(self).is_stopped(),
            !old(self).found_was_sent(),
            old(self).found_count() < usize::MAX,
        ensures
            final(self).wf(),
            final(self).found_count() == old(self).found_count() + 1,
            final(self).pending_count() == old(self).pending_count() + 1,
            final(self).delivered_count() == old(self).delivered_count(),
            final(self).is_stopped() == old(self).is_stopped(),
            final(self).found_was_sent() == old(self).found_was_sent(),
            final(self).completed_was_sent() == old(self).completed_was_sent(),
    {
        self.found = self.found + 1;
        self.pending = self.pending + 1;
    }

    /// Accounts for one worker coming back: `delivered` says whether a
    /// record went to the consumer (a skipped or failed file delivers
    /// none). Delivered records can never outnumber discovered files.
    pub fn on_worker_done(&mut self, delivered: bool)
        requires
            old(self).wf(),
            old(self).pending_count() > 0,
        ensures
            final(self).wf(),
            final(self).pending_count() == old(self).pending_count() - 1,
            final(self).delivered_count() == old(self).delivered_count() + (
            if delivered {
                1int
            } else {
                0int
            }),
            final(self).found_count() == old(self).found_count(),
            final(self).is_stopped() == old(self).is_stopped(),
            final(self).found_was_sent() == old(self).found_was_sent(),
            final(self).completed_was_sent() == old(self).completed_was_sent(),
    {
        self.pending = self.pending - 1;
        if delivered {
            self.delivered = self.delivered + 1;
        }
    }

    /// Emits the one-time discovery count, after enumeration ends and
    /// before the terminal signal.
    pub fn emit_found(&mut self) -> (ev: StateMedia)
        requires
            old(self).wf(),
            !old(self).found_was_sent(),
        ensures
            final(self).wf(),
            final(self).found_was_sent(),
            ev matches StateMedia::Found(n) && n == old(self).found_count(),
            final(self).found_count() == old(self).found_count(),
            final(self).pending_count() == old(self).pending_count(),
            final(self).delivered_count() == old(self).delivered_count(),
            final(self).is_stopped() == old(self).is_stopped(),
            !final(self).completed_was_sent(),
    {
        self.found_sent = true;
        self.completed_sent = false;
        StateMedia::Found(self.found)
    }

    /// Emits the terminal signal, exactly once: only after the discovery
    /// event, only when no work is in flight, and never twice.
    pub fn emit_completed(&mut self) -> (ev: StateMedia)
        requires
            old(self).wf(),
            old(self).found_was_sent(),
            !old(self).completed_was_sent(),
            old(self).pending_count() == 0,
        ensures
            final(self).wf(),
            final(self).completed_was_sent(),
            ev is Completed,
            final(self).found_count() == old(self).found_count(),
            final(self).delivered_count() == old(self).delivered_count(),
            final(self).pending_count() == 0,
            final(self).is_stopped() == old(self).is_stopped(),
            final(self).found_was_sent(),
    {
        self.completed_sent = true;
        StateMedia::Completed
    }
}

/// However a session interleaves scheduling, cancellation and worker
/// returns, the records delivered never outnumber the files discovered.
pub proof fn lemma_delivered_bounded_by_found(session: &SearchMedia)
    requires
        session.wf(),
    ensures
        session.delivered_count() <= session.found_count(),
{
}

/// Groups finished records into batches of `BATCH_SIZE` before they go to
/// the consumer, preserving arrival order; a final partial batch is taken
/// with `flush`.
pub struct Batcher {
    buffer: Vec<Media>,
}

impl Batcher {
    /// Records accumulated and not yet handed out, in arrival order.
    pub closed spec fn buffered(&self) -> Seq<Media> {
        self.buffer@
    }

    /// The buffer never reaches the batch size without being flushed.
    pub closed spec fn wf(&self) -> bool {
        self.buffered().len() < BATCH_SIZE
    }

    /// An empty batcher.
    pub fn new() -> (r: Self)
        ensures
            r.wf(),
            r.buffered() == Seq::<Media>::empty(),
    {
        let r = Batcher { buffer: Vec::new() };
        proof {
            assert(r.buffered() =~= Seq::<Media>::empty());
        }
        r
    }

    /// Takes in one record; when that fills the batch, the whole batch
    /// comes back in arrival order and the buffer is left empty.
    pub fn push(&mut self, media: Media) -> (batch: Option<Vec<Media>>)
        requires
            old(self).wf(),
        ensures
            final(self).wf(),
            old(self).buffered().len() + 1 < BATCH_SIZE ==> (batch is None && final(self).buffered()
                == old(self).buffered().push(media)),
            old(self).buffered().len() + 1 == BATCH_SIZE ==> (batch matches Some(b) && b@ == old(
                self,
            ).buffered().push(media) && final(self).buffered() == Seq::<Media>::empty()),
    {
        self.buffer.push(media);
        if self.buffer.len() == BATCH_SIZE {
            let batch = self.buffer.split_off(0);
            proof {
                assert(batch@ =~= old(self).buffered().push(media));
                assert(self.buffered() =~= Seq::<Media>::empty());
            }
            Some(batch)
        } else {
            None
        }
    }

    /// Takes the final partial batch, if any records remain.
    pub fn flush(&mut self) -> (batch: Option<Vec<Media>>)
        requires
            old(self).wf(),
        ensures
            final(self).wf(),
            final(self).buffered() == Seq::<Media>::empty(),
            old(self).buffered().len() == 0 ==> batch is None,
            old(self).buffered().len() > 0 ==> (batch matches Some(b) && b@ == old(
                self,
            ).buffered()),
    {
        if self.buffer.len() == 0 {
            return None;
        }
        let batch = self.buffer.split_off(0);
        proof {
            assert(batch@ =~= old(self).buffered());
            assert(self.buffered() =~= Seq::<Media>::empty());
        }
        Some(batch)
    }
}

} // verus!
