//! The sliding window of an outbound file transfer.

use std::collections::HashSet;
use vstd::prelude::*;

use crate::file_transfer::chunk::{FileChunk, FileChunkView};

verus! {

/// An outbound transfer as mathematical values: its chunks, how many have been
/// handed out, which indices await an acknowledgement and which have one, and how
/// many may be in flight.
#[verifier::ext_equal]
pub struct OutboundView {
    pub chunks: Seq<FileChunkView>,
    pub next_unsent: nat,
    pub in_flight: Set<u32>,
    pub acked: Set<u32>,
    pub max_in_flight: nat,
}

impl OutboundView {
    /// No more chunks have been handed out than there are, and the sets are finite.
    pub open spec fn wf(self) -> bool {
        &&& self.next_unsent <= self.chunks.len()
        &&& self.in_flight.finite()
        &&& self.acked.finite()
    }

    /// The window has room and there is something to send.
    pub open spec fn has_capacity(self) -> bool {
        self.in_flight.len() < self.max_in_flight && self.next_unsent < self.chunks.len()
    }

    /// The chunk at `i` has been acknowledged.
    pub open spec fn acknowledged(self, i: int) -> bool {
        self.acked.contains(self.chunks[i].chunk_index)
    }

    /// Every chunk has been acknowledged.
    pub open spec fn fully_acked(self) -> bool {
        forall|i: int| 0 <= i < self.chunks.len() ==> #[trigger] self.acknowledged(i)
    }

    /// How many chunks have been acknowledged.
    pub open spec fn acked_chunks(self) -> nat {
        self.chunks.filter(|c: FileChunkView| self.acked.contains(c.chunk_index)).len()
    }

    /// The transfer after the next chunk was handed out.
    pub open spec fn send_one(self) -> OutboundView {
        OutboundView {
            in_flight: self.in_flight.insert(self.chunks[self.next_unsent as int].chunk_index),
            next_unsent: self.next_unsent + 1,
            ..self
        }
    }

    /// The transfer after as many chunks were handed out as the window admits.
    pub open spec fn fill(self) -> OutboundView
        decreases self.chunks.len() - self.next_unsent,
    {
        if self.has_capacity() {
            self.send_one().fill()
        } else {
            self
        }
    }
}

/// Filling the window only moves the send position on, and stops at the window.
pub proof fn lemma_fill(v: OutboundView)
    requires
        v.wf(),
    ensures
        v.fill().wf(),
        !v.fill().has_capacity(),
        v.fill().chunks == v.chunks,
        v.fill().acked == v.acked,
        v.fill().max_in_flight == v.max_in_flight,
        v.next_unsent <= v.fill().next_unsent,
        v.in_flight.len() <= v.max_in_flight ==> v.fill().in_flight.len() <= v.max_in_flight,
        v.in_flight.subset_of(v.fill().in_flight),
    decreases v.chunks.len() - v.next_unsent,
{
    if v.has_capacity() {
        lemma_fill(v.send_one());
    }
}

/// Tracks the sliding-window state for a single outbound file transfer.
///
/// The number of unacknowledged chunks is limited to `max_in_flight`, which
/// reduces outbox pressure and adapts to the transport's throughput.
pub struct OutboundTransferState {
    chunks: Vec<FileChunk>,
    next_unsent: usize,
    in_flight: HashSet<u32>,
    acked: HashSet<u32>,
    max_in_flight: usize,
}

impl View for OutboundTransferState {
    type V = OutboundView;

    closed spec fn view(&self) -> OutboundView {
        OutboundView {
            chunks: self.chunks.deep_view(),
            next_unsent: self.next_unsent as nat,
            in_flight: self.in_flight@,
            acked: self.acked@,
            max_in_flight: self.max_in_flight as nat,
        }
    }
}

impl OutboundTransferState {
    /// Creates a new outbound transfer state with the given chunks and window size.
    pub fn new(chunks: Vec<FileChunk>, max_in_flight: usize) -> (r: Self)
        ensures
            r@.wf(),
            r@ == (OutboundView {
                chunks: chunks.deep_view(),
                next_unsent: 0,
                in_flight: Set::empty(),
                acked: Set::empty(),
                max_in_flight: max_in_flight as nat,
            }),
    {
        OutboundTransferState {
            chunks,
            next_unsent: 0,
            in_flight: HashSet::new(),
            acked: HashSet::new(),
            max_in_flight,
        }
    }

    /// Returns the next batch of chunks that can be sent without exceeding the
    /// in-flight window. Returned chunks are marked as in-flight.
    pub fn next_chunks_to_send(&mut self) -> (r: Vec<FileChunk>)
        requires
            old(self)@.wf(),
        ensures
            final(self)@.wf(),
            final(self)@ == old(self)@.fill(),
            r.deep_view() == old(self)@.chunks.subrange(
                old(self)@.next_unsent as int,
                old(self)@.fill().next_unsent as int,
            ),
    {
        let ghost v = self@;
        let mut batch: Vec<FileChunk> = Vec::new();
        assert(batch.deep_view() =~= v.chunks.subrange(
            v.next_unsent as int,
            v.next_unsent as int,
        ));
        while self.in_flight.len() < self.max_in_flight && self.next_unsent < self.chunks.len()
            invariant
                v.wf(),
                self@.wf(),
                self@.fill() == v.fill(),
                self@.chunks == v.chunks,
                v.next_unsent <= self@.next_unsent,
                batch.deep_view() == v.chunks.subrange(
                    v.next_unsent as int,
                    self@.next_unsent as int,
                ),
            decreases self.chunks@.len() - self.next_unsent,
        {
            let ghost w = self@;
            let chunk = self.chunks[self.next_unsent].clone();
            self.in_flight.insert(chunk.chunk_index);
            self.next_unsent = self.next_unsent + 1;
            let ghost before = batch.deep_view();
            batch.push(chunk);
            proof {
                assert(w.chunks[w.next_unsent as int] == chunk@);
                assert(self@ =~= w.send_one());
                assert(batch.deep_view() =~= before.push(chunk@));
                assert(batch.deep_view() =~= v.chunks.subrange(
                    v.next_unsent as int,
                    self@.next_unsent as int,
                ));
            }
        }
        batch
    }

    /// Records that a chunk was acknowledged. Returns `true` if this was an
    /// in-flight chunk (that is, the window has room for more).
    pub fn on_chunk_ack(&mut self, chunk_index: u32) -> (r: bool)
        requires
            old(self)@.wf(),
        ensures
            final(self)@.wf(),
            r == old(self)@.in_flight.contains(chunk_index),
            final(self)@ == (OutboundView {
                acked: old(self)@.acked.insert(chunk_index),
                in_flight: old(self)@.in_flight.remove(chunk_index),
                ..old(self)@
            }),
    {
        self.acked.insert(chunk_index);
        self.in_flight.remove(&chunk_index)
    }

    /// Records that a chunk failed terminally and should not be retried at the
    /// window level.
    pub fn on_chunk_failed(&mut self, chunk_index: u32)
        requires
            old(self)@.wf(),
        ensures
            final(self)@.wf(),
            final(self)@ == (OutboundView {
                in_flight: old(self)@.in_flight.remove(chunk_index),
                ..old(self)@
            }),
    {
        self.in_flight.remove(&chunk_index);
    }

    /// Returns the total number of chunks in this transfer, as far as 32 bits can
    /// say.
    pub fn total_chunks(&self) -> (r: u32)
        ensures
            r == self@.chunks.len() as usize as u32,
    {
        #[verifier::truncate]
        (self.chunks.len() as u32)
    }

    /// Returns the number of chunks that have been acknowledged, as far as 32 bits
    /// can say.
    pub fn acked_count(&self) -> (r: u32)
        ensures
            r == self@.acked_chunks() as usize as u32,
    {
        let ghost chosen = |c: FileChunkView| self@.acked.contains(c.chunk_index);
        let mut count: usize = 0;
        let mut i: usize = 0;
        proof {
            reveal(Seq::filter);
            assert(self@.chunks.take(0).filter(chosen) =~= Seq::empty());
        }
        while i < self.chunks.len()
            invariant
                count <= i <= self.chunks@.len(),
                chosen == (|c: FileChunkView| self@.acked.contains(c.chunk_index)),
                count == self@.chunks.take(i as int).filter(chosen).len(),
            decreases self.chunks@.len() - i,
        {
            proof {
                reveal(Seq::filter);
                let next = self@.chunks.take(i + 1);
                assert(next.drop_last() =~= self@.chunks.take(i as int));
                assert(next.last() == self.chunks@[i as int]@);
            }
            if self.acked.contains(&self.chunks[i].chunk_index) {
                count = count + 1;
            }
            i = i + 1;
        }
        assert(self@.chunks.take(i as int) =~= self@.chunks);
        #[verifier::truncate]
        (count as u32)
    }

    /// Returns `true` when all chunks have been acknowledged.
    pub fn is_fully_acked(&self) -> (r: bool)
        ensures
            r == self@.fully_acked(),
    {
        let mut i: usize = 0;
        while i < self.chunks.len()
            invariant
                i <= self.chunks@.len(),
                forall|j: int| 0 <= j < i ==> #[trigger] self@.acknowledged(j),
            decreases self.chunks@.len() - i,
        {
            assert(self@.chunks[i as int] == self.chunks@[i as int]@);
            if !self.acked.contains(&self.chunks[i].chunk_index) {
                assert(!self@.acknowledged(i as int));
                return false;
            }
            i = i + 1;
        }
        true
    }

    /// Returns `true` when all chunks have been sent at least once (they may still
    /// await an acknowledgement).
    pub fn all_sent(&self) -> (r: bool)
        ensures
            r == (self@.next_unsent >= self@.chunks.len()),
    {
        self.next_unsent >= self.chunks.len()
    }

    /// Returns `true` when the window has capacity for more chunks.
    pub fn has_capacity(&self) -> (r: bool)
        ensures
            r == self@.has_capacity(),
    {
        self.in_flight.len() < self.max_in_flight && self.next_unsent < self.chunks.len()
    }
}

} // verus!
