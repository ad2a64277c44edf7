//! What holds of an outbound transfer over runs of calls.

use vstd::prelude::*;

use crate::file_transfer::chunk::FileChunkView;
use crate::file_transfer::model::least;
use crate::file_transfer::outbound::{lemma_fill, OutboundView};

verus! {

/// A call that changes an outbound transfer.
pub enum Call {
    /// The next batch is asked for.
    Send,
    /// A chunk is acknowledged.
    Ack(u32),
    /// A chunk has failed for good.
    Fail(u32),
}

impl OutboundView {
    /// A transfer that has not begun.
    pub open spec fn fresh(chunks: Seq<FileChunkView>, max_in_flight: nat) -> OutboundView {
        OutboundView {
            chunks,
            next_unsent: 0,
            in_flight: Set::empty(),
            acked: Set::empty(),
            max_in_flight,
        }
    }

    /// The transfer after a call.
    pub open spec fn call(self, call: Call) -> OutboundView {
        match call {
            Call::Send => self.fill(),
            Call::Ack(index) => OutboundView {
                acked: self.acked.insert(index),
                in_flight: self.in_flight.remove(index),
                ..self
            },
            Call::Fail(index) => OutboundView { in_flight: self.in_flight.remove(index), ..self },
        }
    }

    /// The transfer after a run of calls.
    pub open spec fn run(self, calls: Seq<Call>) -> OutboundView
        decreases calls.len(),
    {
        if calls.len() == 0 {
            self
        } else {
            self.run(calls.drop_last()).call(calls.last())
        }
    }

    /// The chunks that a run of calls has handed out, batch after batch.
    pub open spec fn handed_out(self, calls: Seq<Call>) -> Seq<FileChunkView>
        decreases calls.len(),
    {
        if calls.len() == 0 {
            Seq::empty()
        } else {
            let before = self.run(calls.drop_last());
            let earlier = self.handed_out(calls.drop_last());
            match calls.last() {
                Call::Send => earlier + before.chunks.subrange(
                    before.next_unsent as int,
                    before.fill().next_unsent as int,
                ),
                _ => earlier,
            }
        }
    }

    /// The places of the chunks that a run of calls has handed out and neither
    /// acknowledged nor given up since.
    pub open spec fn outstanding(self, calls: Seq<Call>) -> Set<int>
        decreases calls.len(),
    {
        if calls.len() == 0 {
            Set::empty()
        } else {
            let before = self.run(calls.drop_last());
            let earlier = self.outstanding(calls.drop_last());
            match calls.last() {
                Call::Send => earlier.union(
                    vstd::set_lib::set_int_range(
                        before.next_unsent as int,
                        before.fill().next_unsent as int,
                    ),
                ),
                Call::Ack(index) => earlier.filter(
                    |j: int| self.chunks[j].chunk_index != index,
                ),
                Call::Fail(index) => earlier.filter(
                    |j: int| self.chunks[j].chunk_index != index,
                ),
            }
        }
    }
}

/// No two chunks have the same index.
pub open spec fn distinct_indices(chunks: Seq<FileChunkView>) -> bool {
    forall|i: int, j: int|
        #![trigger chunks[i], chunks[j]]
        0 <= i < j < chunks.len() ==> chunks[i].chunk_index != chunks[j].chunk_index
}

/// The indices at these places.
spec fn indices_at(chunks: Seq<FileChunkView>, places: Set<int>) -> Set<u32> {
    places.map(|j: int| chunks[j].chunk_index)
}

/// What is in flight stands at some of the places handed out.
spec fn tracks(v: OutboundView, places: Set<int>) -> bool {
    &&& places.finite()
    &&& forall|j: int| #[trigger] places.contains(j) ==> 0 <= j < v.next_unsent
    &&& v.in_flight == indices_at(v.chunks, places)
}

proof fn lemma_tracked_len(v: OutboundView, places: Set<int>)
    requires
        v.wf(),
        distinct_indices(v.chunks),
        tracks(v, places),
    ensures
        v.in_flight.len() == places.len(),
{
    let index = |j: int| v.chunks[j].chunk_index;
    assert(vstd::relations::injective_on(index, places)) by {
        assert forall|i: int, j: int|
            #![trigger index(i), index(j)]
            places.contains(i) && places.contains(j) && index(i) == index(j) implies i == j by {
            if i < j {
                assert(v.chunks[i].chunk_index != v.chunks[j].chunk_index);
            } else if j < i {
                assert(v.chunks[j].chunk_index != v.chunks[i].chunk_index);
            }
        }
    }
    vstd::set_lib::lemma_map_size(places, v.in_flight, index);
}

/// One more chunk out is one more in flight.
proof fn lemma_fill_tracks(v: OutboundView, places: Set<int>)
    requires
        v.wf(),
        distinct_indices(v.chunks),
        tracks(v, places),
        places.len() <= v.max_in_flight,
    ensures
        v.fill().next_unsent == v.next_unsent + least(
            (v.max_in_flight - places.len()) as nat,
            (v.chunks.len() - v.next_unsent) as nat,
        ),
        tracks(
            v.fill(),
            places.union(
                vstd::set_lib::set_int_range(v.next_unsent as int, v.fill().next_unsent as int),
            ),
        ),
        v.fill().in_flight.len() == places.len() + v.fill().next_unsent - v.next_unsent,
    decreases v.chunks.len() - v.next_unsent,
{
    lemma_tracked_len(v, places);
    let n = v.next_unsent as int;
    if v.has_capacity() {
        let u = v.send_one();
        let more = places.insert(n);
        assert(u.in_flight =~= indices_at(v.chunks, more)) by {
            assert forall|k: u32| u.in_flight.contains(k) == indices_at(v.chunks, more).contains(
                k,
            ) by {
                if u.in_flight.contains(k) {
                    if k == v.chunks[n].chunk_index {
                        assert(more.contains(n));
                    } else {
                        let j = choose|j: int| places.contains(j) && k == v.chunks[j].chunk_index;
                        assert(more.contains(j));
                    }
                }
                if indices_at(v.chunks, more).contains(k) {
                    let j = choose|j: int| more.contains(j) && k == v.chunks[j].chunk_index;
                    if j != n {
                        assert(places.contains(j));
                    }
                }
            }
        }
        lemma_fill_tracks(u, more);
        let end = v.fill().next_unsent as int;
        assert(more.union(vstd::set_lib::set_int_range(n + 1, end)) =~= places.union(
            vstd::set_lib::set_int_range(n, end),
        ));
    } else {
        assert(places.union(vstd::set_lib::set_int_range(n, n)) =~= places);
    }
}

proof fn lemma_drop_tracks(v: OutboundView, places: Set<int>, index: u32)
    requires
        tracks(v, places),
    ensures
        tracks(
            OutboundView { in_flight: v.in_flight.remove(index), ..v },
            places.filter(|j: int| v.chunks[j].chunk_index != index),
        ),
        places.filter(|j: int| v.chunks[j].chunk_index != index).len() <= places.len(),
{
    let rest = places.filter(|j: int| v.chunks[j].chunk_index != index);
    vstd::set_lib::lemma_len_subset(rest, places);
    let left = v.in_flight.remove(index);
    assert forall|k: u32| left.contains(k) == indices_at(v.chunks, rest).contains(k) by {
        if left.contains(k) {
            let j = choose|j: int| places.contains(j) && k == v.chunks[j].chunk_index;
            assert(rest.contains(j));
        }
        if indices_at(v.chunks, rest).contains(k) {
            let j = choose|j: int| rest.contains(j) && k == v.chunks[j].chunk_index;
            assert(places.contains(j));
        }
    }
    assert(left =~= indices_at(v.chunks, rest));
}

proof fn lemma_run(chunks: Seq<FileChunkView>, max_in_flight: nat, calls: Seq<Call>)
    requires
        distinct_indices(chunks),
    ensures
        ({
            let start = OutboundView::fresh(chunks, max_in_flight);
            let v = start.run(calls);
            &&& v.wf()
            &&& v.chunks == chunks
            &&& v.max_in_flight == max_in_flight
            &&& tracks(v, start.outstanding(calls))
            &&& start.outstanding(calls).len() <= max_in_flight
            &&& start.handed_out(calls) == chunks.take(v.next_unsent as int)
        }),
    decreases calls.len(),
{
    let start = OutboundView::fresh(chunks, max_in_flight);
    let v = start.run(calls);
    if calls.len() == 0 {
        assert(indices_at(chunks, Set::empty()) =~= Set::empty());
        assert(start.handed_out(calls) =~= chunks.take(0));
    } else {
        let init = calls.drop_last();
        lemma_run(chunks, max_in_flight, init);
        let u = start.run(init);
        let places = start.outstanding(init);
        match calls.last() {
            Call::Send => {
                lemma_fill(u);
                lemma_fill_tracks(u, places);
                lemma_tracked_len(v, start.outstanding(calls));
                assert(start.handed_out(calls) =~= chunks.take(v.next_unsent as int));
            },
            Call::Ack(index) => {
                lemma_drop_tracks(u, places, index);
            },
            Call::Fail(index) => {
                lemma_drop_tracks(u, places, index);
            },
        }
    }
}

/// A batch is the largest that fits the window. Whatever was called on a transfer
/// whose chunks have distinct indices, the chunks handed out so far are the first
/// ones, each once and in order, and the next batch is as many of the following as
/// the window has room for beside those that are out and neither acknowledged nor
/// given up. After it the window is full or everything is sent, never more than
/// the window is in flight, and what is acknowledged is as it was.
pub proof fn a_batch_fills_the_window(
    chunks: Seq<FileChunkView>,
    max_in_flight: nat,
    calls: Seq<Call>,
)
    requires
        distinct_indices(chunks),
    ensures
        ({
            let start = OutboundView::fresh(chunks, max_in_flight);
            let v = start.run(calls);
            let n = start.handed_out(calls).len();
            let f = start.outstanding(calls).len();
            let k = least((max_in_flight - f) as nat, (chunks.len() - n) as nat);
            &&& start.handed_out(calls) == chunks.take(n as int)
            &&& v.next_unsent == n <= chunks.len()
            &&& v.in_flight.len() == f <= max_in_flight
            &&& start.handed_out(calls.push(Call::Send)) == chunks.take(n as int)
                + chunks.subrange(n as int, (n + k) as int)
            &&& v.fill().next_unsent == n + k
            &&& v.fill().in_flight.len() == f + k <= max_in_flight
            &&& !v.fill().has_capacity()
            &&& v.fill().acked_chunks() == v.acked_chunks()
        }),
{
    let start = OutboundView::fresh(chunks, max_in_flight);
    let v = start.run(calls);
    lemma_run(chunks, max_in_flight, calls);
    lemma_tracked_len(v, start.outstanding(calls));
    lemma_fill(v);
    lemma_fill_tracks(v, start.outstanding(calls));
    assert(calls.push(Call::Send).drop_last() =~= calls);
}

proof fn lemma_all_counted<A>(s: Seq<A>, test: spec_fn(A) -> bool)
    ensures
        s.filter(test).len() <= s.len(),
        s.filter(test).len() == s.len() <==> forall|i: int| 0 <= i < s.len() ==> test(#[trigger] s[i]),
    decreases s.len(),
{
    reveal(Seq::filter);
    if s.len() > 0 {
        let init = s.drop_last();
        lemma_all_counted(init, test);
        assert(forall|i: int| 0 <= i < init.len() ==> init[i] == #[trigger] s[i]);
        if s.filter(test).len() == s.len() {
            assert forall|i: int| 0 <= i < s.len() implies test(#[trigger] s[i]) by {
                if i < init.len() {
                    assert(test(init[i]));
                }
            }
        }
        if forall|i: int| 0 <= i < s.len() ==> test(#[trigger] s[i]) {
            assert forall|i: int| 0 <= i < init.len() implies test(#[trigger] init[i]) by {
                assert(test(s[i]));
            }
            assert(test(s[s.len() - 1]));
        }
    }
}

/// A transfer is fully acknowledged exactly where as many of its chunks are
/// acknowledged as it has, which is where the index of each is.
pub proof fn a_transfer_is_through_once_all_is_acknowledged(v: OutboundView)
    ensures
        v.fully_acked() <==> v.acked_chunks() == v.chunks.len(),
        v.fully_acked() <==> forall|i: int|
            0 <= i < v.chunks.len() ==> v.acked.contains((#[trigger] v.chunks[i]).chunk_index),
{
    let test = |c: FileChunkView| v.acked.contains(c.chunk_index);
    lemma_all_counted(v.chunks, test);
    if v.fully_acked() {
        assert forall|i: int| 0 <= i < v.chunks.len() implies test(#[trigger] v.chunks[i]) by {
            assert(v.acknowledged(i));
        }
    }
    if forall|i: int| 0 <= i < v.chunks.len() ==> test(#[trigger] v.chunks[i]) {
        assert forall|i: int| 0 <= i < v.chunks.len() implies #[trigger] v.acknowledged(i) by {
            assert(test(v.chunks[i]));
        }
    }
}

} // verus!
