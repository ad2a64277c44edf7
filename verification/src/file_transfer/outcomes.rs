//! What comes of a chunk, of a finished file and of a stale one, told by what the
//! chunks claim and hold.

use vstd::prelude::*;

use crate::assoc::{at, known, lemma_del, lemma_filter_distinct, lemma_position, lemma_put};
use crate::file_transfer::assembly::{AssemblyView, PER_CHUNK_OVERHEAD};
use crate::file_transfer::chunk::FileChunkView;
use crate::file_transfer::manager::{release_keeps_invariant, swept, tombstone_keeps_invariant};
use crate::file_transfer::model::{
    chosen_chunk_size, chunking_fault, chunks_of, clamped, sender_count, total_charge,
    viable_budget, Active, ChunkRejection, FileTransferConfig, ManagerView,
    MIN_ACCEPTED_CHUNK_PAYLOAD, MIN_TOTAL_CHUNKS_CAP,
};
use crate::file_transfer::progress::percentage_of;
use crate::file_transfer::tombstones::{age, lemma_record, lemma_unexpired, TOMBSTONE_CAPACITY};
use crate::file_transfer::trusted::{keyed_hash, sha256_digest};
use crate::text::lower_hex;

verus! {

/// Every chunk of a transfer is in.
pub open spec fn all_in(a: AssemblyView) -> bool {
    a.total_chunks > 0 && forall|k: u32|
        0 <= k < a.total_chunks ==> #[trigger] a.received.contains_key(k)
}

/// Finalizing hands out the joined chunks of a transfer exactly where every chunk
/// is in, they are as many bytes as was claimed, and the lower-case hexadecimal
/// SHA-256 of those bytes is the checksum that was claimed.
pub proof fn only_what_was_claimed_is_handed_out(
    v: ManagerView,
    file_id: Seq<char>,
    data: Seq<u8>,
)
    ensures
        v.handed_out(file_id) == Some(data) <==> {
            &&& known(v.active, file_id)
            &&& all_in(at(v.active, file_id))
            &&& data == at(v.active, file_id).contents()
            &&& data.len() == at(v.active, file_id).file_size
            &&& lower_hex(sha256_digest(data)) == at(v.active, file_id).file_checksum
        },
{
}

/// Finalizing releases a transfer exactly where every chunk is in. Where the bytes
/// are as claimed nothing else changes; where their number or their SHA-256
/// differs, nothing is handed out and the id counts as failed.
pub proof fn a_finished_transfer_is_released(
    v: ManagerView,
    file_id: Seq<char>,
    now: u128,
    other: Seq<char>,
)
    requires
        v.wf(),
    ensures
        ({
            let a = at(v.active, file_id);
            let sum = lower_hex(sha256_digest(a.contents()));
            let next = v.finalize(file_id, sum, now);
            let over = known(v.active, file_id) && all_in(a);
            let sound = sum == a.file_checksum && a.contents().len() == a.file_size;
            &&& known(next.active, file_id) <==> known(v.active, file_id) && !over
            &&& other != file_id ==> known(next.active, other) == known(v.active, other)
            &&& known(v.active, other) && (other != file_id || !over) ==> at(next.active, other)
                == at(v.active, other)
            &&& !over || sound ==> next.tombstones == v.tombstones
            &&& over && !sound ==> next.tombstones.seen.contains_key(
                keyed_hash(v.hasher, file_id),
            ) && v.handed_out(file_id) is None
            &&& next.config == v.config && next.hasher == v.hasher
        }),
{
    lemma_del(v.active, file_id);
    release_keeps_invariant(v, file_id);
    tombstone_keeps_invariant(v.release(file_id), file_id, now);
}

/// How many transfers a sender has open.
pub open spec fn open_from(active: Active, sender: Seq<char>) -> nat {
    active.filter(|e: (Seq<char>, AssemblyView)| e.1.sender == sender).len()
}

proof fn lemma_open_from(active: Active, sender: Seq<char>)
    ensures
        sender_count(active, sender) == open_from(active, sender),
    decreases active.len(),
{
    reveal(Seq::filter);
    if active.len() > 0 {
        lemma_open_from(active.drop_last(), sender);
    }
}

/// A chunk that makes sense by itself: it has a place among the chunks it counts,
/// it has data, the file is neither empty nor larger than files may be, and it is
/// cut into no more chunks than it has bytes, nor into more than the cap that the
/// largest file sets.
pub open spec fn makes_sense(config: FileTransferConfig, c: FileChunkView) -> bool {
    &&& c.chunk_index < c.total_chunks
    &&& 1 <= c.file_size <= config.max_file_size
    &&& c.total_chunks <= c.file_size
    &&& c.total_chunks <= MIN_TOTAL_CHUNKS_CAP || c.total_chunks <= config.max_file_size
        / MIN_ACCEPTED_CHUNK_PAYLOAD + 1
    &&& 1 <= c.chunk_data.len() <= c.file_size
}

/// The id has failed before.
pub open spec fn failed_before(v: ManagerView, file_id: Seq<char>) -> bool {
    v.tombstones.seen.contains_key(keyed_hash(v.hasher, file_id))
}

/// Bytes that a chunk would take the place of.
pub open spec fn freed(v: ManagerView, c: FileChunkView) -> nat {
    if known(v.active, c.file_id) && at(v.active, c.file_id).received.contains_key(c.chunk_index) {
        at(v.active, c.file_id).received[c.chunk_index].len()
    } else {
        0
    }
}

/// What a chunk would add to what is charged: its bytes and the overhead of one
/// more entry, less those of the copy that it replaces.
pub open spec fn added_charge(v: ManagerView, c: FileChunkView) -> int {
    if known(v.active, c.file_id) && at(v.active, c.file_id).received.contains_key(c.chunk_index) {
        c.chunk_data.len() - freed(v, c)
    } else {
        c.chunk_data.len() + PER_CHUNK_OVERHEAD
    }
}

/// A chunk is accepted exactly where it makes sense, its id has not failed, it
/// agrees with the transfer it belongs to in sender, chunk count, size and
/// checksum and does not overfill it, there is a place for a transfer it begins,
/// and the budget has room for it. Otherwise the first of these that fails is the
/// reason that it is refused for.
pub proof fn a_chunk_is_refused_for_a_reason(v: ManagerView, sender: Seq<char>, c: FileChunkView)
    ensures
        ({
            let open = known(v.active, c.file_id);
            let a = at(v.active, c.file_id);
            v.verdict(sender, c) == (if !makes_sense(v.config, c) {
                Some(ChunkRejection::Invalid)
            } else if failed_before(v, c.file_id) {
                Some(ChunkRejection::PreviouslyFailed)
            } else if open && a.sender != sender {
                Some(ChunkRejection::SenderMismatch)
            } else if open && (a.total_chunks != c.total_chunks || a.file_size != c.file_size
                || a.file_checksum != c.file_checksum) {
                Some(ChunkRejection::MetadataMismatch)
            } else if open && a.bytes() - freed(v, c) + c.chunk_data.len() > c.file_size {
                Some(ChunkRejection::Invalid)
            } else if !open && v.active.len() >= v.config.max_concurrent_assemblies {
                Some(ChunkRejection::TooManyTransfers)
            } else if !open && open_from(v.active, sender) >= v.config.max_assemblies_per_sender {
                Some(ChunkRejection::SenderQuotaExceeded)
            } else if total_charge(v.active) + added_charge(v, c)
                > v.config.max_total_buffered_bytes {
                Some(ChunkRejection::BufferBudgetExhausted)
            } else {
                None
            })
        }),
{
    lemma_open_from(v.active, sender);
}

/// An accepted chunk is held under its index, beside those that came before it,
/// in a transfer that keeps what its first chunk said of it; every other transfer
/// and every failed id is as it was. What is reported counts the chunks held.
pub proof fn an_accepted_chunk_is_held(
    v: ManagerView,
    sender: Seq<char>,
    c: FileChunkView,
    now: u128,
)
    requires
        v.wf(),
        v.verdict(sender, c) is None,
    ensures
        ({
            let next = v.receive(sender, c, now);
            let a = at(next.active, c.file_id);
            let was = if known(v.active, c.file_id) {
                at(v.active, c.file_id).received
            } else {
                Map::<u32, Seq<u8>>::empty()
            };
            &&& known(next.active, c.file_id)
            &&& a.received == was.insert(c.chunk_index, c.chunk_data)
            &&& a.sender == sender && a.file_size == c.file_size && a.total_chunks
                == c.total_chunks && a.file_checksum == c.file_checksum
            &&& a.file_name == (if known(v.active, c.file_id) {
                at(v.active, c.file_id).file_name
            } else {
                c.file_name
            })
            &&& a.last_updated_at == now
            &&& next.tombstones == v.tombstones && next.config == v.config && next.hasher
                == v.hasher
            &&& v.reported(sender, c).file_id == c.file_id
            &&& v.reported(sender, c).file_name == a.file_name
            &&& v.reported(sender, c).file_size == c.file_size
            &&& v.reported(sender, c).total_chunks == c.total_chunks
            &&& v.reported(sender, c).chunks_completed == a.received.dom().len() as u32
            &&& v.reported(sender, c).percentage == percentage_of(
                a.received.dom().len() as u32,
                c.total_chunks,
            )
        }),
{
    lemma_put(
        v.active,
        c.file_id,
        v.assembly_for(sender, c, now).store(c.chunk_index, c.chunk_data, now),
    );
}

/// A chunk that finds no place, or no room in the budget, costs its transfer: the
/// id counts as failed and nothing is held for it. One that is late for a failed
/// transfer only dates the failure anew, and any other refusal changes nothing.
pub proof fn a_refused_chunk_leaves(
    v: ManagerView,
    sender: Seq<char>,
    c: FileChunkView,
    now: u128,
    reason: ChunkRejection,
)
    requires
        v.wf(),
        v.verdict(sender, c) == Some(reason),
    ensures
        ({
            let next = v.receive(sender, c, now);
            match reason {
                ChunkRejection::TooManyTransfers
                | ChunkRejection::SenderQuotaExceeded
                | ChunkRejection::BufferBudgetExhausted => {
                    &&& failed_before(next, c.file_id) && !known(next.active, c.file_id)
                    &&& next.tombstones.seen[keyed_hash(v.hasher, c.file_id)] == now
                },
                ChunkRejection::PreviouslyFailed => {
                    &&& failed_before(next, c.file_id) && next.active == v.active
                    &&& next.tombstones.seen[keyed_hash(v.hasher, c.file_id)] == now
                    &&& next.tombstones.order == v.tombstones.order
                },
                ChunkRejection::Invalid
                | ChunkRejection::MetadataMismatch
                | ChunkRejection::SenderMismatch => next == v,
            }
        }),
{
    lemma_del(v.active, c.file_id);
    release_keeps_invariant(v, c.file_id);
    lemma_record(
        v.tombstones,
        keyed_hash(v.hasher, c.file_id),
        now,
    );
}

/// The transfer got no chunk for longer than the limit.
pub open spec fn gone_quiet(a: AssemblyView, now: u128, max_age: u128) -> bool {
    now > a.last_updated_at + max_age
}

proof fn lemma_marks_keep_transfers(v: ManagerView, ids: Seq<Seq<char>>, now: u128)
    ensures
        v.tombstone_all(ids, now).active == v.active,
        v.tombstone_all(ids, now).config == v.config,
    decreases ids.len(),
{
    if ids.len() > 0 {
        lemma_marks_keep_transfers(v, ids.drop_last(), now);
    }
}

/// A sweep drops exactly the transfers that went quiet for longer than the limit,
/// and hands back the id, the name and the sender of each of them; the others
/// stay as they were.
pub proof fn a_sweep_drops_what_went_quiet(
    v: ManagerView,
    now: u128,
    max_age: u128,
    file_id: Seq<char>,
)
    requires
        v.wf(),
    ensures
        ({
            let next = v.sweep(now, max_age);
            let told = swept(v.stale_entries(now, max_age));
            let open = known(v.active, file_id);
            let a = at(v.active, file_id);
            &&& known(next.active, file_id) <==> open && !gone_quiet(a, now, max_age)
            &&& open && !gone_quiet(a, now, max_age) ==> at(next.active, file_id) == a
            &&& open && gone_quiet(a, now, max_age) ==> told.contains(
                (file_id, a.file_name, a.sender),
            )
            &&& forall|i: int|
                0 <= i < told.len() ==> known(v.active, (#[trigger] told[i]).0) && gone_quiet(
                    at(v.active, told[i].0),
                    now,
                    max_age,
                )
        }),
{
    let live = |e: (Seq<char>, AssemblyView)| !ManagerView::stale(e.1, now, max_age);
    let dead = |e: (Seq<char>, AssemblyView)| ManagerView::stale(e.1, now, max_age);
    let kept = v.active.filter(live);
    let gone = v.stale_entries(now, max_age);
    let told = swept(gone);
    let base = ManagerView {
        active: kept,
        tombstones: v.tombstones.unexpired(now, max_age),
        ..v
    };
    lemma_marks_keep_transfers(
        base,
        gone.map_values(|e: (Seq<char>, AssemblyView)| e.0),
        now,
    );
    lemma_filter_distinct(v.active, live);
    lemma_filter_distinct(v.active, dead);
    assert(v.sweep(now, max_age).active == kept);
    if known(v.active, file_id) {
        let i = choose|i: int| 0 <= i < v.active.len() && #[trigger] v.active[i].0 == file_id;
        lemma_position(v.active, i);
        if live(v.active[i]) {
            v.active.lemma_filter_contains(live, i);
            let j = choose|j: int| 0 <= j < kept.len() && kept[j] == v.active[i];
            assert(kept[j].0 == file_id);
            lemma_position(kept, j);
        } else {
            v.active.lemma_filter_contains(dead, i);
            let j = choose|j: int| 0 <= j < gone.len() && gone[j] == v.active[i];
            assert(told[j] == (file_id, v.active[i].1.file_name, v.active[i].1.sender));
        }
    }
    if known(kept, file_id) {
        let j = choose|j: int| 0 <= j < kept.len() && #[trigger] kept[j].0 == file_id;
        let i = choose|i: int| 0 <= i < v.active.len() && v.active[i] == kept[j];
        assert(v.active[i].0 == file_id);
        lemma_position(v.active, i);
    }
    assert forall|i: int| 0 <= i < told.len() implies known(v.active, (#[trigger] told[i]).0)
        && gone_quiet(at(v.active, told[i].0), now, max_age) by {
        assert(v.active.contains(gone[i]) && dead(gone[i]));
        let k = choose|k: int| 0 <= k < v.active.len() && v.active[k] == gone[i];
        lemma_position(v.active, k);
    }
}

/// A file can be cut exactly where it is neither empty nor too large, the chunk
/// size is not zero, and the chunks are no more than a receiver takes. The size
/// that the caller asks for counts, and otherwise the configured one.
pub proof fn a_file_is_cut_where_it_can_be_received(
    config: FileTransferConfig,
    len: nat,
    choice: Option<usize>,
)
    ensures
        ({
            let size = if choice is Some {
                choice->0
            } else {
                config.chunk_size
            };
            &&& chosen_chunk_size(config, choice) == size
            &&& chunking_fault(config, len, choice) is None <==> {
                &&& 0 < len <= config.max_file_size
                &&& size > 0
                &&& {
                    ||| (len + size - 1) / size as int <= MIN_TOTAL_CHUNKS_CAP
                    ||| (len + size - 1) / size as int <= config.max_file_size
                        / MIN_ACCEPTED_CHUNK_PAYLOAD + 1
                }
            }
        }),
{
}

/// The chunks that a file is cut into are numbered from nought, each says how many
/// they are, how large the file is and what its checksum is, and each but the
/// last holds as many bytes as the chunk size.
pub proof fn every_cut_chunk_says_what_it_is_part_of(
    file_id: Seq<char>,
    file_name: Seq<char>,
    data: Seq<u8>,
    size: nat,
    checksum: Seq<char>,
    i: int,
)
    requires
        0 < size,
        0 < data.len() <= u32::MAX,
        0 <= i < chunks_of(file_id, file_name, data, size, checksum).len(),
    ensures
        ({
            let all = chunks_of(file_id, file_name, data, size, checksum);
            &&& all[i].chunk_index == i && all[i].total_chunks == all.len()
            &&& all[i].file_id == file_id && all[i].file_name == file_name
            &&& all[i].file_size == data.len() && all[i].file_checksum == checksum
            &&& all[i].chunk_data == data.subrange(
                i * size,
                if i + 1 < all.len() {
                    i * size + size
                } else {
                    data.len() as int
                },
            )
            &&& (all.len() - 1) * size < data.len() <= all.len() * size
        }),
{
    let all = chunks_of(file_id, file_name, data, size, checksum);
    let len = data.len() as int;
    let n = (len + size - 1) / size as int;
    assert(n * size <= len + size - 1 < n * size + size && n <= len) by (nonlinear_arith)
        requires
            n == (len + size - 1) / size as int,
            size >= 1,
            len >= 1,
    {
    }
    assert((n - 1) * size == n * size - size) by (nonlinear_arith);
    assert(all.len() == n);
    assert((i + 1) * size == i * size + size) by (nonlinear_arith);
    if i + 1 < n {
        assert(i * size + size <= (n - 1) * size) by (nonlinear_arith)
            requires
                i + 1 <= n - 1,
                size >= 1,
        ;
    } else {
        assert((i + 1) * size == n * size);
    }
}

/// A budget is raised to what one largest file takes where it is less, and
/// nothing else of the configuration changes.
pub proof fn a_budget_is_only_raised(config: FileTransferConfig)
    ensures
        ({
            let after = clamped(config);
            &&& after.max_total_buffered_bytes >= config.max_total_buffered_bytes
            &&& after.max_total_buffered_bytes >= viable_budget(config.max_file_size)
            &&& after.max_total_buffered_bytes == config.max_total_buffered_bytes
                || after.max_total_buffered_bytes == viable_budget(config.max_file_size)
            &&& after == (FileTransferConfig {
                max_total_buffered_bytes: after.max_total_buffered_bytes,
                ..config
            })
        }),
{
}

/// A transfer is lost to a resource limit where it found no place, its sender had
/// no share left, or the budget had no room, and for no other reason.
pub proof fn a_transfer_is_lost_to_these_limits(reason: ChunkRejection)
    ensures
        reason.resource_exhaustion() <==> match reason {
            ChunkRejection::TooManyTransfers => true,
            ChunkRejection::SenderQuotaExceeded => true,
            ChunkRejection::BufferBudgetExhausted => true,
            _ => false,
        },
{
}

proof fn lemma_all_marked(v: ManagerView, ids: Seq<Seq<char>>, now: u128, i: int)
    requires
        v.tombstones.wf(),
        v.tombstones.order.len() + ids.len() <= TOMBSTONE_CAPACITY,
    ensures
        v.tombstone_all(ids, now).tombstones.wf(),
        v.tombstone_all(ids, now).hasher == v.hasher,
        v.tombstone_all(ids, now).tombstones.order.len() <= v.tombstones.order.len() + ids.len(),
        forall|key: u64| #[trigger]
            v.tombstones.seen.contains_key(key) ==> v.tombstone_all(
                ids,
                now,
            ).tombstones.seen.contains_key(key),
        0 <= i < ids.len() ==> failed_before(v.tombstone_all(ids, now), ids[i]),
    decreases ids.len(),
{
    if ids.len() > 0 {
        let init = ids.drop_last();
        lemma_all_marked(v, init, now, i);
        let before = v.tombstone_all(init, now);
        lemma_record(before.tombstones, keyed_hash(v.hasher, ids.last()), now);
        if 0 <= i < init.len() {
            assert(init[i] == ids[i]);
        }
    }
}

/// A transfer that a sweep drops counts as failed from then on, as long as the
/// failures on record and those of the sweep are together no more than are
/// remembered.
pub proof fn a_dropped_transfer_counts_as_failed(
    v: ManagerView,
    now: u128,
    max_age: u128,
    file_id: Seq<char>,
)
    requires
        v.wf(),
        known(v.active, file_id),
        gone_quiet(at(v.active, file_id), now, max_age),
        v.tombstones.order.len() + v.active.len() <= TOMBSTONE_CAPACITY,
    ensures
        failed_before(v.sweep(now, max_age), file_id),
{
    let dead = |e: (Seq<char>, AssemblyView)| ManagerView::stale(e.1, now, max_age);
    let gone = v.stale_entries(now, max_age);
    let ids = gone.map_values(|e: (Seq<char>, AssemblyView)| e.0);
    v.active.lemma_filter_len(dead);
    let i = choose|i: int| 0 <= i < v.active.len() && #[trigger] v.active[i].0 == file_id;
    lemma_position(v.active, i);
    v.active.lemma_filter_contains(dead, i);
    let j = choose|j: int| 0 <= j < gone.len() && gone[j] == v.active[i];
    assert(ids[j] == file_id);
    lemma_unexpired(v.tombstones, now, max_age);
    let base = ManagerView {
        active: v.active.filter(
            |e: (Seq<char>, AssemblyView)| !ManagerView::stale(e.1, now, max_age),
        ),
        tombstones: v.tombstones.unexpired(now, max_age),
        ..v
    };
    let alive = |k: u64|
        v.tombstones.holds(k) && age(now, v.tombstones.seen[k])
            <= max_age;
    v.tombstones.order.lemma_filter_len(alive);
    assert(base.tombstones.order.len() <= v.tombstones.order.len());
    lemma_all_marked(base, ids, now, j);
}

/// Setting the clock of every transfer changes when its last chunk came, and
/// nothing else of it.
pub proof fn a_backdated_transfer_is_otherwise_the_same(v: ManagerView, then: u128, i: int)
    requires
        0 <= i < v.active.len(),
    ensures
        v.all_updated_at(then).active.len() == v.active.len(),
        v.all_updated_at(then).active[i].0 == v.active[i].0,
        v.all_updated_at(then).active[i].1 == (AssemblyView {
            last_updated_at: then,
            ..v.active[i].1
        }),
        v.all_updated_at(then).tombstones.order == v.tombstones.order,
        forall|key: u64| #[trigger]
            v.tombstones.seen.contains_key(key) ==> v.all_updated_at(then).tombstones.seen[key]
                == then,
        v.all_updated_at(then).config == v.config,
{
}

} // verus!
