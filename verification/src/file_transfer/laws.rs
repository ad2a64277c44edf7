//! What holds of file transfers as a whole.

use vstd::prelude::*;

use crate::assoc::{at, known, lemma_del, lemma_put};
use crate::file_transfer::assembly::{
    joined, lemma_count, lemma_payload_empty, lemma_store_charge, payload, AssemblyView,
    PER_CHUNK_OVERHEAD,
};
use crate::file_transfer::chunk::{fits_wire, FileChunkView};
use crate::file_transfer::manager::{
    lemma_chunk_start, receive_keeps_invariant, release_keeps_invariant,
    tombstone_keeps_invariant,
};
use crate::file_transfer::model::{
    admissible, checksum_of, chosen_chunk_size, chunk_at, chunk_cap, chunk_count,
    chunking_fault, chunks_of, clamped, least, piece, sender_count, total_charge,
    ChunkRejection, FileTransferConfig, ManagerView,
};
use crate::file_transfer::outbound::{lemma_fill, OutboundView};

verus! {

/// The chunks of a file, by index.
pub open spec fn pieces(data: Seq<u8>, size: nat) -> Map<u32, Seq<u8>> {
    Map::new(
        |k: u32| k < chunk_count(data.len(), size),
        |k: u32| piece(data, size, k as nat),
    )
}

proof fn lemma_piece(data: Seq<u8>, size: nat, i: nat)
    requires
        0 < data.len(),
        0 < size,
        i < chunk_count(data.len(), size),
    ensures
        0 < piece(data, size, i).len() <= data.len(),
        piece(data, size, i).len() == least((i + 1) * size, data.len()) - i * size,
        data.take((i * size) as int) + piece(data, size, i) == data.take(
            least((i + 1) * size, data.len()) as int,
        ),
{
    lemma_chunk_start(data.len(), size, i);
    assert((i + 1) * size == i * size + size) by (nonlinear_arith);
    assert(data.take((i * size) as int) + piece(data, size, i) =~= data.take(
        least((i + 1) * size, data.len()) as int,
    ));
}

proof fn lemma_chunk_count(len: nat, size: nat)
    requires
        0 < len,
        0 < size,
    ensures
        1 <= chunk_count(len, size) <= len,
        chunk_count(len, size) * size >= len,
{
    let n = chunk_count(len, size);
    vstd::arithmetic::div_mod::lemma_fundamental_div_mod(len + size - 1, size as int);
    let r = (len + size - 1) % size as int;
    assert(n * size >= len && n >= 1 && n <= len) by (nonlinear_arith)
        requires
            len + size - 1 == size * n + r,
            0 <= r < size,
            size >= 1,
            len >= 1,
            n >= 0,
    ;
}

proof fn lemma_joined_pieces(received: Map<u32, Seq<u8>>, data: Seq<u8>, size: nat, n: nat)
    requires
        0 < data.len(),
        0 < size,
        n <= chunk_count(data.len(), size) <= u32::MAX,
        forall|k: u32| k < n ==> #[trigger] received[k] == piece(data, size, k as nat),
    ensures
        joined(received, n) == data.take(least(n * size, data.len()) as int),
    decreases n,
{
    if n > 0 {
        let m = (n - 1) as nat;
        lemma_joined_pieces(received, data, size, m);
        lemma_piece(data, size, m);
        lemma_chunk_start(data.len(), size, m);
        assert(received[m as u32] == piece(data, size, m));
    } else {
        assert(0 * size == 0) by (nonlinear_arith);
    }
}

/// Cutting loses nothing: the chunks of a file, joined in order, are the file.
pub proof fn chunks_join_to_the_file(data: Seq<u8>, size: nat)
    requires
        0 < data.len(),
        0 < size,
        chunk_count(data.len(), size) <= u32::MAX,
    ensures
        joined(pieces(data, size), chunk_count(data.len(), size)) == data,
{
    let n = chunk_count(data.len(), size);
    lemma_chunk_count(data.len(), size);
    lemma_joined_pieces(pieces(data, size), data, size, n);
    assert(data.take(data.len() as int) =~= data);
}

/// Every chunk that a sender cuts is one that a receiver with the same limits
/// admits, and whose data is not empty.
pub proof fn cut_chunks_are_admissible(
    config: FileTransferConfig,
    file_id: Seq<char>,
    file_name: Seq<char>,
    data: Seq<u8>,
    choice: Option<usize>,
    checksum: Seq<char>,
    i: nat,
)
    requires
        data.len() <= u64::MAX,
        chunking_fault(config, data.len(), choice) is None,
        chunk_count(data.len(), chosen_chunk_size(config, choice) as nat) <= u32::MAX,
        i < chunk_count(data.len(), chosen_chunk_size(config, choice) as nat),
    ensures
        admissible(
            config,
            chunk_at(
                file_id,
                file_name,
                data,
                chosen_chunk_size(config, choice) as nat,
                checksum,
                i,
            ),
        ),
{
    let size = chosen_chunk_size(config, choice) as nat;
    lemma_chunk_count(data.len(), size);
    lemma_piece(data, size, i);
}

proof fn lemma_payload_pieces(received: Map<u32, Seq<u8>>, data: Seq<u8>, size: nat, n: nat)
    requires
        0 < data.len(),
        0 < size,
        n <= chunk_count(data.len(), size) <= u32::MAX,
        forall|k: u32|
            #[trigger] received.contains_key(k) ==> received[k] == piece(data, size, k as nat),
    ensures
        payload(received, n) <= least(n * size, data.len()),
    decreases n,
{
    if n > 0 {
        let m = (n - 1) as nat;
        lemma_payload_pieces(received, data, size, m);
        lemma_piece(data, size, m);
        lemma_chunk_start(data.len(), size, m);
        assert((m + 1) * size == m * size + size) by (nonlinear_arith);
        assert(received.contains_key(m as u32) ==> received[m as u32] == piece(data, size, m));
    } else {
        assert(0 * size == 0) by (nonlinear_arith);
    }
}

/// The manager after chunks from `sender` arrived, each at its time.
pub open spec fn deliver(
    v: ManagerView,
    sender: Seq<char>,
    arrivals: Seq<(FileChunkView, u128)>,
) -> ManagerView
    decreases arrivals.len(),
{
    if arrivals.len() == 0 {
        v
    } else {
        deliver(v, sender, arrivals.drop_last()).receive(
            sender,
            arrivals.last().0,
            arrivals.last().1,
        )
    }
}

/// The chunk is among those that arrived.
pub open spec fn arrived(arrivals: Seq<(FileChunkView, u128)>, c: FileChunkView) -> bool {
    exists|i: int| 0 <= i < arrivals.len() && (#[trigger] arrivals[i]).0 == c
}

/// A file on its way: what is sent, under which limits.
pub struct Shipment {
    pub file_id: Seq<char>,
    pub file_name: Seq<char>,
    pub data: Seq<u8>,
    pub choice: Option<usize>,
}

impl Shipment {
    /// The chunk size in force.
    pub open spec fn size(self, config: FileTransferConfig) -> nat {
        chosen_chunk_size(config, self.choice) as nat
    }

    /// How many chunks there are.
    pub open spec fn count(self, config: FileTransferConfig) -> nat {
        chunk_count(self.data.len(), self.size(config))
    }

    /// The chunks sent.
    pub open spec fn chunks(self, config: FileTransferConfig) -> Seq<FileChunkView> {
        chunks_of(
            self.file_id,
            self.file_name,
            self.data,
            self.size(config),
            checksum_of(self.data),
        )
    }

    /// The file can be chunked, and the receiver has room for it: a free slot
    /// overall and for the sender, budget for all of its chunks, and no failed or
    /// current transfer under its id.
    pub open spec fn welcome(self, v: ManagerView, sender: Seq<char>) -> bool {
        &&& self.data.len() <= u64::MAX
        &&& chunking_fault(v.config, self.data.len(), self.choice) is None
        &&& self.count(v.config) <= u32::MAX
        &&& !known(v.active, self.file_id)
        &&& !v.tombstoned(self.file_id)
        &&& v.active.len() < v.config.max_concurrent_assemblies
        &&& sender_count(v.active, sender) < v.config.max_assemblies_per_sender
        &&& total_charge(v.active) + self.data.len() + self.count(v.config)
            * PER_CHUNK_OVERHEAD as nat <= v.config.max_total_buffered_bytes
    }

    /// `a` is this file under reassembly.
    pub open spec fn held_in(
        self,
        config: FileTransferConfig,
        sender: Seq<char>,
        a: AssemblyView,
    ) -> bool {
        &&& a.wf()
        &&& a.sender == sender
        &&& a.file_name == self.file_name
        &&& a.file_size == self.data.len()
        &&& a.total_chunks == self.count(config)
        &&& a.file_checksum == checksum_of(self.data)
        &&& forall|k: u32|
            #[trigger] a.received.contains_key(k) ==> a.received[k] == piece(
                self.data,
                self.size(config),
                k as nat,
            )
    }
}

proof fn lemma_delivery(
    v: ManagerView,
    sender: Seq<char>,
    s: Shipment,
    arrivals: Seq<(FileChunkView, u128)>,
)
    requires
        v.wf(),
        s.welcome(v, sender),
        forall|i: int|
            0 <= i < arrivals.len() ==> s.chunks(v.config).contains(#[trigger] arrivals[i].0),
    ensures
        ({
            let w = deliver(v, sender, arrivals);
            &&& w.wf()
            &&& w.config == v.config
            &&& w.tombstones == v.tombstones
            &&& w.hasher == v.hasher
            &&& arrivals.len() == 0 ==> w == v
            &&& arrivals.len() > 0 ==> {
                let a = w.active.last().1;
                &&& w.active == v.active.push((s.file_id, a))
                &&& s.held_in(v.config, sender, a)
                &&& forall|k: u32|
                    #[trigger] a.received.contains_key(k) <==> exists|i: int|
                        0 <= i < arrivals.len() && #[trigger] arrivals[i].0.chunk_index == k
            }
        }),
        arrivals.len() > 0 ==> deliver(v, sender, arrivals.drop_last()).verdict(
            sender,
            arrivals.last().0,
        ) is None,
    decreases arrivals.len(),
{
    if arrivals.len() > 0 {
        let init = arrivals.drop_last();
        assert forall|i: int| 0 <= i < init.len() implies s.chunks(v.config).contains(
            #[trigger] init[i].0,
        ) by {
            assert(init[i] == arrivals[i]);
        }
        lemma_delivery(v, sender, s, init);
        let u = deliver(v, sender, init);
        let c = arrivals.last().0;
        let now = arrivals.last().1;
        let size = s.size(v.config);
        let count = s.count(v.config);
        let all = s.chunks(v.config);
        assert(all.contains(arrivals[arrivals.len() - 1].0));
        let j = choose|j: int| 0 <= j < all.len() && all[j] == c;
        assert(c == chunk_at(s.file_id, s.file_name, s.data, size, checksum_of(s.data), j as nat));
        lemma_chunk_count(s.data.len(), size);
        assert(c.chunk_index == j);
        cut_chunks_are_admissible(
            v.config,
            s.file_id,
            s.file_name,
            s.data,
            s.choice,
            checksum_of(s.data),
            j as nat,
        );
        lemma_piece(s.data, size, j as nat);
        let a = u.assembly_for(sender, c, now);
        let b = a.store(c.chunk_index, c.chunk_data, now);
        if init.len() == 0 {
            lemma_payload_empty(c.total_chunks as nat);
            assert(a.received.dom() =~= Set::<u32>::empty());
            assert(s.held_in(v.config, sender, a));
        } else {
            let e = (s.file_id, u.active.last().1);
            assert(u.active[v.active.len() as int] == e);
            crate::assoc::lemma_position(u.active, v.active.len() as int);
            assert(a == e.1);
        }
        lemma_store_charge(a, c.chunk_index, c.chunk_data, now);
        assert forall|k: u32| #[trigger] b.received.contains_key(k) implies b.received[k] == piece(
            s.data,
            size,
            k as nat,
        ) by {
            if k != c.chunk_index {
                assert(a.received.contains_key(k));
            }
        }
        lemma_payload_pieces(b.received, s.data, size, count);
        assert(b.bytes() <= s.data.len());
        assert(b.wf());
        lemma_count(b);
        assert(b.charge() <= s.data.len() + count * PER_CHUNK_OVERHEAD as nat);
        if init.len() == 0 {
            assert(u.verdict(sender, c) is None);
            let w = u.receive(sender, c, now);
            assert(w.active =~= v.active.push((s.file_id, b)));
        } else {
            let p = v.active.len() as int;
            assert(u.active.drop_last() =~= v.active);
            assert(total_charge(u.active) == total_charge(v.active) + a.charge());
            assert(u.verdict(sender, c) is None);
            let w = u.receive(sender, c, now);
            assert(w.active =~= v.active.push((s.file_id, b)));
        }
        receive_keeps_invariant(u, sender, c, now);
        let w = deliver(v, sender, arrivals);
        assert(w == u.receive(sender, c, now));
        assert(w.active.last().1 == b);
        assert forall|k: u32| #[trigger] b.received.contains_key(k) <==> exists|i: int|
            0 <= i < arrivals.len() && #[trigger] arrivals[i].0.chunk_index == k by {
            if b.received.contains_key(k) {
                if k == c.chunk_index {
                    assert(arrivals[arrivals.len() - 1].0.chunk_index == k);
                } else {
                    assert(a.received.contains_key(k));
                    let i = choose|i: int|
                        0 <= i < init.len() && #[trigger] init[i].0.chunk_index == k;
                    assert(arrivals[i].0.chunk_index == k);
                }
            }
            if exists|i: int| 0 <= i < arrivals.len() && #[trigger] arrivals[i].0.chunk_index == k {
                let i = choose|i: int|
                    0 <= i < arrivals.len() && #[trigger] arrivals[i].0.chunk_index == k;
                if i < init.len() {
                    assert(init[i].0.chunk_index == k);
                    assert(a.received.contains_key(k));
                }
            }
        }
    }
}

/// What one side cuts, the other side puts together. Whatever the order in which
/// the chunks of a file arrive, and however often each one does, none is refused;
/// once every chunk has come, the transfer is complete, it holds the file, and
/// finalizing it hands out that file and frees its place.
pub proof fn a_file_sent_is_the_file_received(
    v: ManagerView,
    sender: Seq<char>,
    s: Shipment,
    arrivals: Seq<(FileChunkView, u128)>,
    now: u128,
)
    requires
        v.wf(),
        s.welcome(v, sender),
        forall|i: int|
            0 <= i < arrivals.len() ==> s.chunks(v.config).contains(#[trigger] arrivals[i].0),
        forall|j: int|
            0 <= j < s.chunks(v.config).len() ==> arrived(
                arrivals,
                #[trigger] s.chunks(v.config)[j],
            ),
    ensures
        forall|i: int|
            0 <= i < arrivals.len() ==> deliver(
                v,
                sender,
                #[trigger] arrivals.take(i),
            ).verdict(sender, arrivals[i].0) is None,
        ({
            let w = deliver(v, sender, arrivals);
            &&& known(w.active, s.file_id)
            &&& at(w.active, s.file_id).complete()
            &&& at(w.active, s.file_id).contents() == s.data
            &&& w.intact(s.file_id, checksum_of(s.data))
            &&& w.finalize(s.file_id, checksum_of(s.data), now) == v
        }),
{
    assert forall|i: int| 0 <= i < arrivals.len() implies deliver(
        v,
        sender,
        #[trigger] arrivals.take(i),
    ).verdict(sender, arrivals[i].0) is None by {
        let part = arrivals.take(i + 1);
        assert(part.drop_last() =~= arrivals.take(i));
        assert(part.last() == arrivals[i]);
        assert forall|j: int| 0 <= j < part.len() implies s.chunks(v.config).contains(
            #[trigger] part[j].0,
        ) by {
            assert(part[j] == arrivals[j]);
        }
        lemma_delivery(v, sender, s, part);
    }
    let size = s.size(v.config);
    let count = s.count(v.config);
    let all = s.chunks(v.config);
    lemma_chunk_count(s.data.len(), size);
    assert(all.len() == count);
    let first = s.chunks(v.config)[0];
    assert(arrived(arrivals, first));
    lemma_delivery(v, sender, s, arrivals);
    let w = deliver(v, sender, arrivals);
    let a = w.active.last().1;
    let p = v.active.len() as int;
    assert(w.active[p] == (s.file_id, a));
    crate::assoc::lemma_position(w.active, p);
    assert forall|k: u32| k < a.total_chunks implies #[trigger] a.received.contains_key(k) by {
        assert(all[k as int].chunk_index == k);
        assert(arrived(arrivals, all[k as int]));
        let i = choose|i: int| 0 <= i < arrivals.len() && (#[trigger] arrivals[i]).0 == all[k as int];
        assert(arrivals[i].0.chunk_index == k);
    }
    assert forall|k: u32| k < count implies #[trigger] a.received[k] == piece(
        s.data,
        size,
        k as nat,
    ) by {
        assert(a.received.contains_key(k));
    }
    lemma_joined_pieces(a.received, s.data, size, count);
    assert(s.data.take(s.data.len() as int) =~= s.data);
    assert(w.active.remove(p) =~= v.active);
    assert(w.finalize(s.file_id, checksum_of(s.data), now) =~= v);
}

/// A manager that was just created receives every file that it cuts itself,
/// whatever its budget was set to. In any order, each chunk coming at least once,
/// no chunk is refused, the file is complete, finalizing it hands out its data,
/// and the manager is then as it was: without a transfer.
pub proof fn a_new_manager_receives_what_it_cuts(
    config: FileTransferConfig,
    v: ManagerView,
    sender: Seq<char>,
    s: Shipment,
    arrivals: Seq<(FileChunkView, u128)>,
    now: u128,
)
    requires
        v.wf(),
        v.config == clamped(config),
        v.active.len() == 0,
        v.tombstones.order.len() == 0,
        config.max_concurrent_assemblies >= 1,
        config.max_assemblies_per_sender >= 1,
        s.data.len() <= isize::MAX,
        chunking_fault(v.config, s.data.len(), s.choice) is None,
        s.count(v.config) <= u32::MAX,
        forall|i: int|
            0 <= i < arrivals.len() ==> s.chunks(v.config).contains(#[trigger] arrivals[i].0),
        forall|j: int|
            0 <= j < s.chunks(v.config).len() ==> arrived(
                arrivals,
                #[trigger] s.chunks(v.config)[j],
            ),
    ensures
        forall|i: int|
            0 <= i < arrivals.len() ==> deliver(
                v,
                sender,
                #[trigger] arrivals.take(i),
            ).verdict(sender, arrivals[i].0) is None,
        ({
            let w = deliver(v, sender, arrivals);
            let a = at(w.active, s.file_id);
            &&& known(w.active, s.file_id)
            &&& a.complete()
            &&& a.contents() == s.data
            &&& w.intact(s.file_id, checksum_of(a.contents()))
            &&& w.finalize(s.file_id, checksum_of(a.contents()), now) == v
            &&& !known(v.active, s.file_id)
        }),
{
    let count = s.count(v.config);
    lemma_chunk_count(s.data.len(), s.size(v.config));
    assert(s.chunks(v.config).len() == count);
    assert(!v.tombstoned(s.file_id)) by {
        if v.tombstoned(s.file_id) {
            assert(v.tombstones.order.to_set().contains(v.key(s.file_id)));
        }
    }
    let most = least(chunk_cap(config.max_file_size), config.max_file_size as nat);
    assert(count <= s.data.len());
    assert(count * PER_CHUNK_OVERHEAD as nat <= most * PER_CHUNK_OVERHEAD as nat) by (nonlinear_arith)
        requires
            count <= most,
    ;
    assert(sender_count(v.active, sender) == 0);
    assert(total_charge(v.active) == 0);
    a_file_sent_is_the_file_received(v, sender, s, arrivals, now);
}

/// The clamped budget admits one transfer of the largest size, in as many chunks as
/// it may claim, wherever that charge can be told in 64 bits.
pub proof fn clamped_budget_admits_a_largest_file(config: FileTransferConfig, chunks: nat)
    requires
        chunks <= chunk_cap(config.max_file_size),
        chunks <= config.max_file_size,
        config.max_file_size + chunks * PER_CHUNK_OVERHEAD as nat <= u64::MAX,
    ensures
        config.max_file_size + chunks * PER_CHUNK_OVERHEAD as nat <= clamped(
            config,
        ).max_total_buffered_bytes,
{
}

/// The bytes charged across all assemblies never exceed the budget, and neither
/// the number of assemblies nor any sender's share exceeds its cap, whatever chunk
/// arrives.
pub proof fn limits_hold_after_every_chunk(
    v: ManagerView,
    sender: Seq<char>,
    c: FileChunkView,
    now: u128,
    other: Seq<char>,
)
    requires
        v.wf(),
    ensures
        total_charge(v.receive(sender, c, now).active) <= v.config.max_total_buffered_bytes,
        v.receive(sender, c, now).active.len() <= v.config.max_concurrent_assemblies,
        sender_count(v.receive(sender, c, now).active, other)
            <= v.config.max_assemblies_per_sender,
{
    receive_keeps_invariant(v, sender, c, now);
}

/// A transfer lost to a resource limit stays lost: nothing is buffered for it, and
/// its id is tombstoned.
pub proof fn lost_transfer_is_tombstoned(
    v: ManagerView,
    sender: Seq<char>,
    c: FileChunkView,
    now: u128,
)
    requires
        v.wf(),
        v.verdict(sender, c) matches Some(r) && r.resource_exhaustion(),
    ensures
        v.receive(sender, c, now).tombstoned(c.file_id),
        !known(v.receive(sender, c, now).active, c.file_id),
{
    lemma_del(v.active, c.file_id);
    release_keeps_invariant(v, c.file_id);
    tombstone_keeps_invariant(v.release(c.file_id), c.file_id, now);
    tombstone_keeps_invariant(v, c.file_id, now);
}

/// While an id is tombstoned, every well-formed chunk for it is answered
/// `PreviouslyFailed`, from whatever sender, and neither rebuilds an assembly nor
/// ends the tombstone.
pub proof fn tombstoned_transfer_stays_failed(
    v: ManagerView,
    sender: Seq<char>,
    c: FileChunkView,
    now: u128,
)
    requires
        v.tombstoned(c.file_id),
        admissible(v.config, c),
    ensures
        v.verdict(sender, c) == Some(ChunkRejection::PreviouslyFailed),
        v.receive(sender, c, now).active == v.active,
        v.receive(sender, c, now).tombstoned(c.file_id),
        v.receive(sender, c, now).tombstones.seen[v.key(c.file_id)] == now,
{
}

/// A transfer that completed with the wrong size or checksum is released and its
/// id tombstoned.
pub proof fn corrupt_transfer_is_tombstoned(
    v: ManagerView,
    file_id: Seq<char>,
    checksum: Seq<char>,
    now: u128,
)
    requires
        v.wf(),
        known(v.active, file_id),
        at(v.active, file_id).complete(),
        !v.intact(file_id, checksum),
    ensures
        v.finalize(file_id, checksum, now).tombstoned(file_id),
        !known(v.finalize(file_id, checksum, now).active, file_id),
{
    lemma_del(v.active, file_id);
    release_keeps_invariant(v, file_id);
    tombstone_keeps_invariant(v.release(file_id), file_id, now);
}

/// Refusing a transfer outlives the chunk that prompted it: nothing is buffered
/// and the id is tombstoned.
pub proof fn refused_transfer_is_tombstoned(v: ManagerView, file_id: Seq<char>, now: u128)
    requires
        v.wf(),
    ensures
        v.release(file_id).tombstone(file_id, now).tombstoned(file_id),
        !known(v.release(file_id).tombstone(file_id, now).active, file_id),
{
    lemma_del(v.active, file_id);
    release_keeps_invariant(v, file_id);
    tombstone_keeps_invariant(v.release(file_id), file_id, now);
}

/// Cancelling only frees the buffer: the id is as tombstoned as it was, and every
/// other transfer is as it was.
pub proof fn cancelling_does_not_tombstone(
    v: ManagerView,
    file_id: Seq<char>,
    other: Seq<char>,
)
    requires
        v.wf(),
        other != file_id,
    ensures
        v.release(file_id).tombstoned(file_id) == v.tombstoned(file_id),
        !known(v.release(file_id).active, file_id),
        known(v.release(file_id).active, other) == known(v.active, other),
        known(v.active, other) ==> at(v.release(file_id).active, other) == at(v.active, other),
{
    lemma_del(v.active, file_id);
}

/// An assembly belongs to the sender that started it: a chunk from anyone else is
/// refused and changes nothing.
pub proof fn assemblies_are_bound_to_their_sender(
    v: ManagerView,
    sender: Seq<char>,
    c: FileChunkView,
    now: u128,
)
    requires
        admissible(v.config, c),
        !v.tombstoned(c.file_id),
        known(v.active, c.file_id),
        at(v.active, c.file_id).sender != sender,
    ensures
        v.verdict(sender, c) == Some(ChunkRejection::SenderMismatch),
        v.receive(sender, c, now) == v,
{
}

/// A refused chunk that is neither lost to a limit nor late for a failed transfer
/// changes nothing.
pub proof fn malformed_chunks_change_nothing(
    v: ManagerView,
    sender: Seq<char>,
    c: FileChunkView,
    now: u128,
)
    requires
        v.verdict(sender, c) matches Some(r) && !r.resource_exhaustion() && r
            != ChunkRejection::PreviouslyFailed,
    ensures
        v.receive(sender, c, now) == v,
{
}

/// A chunk touches only the transfer it belongs to.
pub proof fn a_chunk_touches_one_transfer(
    v: ManagerView,
    sender: Seq<char>,
    c: FileChunkView,
    now: u128,
    other: Seq<char>,
)
    requires
        v.wf(),
        other != c.file_id,
    ensures
        known(v.receive(sender, c, now).active, other) == known(v.active, other),
        known(v.active, other) ==> at(v.receive(sender, c, now).active, other) == at(
            v.active,
            other,
        ),
{
    lemma_del(v.active, c.file_id);
    lemma_put(
        v.active,
        c.file_id,
        v.assembly_for(sender, c, now).store(c.chunk_index, c.chunk_data, now),
    );
}

/// A duplicate replaces its earlier copy: the count stays and only the new bytes
/// are held.
pub proof fn duplicate_replaces_its_earlier_copy(
    a: AssemblyView,
    index: u32,
    first: Seq<u8>,
    second: Seq<u8>,
    t1: u128,
    t2: u128,
)
    requires
        a.wf(),
        index < a.total_chunks,
        a.store(index, first, t1).bytes() <= u64::MAX,
    ensures
        a.store(index, first, t1).store(index, second, t2) == a.store(index, second, t2),
        a.store(index, first, t1).store(index, second, t2).count() == a.store(
            index,
            first,
            t1,
        ).count(),
        a.store(index, first, t1).store(index, second, t2).bytes() == a.store(
            index,
            first,
            t1,
        ).bytes() - first.len() + second.len(),
{
    lemma_store_charge(a, index, first, t1);
    let b = a.store(index, first, t1);
    lemma_store_charge(b, index, second, t2);
    assert(b.store(index, second, t2).received =~= a.store(index, second, t2).received);
    assert(b.store(index, second, t2).received.dom() =~= b.received.dom());
}

/// Chunks commute: the order in which two different chunks are stored does not
/// matter to what is held.
pub proof fn storing_commutes(
    a: AssemblyView,
    i: u32,
    j: u32,
    x: Seq<u8>,
    y: Seq<u8>,
    t: u128,
)
    requires
        i != j,
    ensures
        a.store(i, x, t).store(j, y, t) == a.store(j, y, t).store(i, x, t),
{
    assert(a.store(i, x, t).store(j, y, t).received =~= a.store(j, y, t).store(i, x, t).received);
}

/// The window is never exceeded, and each batch continues where the last one
/// ended, so that every chunk is handed out once and in order.
pub proof fn window_is_kept(v: OutboundView)
    requires
        v.wf(),
        v.in_flight.len() <= v.max_in_flight,
    ensures
        v.fill().in_flight.len() <= v.max_in_flight,
        v.chunks.take(v.next_unsent as int) + v.chunks.subrange(
            v.next_unsent as int,
            v.fill().next_unsent as int,
        ) == v.chunks.take(v.fill().next_unsent as int),
{
    lemma_fill(v);
    assert(v.chunks.take(v.next_unsent as int) + v.chunks.subrange(
        v.next_unsent as int,
        v.fill().next_unsent as int,
    ) =~= v.chunks.take(v.fill().next_unsent as int));
}

/// An acknowledgement that frees a place lets the next chunk out.
pub proof fn an_ack_makes_room(v: OutboundView, chunk_index: u32)
    requires
        v.wf(),
        v.in_flight.contains(chunk_index),
        v.in_flight.len() <= v.max_in_flight,
        v.next_unsent < v.chunks.len(),
    ensures
        (OutboundView {
            acked: v.acked.insert(chunk_index),
            in_flight: v.in_flight.remove(chunk_index),
            ..v
        }).has_capacity(),
{
}

/// The chunks that [`crate::file_transfer::FileTransferManager::chunk_file`] cuts
/// survive the wire, as long as their data and names are within the wire caps.
pub proof fn cut_chunks_survive_the_wire(
    file_id: Seq<char>,
    file_name: Seq<char>,
    data: Seq<u8>,
    size: nat,
    i: nat,
    rest: Seq<u8>,
)
    requires
        fits_wire(chunk_at(file_id, file_name, data, size, checksum_of(data), i)),
    ensures
        crate::file_transfer::chunk::parse(
            crate::file_transfer::chunk::wire(
                chunk_at(file_id, file_name, data, size, checksum_of(data), i),
            ) + rest,
        ) == Ok::<FileChunkView, crate::file_transfer::chunk::DecodeFault>(
            chunk_at(file_id, file_name, data, size, checksum_of(data), i),
        ),
{
    crate::file_transfer::chunk::decode_inverts_encode(
        chunk_at(file_id, file_name, data, size, checksum_of(data), i),
        rest,
    );
}

} // verus!
