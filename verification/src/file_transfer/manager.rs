//! File transfer manager for chunking and reassembly.

use std::collections::hash_map::RandomState;
use std::time::{Duration, Instant};
use vstd::prelude::*;
use vstd::slice::{slice_subrange, slice_to_vec};
use vstd::string::StringExecFns;

use crate::assoc::{at, known, lemma_del, lemma_position, lemma_put, StrMap};
use crate::error::Error;
use crate::file_transfer::assembly::{
    lemma_payload_empty, lemma_store_charge, started, AssemblyView, FileAssembly,
    PER_CHUNK_OVERHEAD,
};
use crate::file_transfer::chunk::{FileChunk, FileChunkView};
use crate::file_transfer::model::{
    checksum_of, chosen_chunk_size, chunk_cap, chunk_count, chunking_fault, chunks_of, clamped,
    default_config, sender_count, total_charge, viable_budget, Active, ChunkRejection,
    FileTransferConfig, ManagerView, MIN_ACCEPTED_CHUNK_PAYLOAD, MIN_TOTAL_CHUNKS_CAP,
};
use crate::file_transfer::progress::FileProgress;
use crate::file_transfer::tombstones::{age, age_of, Tombstones};
use crate::file_transfer::trusted::{hash_text, nanoseconds, sha256, sha256_digest};
use crate::text::{lower_hex, push_decimal, str_eq, to_lower_hex};

verus! {

/// Replacing one assembly changes the total charge by the difference.
pub proof fn lemma_total_charge_update(active: Active, i: int, e: (Seq<char>, AssemblyView))
    requires
        0 <= i < active.len(),
    ensures
        active[i].1.charge() <= total_charge(active),
        total_charge(active.update(i, e)) == total_charge(active) - active[i].1.charge()
            + e.1.charge(),
    decreases active.len(),
{
    let new = active.update(i, e);
    if i == active.len() - 1 {
        assert(new.drop_last() =~= active.drop_last());
    } else {
        assert(new.drop_last() =~= active.drop_last().update(i, e));
        lemma_total_charge_update(active.drop_last(), i, e);
    }
}

/// Removing one assembly takes its charge off the total, and its sender's count
/// down.
pub proof fn lemma_remove_counts(active: Active, i: int)
    requires
        0 <= i < active.len(),
    ensures
        total_charge(active.remove(i)) == total_charge(active) - active[i].1.charge(),
        forall|s: Seq<char>|
            #![trigger sender_count(active.remove(i), s)]
            sender_count(active.remove(i), s) <= sender_count(active, s),
    decreases active.len(),
{
    let new = active.remove(i);
    if i == active.len() - 1 {
        assert(new =~= active.drop_last());
    } else {
        assert(new.drop_last() =~= active.drop_last().remove(i));
        assert(new.last() == active.last());
        lemma_remove_counts(active.drop_last(), i);
        assert forall|s: Seq<char>| #[trigger] sender_count(new, s) <= sender_count(active, s) by {
            assert(sender_count(active.drop_last().remove(i), s) <= sender_count(
                active.drop_last(),
                s,
            ));
        }
    }
}

/// Replacing an assembly by one of the same sender leaves every sender's count.
pub proof fn lemma_sender_count_update(
    active: Active,
    i: int,
    e: (Seq<char>, AssemblyView),
    s: Seq<char>,
)
    requires
        0 <= i < active.len(),
        e.1.sender == active[i].1.sender,
    ensures
        sender_count(active.update(i, e), s) == sender_count(active, s),
    decreases active.len(),
{
    let new = active.update(i, e);
    if i == active.len() - 1 {
        assert(new.drop_last() =~= active.drop_last());
    } else {
        assert(new.drop_last() =~= active.drop_last().update(i, e));
        lemma_sender_count_update(active.drop_last(), i, e, s);
    }
}

/// Whatever chunk arrives, the invariant holds afterwards: the buffered charge
/// stays within the budget, the count caps hold, and every assembly holds no more
/// than it claimed.
pub proof fn receive_keeps_invariant(
    v: ManagerView,
    sender: Seq<char>,
    c: FileChunkView,
    now: u128,
)
    requires
        v.wf(),
    ensures
        v.receive(sender, c, now).wf(),
{
    crate::file_transfer::tombstones::lemma_record(v.tombstones, v.key(c.file_id), now);
    let w = v.receive(sender, c, now);
    match v.verdict(sender, c) {
        None => {
            let a = v.assembly_for(sender, c, now);
            let b = a.store(c.chunk_index, c.chunk_data, now);
            lemma_put(v.active, c.file_id, b);
            if known(v.active, c.file_id) {
                let p = crate::assoc::position(v.active, c.file_id);
                assert(v.active[p].0 == c.file_id);
                assert(v.assembly_ok(v.active[p].1));
                lemma_store_charge(a, c.chunk_index, c.chunk_data, now);
                lemma_total_charge_update(v.active, p, (c.file_id, b));
                assert(w.active =~= v.active.update(p, (c.file_id, b)));
                assert forall|s: Seq<char>| #[trigger]
                    sender_count(w.active, s) <= w.config.max_assemblies_per_sender by {
                    lemma_sender_count_update(v.active, p, (c.file_id, b), s);
                    assert(sender_count(v.active, s) <= v.config.max_assemblies_per_sender);
                }
                assert forall|i: int| 0 <= i < w.active.len() implies w.assembly_ok(
                    #[trigger] w.active[i].1,
                ) by {
                    if i != p {
                        assert(v.assembly_ok(v.active[i].1));
                    }
                }
            } else {
                lemma_payload_empty(c.total_chunks as nat);
                assert(a.received.dom() =~= Set::<u32>::empty());
                lemma_store_charge(a, c.chunk_index, c.chunk_data, now);
                let pushed = v.active.push((c.file_id, b));
                assert(w.active =~= pushed);
                assert(pushed.drop_last() =~= v.active);
                assert forall|s: Seq<char>| #[trigger]
                    sender_count(w.active, s) <= w.config.max_assemblies_per_sender by {
                    assert(sender_count(v.active, s) <= v.config.max_assemblies_per_sender);
                }
                assert forall|i: int| 0 <= i < w.active.len() implies w.assembly_ok(
                    #[trigger] w.active[i].1,
                ) by {
                    if i < v.active.len() {
                        assert(v.assembly_ok(v.active[i].1));
                    }
                }
            }
        },
        Some(ChunkRejection::PreviouslyFailed) => {
            let key = v.key(c.file_id);
            assert(v.tombstones.order.to_set().contains(key));
            assert(w.tombstones.seen.dom() =~= v.tombstones.seen.dom());
        },
        Some(ChunkRejection::BufferBudgetExhausted) => {
            release_keeps_invariant(v, c.file_id);
        },
        Some(_) => {},
    }
}

/// Releasing a transfer keeps the invariant.
pub proof fn release_keeps_invariant(v: ManagerView, file_id: Seq<char>)
    requires
        v.wf(),
    ensures
        v.release(file_id).wf(),
{
    let w = v.release(file_id);
    lemma_del(v.active, file_id);
    if known(v.active, file_id) {
        let p = crate::assoc::position(v.active, file_id);
        assert(v.active[p].0 == file_id);
        lemma_remove_counts(v.active, p);
        assert forall|s: Seq<char>| #[trigger]
            sender_count(w.active, s) <= w.config.max_assemblies_per_sender by {
            assert(sender_count(v.active.remove(p), s) <= sender_count(v.active, s));
        }
        assert forall|i: int| 0 <= i < w.active.len() implies w.assembly_ok(
            #[trigger] w.active[i].1,
        ) by {
            if i < p {
                assert(w.active[i] == v.active[i]);
                assert(v.assembly_ok(v.active[i].1));
            } else {
                assert(w.active[i] == v.active[i + 1]);
                assert(v.assembly_ok(v.active[i + 1].1));
            }
        }
    }
}

/// Tombstoning keeps the invariant.
pub proof fn tombstone_keeps_invariant(v: ManagerView, file_id: Seq<char>, now: u128)
    requires
        v.wf(),
    ensures
        v.tombstone(file_id, now).wf(),
        v.tombstone(file_id, now).tombstoned(file_id),
{
    crate::file_transfer::tombstones::lemma_record(v.tombstones, v.key(file_id), now);
}

/// An incomplete transfer removed by
/// [`FileTransferManager::cleanup_stale_transfers`].
#[derive(Debug, Clone, PartialEq, Eq)]
pub struct StaleTransfer {
    /// File identifier of the dropped transfer.
    pub file_id: String,
    /// File name from the chunk metadata.
    pub file_name: String,
    /// Sender the assembly was bound to.
    pub sender: String,
}

impl DeepView for StaleTransfer {
    type V = (Seq<char>, Seq<char>, Seq<char>);

    open spec fn deep_view(&self) -> (Seq<char>, Seq<char>, Seq<char>) {
        (self.file_id@, self.file_name@, self.sender@)
    }
}

/// File transfer manager for chunking and reassembly.
pub struct FileTransferManager {
    config: FileTransferConfig,
    active_assemblies: StrMap<FileAssembly>,
    /// Tombstones of failed transfers, keyed by a keyed hash of the file id.
    failed_transfers: Tombstones,
    /// Randomly keyed hasher for tombstone keys.
    tombstone_hasher: RandomState,
    /// The reading of the clock that times are counted from.
    origin: Instant,
}

impl View for FileTransferManager {
    type V = ManagerView;

    closed spec fn view(&self) -> ManagerView {
        ManagerView {
            config: self.config,
            active: self.active_assemblies@,
            tombstones: self.failed_transfers@,
            hasher: self.tombstone_hasher,
        }
    }
}

/// Pseudo-sender bound to assemblies fed by hand, which carry no wire sender. The
/// `:` keeps it apart from every user id that can arrive on the wire.
pub const MANUAL_SENDER: &'static str = "manual:ffi";

/// The time at which a manager is created (2^64 ns), so that times before it can
/// be told.
pub const CLOCK_BASE: u128 = 18_446_744_073_709_551_616;

/// What the clock of a manager shows when it was created `since` ago.
pub open spec fn reading(since: Duration) -> u128 {
    if CLOCK_BASE + nanoseconds(since) <= u128::MAX {
        (CLOCK_BASE + nanoseconds(since)) as u128
    } else {
        u128::MAX
    }
}

/// The clock of a manager can show `now`: no time before the manager was created.
pub open spec fn shown(now: u128) -> bool {
    exists|since: Duration| now == #[trigger] reading(since)
}

impl FileTransferManager {
    /// The invariant of a manager.
    pub open spec fn wf(&self) -> bool {
        self@.wf()
    }

    /// Creates a new file transfer manager.
    pub fn new() -> (r: Self)
        ensures
            r.wf(),
            r@.config == clamped(default_config()),
            r@.active.len() == 0,
            r@.tombstones.order.len() == 0,
    {
        Self::with_config(FileTransferConfig::default())
    }

    /// Creates a new file transfer manager with custom configuration.
    ///
    /// `max_total_buffered_bytes` is raised to what a single `max_file_size`
    /// transfer charges; any lower value would make `max_file_size` unachievable.
    pub fn with_config(config: FileTransferConfig) -> (r: Self)
        ensures
            r.wf(),
            r@.config == clamped(config),
            r@.active.len() == 0,
            r@.tombstones.order.len() == 0,
    {
        let min_budget: u64 = Self::min_viable_budget(&config);
        let mut config = config;
        if config.max_total_buffered_bytes < min_budget {
            config.max_total_buffered_bytes = min_budget;
        }
        let r = FileTransferManager {
            config,
            active_assemblies: StrMap::new(),
            failed_transfers: Tombstones::new(),
            tombstone_hasher: RandomState::new(),
            origin: Instant::now(),
        };
        r
    }

    /// Upper bound on a sender's `total_chunks` claim, derived from
    /// `max_file_size`.
    pub fn derived_total_chunks_cap(max_file_size: u64) -> (r: u64)
        ensures
            r == chunk_cap(max_file_size),
    {
        let derived: u64 = max_file_size / MIN_ACCEPTED_CHUNK_PAYLOAD + 1;
        if derived < MIN_TOTAL_CHUNKS_CAP {
            MIN_TOTAL_CHUNKS_CAP
        } else {
            derived
        }
    }

    /// The smallest budget that still admits one maximum-size transfer.
    pub fn min_viable_budget(config: &FileTransferConfig) -> (r: u64)
        ensures
            r == viable_budget(config.max_file_size),
    {
        let cap: u64 = Self::derived_total_chunks_cap(config.max_file_size);
        let max_chunks: u64 = if cap <= config.max_file_size {
            cap
        } else {
            config.max_file_size
        };
        config.max_file_size.saturating_add(max_chunks * PER_CHUNK_OVERHEAD)
    }

    /// The time, in nanoseconds. The manager was created at [`CLOCK_BASE`].
    fn now(&self) -> (r: u128)
        ensures
            shown(r),
    {
        let since = self.origin.elapsed();
        let r: u128 = CLOCK_BASE.saturating_add(since.as_nanos());
        assert(r == reading(since));
        r
    }

    /// Keyed hash under which a file id is tombstoned.
    fn tombstone_key(&self, file_id: &str) -> (r: u64)
        ensures
            r == self@.key(file_id@),
    {
        hash_text(&self.tombstone_hasher, file_id)
    }

    /// Marks a transfer as failed so that its remaining in-flight chunks are
    /// dropped as [`ChunkRejection::PreviouslyFailed`].
    fn tombstone(&mut self, file_id: &str, now: u128)
        requires
            old(self).wf(),
        ensures
            final(self).wf(),
            final(self)@ == old(self)@.tombstone(file_id@, now),
    {
        let key: u64 = self.tombstone_key(file_id);
        self.failed_transfers.record(key, now);
    }

    /// Whether `file_id` belongs to a failed transfer. A hit refreshes the
    /// tombstone's time, so that it expires only once chunks stop arriving.
    fn is_tombstoned(&mut self, file_id: &str, now: u128) -> (r: bool)
        requires
            old(self).wf(),
        ensures
            r == old(self)@.tombstoned(file_id@),
            final(self).wf(),
            !r ==> final(self)@ == old(self)@,
            final(self)@ == (ManagerView {
                tombstones: old(self)@.tombstones.refresh(old(self)@.key(file_id@), now),
                ..old(self)@
            }),
    {
        let key: u64 = self.tombstone_key(file_id);
        self.failed_transfers.check(key, now)
    }

    /// What all assemblies charge.
    fn buffered(&self) -> (r: u64)
        requires
            self.wf(),
        ensures
            r == total_charge(self@.active),
    {
        let mut sum: u64 = 0;
        let mut i: usize = 0;
        let ghost active = self@.active;
        assert(active.take(0) =~= Seq::empty());
        while i < self.active_assemblies.len()
            invariant
                i <= active.len(),
                active == self@.active,
                active == self.active_assemblies@,
                self.wf(),
                sum == total_charge(active.take(i as int)),
            decreases active.len() - i,
        {
            proof {
                assert(active.take(i + 1).drop_last() =~= active.take(i as int));
                assert(active.take(i + 1).last() == active[i as int]);
                lemma_total_charge_take(active, i + 1);
                assert(self@.assembly_ok(active[i as int].1));
            }
            sum = sum + self.active_assemblies.value_at(i).charged_bytes();
            i = i + 1;
        }
        assert(active.take(i as int) =~= active);
        sum
    }

    /// How many assemblies `sender` has under way.
    fn sender_active(&self, sender: &str) -> (r: usize)
        ensures
            r == sender_count(self@.active, sender@),
    {
        let mut count: usize = 0;
        let mut i: usize = 0;
        let ghost active = self@.active;
        assert(active.take(0) =~= Seq::empty());
        while i < self.active_assemblies.len()
            invariant
                i <= active.len(),
                active == self@.active,
                active == self.active_assemblies@,
                count <= i,
                count == sender_count(active.take(i as int), sender@),
            decreases active.len() - i,
        {
            proof {
                assert(active.take(i + 1).drop_last() =~= active.take(i as int));
                assert(active.take(i + 1).last() == active[i as int]);
            }
            if str_eq(self.active_assemblies.value_at(i).sender.as_str(), sender) {
                count = count + 1;
            }
            i = i + 1;
        }
        assert(active.take(i as int) =~= active);
        count
    }

    /// Processes a received file chunk from `sender`.
    ///
    /// All wire-supplied fields are bounded before any assembly state is created.
    /// Assemblies are bound to the sender that started them, counted against
    /// global and per-sender caps, and the bytes buffered across all assemblies
    /// never exceed `max_total_buffered_bytes`.
    pub fn process_chunk(&mut self, sender: &str, chunk: FileChunk) -> (r: Result<
        FileProgress,
        ChunkRejection,
    >)
        requires
            old(self).wf(),
        ensures
            final(self).wf(),
            exists|now: u128|
                shown(now) && final(self)@ == #[trigger] old(self)@.receive(sender@, chunk@, now),
            match r {
                Ok(p) => old(self)@.verdict(sender@, chunk@) is None && p@ == old(self)@.reported(
                    sender@,
                    chunk@,
                ),
                Err(e) => old(self)@.verdict(sender@, chunk@) == Some(e),
            },
    {
        let now: u128 = self.now();
        self.process_chunk_at(sender, chunk, now)
    }

    /// [`FileTransferManager::process_chunk`] for a chunk that arrives at `now`.
    pub fn process_chunk_at(&mut self, sender: &str, chunk: FileChunk, now: u128) -> (r: Result<
        FileProgress,
        ChunkRejection,
    >)
        requires
            old(self).wf(),
        ensures
            final(self).wf(),
            final(self)@ == old(self)@.receive(sender@, chunk@, now),
            match r {
                Ok(p) => old(self)@.verdict(sender@, chunk@) is None && p@ == old(self)@.reported(
                    sender@,
                    chunk@,
                ),
                Err(e) => old(self)@.verdict(sender@, chunk@) == Some(e),
            },
    {
        let ghost v = self@;
        let ghost c = chunk@;
        proof {
            receive_keeps_invariant(v, sender@, c, now);
        }
        if chunk.total_chunks == 0 || chunk.chunk_index >= chunk.total_chunks {
            return Err(ChunkRejection::Invalid);
        }
        if chunk.file_size == 0 || chunk.file_size > self.config.max_file_size {
            return Err(ChunkRejection::Invalid);
        }
        let max_total_chunks: u64 = Self::derived_total_chunks_cap(self.config.max_file_size);
        if chunk.total_chunks as u64 > max_total_chunks || chunk.total_chunks as u64
            > chunk.file_size {
            return Err(ChunkRejection::Invalid);
        }
        if chunk.chunk_data.len() == 0 || chunk.chunk_data.len() as u64 > chunk.file_size {
            return Err(ChunkRejection::Invalid);
        }
        assert(crate::file_transfer::model::admissible(v.config, c));
        if self.is_tombstoned(chunk.file_id.as_str(), now) {
            return Err(ChunkRejection::PreviouslyFailed);
        }
        let len: u64 = chunk.chunk_data.len() as u64;
        let found = self.active_assemblies.find(chunk.file_id.as_str());
        let refunded: u64 = match found {
            Some(i) => {
                let assembly = self.active_assemblies.value_at(i);
                proof {
                    assert(v.assembly_ok(v.active[i as int].1));
                    lemma_total_charge_update(v.active, i as int, v.active[i as int]);
                }
                if !str_eq(assembly.sender.as_str(), sender) {
                    return Err(ChunkRejection::SenderMismatch);
                }
                if assembly.total_chunks != chunk.total_chunks || assembly.file_size
                    != chunk.file_size || !str_eq(
                    assembly.file_checksum.as_str(),
                    chunk.file_checksum.as_str(),
                ) {
                    return Err(ChunkRejection::MetadataMismatch);
                }
                proof {
                    lemma_store_charge(assembly.deep_view(), c.chunk_index, c.chunk_data, now);
                }
                let (replaced, back): (u64, u64) = match assembly.received_chunks.get(
                    &chunk.chunk_index,
                ) {
                    Some(earlier) => {
                        assert(assembly.deep_view().received[chunk.chunk_index] == earlier@);
                        (earlier.len() as u64, earlier.len() as u64 + PER_CHUNK_OVERHEAD)
                    },
                    None => (0, 0),
                };
                if (assembly.received_bytes - replaced) as u128 + len as u128
                    > assembly.file_size as u128 {
                    return Err(ChunkRejection::Invalid);
                }
                back
            },
            None => {
                if self.active_assemblies.len() >= self.config.max_concurrent_assemblies {
                    self.tombstone(chunk.file_id.as_str(), now);
                    return Err(ChunkRejection::TooManyTransfers);
                }
                if self.sender_active(sender) >= self.config.max_assemblies_per_sender {
                    self.tombstone(chunk.file_id.as_str(), now);
                    return Err(ChunkRejection::SenderQuotaExceeded);
                }
                0
            },
        };
        assert(v.refusal(sender@, c) is None);
        let buffered: u64 = self.buffered();
        let charged: u128 = (buffered - refunded) as u128 + len as u128
            + PER_CHUNK_OVERHEAD as u128;
        if charged > self.config.max_total_buffered_bytes as u128 {
            proof {
                release_keeps_invariant(v, c.file_id);
            }
            self.active_assemblies.remove(chunk.file_id.as_str());
            assert(self@ =~= v.release(c.file_id));
            self.tombstone(chunk.file_id.as_str(), now);
            return Err(ChunkRejection::BufferBudgetExhausted);
        }
        let file_id = chunk.file_id.clone();
        match found {
            Some(i) => {
                let assembly = self.active_assemblies.value_at_mut(i);
                assembly.add_chunk(chunk.chunk_index, chunk.chunk_data, now);
                let progress = assembly.progress(file_id.as_str());
                assert(self@ =~= v.receive(sender@, c, now));
                Ok(progress)
            },
            None => {
                proof {
                    lemma_payload_empty(c.total_chunks as nat);
                    lemma_store_charge(started(sender@, c, now), c.chunk_index, c.chunk_data, now);
                }
                let mut assembly = FileAssembly::new(sender, &chunk, now);
                assembly.add_chunk(chunk.chunk_index, chunk.chunk_data, now);
                let progress = assembly.progress(file_id.as_str());
                self.active_assemblies.insert(file_id, assembly);
                assert(self@ =~= v.receive(sender@, c, now));
                Ok(progress)
            },
        }
    }
}

impl FileTransferManager {
    /// Checks that a file of `len` bytes can be chunked, and hands back the chunk
    /// size in force.
    pub fn plan_chunks(&self, len: usize, chunk_size_override: Option<usize>) -> (r: Result<
        usize,
        Error,
    >)
        ensures
            match r {
                Ok(size) => {
                    &&& chunking_fault(self@.config, len as nat, chunk_size_override) is None
                    &&& size == chosen_chunk_size(self@.config, chunk_size_override)
                },
                Err(e) => e matches Error::InvalidArgument(text) && chunking_fault(
                    self@.config,
                    len as nat,
                    chunk_size_override,
                ) == Some(text@),
            },
    {
        let file_size: u64 = len as u64;
        if file_size > self.config.max_file_size {
            let mut text = "File size ".to_owned();
            push_decimal(&mut text, file_size);
            text.append(" exceeds maximum ");
            push_decimal(&mut text, self.config.max_file_size);
            return Err(Error::InvalidArgument(text));
        }
        if len == 0 {
            return Err(Error::InvalidArgument("File is empty".to_owned()));
        }
        let chunk_size: usize = match chunk_size_override {
            Some(size) => size,
            None => self.config.chunk_size,
        };
        if chunk_size == 0 {
            return Err(Error::InvalidArgument("Chunk size must be greater than zero".to_owned()));
        }
        let total_chunks: u64 = chunk_count_of(len, chunk_size);
        let max_total_chunks: u64 = Self::derived_total_chunks_cap(self.config.max_file_size);
        if total_chunks > max_total_chunks {
            let mut text = "Chunk size ".to_owned();
            push_decimal(&mut text, chunk_size as u64);
            text.append(" splits ");
            push_decimal(&mut text, file_size);
            text.append(" bytes into ");
            push_decimal(&mut text, total_chunks);
            text.append(" chunks, exceeding the receive-side cap of ");
            push_decimal(&mut text, max_total_chunks);
            text.append("; use a larger chunk size");
            return Err(Error::InvalidArgument(text));
        }
        Ok(chunk_size)
    }

    /// Cuts a file into chunks of `chunk_size` bytes, the last one possibly
    /// shorter, each carrying `checksum`.
    pub fn split_file(
        file_id: String,
        file_name: String,
        file_data: Vec<u8>,
        chunk_size: usize,
        checksum: String,
    ) -> (r: Vec<FileChunk>)
        requires
            0 < chunk_size,
            0 < file_data@.len(),
        ensures
            r.deep_view() == chunks_of(
                file_id@,
                file_name@,
                file_data@,
                chunk_size as nat,
                checksum@,
            ),
    {
        let total: u64 = chunk_count_of(file_data.len(), chunk_size);
        let total_chunks: u32 = #[verifier::truncate]
        (total as u32);
        let len: usize = file_data.len();
        let file_size: u64 = len as u64;
        let ghost all = chunks_of(
            file_id@,
            file_name@,
            file_data@,
            chunk_size as nat,
            checksum@,
        );
        let mut chunks: Vec<FileChunk> = Vec::new();
        let mut i: u32 = 0;
        proof {
            assert(total as u32 <= total) by (bit_vector);
        }
        while i < total_chunks
            invariant
                i <= total_chunks <= total,
                0 < chunk_size,
                0 < file_data@.len(),
                total == chunk_count(file_data@.len(), chunk_size as nat),
                total_chunks == total as u32,
                len == file_data@.len(),
                file_size == len,
                all == chunks_of(
                    file_id@,
                    file_name@,
                    file_data@,
                    chunk_size as nat,
                    checksum@,
                ),
                chunks.deep_view() =~= all.take(i as int),
            decreases total_chunks - i,
        {
            proof {
                lemma_chunk_start(file_data@.len(), chunk_size as nat, i as nat);
            }
            let start: usize = i as usize * chunk_size;
            let end: usize = if len - start <= chunk_size {
                len
            } else {
                start + chunk_size
            };
            let chunk = FileChunk {
                file_id: file_id.clone(),
                file_name: file_name.clone(),
                file_size,
                total_chunks,
                chunk_index: i,
                chunk_data: slice_to_vec(slice_subrange(file_data.as_slice(), start, end)),
                file_checksum: checksum.clone(),
            };
            proof {
                assert((i + 1) * chunk_size == i * chunk_size + chunk_size) by (nonlinear_arith);
                assert(chunk@ =~= all[i as int]);
            }
            let ghost before = chunks.deep_view();
            chunks.push(chunk);
            assert(chunks.deep_view() =~= before.push(chunk.deep_view()));
            i = i + 1;
        }
        assert(all.take(i as int) =~= all);
        chunks
    }

    /// Chunks a file for sending.
    ///
    /// Fails if the file is empty or exceeds `max_file_size`, if the chunk size is
    /// zero, or if the chunking is so fine that a receiver with the same
    /// `max_file_size` would drop every chunk of the transfer.
    pub fn chunk_file(
        &self,
        file_id: String,
        file_name: String,
        file_data: Vec<u8>,
        chunk_size_override: Option<usize>,
    ) -> (r: Result<Vec<FileChunk>, Error>)
        ensures
            match r {
                Ok(chunks) => {
                    &&& chunking_fault(
                        self@.config,
                        file_data@.len(),
                        chunk_size_override,
                    ) is None
                    &&& chunks.deep_view() == chunks_of(
                        file_id@,
                        file_name@,
                        file_data@,
                        chosen_chunk_size(self@.config, chunk_size_override) as nat,
                        checksum_of(file_data@),
                    )
                },
                Err(e) => e matches Error::InvalidArgument(text) && chunking_fault(
                    self@.config,
                    file_data@.len(),
                    chunk_size_override,
                ) == Some(text@),
            },
    {
        match self.plan_chunks(file_data.len(), chunk_size_override) {
            Err(e) => Err(e),
            Ok(chunk_size) => {
                let checksum = to_lower_hex(sha256(file_data.as_slice()).as_slice());
                Ok(Self::split_file(file_id, file_name, file_data, chunk_size, checksum))
            },
        }
    }

    /// Checks if a file transfer is complete.
    pub fn is_complete(&self, file_id: &str) -> (r: bool)
        requires
            self.wf(),
        ensures
            r == (known(self@.active, file_id@) && at(self@.active, file_id@).complete()),
    {
        match self.active_assemblies.find(file_id) {
            Some(i) => {
                assert(self@.assembly_ok(self@.active[i as int].1));
                self.active_assemblies.value_at(i).is_complete()
            },
            None => false,
        }
    }

    /// Finalizes a file transfer and returns the complete file data.
    ///
    /// Returns `Some` if the file is complete, its size matches the claimed
    /// `file_size`, and the SHA-256 checksum matches; `None` otherwise. A complete
    /// file that is not what was claimed is dropped and its id tombstoned.
    pub fn finalize_file(&mut self, file_id: &str) -> (r: Option<Vec<u8>>)
        requires
            old(self).wf(),
        ensures
            final(self).wf(),
            exists|now: u128|
                shown(now) && final(self)@ == #[trigger] old(self)@.finalize(
                    file_id@,
                    checksum_of(at(old(self)@.active, file_id@).contents()),
                    now,
                ),
            match r {
                Some(data) => {
                    &&& known(old(self)@.active, file_id@)
                    &&& at(old(self)@.active, file_id@).complete()
                    &&& old(self)@.intact(file_id@, checksum_of(data@))
                    &&& data@ == at(old(self)@.active, file_id@).contents()
                },
                None => !(known(old(self)@.active, file_id@) && at(
                    old(self)@.active,
                    file_id@,
                ).complete() && old(self)@.intact(
                    file_id@,
                    checksum_of(at(old(self)@.active, file_id@).contents()),
                )),
            },
            match (r, old(self)@.handed_out(file_id@)) {
                (Some(data), Some(held)) => {
                    &&& data@ == held
                    &&& lower_hex(sha256_digest(data@)) == at(
                        old(self)@.active,
                        file_id@,
                    ).file_checksum
                    &&& data@.len() == at(old(self)@.active, file_id@).file_size
                },
                (None, None) => true,
                _ => false,
            },
    {
        let now: u128 = self.now();
        let data = match self.active_assemblies.find(file_id) {
            Some(i) => {
                assert(self@.assembly_ok(self@.active[i as int].1));
                self.active_assemblies.value_at(i).reassemble()
            },
            None => None,
        };
        match data {
            Some(file_data) => {
                let actual = to_lower_hex(sha256(file_data.as_slice()).as_slice());
                let ghost v = self@;
                let r = self.settle_file(file_id, file_data, actual.as_str(), now);
                assert(self@ == v.finalize(
                    file_id@,
                    checksum_of(at(v.active, file_id@).contents()),
                    now,
                ));
                r
            },
            None => {
                assert(self@ == self@.finalize(
                    file_id@,
                    checksum_of(at(self@.active, file_id@).contents()),
                    now,
                ));
                None
            },
        }
    }

    /// Settles a complete transfer whose joined chunks are `file_data`, with the
    /// checksum `actual_checksum`: hands the file out if it is what was claimed,
    /// and drops and tombstones the transfer if it is not.
    pub fn settle_file(
        &mut self,
        file_id: &str,
        file_data: Vec<u8>,
        actual_checksum: &str,
        now: u128,
    ) -> (r: Option<Vec<u8>>)
        requires
            old(self).wf(),
            known(old(self)@.active, file_id@),
            at(old(self)@.active, file_id@).complete(),
            file_data@ == at(old(self)@.active, file_id@).contents(),
        ensures
            final(self).wf(),
            final(self)@ == old(self)@.finalize(file_id@, actual_checksum@, now),
            match r {
                Some(data) => old(self)@.intact(file_id@, actual_checksum@) && data@
                    == file_data@,
                None => !old(self)@.intact(file_id@, actual_checksum@),
            },
    {
        let ghost v = self@;
        proof {
            release_keeps_invariant(v, file_id@);
        }
        let removed = self.active_assemblies.remove(file_id);
        assert(self@ =~= v.release(file_id@));
        match removed {
            Some(assembly) => {
                if file_data.len() as u64 != assembly.file_size || !str_eq(
                    actual_checksum,
                    assembly.file_checksum.as_str(),
                ) {
                    self.tombstone(file_id, now);
                    return None;
                }
                Some(file_data)
            },
            None => None,
        }
    }

    /// Gets the progress of an active file transfer.
    pub fn get_progress(&self, file_id: &str) -> (r: Option<FileProgress>)
        requires
            self.wf(),
        ensures
            match r {
                Some(p) => known(self@.active, file_id@) && p@ == at(
                    self@.active,
                    file_id@,
                ).progress(file_id@),
                None => !known(self@.active, file_id@),
            },
    {
        match self.active_assemblies.find(file_id) {
            Some(i) => {
                assert(self@.assembly_ok(self@.active[i as int].1));
                Some(self.active_assemblies.value_at(i).progress(file_id))
            },
            None => None,
        }
    }

    /// Cancels an active file transfer.
    pub fn cancel_transfer(&mut self, file_id: &str) -> (r: bool)
        requires
            old(self).wf(),
        ensures
            final(self).wf(),
            r == known(old(self)@.active, file_id@),
            final(self)@ == old(self)@.release(file_id@),
    {
        proof {
            release_keeps_invariant(self@, file_id@);
        }
        self.active_assemblies.remove(file_id).is_some()
    }

    /// Refuses a transfer outright: releases anything already buffered for it and
    /// drops every further chunk. Unlike a cancelled transfer, a refused one cannot
    /// be rebuilt by the chunks still on their way.
    pub fn refuse_transfer(&mut self, file_id: &str)
        requires
            old(self).wf(),
        ensures
            final(self).wf(),
            exists|now: u128|
                shown(now) && final(self)@ == #[trigger] old(self)@.release(file_id@).tombstone(
                    file_id@,
                    now,
                ),
    {
        let now: u128 = self.now();
        self.refuse_transfer_at(file_id, now)
    }

    /// [`FileTransferManager::refuse_transfer`] at `now`.
    pub fn refuse_transfer_at(&mut self, file_id: &str, now: u128)
        requires
            old(self).wf(),
        ensures
            final(self).wf(),
            final(self)@ == old(self)@.release(file_id@).tombstone(file_id@, now),
    {
        self.cancel_transfer(file_id);
        self.tombstone(file_id, now);
    }

    /// Gets the number of active file transfers.
    pub fn active_transfer_count(&self) -> (r: usize)
        ensures
            r == self@.active.len(),
    {
        self.active_assemblies.len()
    }

    /// Removes transfers that have received no chunk within `max_age`, returning
    /// what was dropped. Swept ids are tombstoned; tombstones themselves expire by
    /// the same rule.
    pub fn cleanup_stale_transfers(&mut self, max_age: Duration) -> (r: Vec<StaleTransfer>)
        requires
            old(self).wf(),
        ensures
            final(self).wf(),
            exists|now: u128|
                {
                    &&& shown(now)
                    &&& final(self)@ == #[trigger] old(self)@.sweep(now, nanoseconds(max_age))
                    &&& r.deep_view() == swept(
                        old(self)@.stale_entries(now, nanoseconds(max_age)),
                    )
                },
    {
        let now: u128 = self.now();
        self.cleanup_stale_transfers_at(max_age.as_nanos(), now)
    }

    /// [`FileTransferManager::cleanup_stale_transfers`] at `now`, with the age in
    /// nanoseconds.
    pub fn cleanup_stale_transfers_at(&mut self, max_age: u128, now: u128) -> (r: Vec<
        StaleTransfer,
    >)
        requires
            old(self).wf(),
        ensures
            final(self).wf(),
            final(self)@ == old(self)@.sweep(now, max_age),
            r.deep_view() == swept(old(self)@.stale_entries(now, max_age)),
    {
        let ghost v = self@;
        let ghost is_stale = |e: (Seq<char>, AssemblyView)| ManagerView::stale(e.1, now, max_age);
        let ghost is_live = |e: (Seq<char>, AssemblyView)| !ManagerView::stale(e.1, now, max_age);
        self.failed_transfers.expire(now, max_age);
        let mut dropped: Vec<StaleTransfer> = Vec::new();
        let mut i: usize = 0;
        let ghost mut done: int = 0;
        proof {
            reveal(Seq::filter);
            assert(v.active.take(0) =~= Seq::empty());
            assert(v.active.skip(0) =~= v.active);
            assert(dropped.deep_view() =~= swept(v.active.take(0).filter(is_stale)));
            assert(self@ =~= v.swept_so_far(0, now, max_age));
        }
        while i < self.active_assemblies.len()
            invariant
                v.wf(),
                self.wf(),
                is_stale == (|e: (Seq<char>, AssemblyView)|
                    ManagerView::stale(e.1, now, max_age)),
                is_live == (|e: (Seq<char>, AssemblyView)|
                    !ManagerView::stale(e.1, now, max_age)),
                0 <= done <= v.active.len(),
                i == v.active.take(done).filter(is_live).len(),
                self@ == v.swept_so_far(done, now, max_age),
                dropped.deep_view() == swept(v.active.take(done).filter(is_stale)),
            decreases v.active.len() - done,
        {
            let ghost head = v.active.take(done);
            let ghost next = v.active.take(done + 1);
            proof {
                reveal(Seq::filter);
                lemma_swept_active(v, done, now, max_age);
                assert(next.drop_last() =~= head);
                assert(next.last() == v.active[done]);
                assert(self@.active[i as int] == v.active[done]);
                assert(v.active.skip(done)[0] == v.active[done]);
                assert(v.active.skip(done).drop_first() =~= v.active.skip(done + 1));
            }
            let at_time: u128 = self.active_assemblies.value_at(i).last_updated_at;
            if age_of(now, at_time) > max_age {
                let ghost before = self@;
                proof {
                    lemma_position(before.active, i as int);
                    release_keeps_invariant(before, v.active[done].0);
                }
                let (file_id, assembly): (String, FileAssembly) = self.active_assemblies.remove_at(
                    i,
                );
                assert(self@ =~= before.release(v.active[done].0));
                self.tombstone(file_id.as_str(), now);
                let item = StaleTransfer {
                    file_id,
                    file_name: assembly.file_name,
                    sender: assembly.sender,
                };
                let ghost listed = dropped.deep_view();
                dropped.push(item);
                proof {
                    assert(dropped.deep_view() =~= listed.push(item.deep_view()));
                    assert(dropped.deep_view() =~= swept(next.filter(is_stale)));
                    lemma_swept_step(v, done, now, max_age);
                    assert(self@.active =~= v.swept_so_far(done + 1, now, max_age).active);
                    assert(self@ =~= v.swept_so_far(done + 1, now, max_age));
                }
            } else {
                proof {
                    lemma_swept_step(v, done, now, max_age);
                    assert(self@.active =~= v.swept_so_far(done + 1, now, max_age).active);
                    assert(self@ =~= v.swept_so_far(done + 1, now, max_age));
                }
                i = i + 1;
            }
            proof {
                done = done + 1;
            }
        }
        proof {
            lemma_swept_active(v, done, now, max_age);
            assert(v.active.take(done) =~= v.active);
            assert(v.active.skip(done) =~= Seq::empty());
            assert(self@.active =~= v.sweep(now, max_age).active) by {
                lemma_tombstone_all_keeps(
                    ManagerView {
                        active: v.active.filter(is_live),
                        tombstones: v.tombstones.unexpired(now, max_age),
                        ..v
                    },
                    v.stale_entries(now, max_age).map_values(
                        |e: (Seq<char>, AssemblyView)| e.0,
                    ),
                    now,
                );
                lemma_tombstone_all_keeps(
                    ManagerView {
                        active: v.active.filter(is_live) + v.active.skip(done),
                        tombstones: v.tombstones.unexpired(now, max_age),
                        ..v
                    },
                    v.stale_entries(now, max_age).map_values(
                        |e: (Seq<char>, AssemblyView)| e.0,
                    ),
                    now,
                );
            }
            assert(v.active.filter(is_live) + v.active.skip(done) =~= v.active.filter(is_live));
        }
        dropped
    }
}

impl FileTransferManager {
    /// Rewinds every active assembly's last-update time and every tombstone to
    /// `by` ago, so that staleness can be exercised without sleeping.
    pub fn backdate_transfers(&mut self, by: Duration)
        requires
            old(self).wf(),
        ensures
            final(self).wf(),
            exists|now: u128|
                shown(now) && final(self)@ == #[trigger] old(self)@.all_updated_at(
                    age(now, nanoseconds(by)),
                ),
    {
        let now: u128 = self.now();
        let then: u128 = age_of(now, by.as_nanos());
        let ghost v = self@;
        let mut i: usize = 0;
        assert(v.active =~= v.all_updated_at(then).active.take(0) + v.active.skip(0));
        while i < self.active_assemblies.len()
            invariant
                i <= v.active.len(),
                self@ == (ManagerView {
                    active: v.all_updated_at(then).active.take(i as int) + v.active.skip(i as int),
                    ..v
                }),
            decreases v.active.len() - i,
        {
            let ghost before = self@.active;
            let assembly = self.active_assemblies.value_at_mut(i);
            assembly.last_updated_at = then;
            proof {
                assert(before[i as int] == v.active[i as int]);
                assert(self@.active =~= v.all_updated_at(then).active.take(i + 1)
                    + v.active.skip(i + 1));
            }
            i = i + 1;
        }
        self.failed_transfers.set_all(then);
        proof {
            assert(self@.active =~= v.all_updated_at(then).active);
            lemma_backdated(v, then);
            assert(self@ == v.all_updated_at(age(now, nanoseconds(by))));
        }
    }
}

impl Default for FileTransferManager {
    fn default() -> (r: Self)
        ensures
            r.wf(),
            r@.config == clamped(default_config()),
            r@.active.len() == 0,
            r@.tombstones.order.len() == 0,
    {
        Self::new()
    }
}

proof fn lemma_backdated_counts(active: Active, then: u128)
    ensures
        ({
            let new = active.map_values(
                |e: (Seq<char>, AssemblyView)|
                    (e.0, AssemblyView { last_updated_at: then, ..e.1 }),
            );
            &&& total_charge(new) == total_charge(active)
            &&& forall|s: Seq<char>| #[trigger] sender_count(new, s) == sender_count(active, s)
        }),
    decreases active.len(),
{
    let f = |e: (Seq<char>, AssemblyView)| (e.0, AssemblyView { last_updated_at: then, ..e.1 });
    let new = active.map_values(f);
    if active.len() > 0 {
        lemma_backdated_counts(active.drop_last(), then);
        assert(new.drop_last() =~= active.drop_last().map_values(f));
        assert forall|s: Seq<char>| #[trigger] sender_count(new, s) == sender_count(active, s) by {
            assert(sender_count(active.drop_last().map_values(f), s) == sender_count(
                active.drop_last(),
                s,
            ));
        }
    }
}

proof fn lemma_backdated(v: ManagerView, then: u128)
    requires
        v.wf(),
    ensures
        v.all_updated_at(then).wf(),
{
    let w = v.all_updated_at(then);
    lemma_backdated_counts(v.active, then);
    assert forall|i: int| 0 <= i < w.active.len() implies w.assembly_ok(
        #[trigger] w.active[i].1,
    ) by {
        assert(v.assembly_ok(v.active[i].1));
    }
    assert forall|s: Seq<char>| #[trigger]
        sender_count(w.active, s) <= w.config.max_assemblies_per_sender by {
        assert(sender_count(v.active, s) <= v.config.max_assemblies_per_sender);
    }
    assert forall|i: int, j: int|
        #![trigger w.active[i], w.active[j]]
        0 <= i < j < w.active.len() implies w.active[i].0 != w.active[j].0 by {
        assert(v.active[i].0 != v.active[j].0);
    }
    assert(w.tombstones.seen.dom() =~= v.tombstones.seen.dom());
}

/// What is reported of swept transfers: id, name and sender of each.
pub open spec fn swept(entries: Active) -> Seq<(Seq<char>, Seq<char>, Seq<char>)> {
    entries.map_values(|e: (Seq<char>, AssemblyView)| (e.0, e.1.file_name, e.1.sender))
}

impl ManagerView {
    /// The sweep after the first `n` assemblies were looked at.
    spec fn swept_so_far(self, n: int, now: u128, max_age: u128) -> ManagerView {
        let head = self.active.take(n);
        ManagerView {
            active: head.filter(|e: (Seq<char>, AssemblyView)| !Self::stale(e.1, now, max_age))
                + self.active.skip(n),
            tombstones: self.tombstones.unexpired(now, max_age),
            ..self
        }.tombstone_all(
            head.filter(
                |e: (Seq<char>, AssemblyView)| Self::stale(e.1, now, max_age),
            ).map_values(|e: (Seq<char>, AssemblyView)| e.0),
            now,
        )
    }
}

proof fn lemma_tombstone_all_keeps(v: ManagerView, ids: Seq<Seq<char>>, now: u128)
    ensures
        v.tombstone_all(ids, now).active == v.active,
        v.tombstone_all(ids, now).config == v.config,
        v.tombstone_all(ids, now).hasher == v.hasher,
        forall|active: Active|
            #![trigger (ManagerView { active, ..v }).tombstone_all(ids, now)]
            (ManagerView { active, ..v }).tombstone_all(ids, now).tombstones == v.tombstone_all(
                ids,
                now,
            ).tombstones,
    decreases ids.len(),
{
    if ids.len() > 0 {
        lemma_tombstone_all_keeps(v, ids.drop_last(), now);
        assert forall|active: Active|
            #![trigger (ManagerView { active, ..v }).tombstone_all(ids, now)]
            (ManagerView { active, ..v }).tombstone_all(ids, now).tombstones == v.tombstone_all(
                ids,
                now,
            ).tombstones by {
            let w = ManagerView { active, ..v };
            assert(w.tombstone_all(ids.drop_last(), now).tombstones == v.tombstone_all(
                ids.drop_last(),
                now,
            ).tombstones);
            lemma_tombstone_all_keeps(w, ids.drop_last(), now);
        }
    }
}

proof fn lemma_swept_active(v: ManagerView, n: int, now: u128, max_age: u128)
    requires
        0 <= n <= v.active.len(),
    ensures
        v.swept_so_far(n, now, max_age).active == v.active.take(n).filter(
            |e: (Seq<char>, AssemblyView)| !ManagerView::stale(e.1, now, max_age),
        ) + v.active.skip(n),
{
    let is_stale = |e: (Seq<char>, AssemblyView)| ManagerView::stale(e.1, now, max_age);
    let is_live = |e: (Seq<char>, AssemblyView)| !ManagerView::stale(e.1, now, max_age);
    let head = v.active.take(n);
    lemma_tombstone_all_keeps(
        ManagerView {
            active: head.filter(is_live) + v.active.skip(n),
            tombstones: v.tombstones.unexpired(now, max_age),
            ..v
        },
        head.filter(is_stale).map_values(|e: (Seq<char>, AssemblyView)| e.0),
        now,
    );
}

proof fn lemma_swept_step(v: ManagerView, n: int, now: u128, max_age: u128)
    requires
        0 <= n < v.active.len(),
    ensures
        ({
            let is_live = |e: (Seq<char>, AssemblyView)| !ManagerView::stale(e.1, now, max_age);
            let a = v.swept_so_far(n, now, max_age);
            let b = v.swept_so_far(n + 1, now, max_age);
            let live = v.active.take(n).filter(is_live);
            &&& a.active == live + v.active.skip(n)
            &&& b.active == v.active.take(n + 1).filter(is_live) + v.active.skip(n + 1)
            &&& v.active.take(n + 1).filter(is_live) == if ManagerView::stale(
                v.active[n].1,
                now,
                max_age,
            ) {
                live
            } else {
                live.push(v.active[n])
            }
            &&& b.tombstones == if ManagerView::stale(v.active[n].1, now, max_age) {
                a.tombstones.record(v.key(v.active[n].0), now)
            } else {
                a.tombstones
            }
            &&& b.config == v.config && b.hasher == v.hasher
            &&& a.config == v.config && a.hasher == v.hasher
        }),
{
    reveal(Seq::filter);
    let is_stale = |e: (Seq<char>, AssemblyView)| ManagerView::stale(e.1, now, max_age);
    let is_live = |e: (Seq<char>, AssemblyView)| !ManagerView::stale(e.1, now, max_age);
    let name = |e: (Seq<char>, AssemblyView)| e.0;
    let head = v.active.take(n);
    let next = v.active.take(n + 1);
    assert(next.drop_last() =~= head);
    assert(next.last() == v.active[n]);
    let base = ManagerView { tombstones: v.tombstones.unexpired(now, max_age), ..v };
    let ids = head.filter(is_stale).map_values(name);
    let ids2 = next.filter(is_stale).map_values(name);
    let x = ManagerView { active: head.filter(is_live) + v.active.skip(n), ..base };
    let y = ManagerView { active: next.filter(is_live) + v.active.skip(n + 1), ..base };
    assert(v.swept_so_far(n, now, max_age) == x.tombstone_all(ids, now));
    assert(v.swept_so_far(n + 1, now, max_age) == y.tombstone_all(ids2, now));
    lemma_tombstone_all_keeps(x, ids, now);
    lemma_tombstone_all_keeps(y, ids, now);
    lemma_tombstone_all_keeps(y, ids2, now);
    assert(y == (ManagerView { active: y.active, ..x }));
    assert(y.tombstone_all(ids, now).tombstones == x.tombstone_all(ids, now).tombstones);
    if is_stale(v.active[n]) {
        assert(ids2.drop_last() =~= ids);
        assert(ids2.last() == v.active[n].0);
    } else {
        assert(ids2 =~= ids);
    }
}

/// How many chunks of `size` bytes `len` bytes make.
fn chunk_count_of(len: usize, size: usize) -> (r: u64)
    requires
        0 < len,
        0 < size,
    ensures
        r == chunk_count(len as nat, size as nat),
{
    proof {
        vstd::arithmetic::div_mod::lemma_div_plus_one((len - 1) as int, size as int);
        assert((len - 1) / size as int + 1 == (len + size - 1) / size as int);
        assert((len - 1) / size as int <= len - 1) by (nonlinear_arith)
            requires
                len >= 1,
                size >= 1,
        ;
    }
    ((len - 1) / size) as u64 + 1
}

/// The chunk with an index below the chunk count starts within the file.
pub proof fn lemma_chunk_start(len: nat, size: nat, i: nat)
    requires
        0 < len,
        0 < size,
        i < chunk_count(len, size),
    ensures
        0 <= i * size < len,
{
    let n = chunk_count(len, size);
    vstd::arithmetic::div_mod::lemma_fundamental_div_mod(len + size - 1, size as int);
    assert(i * size < len) by (nonlinear_arith)
        requires
            len + size - 1 == size * n + (len + size - 1) % size as int,
            (len + size - 1) % size as int >= 0,
            i <= n - 1,
            size > 0,
    ;
    assert(0 <= i * size) by (nonlinear_arith);
}

/// A prefix of the assemblies charges no more than all of them.
pub proof fn lemma_total_charge_take(active: Active, n: int)
    requires
        0 <= n <= active.len(),
    ensures
        total_charge(active.take(n)) <= total_charge(active),
    decreases active.len(),
{
    if n < active.len() {
        assert(active.drop_last().take(n) =~= active.take(n));
        lemma_total_charge_take(active.drop_last(), n);
    } else {
        assert(active.take(n) =~= active);
    }
}

} // verus!
