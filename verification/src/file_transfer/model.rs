//! The file transfer manager as a mathematical state machine.

use std::collections::hash_map::RandomState;
use vstd::prelude::*;

use crate::assoc::{at, del, distinct, known, put};
use crate::constants::DEFAULT_CHUNK_SIZE;
use crate::file_transfer::assembly::{started, AssemblyView, PER_CHUNK_OVERHEAD};
use crate::file_transfer::chunk::FileChunkView;
use crate::file_transfer::progress::FileProgressView;
use crate::file_transfer::tombstones::{age, TombstonesView};
use crate::file_transfer::trusted::{keyed_hash, sha256_digest};
use crate::text::{decimal, lower_hex};

verus! {

/// Floor on the average chunk payload assumed when bounding a sender's
/// `total_chunks` claim.
pub const MIN_ACCEPTED_CHUNK_PAYLOAD: u64 = 1024;

/// Lower bound on the derived `total_chunks` cap.
pub const MIN_TOTAL_CHUNKS_CAP: u64 = 1024;

/// File transfer configuration.
#[derive(Debug, Clone, Copy)]
pub struct FileTransferConfig {
    /// Size of each chunk in bytes.
    pub chunk_size: usize,
    /// Maximum file size allowed (bytes).
    pub max_file_size: u64,
    /// Maximum number of inbound files that may be reassembling at once.
    pub max_concurrent_assemblies: usize,
    /// Maximum number of inbound files a single sender may have reassembling at
    /// once.
    pub max_assemblies_per_sender: usize,
    /// Maximum total bytes charged across all inbound assemblies.
    pub max_total_buffered_bytes: u64,
}

/// The default configuration: 32 KiB chunks, files of up to 100 MiB, 32 files at
/// once and 16 from one sender, and a budget of 128 MiB.
pub open spec fn default_config() -> FileTransferConfig {
    FileTransferConfig {
        chunk_size: DEFAULT_CHUNK_SIZE,
        max_file_size: 104_857_600,
        max_concurrent_assemblies: 32,
        max_assemblies_per_sender: 16,
        max_total_buffered_bytes: 134_217_728,
    }
}

impl Default for FileTransferConfig {
    fn default() -> (r: Self)
        ensures
            r == default_config(),
    {
        FileTransferConfig {
            chunk_size: DEFAULT_CHUNK_SIZE,
            max_file_size: 104_857_600,
            max_concurrent_assemblies: 32,
            max_assemblies_per_sender: 16,
            max_total_buffered_bytes: 134_217_728,
        }
    }
}

/// Why a chunk was refused.
#[derive(Debug, Clone, Copy, PartialEq, Eq, Structural)]
pub enum ChunkRejection {
    /// Wire fields are malformed or out of bounds.
    Invalid,
    /// Chunk metadata does not match the existing assembly for this file id.
    MetadataMismatch,
    /// Chunk sender does not match the sender that started the assembly.
    SenderMismatch,
    /// The global concurrent-assembly cap is reached.
    TooManyTransfers,
    /// The sender's concurrent-assembly quota is reached.
    SenderQuotaExceeded,
    /// Accepting the chunk would exceed the global buffered-bytes budget. The
    /// affected assembly is dropped along with the chunk.
    BufferBudgetExhausted,
    /// The chunk belongs to a transfer that already failed.
    PreviouslyFailed,
}

impl ChunkRejection {
    /// The rejection's stable reason.
    pub open spec fn text(self) -> Seq<char> {
        match self {
            ChunkRejection::Invalid => "invalid_chunk"@,
            ChunkRejection::MetadataMismatch => "metadata_mismatch"@,
            ChunkRejection::SenderMismatch => "sender_mismatch"@,
            ChunkRejection::TooManyTransfers => "too_many_transfers"@,
            ChunkRejection::SenderQuotaExceeded => "sender_quota_exceeded"@,
            ChunkRejection::BufferBudgetExhausted => "buffer_budget_exhausted"@,
            ChunkRejection::PreviouslyFailed => "previously_failed"@,
        }
    }

    /// A well-formed transfer was lost to a receiver limit.
    pub open spec fn resource_exhaustion(self) -> bool {
        self == ChunkRejection::TooManyTransfers || self == ChunkRejection::SenderQuotaExceeded
            || self == ChunkRejection::BufferBudgetExhausted
    }

    /// `true` for rejections caused by receiver resource limits rather than
    /// malformed input.
    pub fn is_resource_exhaustion(self) -> (r: bool)
        ensures
            r == self.resource_exhaustion(),
    {
        matches!(
            self,
            ChunkRejection::TooManyTransfers
                | ChunkRejection::SenderQuotaExceeded
                | ChunkRejection::BufferBudgetExhausted
        )
    }

    /// Stable machine-readable reason string.
    pub fn as_str(self) -> (r: &'static str)
        ensures
            r@ == self.text(),
    {
        match self {
            ChunkRejection::Invalid => "invalid_chunk",
            ChunkRejection::MetadataMismatch => "metadata_mismatch",
            ChunkRejection::SenderMismatch => "sender_mismatch",
            ChunkRejection::TooManyTransfers => "too_many_transfers",
            ChunkRejection::SenderQuotaExceeded => "sender_quota_exceeded",
            ChunkRejection::BufferBudgetExhausted => "buffer_budget_exhausted",
            ChunkRejection::PreviouslyFailed => "previously_failed",
        }
    }
}

/// The smaller of two numbers.
pub open spec fn least(a: nat, b: nat) -> nat {
    if a <= b {
        a
    } else {
        b
    }
}

/// Upper bound on a sender's `total_chunks` claim: one chunk per KiB of
/// `max_file_size`, rounded up or one above it, and at least 1024.
pub open spec fn chunk_cap(max_file_size: u64) -> nat {
    let derived = (max_file_size / MIN_ACCEPTED_CHUNK_PAYLOAD + 1) as nat;
    if derived < MIN_TOTAL_CHUNKS_CAP {
        MIN_TOTAL_CHUNKS_CAP as nat
    } else {
        derived
    }
}

/// The smallest budget that admits one maximum-size transfer in as many chunks
/// as it may claim, as far as a `u64` can say.
pub open spec fn viable_budget(max_file_size: u64) -> nat {
    least(
        u64::MAX as nat,
        max_file_size as nat + least(chunk_cap(max_file_size), max_file_size as nat)
            * PER_CHUNK_OVERHEAD as nat,
    )
}

/// `config` with its budget raised to what one maximum-size transfer charges.
pub open spec fn clamped(config: FileTransferConfig) -> FileTransferConfig {
    if config.max_total_buffered_bytes < viable_budget(config.max_file_size) {
        FileTransferConfig {
            max_total_buffered_bytes: viable_budget(config.max_file_size) as u64,
            ..config
        }
    } else {
        config
    }
}

/// The chunk size in force.
pub open spec fn chosen_chunk_size(config: FileTransferConfig, choice: Option<usize>) -> usize {
    match choice {
        Some(size) => size,
        None => config.chunk_size,
    }
}

/// How many chunks of `size` bytes `len` bytes make.
pub open spec fn chunk_count(len: nat, size: nat) -> nat {
    ((len + size - 1) / size as int) as nat
}

/// Why a file of `len` bytes cannot be chunked, if it cannot: it is too large or
/// empty, the chunk size is zero, or the chunks would be more than a receiver with
/// the same limits accepts.
pub open spec fn chunking_fault(
    config: FileTransferConfig,
    len: nat,
    choice: Option<usize>,
) -> Option<Seq<char>> {
    let size = chosen_chunk_size(config, choice);
    if len > config.max_file_size {
        Some(
            "File size "@ + decimal(len) + " exceeds maximum "@ + decimal(
                config.max_file_size as nat,
            ),
        )
    } else if len == 0 {
        Some("File is empty"@)
    } else if size == 0 {
        Some("Chunk size must be greater than zero"@)
    } else if chunk_count(len, size as nat) > chunk_cap(config.max_file_size) {
        Some(
            "Chunk size "@ + decimal(size as nat) + " splits "@ + decimal(len) + " bytes into "@
                + decimal(chunk_count(len, size as nat))
                + " chunks, exceeding the receive-side cap of "@ + decimal(
                chunk_cap(config.max_file_size),
            ) + "; use a larger chunk size"@,
        )
    } else {
        None
    }
}

/// The bytes of the chunk with index `i`.
pub open spec fn piece(data: Seq<u8>, size: nat, i: nat) -> Seq<u8> {
    data.subrange((i * size) as int, least((i + 1) * size, data.len()) as int)
}

/// The chunk with index `i` of a file.
pub open spec fn chunk_at(
    file_id: Seq<char>,
    file_name: Seq<char>,
    data: Seq<u8>,
    size: nat,
    checksum: Seq<char>,
    i: nat,
) -> FileChunkView {
    FileChunkView {
        file_id,
        file_name,
        file_size: data.len() as u64,
        total_chunks: chunk_count(data.len(), size) as u64 as u32,
        chunk_index: i as u32,
        chunk_data: piece(data, size, i),
        file_checksum: checksum,
    }
}

/// The chunks of a file, in order. Their number is the chunk count as far as 32
/// bits can say.
pub open spec fn chunks_of(
    file_id: Seq<char>,
    file_name: Seq<char>,
    data: Seq<u8>,
    size: nat,
    checksum: Seq<char>,
) -> Seq<FileChunkView> {
    Seq::new(
        (chunk_count(data.len(), size) as u64 as u32) as nat,
        |i: int| chunk_at(file_id, file_name, data, size, checksum, i as nat),
    )
}

/// Files under reassembly, by file id, oldest first.
pub type Active = Seq<(Seq<char>, AssemblyView)>;

/// What all assemblies together charge against the budget.
pub open spec fn total_charge(active: Active) -> nat
    decreases active.len(),
{
    if active.len() == 0 {
        0
    } else {
        total_charge(active.drop_last()) + active.last().1.charge()
    }
}

/// How many assemblies `sender` has under way.
pub open spec fn sender_count(active: Active, sender: Seq<char>) -> nat
    decreases active.len(),
{
    if active.len() == 0 {
        0
    } else {
        sender_count(active.drop_last(), sender) + if active.last().1.sender == sender {
            1nat
        } else {
            0nat
        }
    }
}

/// The state of a file transfer manager.
#[verifier::ext_equal]
pub struct ManagerView {
    pub config: FileTransferConfig,
    pub active: Active,
    pub tombstones: TombstonesView,
    pub hasher: RandomState,
}

/// A claim that passes the bounds on wire-supplied fields.
pub open spec fn admissible(config: FileTransferConfig, c: FileChunkView) -> bool {
    &&& 0 < c.total_chunks
    &&& c.chunk_index < c.total_chunks
    &&& 0 < c.file_size <= config.max_file_size
    &&& c.total_chunks <= chunk_cap(config.max_file_size)
    &&& c.total_chunks <= c.file_size
    &&& 0 < c.chunk_data.len() <= c.file_size
}

/// `c` claims what the assembly's first chunk claimed.
pub open spec fn same_claim(a: AssemblyView, c: FileChunkView) -> bool {
    &&& a.total_chunks == c.total_chunks
    &&& a.file_size == c.file_size
    &&& a.file_checksum == c.file_checksum
}

/// Payload bytes of the earlier copy of the chunk `c`, if there is one.
pub open spec fn replaced_bytes(a: AssemblyView, c: FileChunkView) -> nat {
    if a.received.contains_key(c.chunk_index) {
        a.received[c.chunk_index].len()
    } else {
        0
    }
}

/// What storing the chunk `c` in the assembly gives back to the budget.
pub open spec fn refund(a: AssemblyView, c: FileChunkView) -> nat {
    if a.received.contains_key(c.chunk_index) {
        a.received[c.chunk_index].len() + PER_CHUNK_OVERHEAD as nat
    } else {
        0
    }
}

/// The lower-case hexadecimal SHA-256 checksum of a file.
pub open spec fn checksum_of(data: Seq<u8>) -> Seq<char> {
    lower_hex(sha256_digest(data))
}

impl ManagerView {
    /// What every assembly satisfies: its claim was within bounds and it holds no
    /// more than it claimed.
    pub open spec fn assembly_ok(self, a: AssemblyView) -> bool {
        &&& a.wf()
        &&& 0 < a.total_chunks <= chunk_cap(self.config.max_file_size)
        &&& a.total_chunks <= a.file_size <= self.config.max_file_size
        &&& a.bytes() <= a.file_size
    }

    /// The invariant of a manager.
    pub open spec fn wf(self) -> bool {
        &&& distinct(self.active)
        &&& forall|i: int|
            0 <= i < self.active.len() ==> self.assembly_ok(#[trigger] self.active[i].1)
        &&& total_charge(self.active) <= self.config.max_total_buffered_bytes
        &&& self.active.len() <= self.config.max_concurrent_assemblies
        &&& forall|s: Seq<char>| #[trigger]
            sender_count(self.active, s) <= self.config.max_assemblies_per_sender
        &&& viable_budget(self.config.max_file_size) <= self.config.max_total_buffered_bytes
        &&& self.tombstones.wf()
    }

    /// The key under which `file_id` is tombstoned.
    pub open spec fn key(self, file_id: Seq<char>) -> u64 {
        keyed_hash(self.hasher, file_id)
    }

    /// `file_id` belongs to a failed transfer.
    pub open spec fn tombstoned(self, file_id: Seq<char>) -> bool {
        self.tombstones.holds(self.key(file_id))
    }

    /// `file_id` marked as failed at `now`.
    pub open spec fn tombstone(self, file_id: Seq<char>, now: u128) -> ManagerView {
        ManagerView { tombstones: self.tombstones.record(self.key(file_id), now), ..self }
    }

    /// Whatever is buffered for `file_id` released.
    pub open spec fn release(self, file_id: Seq<char>) -> ManagerView {
        ManagerView { active: del(self.active, file_id), ..self }
    }

    /// The assembly for the chunk `c` from `sender`: the one under way, or a new
    /// one.
    pub open spec fn assembly_for(
        self,
        sender: Seq<char>,
        c: FileChunkView,
        now: u128,
    ) -> AssemblyView {
        if known(self.active, c.file_id) {
            at(self.active, c.file_id)
        } else {
            started(sender, c, now)
        }
    }

    /// Why the chunk `c` from `sender` is refused before the budget is looked at,
    /// if it is.
    pub open spec fn refusal(self, sender: Seq<char>, c: FileChunkView) -> Option<ChunkRejection> {
        if !admissible(self.config, c) {
            Some(ChunkRejection::Invalid)
        } else if self.tombstoned(c.file_id) {
            Some(ChunkRejection::PreviouslyFailed)
        } else if known(self.active, c.file_id) {
            let a = at(self.active, c.file_id);
            if a.sender != sender {
                Some(ChunkRejection::SenderMismatch)
            } else if !same_claim(a, c) {
                Some(ChunkRejection::MetadataMismatch)
            } else if a.bytes() - replaced_bytes(a, c) + c.chunk_data.len() > a.file_size {
                Some(ChunkRejection::Invalid)
            } else {
                None
            }
        } else if self.active.len() >= self.config.max_concurrent_assemblies {
            Some(ChunkRejection::TooManyTransfers)
        } else if sender_count(self.active, sender) >= self.config.max_assemblies_per_sender {
            Some(ChunkRejection::SenderQuotaExceeded)
        } else {
            None
        }
    }

    /// Storing the chunk `c` would charge more than the budget admits.
    pub open spec fn over_budget(self, c: FileChunkView) -> bool {
        let refunded = if known(self.active, c.file_id) {
            refund(at(self.active, c.file_id), c)
        } else {
            0
        };
        total_charge(self.active) - refunded + c.chunk_data.len() + PER_CHUNK_OVERHEAD
            > self.config.max_total_buffered_bytes
    }

    /// What the chunk `c` from `sender` is answered.
    pub open spec fn verdict(self, sender: Seq<char>, c: FileChunkView) -> Option<ChunkRejection> {
        match self.refusal(sender, c) {
            Some(r) => Some(r),
            None => if self.over_budget(c) {
                Some(ChunkRejection::BufferBudgetExhausted)
            } else {
                None
            },
        }
    }

    /// The manager after the chunk `c` from `sender` arrived at `now`.
    ///
    /// An accepted chunk is stored. A chunk of a failed transfer refreshes its
    /// tombstone. A transfer lost to a resource limit is released and tombstoned.
    /// Any other refused chunk changes nothing.
    pub open spec fn receive(self, sender: Seq<char>, c: FileChunkView, now: u128) -> ManagerView {
        match self.verdict(sender, c) {
            None => ManagerView {
                active: put(
                    self.active,
                    c.file_id,
                    self.assembly_for(sender, c, now).store(c.chunk_index, c.chunk_data, now),
                ),
                ..self
            },
            Some(ChunkRejection::PreviouslyFailed) => ManagerView {
                tombstones: self.tombstones.refresh(self.key(c.file_id), now),
                ..self
            },
            Some(ChunkRejection::BufferBudgetExhausted) => self.release(c.file_id).tombstone(
                c.file_id,
                now,
            ),
            Some(r) => if r.resource_exhaustion() {
                self.tombstone(c.file_id, now)
            } else {
                self
            },
        }
    }

    /// The progress reported for an accepted chunk.
    pub open spec fn reported(self, sender: Seq<char>, c: FileChunkView) -> FileProgressView {
        self.assembly_for(sender, c, 0).store(c.chunk_index, c.chunk_data, 0).progress(c.file_id)
    }

    /// `file_id` is complete, of the claimed size, and matches `checksum`.
    pub open spec fn intact(self, file_id: Seq<char>, checksum: Seq<char>) -> bool {
        let a = at(self.active, file_id);
        a.contents().len() == a.file_size && checksum == a.file_checksum
    }

    /// What finalizing a transfer hands out: its contents, where it is complete and
    /// intact.
    pub open spec fn handed_out(self, file_id: Seq<char>) -> Option<Seq<u8>> {
        let data = at(self.active, file_id).contents();
        if known(self.active, file_id) && at(self.active, file_id).complete() && self.intact(
            file_id,
            checksum_of(data),
        ) {
            Some(data)
        } else {
            None
        }
    }

    /// The manager after `file_id` was finalized at `now`, where its contents have
    /// the checksum `checksum`: an incomplete file stays, a complete one leaves,
    /// and one that is not what was claimed is tombstoned.
    pub open spec fn finalize(self, file_id: Seq<char>, checksum: Seq<char>, now: u128) -> ManagerView {
        if !known(self.active, file_id) || !at(self.active, file_id).complete() {
            self
        } else if self.intact(file_id, checksum) {
            self.release(file_id)
        } else {
            self.release(file_id).tombstone(file_id, now)
        }
    }

    /// The assembly has had no chunk for longer than `max_age`.
    pub open spec fn stale(a: AssemblyView, now: u128, max_age: u128) -> bool {
        age(now, a.last_updated_at) > max_age
    }

    /// Every id in `ids` marked as failed at `now`, in order.
    pub open spec fn tombstone_all(self, ids: Seq<Seq<char>>, now: u128) -> ManagerView
        decreases ids.len(),
    {
        if ids.len() == 0 {
            self
        } else {
            self.tombstone_all(ids.drop_last(), now).tombstone(ids.last(), now)
        }
    }

    /// The manager with every time set to `then`.
    pub open spec fn all_updated_at(self, then: u128) -> ManagerView {
        ManagerView {
            active: self.active.map_values(
                |e: (Seq<char>, AssemblyView)|
                    (e.0, AssemblyView { last_updated_at: then, ..e.1 }),
            ),
            tombstones: self.tombstones.all_seen_at(then),
            ..self
        }
    }

    /// The stale entries, oldest first.
    pub open spec fn stale_entries(self, now: u128, max_age: u128) -> Active {
        self.active.filter(|e: (Seq<char>, AssemblyView)| Self::stale(e.1, now, max_age))
    }

    /// The manager after the sweep at `now`: old tombstones are forgotten first,
    /// then every stale assembly is dropped and its id tombstoned.
    pub open spec fn sweep(self, now: u128, max_age: u128) -> ManagerView {
        ManagerView {
            active: self.active.filter(
                |e: (Seq<char>, AssemblyView)| !Self::stale(e.1, now, max_age),
            ),
            tombstones: self.tombstones.unexpired(now, max_age),
            ..self
        }.tombstone_all(
            self.stale_entries(now, max_age).map_values(|e: (Seq<char>, AssemblyView)| e.0),
            now,
        )
    }
}

} // verus!
