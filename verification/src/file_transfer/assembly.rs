//! Reassembly of one inbound file.

use std::collections::HashMap;
use vstd::prelude::*;
use vstd::slice::slice_to_vec;

use crate::file_transfer::chunk::FileChunk;
use crate::file_transfer::chunk::FileChunkView;
use crate::file_transfer::progress::{percentage_of, FileProgress, FileProgressView};

verus! {

/// Flat charge for each stored chunk against the buffer budget, standing for the
/// bookkeeping memory that the payload does not show.
pub const PER_CHUNK_OVERHEAD: u64 = 64;

/// A file under reassembly, as mathematical values: who started it, what the
/// first chunk claimed, the payload of each chunk received, and when the last
/// one came.
#[verifier::ext_equal]
pub struct AssemblyView {
    pub sender: Seq<char>,
    pub file_name: Seq<char>,
    pub file_size: u64,
    pub total_chunks: u32,
    pub file_checksum: Seq<char>,
    pub received: Map<u32, Seq<u8>>,
    pub received_bytes: u64,
    pub last_updated_at: u128,
}

/// Bytes held in the chunks with an index below `n`.
pub open spec fn payload(received: Map<u32, Seq<u8>>, n: nat) -> nat
    decreases n,
{
    if n == 0 {
        0
    } else {
        let k = (n - 1) as u32;
        payload(received, (n - 1) as nat) + if received.contains_key(k) {
            received[k].len()
        } else {
            0
        }
    }
}

/// The chunks with an index below `n`, one after the other.
pub open spec fn joined(received: Map<u32, Seq<u8>>, n: nat) -> Seq<u8>
    decreases n,
{
    if n == 0 {
        Seq::empty()
    } else {
        joined(received, (n - 1) as nat) + received[(n - 1) as u32]
    }
}

/// The indices below `n`.
pub open spec fn indices(n: nat) -> Set<u32> {
    Set::new(|k: u32| k < n)
}

impl AssemblyView {
    /// Only indices below `total_chunks` are stored, and the recorded byte count is
    /// that of the chunks.
    pub open spec fn wf(self) -> bool {
        &&& self.received.dom().subset_of(indices(self.total_chunks as nat))
        &&& self.received_bytes == self.bytes()
    }

    /// Payload bytes held.
    pub open spec fn bytes(self) -> nat {
        payload(self.received, self.total_chunks as nat)
    }

    /// Number of chunks held.
    pub open spec fn count(self) -> nat {
        self.received.dom().len()
    }

    /// What the assembly charges against the buffer budget: its payload and a
    /// fixed amount for each chunk.
    pub open spec fn charge(self) -> nat {
        self.bytes() + self.count() * PER_CHUNK_OVERHEAD as nat
    }

    /// Every chunk has arrived.
    pub open spec fn complete(self) -> bool {
        self.total_chunks > 0 && forall|k: u32|
            k < self.total_chunks ==> #[trigger] self.received.contains_key(k)
    }

    /// The file that a complete assembly holds.
    pub open spec fn contents(self) -> Seq<u8> {
        joined(self.received, self.total_chunks as nat)
    }

    /// The assembly with one chunk stored, in place of an earlier copy of it.
    pub open spec fn store(self, index: u32, data: Seq<u8>, now: u128) -> AssemblyView {
        let received = self.received.insert(index, data);
        AssemblyView {
            received,
            received_bytes: payload(received, self.total_chunks as nat) as u64,
            last_updated_at: now,
            ..self
        }
    }

    /// The progress that the assembly shows under the name `file_id`.
    pub open spec fn progress(self, file_id: Seq<char>) -> FileProgressView {
        FileProgressView {
            file_id,
            file_name: self.file_name,
            file_size: self.file_size,
            chunks_completed: self.count() as u32,
            total_chunks: self.total_chunks,
            percentage: percentage_of(self.count() as u32, self.total_chunks),
        }
    }
}

/// The empty assembly that a first chunk from `sender` starts.
pub open spec fn started(sender: Seq<char>, chunk: FileChunkView, now: u128) -> AssemblyView {
    AssemblyView {
        sender,
        file_name: chunk.file_name,
        file_size: chunk.file_size,
        total_chunks: chunk.total_chunks,
        file_checksum: chunk.file_checksum,
        received: Map::empty(),
        received_bytes: 0,
        last_updated_at: now,
    }
}

/// There are `n` indices below `n`.
pub proof fn lemma_indices(n: nat)
    requires
        n <= u32::MAX,
    ensures
        indices(n).finite(),
        indices(n).len() == n,
    decreases n,
{
    if n == 0 {
        assert(indices(n) =~= Set::<u32>::empty());
    } else {
        let m = (n - 1) as nat;
        lemma_indices(m);
        assert(indices(n) =~= indices(m).insert(m as u32));
    }
}

/// At most `total_chunks` chunks are stored, and that many only when complete.
pub proof fn lemma_count(a: AssemblyView)
    requires
        a.wf(),
    ensures
        a.received.dom().finite(),
        a.count() <= a.total_chunks,
        a.complete() <==> a.total_chunks > 0 && a.count() == a.total_chunks,
{
    let all = indices(a.total_chunks as nat);
    lemma_indices(a.total_chunks as nat);
    vstd::set_lib::lemma_len_subset(a.received.dom(), all);
    if a.complete() {
        assert(a.received.dom() =~= all);
    }
    if a.count() == a.total_chunks {
        vstd::set_lib::lemma_subset_equality(a.received.dom(), all);
        assert forall|k: u32| k < a.total_chunks implies #[trigger] a.received.contains_key(k) by {
            assert(all.contains(k));
        }
    }
}

/// An empty assembly holds no bytes.
pub proof fn lemma_payload_empty(n: nat)
    ensures
        payload(Map::<u32, Seq<u8>>::empty(), n) == 0,
    decreases n,
{
    if n > 0 {
        lemma_payload_empty((n - 1) as nat);
    }
}

/// Storing a chunk replaces its earlier copy in the byte count.
pub proof fn lemma_payload_insert(received: Map<u32, Seq<u8>>, n: nat, k: u32, data: Seq<u8>)
    requires
        k < n <= u32::MAX,
    ensures
        received.contains_key(k) ==> received[k].len() <= payload(received, n),
        payload(received.insert(k, data), n) == payload(received, n) - if received.contains_key(
            k,
        ) {
            received[k].len()
        } else {
            0
        } + data.len(),
    decreases n,
{
    let m = (n - 1) as nat;
    if k < m {
        lemma_payload_insert(received, m, k, data);
    } else {
        lemma_payload_same(received, received.insert(k, data), m);
    }
}

proof fn lemma_payload_same(a: Map<u32, Seq<u8>>, b: Map<u32, Seq<u8>>, n: nat)
    requires
        n <= u32::MAX,
        forall|k: u32|
            #![trigger a.contains_key(k)]
            #![trigger b.contains_key(k)]
            k < n ==> a.contains_key(k) == b.contains_key(k) && a[k] == b[k],
    ensures
        payload(a, n) == payload(b, n),
    decreases n,
{
    if n > 0 {
        let k = (n - 1) as u32;
        assert(a.contains_key(k) == b.contains_key(k));
        lemma_payload_same(a, b, (n - 1) as nat);
    }
}

/// Storing a chunk changes the charge by the chunk's payload, less that of the
/// copy it replaces; the fixed amount is added only for a new index.
pub proof fn lemma_store_charge(a: AssemblyView, index: u32, data: Seq<u8>, now: u128)
    requires
        a.wf(),
        index < a.total_chunks,
    ensures
        a.store(index, data, now).bytes() <= u64::MAX ==> a.store(index, data, now).wf(),
        a.received.contains_key(index) ==> a.received[index].len() + PER_CHUNK_OVERHEAD
            <= a.charge() && a.received[index].len() <= a.bytes(),
        a.store(index, data, now).bytes() == a.bytes() - (if a.received.contains_key(index) {
            a.received[index].len()
        } else {
            0
        }) + data.len(),
        a.store(index, data, now).charge() == a.charge() - (if a.received.contains_key(index) {
            a.received[index].len() + PER_CHUNK_OVERHEAD
        } else {
            0
        }) + data.len() + PER_CHUNK_OVERHEAD,
{
    lemma_count(a);
    lemma_payload_insert(a.received, a.total_chunks as nat, index, data);
    let b = a.store(index, data, now);
    assert(b.received.dom() =~= a.received.dom().insert(index));
    if a.received.contains_key(index) {
        assert(b.received.dom() =~= a.received.dom());
        assert(a.received.dom().remove(index).len() == a.count() - 1);
        assert(a.count() >= 1);
    } else {
        assert(b.count() == a.count() + 1);
    }
}

/// Tracks file reassembly state.
pub struct FileAssembly {
    /// Sender the first accepted chunk arrived from; all later chunks must match
    /// it.
    pub sender: String,
    pub file_name: String,
    pub file_size: u64,
    pub total_chunks: u32,
    pub file_checksum: String,
    pub received_chunks: HashMap<u32, Vec<u8>>,
    /// Total bytes currently held in `received_chunks`.
    pub received_bytes: u64,
    pub last_updated_at: u128,
}

impl DeepView for FileAssembly {
    type V = AssemblyView;

    open spec fn deep_view(&self) -> AssemblyView {
        AssemblyView {
            sender: self.sender@,
            file_name: self.file_name@,
            file_size: self.file_size,
            total_chunks: self.total_chunks,
            file_checksum: self.file_checksum@,
            received: self.received_chunks@.map_values(|v: Vec<u8>| v@),
            received_bytes: self.received_bytes,
            last_updated_at: self.last_updated_at,
        }
    }
}

impl FileAssembly {
    /// The stored indices are in range and the byte count is that of the chunks.
    pub open spec fn wf(&self) -> bool {
        self.deep_view().wf()
    }

    /// Starts the assembly of the file that `chunk` belongs to.
    pub fn new(sender: &str, chunk: &FileChunk, now: u128) -> (r: Self)
        ensures
            r.wf(),
            r.deep_view() == started(sender@, chunk@, now),
    {
        let r = FileAssembly {
            sender: sender.to_owned(),
            file_name: chunk.file_name.clone(),
            file_size: chunk.file_size,
            total_chunks: chunk.total_chunks,
            file_checksum: chunk.file_checksum.clone(),
            received_chunks: HashMap::new(),
            received_bytes: 0,
            last_updated_at: now,
        };
        proof {
            assert(r.deep_view().received =~= Map::<u32, Seq<u8>>::empty());
            lemma_payload_empty(r.total_chunks as nat);
        }
        r
    }

    /// Stores a chunk, in place of an earlier copy of it.
    pub fn add_chunk(&mut self, chunk_index: u32, data: Vec<u8>, now: u128)
        requires
            old(self).wf(),
            chunk_index < old(self).total_chunks,
            old(self).deep_view().store(chunk_index, data@, now).bytes() <= u64::MAX,
        ensures
            final(self).wf(),
            final(self).deep_view() == old(self).deep_view().store(chunk_index, data@, now),
    {
        let ghost before = self.deep_view();
        let ghost bytes = data@;
        proof {
            lemma_store_charge(before, chunk_index, bytes, now);
        }
        match self.received_chunks.get(&chunk_index) {
            Some(earlier) => {
                assert(before.received[chunk_index] == earlier@);
                self.received_bytes = self.received_bytes - earlier.len() as u64;
            },
            None => {},
        }
        self.received_bytes = self.received_bytes + data.len() as u64;
        self.received_chunks.insert(chunk_index, data);
        self.last_updated_at = now;
        assert(self.deep_view().received =~= before.store(chunk_index, bytes, now).received);
    }

    /// Bytes this assembly charges against the global buffer budget.
    pub fn charged_bytes(&self) -> (r: u64)
        requires
            self.wf(),
            self.deep_view().charge() <= u64::MAX,
        ensures
            r == self.deep_view().charge(),
    {
        proof {
            assert(self.received_chunks@.dom() =~= self.deep_view().received.dom());
        }
        self.received_bytes + self.received_chunks.len() as u64 * PER_CHUNK_OVERHEAD
    }

    /// Whether every chunk has arrived.
    pub fn is_complete(&self) -> (r: bool)
        requires
            self.wf(),
        ensures
            r == self.deep_view().complete(),
    {
        proof {
            lemma_count(self.deep_view());
            assert(self.received_chunks@.dom() =~= self.deep_view().received.dom());
        }
        self.total_chunks > 0 && self.received_chunks.len() as u64 == self.total_chunks as u64
    }

    /// Progress, shown under the name `file_id`.
    pub fn progress(&self, file_id: &str) -> (r: FileProgress)
        requires
            self.wf(),
        ensures
            r@ == self.deep_view().progress(file_id@),
    {
        proof {
            lemma_count(self.deep_view());
            assert(self.received_chunks@.dom() =~= self.deep_view().received.dom());
        }
        let completed: u32 = self.received_chunks.len() as u32;
        FileProgress {
            file_id: file_id.to_owned(),
            file_name: self.file_name.clone(),
            file_size: self.file_size,
            chunks_completed: completed,
            total_chunks: self.total_chunks,
            percentage: FileProgress::calculate_percentage(completed, self.total_chunks),
        }
    }

    /// The file, once every chunk has arrived.
    pub fn reassemble(&self) -> (r: Option<Vec<u8>>)
        requires
            self.wf(),
        ensures
            match r {
                Some(data) => self.deep_view().complete() && data@ == self.deep_view().contents(),
                None => !self.deep_view().complete(),
            },
    {
        if !self.is_complete() {
            return None;
        }
        let mut file_data: Vec<u8> = Vec::new();
        let mut i: u32 = 0;
        while i < self.total_chunks
            invariant
                i <= self.total_chunks,
                self.deep_view().complete(),
                file_data@ == joined(self.deep_view().received, i as nat),
            decreases self.total_chunks - i,
        {
            assert(self.deep_view().received.contains_key(i));
            match self.received_chunks.get(&i) {
                Some(chunk_data) => {
                    let mut copy = slice_to_vec(chunk_data.as_slice());
                    file_data.append(&mut copy);
                    assert(self.deep_view().received[i] == chunk_data@);
                },
                None => {
                    return None;
                },
            }
            i = i + 1;
        }
        Some(file_data)
    }
}

} // verus!
