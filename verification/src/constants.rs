//! Constants used throughout the crate.

use vstd::prelude::*;

verus! {

/// Default time-to-live of a message, in hops.
pub const DEFAULT_INITIAL_TTL: u8 = 8;

/// Metadata key naming the message an acknowledgement is for.
pub const ACK_FOR_KEY: &'static str = "ack_for";

/// Metadata key carrying the hop count on an acknowledgement.
pub const ACK_HOP_COUNT_KEY: &'static str = "ack_hop_count";

/// Metadata key carrying the transport on an acknowledgement.
pub const ACK_TRANSPORT_KEY: &'static str = "ack_transport";

/// Most entries the outbox holds before the oldest are evicted.
pub const MAX_OUTBOX_ENTRIES: usize = 500;

/// Absolute cap on a restored outbox entry's lifetime, as a multiple of the
/// configured outbox lifetime, measured from the first send.
pub const OUTBOX_ABSOLUTE_LIFETIME_FACTOR: i32 = 4;

/// Most messages kept in history for topology views.
pub const MAX_MESSAGE_HISTORY: usize = 1000;

/// How many messages leave the history at once when it is full.
pub const HISTORY_CLEANUP_BATCH_SIZE: usize = 100;

/// Observed-statistics count at which counters are compacted.
pub const OBSERVED_STATS_COMPACT_THRESHOLD: u32 = 10_000;

/// Default chunk size of a file transfer (32 KB).
pub const DEFAULT_CHUNK_SIZE: usize = 32_768;

/// Chunk size over BLE (4 KB).
pub const CHUNK_SIZE_BLE: usize = 4_096;

/// Chunk size over the internet (256 KB).
pub const CHUNK_SIZE_INTERNET: usize = 262_144;

/// Most chunks in flight for a media transfer over BLE.
pub const MEDIA_WINDOW_SIZE_BLE: usize = 2;

/// Most chunks in flight for a media transfer over the internet.
pub const MEDIA_WINDOW_SIZE_INTERNET: usize = 8;

/// Default number of chunks in flight for a media transfer.
pub const DEFAULT_MEDIA_WINDOW_SIZE: usize = 4;

/// Most entries in the media outbox.
pub const MAX_MEDIA_OUTBOX_ENTRIES: usize = 100;

/// Most persisted outbound media descriptors restored after a restart.
pub const MAX_MEDIA_DESCRIPTORS: usize = 16;

/// Most concurrent encrypted outbound media transfers to one recipient: two
/// windows of eight chunks stay within the session ratchet's out-of-order
/// tolerance.
pub const MAX_CONCURRENT_MEDIA_TRANSFERS_PER_PEER: usize = 2;

/// How many of a recipient's transfer slots internal document traffic may hold.
/// Always below the total, so that the application can reach one.
pub const MAX_CONCURRENT_INTERNAL_MEDIA_TRANSFERS_PER_PEER: usize = 1;

/// Metadata key of a message's preferred transport.
pub const TRANSPORT_PREFERENCE_KEY: &'static str = "transport_preference";

/// Preference value: the internet transport.
pub const TRANSPORT_PREFERENCE_INTERNET: &'static str = "internet";

/// Metadata key of the original content type on a file-chunk message.
pub const ORIGINAL_CONTENT_TYPE_KEY: &'static str = "original_content_type";

/// Most times a message may be forwarded.
pub const MAX_FORWARD_COUNT: u32 = 100;

/// Most messages sent in one flush.
pub const FLUSH_BATCH_LIMIT: usize = 20;

} // verus!
