//! Bounds and lifetimes of group state.

use vstd::prelude::*;

use crate::group_mesh::buffer::GlobalBufferCaps;
use crate::group_mesh::dated::SECOND;

verus! {

/// How long a seen group message id is remembered (5 minutes).
pub const GROUP_MESSAGE_DEDUP_TTL_SECS: u64 = 300;

/// Most remembered group message ids before a forced cleanup.
pub const MAX_GROUP_MESSAGE_DEDUP_ENTRIES: usize = 10_000;

/// Largest base64-encoded payload of an incoming group message (1 MiB).
pub const MAX_BASE64_PAYLOAD_SIZE: usize = 1_048_576;

/// How long a relay registration waits for its acknowledgment.
pub const RELAY_REGISTER_ACK_TIMEOUT_SECS: i64 = 30;

/// Registration sends per connection before giving up on relay sync.
pub const RELAY_REGISTER_MAX_ATTEMPTS: u32 = 3;

/// How long a relay broadcast waits for its delivery report.
pub const RELAY_BROADCAST_REPORT_TIMEOUT_SECS: i64 = 60;

/// Broadcast sends per message before the fall-back to per-member fan-out.
pub const RELAY_BROADCAST_MAX_ATTEMPTS: u32 = 3;

/// Most broadcasts that await a delivery report at once.
pub const MAX_RELAY_BROADCAST_PENDING: usize = 64;

/// Relay capability that the broadcast path needs.
pub const RELAY_CAP_GROUP_DELIVERY_V3: &'static str = "group_delivery_v3";

/// Most stored relay capability tokens.
pub const MAX_RELAY_CAPABILITIES: usize = 64;

/// Most bytes of a stored relay capability token.
pub const MAX_RELAY_CAPABILITY_TOKEN_BYTES: usize = 128;

/// Most buffered commits per group.
pub const MAX_PENDING_COMMITS_PER_GROUP: usize = 8;

/// Lifetime of a buffered commit. At least that of a seen id: while the id is
/// remembered the buffered copy is the commit's only way to be processed.
pub const PENDING_COMMIT_TTL_SECS: u64 = GROUP_MESSAGE_DEDUP_TTL_SECS;

/// Most buffered commits across all groups.
pub const MAX_PENDING_COMMITS_TOTAL: usize = 64;

/// Most buffered commit bytes across all groups (4 MiB).
pub const MAX_PENDING_COMMIT_TOTAL_BYTES: usize = 4_194_304;

/// Most groups with buffered commits.
pub const MAX_PENDING_COMMIT_GROUPS: usize = 16;

/// Most buffered messages per group.
pub const MAX_PENDING_GROUP_MESSAGES_PER_GROUP: usize = 16;

/// Lifetime of a buffered message, for the same reason as a commit's.
pub const PENDING_GROUP_MESSAGE_TTL_SECS: u64 = GROUP_MESSAGE_DEDUP_TTL_SECS;

/// Most buffered messages across all groups.
pub const MAX_PENDING_GROUP_MESSAGES_TOTAL: usize = 256;

/// Most buffered message bytes across all groups (8 MiB).
pub const MAX_PENDING_GROUP_MESSAGE_TOTAL_BYTES: usize = 8_388_608;

/// Most groups with buffered messages.
pub const MAX_PENDING_GROUP_MESSAGE_GROUPS: usize = 32;

/// How long an elected remover has before the next member takes over.
pub const LEAVE_ELECTION_TIMEOUT_SECS: u64 = 30;

/// How long after its detection a fork is left to resolve itself.
pub const EPOCH_FORK_RESOLUTION_DELAY_SECS: u64 = 30;

/// How long a fork entry is kept.
pub const EPOCH_FORK_STALE_SECS: u64 = 300;

/// Most tracked epoch forks.
pub const MAX_EPOCH_FORK_ENTRIES: usize = 32;

/// Most tracked leave elections.
pub const MAX_PENDING_LEAVE_ELECTIONS: usize = 64;

/// How long a leave election may live (5 minutes).
pub const LEAVE_ELECTION_MAX_LIFETIME_SECS: u64 = 300;

/// Least time between two attempts at one leave election.
pub const LEAVE_ELECTION_ATTEMPT_COOLDOWN_SECS: u64 = 5;

/// Least time between two reports of the same unauthorized change (5 minutes).
pub const UNAUTHORIZED_REPORT_SUPPRESS_SECS: u64 = 300;

/// Most tracked report times.
pub const MAX_UNAUTHORIZED_REPORT_ENTRIES: usize = 256;

/// `secs` seconds, in nanoseconds.
pub open spec fn nanos(secs: u64) -> u128 {
    (secs * SECOND) as u128
}

/// `secs` seconds, in nanoseconds.
pub fn nanos_of(secs: u64) -> (r: u128)
    ensures
        r == nanos(secs),
        r == secs * SECOND,
{
    (secs as u128) * SECOND
}

/// The caps on buffered commits.
pub open spec fn commit_caps() -> GlobalBufferCaps {
    GlobalBufferCaps {
        max_groups: MAX_PENDING_COMMIT_GROUPS,
        max_entries: MAX_PENDING_COMMITS_TOTAL,
        max_bytes: MAX_PENDING_COMMIT_TOTAL_BYTES,
    }
}

/// The caps on buffered commits.
pub fn pending_commit_caps() -> (r: GlobalBufferCaps)
    ensures
        r == commit_caps(),
{
    GlobalBufferCaps {
        max_groups: MAX_PENDING_COMMIT_GROUPS,
        max_entries: MAX_PENDING_COMMITS_TOTAL,
        max_bytes: MAX_PENDING_COMMIT_TOTAL_BYTES,
    }
}

/// The caps on buffered messages.
pub open spec fn message_caps() -> GlobalBufferCaps {
    GlobalBufferCaps {
        max_groups: MAX_PENDING_GROUP_MESSAGE_GROUPS,
        max_entries: MAX_PENDING_GROUP_MESSAGES_TOTAL,
        max_bytes: MAX_PENDING_GROUP_MESSAGE_TOTAL_BYTES,
    }
}

/// The caps on buffered messages.
pub fn pending_message_caps() -> (r: GlobalBufferCaps)
    ensures
        r == message_caps(),
{
    GlobalBufferCaps {
        max_groups: MAX_PENDING_GROUP_MESSAGE_GROUPS,
        max_entries: MAX_PENDING_GROUP_MESSAGES_TOTAL,
        max_bytes: MAX_PENDING_GROUP_MESSAGE_TOTAL_BYTES,
    }
}

} // verus!
