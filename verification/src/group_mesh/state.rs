//! The state of group messaging, and its mathematical model.

use vstd::prelude::*;

use crate::assoc;
use crate::assoc::StrMap;
use crate::config::ProtocolConfig;
use crate::group_mesh::dated::Dated;
use crate::group_mesh::types::{
    EpochForkState, EpochForkStateView, PendingCommit, PendingCommitView, PendingGroupMessage,
    PendingGroupMessageView, PendingLeaveElection, PendingLeaveElectionView, RelayBroadcastPending,
    RelayBroadcastPendingView, RelayRegisterPending, RelayRegisterPendingView, UnauthorizedReport,
    UnauthorizedReportView,
};

verus! {

/// Cached member lists, seen ids, buffers, relay tracking, elections and forks.
pub struct GroupMeshState {
    /// Cached member lists by group.
    pub members: StrMap<Vec<String>>,
    /// Seen group message ids, with the time they were first seen.
    pub message_dedup: StrMap<u128>,
    /// Commits that wait for an earlier one, by group.
    pub pending_commits: StrMap<Vec<PendingCommit>>,
    /// Messages that wait for group state, by group.
    pub pending_group_messages: StrMap<Vec<PendingGroupMessage>>,
    /// Groups that the relay has acknowledged.
    pub relay_synced: StrMap<()>,
    /// Registrations in flight, by group.
    pub relay_register_pending: StrMap<RelayRegisterPending>,
    /// Capability tokens of the connected relay.
    pub relay_capabilities: Vec<String>,
    /// Broadcasts in flight, by logical message id.
    pub relay_broadcast_pending: StrMap<RelayBroadcastPending>,
    /// Whether the internet transport was up on the last tick.
    pub internet_was_available: bool,
    /// Leaves that wait for a remove-commit, one for each group and member.
    pub pending_leave_elections: Vec<PendingLeaveElection>,
    /// Suspected epoch forks, by group.
    pub epoch_forks: StrMap<EpochForkState>,
    /// Reported unauthorized changes, one for each group, committer and outcome.
    pub unauthorized_change_reports: Vec<UnauthorizedReport>,
}

/// The model of [`GroupMeshState`].
#[verifier::ext_equal]
pub struct MeshView {
    pub members: Seq<(Seq<char>, Seq<Seq<char>>)>,
    pub seen: Seq<(Seq<char>, u128)>,
    pub commits: Seq<(Seq<char>, Seq<PendingCommitView>)>,
    pub messages: Seq<(Seq<char>, Seq<PendingGroupMessageView>)>,
    pub synced: Seq<(Seq<char>, ())>,
    pub registering: Seq<(Seq<char>, RelayRegisterPendingView)>,
    pub capabilities: Seq<Seq<char>>,
    pub broadcasts: Seq<(Seq<char>, RelayBroadcastPendingView)>,
    pub internet_was_available: bool,
    pub elections: Seq<PendingLeaveElectionView>,
    pub forks: Seq<(Seq<char>, EpochForkStateView)>,
    pub reports: Seq<UnauthorizedReportView>,
}

impl View for GroupMeshState {
    type V = MeshView;

    open spec fn view(&self) -> MeshView {
        MeshView {
            members: self.members@,
            seen: self.message_dedup@,
            commits: self.pending_commits@,
            messages: self.pending_group_messages@,
            synced: self.relay_synced@,
            registering: self.relay_register_pending@,
            capabilities: self.relay_capabilities.deep_view(),
            broadcasts: self.relay_broadcast_pending@,
            internet_was_available: self.internet_was_available,
            elections: self.pending_leave_elections.deep_view(),
            forks: self.epoch_forks@,
            reports: self.unauthorized_change_reports.deep_view(),
        }
    }
}

impl MeshView {
    /// No table holds a key twice.
    pub open spec fn wf(self) -> bool {
        &&& assoc::distinct(self.members)
        &&& assoc::distinct(self.seen)
        &&& assoc::distinct(self.commits)
        &&& assoc::distinct(self.messages)
        &&& assoc::distinct(self.synced)
        &&& assoc::distinct(self.registering)
        &&& assoc::distinct(self.broadcasts)
        &&& assoc::distinct(self.forks)
    }

    /// The cached members of a group, none where it is not cached.
    pub open spec fn cached(self, group: Seq<char>) -> Seq<Seq<char>> {
        match assoc::lookup(self.members, group) {
            Some(members) => members,
            None => Seq::empty(),
        }
    }
}

impl GroupMeshState {
    /// Empty state.
    pub fn new() -> (r: Self)
        ensures
            r@.wf(),
            r@ == (MeshView {
                members: Seq::empty(),
                seen: Seq::empty(),
                commits: Seq::empty(),
                messages: Seq::empty(),
                synced: Seq::empty(),
                registering: Seq::empty(),
                capabilities: Seq::empty(),
                broadcasts: Seq::empty(),
                internet_was_available: false,
                elections: Seq::empty(),
                forks: Seq::empty(),
                reports: Seq::empty(),
            }),
    {
        let r = GroupMeshState {
            members: StrMap::new(),
            message_dedup: StrMap::new(),
            pending_commits: StrMap::new(),
            pending_group_messages: StrMap::new(),
            relay_synced: StrMap::new(),
            relay_register_pending: StrMap::new(),
            relay_capabilities: Vec::new(),
            relay_broadcast_pending: StrMap::new(),
            internet_was_available: false,
            pending_leave_elections: Vec::new(),
            epoch_forks: StrMap::new(),
            unauthorized_change_reports: Vec::new(),
        };
        assert(r.relay_capabilities.deep_view() =~= Seq::empty());
        assert(r.pending_leave_elections.deep_view() =~= Seq::empty());
        assert(r.unauthorized_change_reports.deep_view() =~= Seq::empty());
        r
    }
}

impl Dated for EpochForkState {
    open spec fn dated(value: EpochForkStateView) -> u128 {
        value.detected_at
    }

    fn date(&self) -> (t: u128) {
        self.detected_at
    }
}

impl Dated for PendingLeaveElection {
    open spec fn dated(value: PendingLeaveElectionView) -> u128 {
        value.received_at
    }

    fn date(&self) -> (t: u128) {
        self.received_at
    }
}

impl Dated for UnauthorizedReport {
    open spec fn dated(value: UnauthorizedReportView) -> u128 {
        value.reported_at
    }

    fn date(&self) -> (t: u128) {
        self.reported_at
    }
}

/// A wall-clock time as a number that keeps the order of times.
pub open spec fn wall_rank(wall: i64) -> u128 {
    (wall + 0x8000_0000_0000_0000) as u128
}

impl Dated for RelayBroadcastPending {
    open spec fn dated(value: RelayBroadcastPendingView) -> u128 {
        wall_rank(value.armed_at)
    }

    fn date(&self) -> (t: u128) {
        ((self.armed_at as i128) + 0x8000_0000_0000_0000) as u128
    }
}

/// What governs group operations.
#[derive(Debug, Clone, Copy, PartialEq, Eq, Structural)]
pub struct GroupSettings {
    /// Most members of a group.
    pub max_group_members: usize,
    /// Whether groups are registered with the relay.
    pub relay_enabled: bool,
    /// Whether messages may go out as one relay broadcast.
    pub relay_broadcast_enabled: bool,
    /// Whether rich extras may be sealed.
    pub rich_payload_enabled: bool,
}

/// A node of the protocol, as far as groups are concerned.
pub struct OfflineProtocol {
    /// This node's user id.
    pub local_id: String,
    /// What governs group operations.
    pub settings: GroupSettings,
    /// Group messaging state.
    pub group_mesh: GroupMeshState,
}

impl OfflineProtocol {
    /// The node is the same and is governed alike.
    pub open spec fn same_node(&self, other: &Self) -> bool {
        self.local_id == other.local_id && self.settings == other.settings
    }

    /// A node without any group.
    pub fn new(local_id: &str, config: &ProtocolConfig, relay_broadcast_enabled: bool) -> (r: Self)
        ensures
            r.local_id@ == local_id@,
            r.settings == (GroupSettings {
                max_group_members: config.group.max_group_members,
                relay_enabled: config.group.relay_enabled,
                relay_broadcast_enabled,
                rich_payload_enabled: config.encryption.rich_payload_enabled,
            }),
            r.group_mesh@.wf(),
            r.group_mesh@.members.len() == 0,
            r.group_mesh@.seen.len() == 0,
            r.group_mesh@.commits.len() == 0,
            r.group_mesh@.messages.len() == 0,
            r.group_mesh@.synced.len() == 0,
            r.group_mesh@.registering.len() == 0,
            r.group_mesh@.capabilities.len() == 0,
            r.group_mesh@.broadcasts.len() == 0,
            !r.group_mesh@.internet_was_available,
            r.group_mesh@.elections.len() == 0,
            r.group_mesh@.forks.len() == 0,
            r.group_mesh@.reports.len() == 0,
    {
        OfflineProtocol {
            local_id: local_id.to_owned(),
            settings: GroupSettings {
                max_group_members: config.group.max_group_members,
                relay_enabled: config.group.relay_enabled,
                relay_broadcast_enabled,
                rich_payload_enabled: config.encryption.rich_payload_enabled,
            },
            group_mesh: GroupMeshState::new(),
        }
    }
}

} // verus!
