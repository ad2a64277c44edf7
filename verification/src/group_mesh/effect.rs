//! What a group operation asks for: events for the application, actions on the
//! MLS layer and the transports, and steps to go on with. Effects are carried
//! out in order; a step's own effects come before the next effect of the list it
//! stands in.

use vstd::prelude::*;

use crate::events::{Event, ForwardInfoEvent, SecurityWarningCode};
use crate::group_mesh::types::{
    ForwardInfoView, GroupMemberRemovedPayload, GroupMemberRemovedPayloadView,
    GroupMlsCommitPayload, GroupMlsCommitPayloadView, GroupMlsLeavePayload,
    GroupMlsLeavePayloadView, GroupMlsMessagePayload, GroupMlsMessagePayloadView,
    GroupMlsWelcomePayload, GroupMlsWelcomePayloadView, GroupRenamePayload, GroupRenamePayloadView,
    GroupRole, GroupRoleChangePayload, GroupRoleChangePayloadView, RelayBroadcastPending,
    RelayBroadcastPendingView, RelayGroupBroadcastPayload,
    RelayGroupBroadcastPayloadView, RelayGroupRegistrationPayload,
    RelayGroupRegistrationPayloadView,
};
use crate::message::{ForwardInfo, MediaMetadata, MessagePriority, TransportType};

verus! {

/// What the application is told of refused plaintext.
pub const PLAINTEXT_REJECTED: &'static str = "Plaintext group message rejected: the named group is secured with MLS, so unauthenticated plaintext cannot be attributed to the claimed sender";

/// What the application is told of a leaf that proves nothing. It names nobody.
pub const LEAF_UNPROVEN: &'static str = "Group state refused: a leaf claims an identity that its key does not prove";

/// Why a group's relay registration went away.
#[derive(Debug, Clone, Copy, PartialEq, Eq, Structural)]
pub enum SyncReason {
    /// This node was removed from the group.
    Removed,
    /// This node left the group.
    Left,
    /// The internet transport went down.
    InternetDropped,
    /// The relay never acknowledged the registration.
    AckTimeout,
}

impl SyncReason {
    /// The stable code.
    pub open spec fn text(self) -> Seq<char> {
        match self {
            SyncReason::Removed => "removed"@,
            SyncReason::Left => "left"@,
            SyncReason::InternetDropped => "internet_dropped"@,
            SyncReason::AckTimeout => "ack_timeout"@,
        }
    }

    /// The stable code.
    pub fn as_str(&self) -> (r: &'static str)
        ensures
            r@ == self.text(),
    {
        match self {
            SyncReason::Removed => "removed",
            SyncReason::Left => "left",
            SyncReason::InternetDropped => "internet_dropped",
            SyncReason::AckTimeout => "ack_timeout",
        }
    }
}

impl DeepView for SyncReason {
    type V = SyncReason;

    open spec fn deep_view(&self) -> SyncReason {
        *self
    }
}

/// Why a membership change is not authorized.
#[derive(Debug, Clone, Copy, PartialEq, Eq, Structural)]
pub enum ChangeReason {
    /// The committer is not a known admin.
    SenderNotAdmin,
    /// The commit's framing disagrees with the change it made.
    AffectedMemberMismatch,
}

impl ChangeReason {
    /// The stable code.
    pub open spec fn text(self) -> Seq<char> {
        match self {
            ChangeReason::SenderNotAdmin => "sender_not_admin"@,
            ChangeReason::AffectedMemberMismatch => "affected_member_mismatch"@,
        }
    }

    /// The stable code.
    pub fn as_str(&self) -> (r: &'static str)
        ensures
            r@ == self.text(),
    {
        match self {
            ChangeReason::SenderNotAdmin => "sender_not_admin",
            ChangeReason::AffectedMemberMismatch => "affected_member_mismatch",
        }
    }
}

impl DeepView for ChangeReason {
    type V = ChangeReason;

    open spec fn deep_view(&self) -> ChangeReason {
        *self
    }
}

/// A frame for another member or the relay.
#[derive(Debug, Clone, PartialEq, Eq)]
pub enum GroupFrame {
    /// A group message.
    Message(GroupMlsMessagePayload),
    /// A group invite.
    Welcome(GroupMlsWelcomePayload),
    /// A membership change or key update.
    Commit(GroupMlsCommitPayload),
    /// A leave notification.
    Leave(GroupMlsLeavePayload),
    /// A role change.
    RoleChange(GroupRoleChangePayload),
    /// A rename.
    Rename(GroupRenamePayload),
    /// Tells a removed member so.
    MemberRemoved(GroupMemberRemovedPayload),
    /// Registers a group with the relay.
    Register(RelayGroupRegistrationPayload),
    /// A message for the relay to fan out.
    Broadcast(RelayGroupBroadcastPayload),
}

/// What a [`GroupFrame`] says.
#[verifier::ext_equal]
pub enum GroupFrameView {
    Message(GroupMlsMessagePayloadView),
    Welcome(GroupMlsWelcomePayloadView),
    Commit(GroupMlsCommitPayloadView),
    Leave(GroupMlsLeavePayloadView),
    RoleChange(GroupRoleChangePayloadView),
    Rename(GroupRenamePayloadView),
    MemberRemoved(GroupMemberRemovedPayloadView),
    Register(RelayGroupRegistrationPayloadView),
    Broadcast(RelayGroupBroadcastPayloadView),
}

impl DeepView for GroupFrame {
    type V = GroupFrameView;

    open spec fn deep_view(&self) -> GroupFrameView {
        match self {
            GroupFrame::Message(p) => GroupFrameView::Message(p.deep_view()),
            GroupFrame::Welcome(p) => GroupFrameView::Welcome(p.deep_view()),
            GroupFrame::Commit(p) => GroupFrameView::Commit(p.deep_view()),
            GroupFrame::Leave(p) => GroupFrameView::Leave(p.deep_view()),
            GroupFrame::RoleChange(p) => GroupFrameView::RoleChange(p.deep_view()),
            GroupFrame::Rename(p) => GroupFrameView::Rename(p.deep_view()),
            GroupFrame::MemberRemoved(p) => GroupFrameView::MemberRemoved(p.deep_view()),
            GroupFrame::Register(p) => GroupFrameView::Register(p.deep_view()),
            GroupFrame::Broadcast(p) => GroupFrameView::Broadcast(p.deep_view()),
        }
    }
}

/// An event for the application.
#[derive(Debug, Clone, PartialEq, Eq)]
pub enum Notice {
    /// A group message was delivered.
    MessageReceived { group_id: String, sender: String, content: String, timestamp: String, message_id: String, reply_to: Option<String>, forward_info: Option<ForwardInfo>, media_metadata: Option<MediaMetadata>, content_type: Option<String> },
    /// A member joined.
    MemberAdded { group_id: String, user_id: String, added_by: String, group_name: Option<String>, authorized: Option<bool> },
    /// A member was removed.
    MemberRemoved { group_id: String, user_id: String, removed_by: String, authorized: Option<bool> },
    /// A role changed.
    RoleChanged { group_id: String, user_id: String, new_role: GroupRole, changed_by: String },
    /// The group was renamed.
    Renamed { group_id: String, new_name: String, old_name: Option<String>, renamed_by: String },
    /// The group was created.
    Created { group_id: String, name: String },
    /// The group is no longer registered with the relay.
    RelayUnsynced { group_id: String, reason: SyncReason },
    /// A message went out to all its recipients.
    MessageSent { group_id: String, message_ids: Vec<String>, member_count: u32 },
    /// A message did not go out to every recipient.
    PartialFailure { group_id: String, failed_members: Vec<String>, succeeded_members: Vec<String> },
    /// A broadcast settled.
    DeliveryReport { group_id: String, message_id: String, delivered: Vec<String>, pushed: Vec<String>, missed_reissued: Vec<String> },
    /// Rich extras could not be sealed and were dropped.
    RichExtrasDropped { group_id: String, unknown_members: Vec<String> },
    /// A membership change was not authorized.
    UnauthorizedChange { group_id: String, committer: String, added: Vec<String>, removed: Vec<String>, reason: ChangeReason, enforced: bool },
    /// The group may have forked.
    EpochForkDetected { group_id: String, local_epoch: Option<u64> },
    /// A fork was resolved by a key update.
    EpochForkResolved { group_id: String, resolved_epoch: u64, failed_members: Vec<String> },
    /// Plaintext that names a secured group was refused.
    PlaintextRejected { peer_id: String },
    /// A peer delivered a leaf whose key does not prove the identity it claims.
    LeafUnproven { peer_id: String },
}

/// What a [`Notice`] says.
#[verifier::ext_equal]
pub enum NoticeView {
    MessageReceived { group_id: Seq<char>, sender: Seq<char>, content: Seq<char>, timestamp: Seq<char>, message_id: Seq<char>, reply_to: Option<Seq<char>>, forward_info: Option<ForwardInfoView>, media_metadata: Option<Seq<char>>, content_type: Option<Seq<char>> },
    MemberAdded { group_id: Seq<char>, user_id: Seq<char>, added_by: Seq<char>, group_name: Option<Seq<char>>, authorized: Option<bool> },
    MemberRemoved { group_id: Seq<char>, user_id: Seq<char>, removed_by: Seq<char>, authorized: Option<bool> },
    RoleChanged { group_id: Seq<char>, user_id: Seq<char>, new_role: GroupRole, changed_by: Seq<char> },
    Renamed { group_id: Seq<char>, new_name: Seq<char>, old_name: Option<Seq<char>>, renamed_by: Seq<char> },
    Created { group_id: Seq<char>, name: Seq<char> },
    RelayUnsynced { group_id: Seq<char>, reason: SyncReason },
    MessageSent { group_id: Seq<char>, message_ids: Seq<Seq<char>>, member_count: u32 },
    PartialFailure { group_id: Seq<char>, failed_members: Seq<Seq<char>>, succeeded_members: Seq<Seq<char>> },
    DeliveryReport { group_id: Seq<char>, message_id: Seq<char>, delivered: Seq<Seq<char>>, pushed: Seq<Seq<char>>, missed_reissued: Seq<Seq<char>> },
    RichExtrasDropped { group_id: Seq<char>, unknown_members: Seq<Seq<char>> },
    UnauthorizedChange { group_id: Seq<char>, committer: Seq<char>, added: Seq<Seq<char>>, removed: Seq<Seq<char>>, reason: ChangeReason, enforced: bool },
    EpochForkDetected { group_id: Seq<char>, local_epoch: Option<u64> },
    EpochForkResolved { group_id: Seq<char>, resolved_epoch: u64, failed_members: Seq<Seq<char>> },
    PlaintextRejected { peer_id: Seq<char> },
    LeafUnproven { peer_id: Seq<char> },
}

impl DeepView for Notice {
    type V = NoticeView;

    open spec fn deep_view(&self) -> NoticeView {
        match self {
            Notice::MessageReceived { group_id, sender, content, timestamp, message_id, reply_to, forward_info, media_metadata, content_type } => NoticeView::MessageReceived {
                group_id: group_id.deep_view(),
                sender: sender.deep_view(),
                content: content.deep_view(),
                timestamp: timestamp.deep_view(),
                message_id: message_id.deep_view(),
                reply_to: reply_to.deep_view(),
                forward_info: forward_info.deep_view(),
                media_metadata: media_metadata.deep_view(),
                content_type: content_type.deep_view(),
            },
            Notice::MemberAdded { group_id, user_id, added_by, group_name, authorized } => NoticeView::MemberAdded {
                group_id: group_id.deep_view(),
                user_id: user_id.deep_view(),
                added_by: added_by.deep_view(),
                group_name: group_name.deep_view(),
                authorized: authorized.deep_view(),
            },
            Notice::MemberRemoved { group_id, user_id, removed_by, authorized } => NoticeView::MemberRemoved {
                group_id: group_id.deep_view(),
                user_id: user_id.deep_view(),
                removed_by: removed_by.deep_view(),
                authorized: authorized.deep_view(),
            },
            Notice::RoleChanged { group_id, user_id, new_role, changed_by } => NoticeView::RoleChanged {
                group_id: group_id.deep_view(),
                user_id: user_id.deep_view(),
                new_role: new_role.deep_view(),
                changed_by: changed_by.deep_view(),
            },
            Notice::Renamed { group_id, new_name, old_name, renamed_by } => NoticeView::Renamed {
                group_id: group_id.deep_view(),
                new_name: new_name.deep_view(),
                old_name: old_name.deep_view(),
                renamed_by: renamed_by.deep_view(),
            },
            Notice::Created { group_id, name } => NoticeView::Created {
                group_id: group_id.deep_view(),
                name: name.deep_view(),
            },
            Notice::RelayUnsynced { group_id, reason } => NoticeView::RelayUnsynced {
                group_id: group_id.deep_view(),
                reason: reason.deep_view(),
            },
            Notice::MessageSent { group_id, message_ids, member_count } => NoticeView::MessageSent {
                group_id: group_id.deep_view(),
                message_ids: message_ids.deep_view(),
                member_count: member_count.deep_view(),
            },
            Notice::PartialFailure { group_id, failed_members, succeeded_members } => NoticeView::PartialFailure {
                group_id: group_id.deep_view(),
                failed_members: failed_members.deep_view(),
                succeeded_members: succeeded_members.deep_view(),
            },
            Notice::DeliveryReport { group_id, message_id, delivered, pushed, missed_reissued } => NoticeView::DeliveryReport {
                group_id: group_id.deep_view(),
                message_id: message_id.deep_view(),
                delivered: delivered.deep_view(),
                pushed: pushed.deep_view(),
                missed_reissued: missed_reissued.deep_view(),
            },
            Notice::RichExtrasDropped { group_id, unknown_members } => NoticeView::RichExtrasDropped {
                group_id: group_id.deep_view(),
                unknown_members: unknown_members.deep_view(),
            },
            Notice::UnauthorizedChange { group_id, committer, added, removed, reason, enforced } => NoticeView::UnauthorizedChange {
                group_id: group_id.deep_view(),
                committer: committer.deep_view(),
                added: added.deep_view(),
                removed: removed.deep_view(),
                reason: reason.deep_view(),
                enforced: enforced.deep_view(),
            },
            Notice::EpochForkDetected { group_id, local_epoch } => NoticeView::EpochForkDetected {
                group_id: group_id.deep_view(),
                local_epoch: local_epoch.deep_view(),
            },
            Notice::EpochForkResolved { group_id, resolved_epoch, failed_members } => NoticeView::EpochForkResolved {
                group_id: group_id.deep_view(),
                resolved_epoch: resolved_epoch.deep_view(),
                failed_members: failed_members.deep_view(),
            },
            Notice::PlaintextRejected { peer_id } => NoticeView::PlaintextRejected {
                peer_id: peer_id.deep_view(),
            },
            Notice::LeafUnproven { peer_id } => NoticeView::LeafUnproven {
                peer_id: peer_id.deep_view(),
            },
        }
    }
}

/// One thing to carry out.
#[derive(Debug, Clone, PartialEq, Eq)]
pub enum Effect {
    /// Hand an event to the application.
    Notify(Notice),
    /// Store a role in the MLS layer.
    SetMemberRole { group_id: String, user_id: String, role: GroupRole },
    /// Forget a role in the MLS layer.
    RemoveMemberRole { group_id: String, user_id: String },
    /// Store the creator of record, unless one is on record.
    SetGroupCreator { group_id: String, creator: String },
    /// Store a group's name in the MLS layer.
    SetGroupName { group_id: String, name: String },
    /// Delete the local MLS state of a group.
    LeaveMlsGroup { group_id: String },
    /// Record attested rich-payload versions of a peer.
    RecordAttestedRich { user_id: String, versions: Vec<u8> },
    /// Forget a message id in the transport-level deduplicator.
    UnmarkSeen { message_id: String },
    /// Drop a peer's key package from memory.
    ForgetKeyPackage { user_id: String },
    /// Drop a peer's key package, in memory and in storage.
    ConsumeKeyPackage { user_id: String },
    /// Send a fresh key package to a peer, whether or not one was sent before.
    SendKeyPackage { user_id: String },
    /// Ask members of unknown rich capability for it.
    ProbeRichCapabilities { members: Vec<String> },
    /// Acknowledge a delivered message on the transport it came by.
    AckDelivery { to: String, message_id: String, transport: TransportType },
    /// Send one frame to each recipient; failures are only logged.
    Send { recipients: Vec<String>, frame: GroupFrame, priority: MessagePriority },
    /// Read the group's info and flag a potential epoch fork.
    InspectFork { group_id: String },
    /// Try the group's buffered commits again.
    DrainCommits { group_id: String },
    /// Try the group's buffered messages again.
    DrainMessages { group_id: String },
    /// Promote a member where no admin is left.
    AutoPromote { group_id: String, members: Vec<String> },
    /// Remove a member from the group.
    RemoveMember { group_id: String, user_id: String },
    /// Register the group with the relay.
    RegisterWithRelay { group_id: String, group_name: Option<String>, members: Vec<String> },
    /// Read the group's info and register the group with the relay.
    ResyncGroup { group_id: String },
    /// Send a relay broadcast again.
    ResendBroadcast { message_id: String, pending: RelayBroadcastPending },
    /// Read the group's info and send a broadcast to each member instead.
    DowngradeBroadcast { message_id: String, pending: RelayBroadcastPending },
    /// Read the group's info and see whether its fork is to be resolved.
    ResolveFork { group_id: String, local_epoch: Option<u64> },
    /// Read the group's info and see whether to remove a leaving member.
    ReviewElection { group_id: String, user_id: String },
}

/// What a [`Effect`] says.
#[verifier::ext_equal]
pub enum EffectView {
    Notify(NoticeView),
    SetMemberRole { group_id: Seq<char>, user_id: Seq<char>, role: GroupRole },
    RemoveMemberRole { group_id: Seq<char>, user_id: Seq<char> },
    SetGroupCreator { group_id: Seq<char>, creator: Seq<char> },
    SetGroupName { group_id: Seq<char>, name: Seq<char> },
    LeaveMlsGroup { group_id: Seq<char> },
    RecordAttestedRich { user_id: Seq<char>, versions: Seq<u8> },
    UnmarkSeen { message_id: Seq<char> },
    ForgetKeyPackage { user_id: Seq<char> },
    ConsumeKeyPackage { user_id: Seq<char> },
    SendKeyPackage { user_id: Seq<char> },
    ProbeRichCapabilities { members: Seq<Seq<char>> },
    AckDelivery { to: Seq<char>, message_id: Seq<char>, transport: TransportType },
    Send { recipients: Seq<Seq<char>>, frame: GroupFrameView, priority: MessagePriority },
    InspectFork { group_id: Seq<char> },
    DrainCommits { group_id: Seq<char> },
    DrainMessages { group_id: Seq<char> },
    AutoPromote { group_id: Seq<char>, members: Seq<Seq<char>> },
    RemoveMember { group_id: Seq<char>, user_id: Seq<char> },
    RegisterWithRelay { group_id: Seq<char>, group_name: Option<Seq<char>>, members: Seq<Seq<char>> },
    ResyncGroup { group_id: Seq<char> },
    ResendBroadcast { message_id: Seq<char>, pending: RelayBroadcastPendingView },
    DowngradeBroadcast { message_id: Seq<char>, pending: RelayBroadcastPendingView },
    ResolveFork { group_id: Seq<char>, local_epoch: Option<u64> },
    ReviewElection { group_id: Seq<char>, user_id: Seq<char> },
}

impl DeepView for Effect {
    type V = EffectView;

    open spec fn deep_view(&self) -> EffectView {
        match self {
            Effect::Notify(p) => EffectView::Notify(p.deep_view()),
            Effect::SetMemberRole { group_id, user_id, role } => EffectView::SetMemberRole {
                group_id: group_id.deep_view(),
                user_id: user_id.deep_view(),
                role: role.deep_view(),
            },
            Effect::RemoveMemberRole { group_id, user_id } => EffectView::RemoveMemberRole {
                group_id: group_id.deep_view(),
                user_id: user_id.deep_view(),
            },
            Effect::SetGroupCreator { group_id, creator } => EffectView::SetGroupCreator {
                group_id: group_id.deep_view(),
                creator: creator.deep_view(),
            },
            Effect::SetGroupName { group_id, name } => EffectView::SetGroupName {
                group_id: group_id.deep_view(),
                name: name.deep_view(),
            },
            Effect::LeaveMlsGroup { group_id } => EffectView::LeaveMlsGroup {
                group_id: group_id.deep_view(),
            },
            Effect::RecordAttestedRich { user_id, versions } => EffectView::RecordAttestedRich {
                user_id: user_id.deep_view(),
                versions: versions.deep_view(),
            },
            Effect::UnmarkSeen { message_id } => EffectView::UnmarkSeen {
                message_id: message_id.deep_view(),
            },
            Effect::ForgetKeyPackage { user_id } => EffectView::ForgetKeyPackage {
                user_id: user_id.deep_view(),
            },
            Effect::ConsumeKeyPackage { user_id } => EffectView::ConsumeKeyPackage {
                user_id: user_id.deep_view(),
            },
            Effect::SendKeyPackage { user_id } => EffectView::SendKeyPackage {
                user_id: user_id.deep_view(),
            },
            Effect::ProbeRichCapabilities { members } => EffectView::ProbeRichCapabilities {
                members: members.deep_view(),
            },
            Effect::AckDelivery { to, message_id, transport } => EffectView::AckDelivery {
                to: to.deep_view(),
                message_id: message_id.deep_view(),
                transport: transport.deep_view(),
            },
            Effect::Send { recipients, frame, priority } => EffectView::Send {
                recipients: recipients.deep_view(),
                frame: frame.deep_view(),
                priority: priority.deep_view(),
            },
            Effect::InspectFork { group_id } => EffectView::InspectFork {
                group_id: group_id.deep_view(),
            },
            Effect::DrainCommits { group_id } => EffectView::DrainCommits {
                group_id: group_id.deep_view(),
            },
            Effect::DrainMessages { group_id } => EffectView::DrainMessages {
                group_id: group_id.deep_view(),
            },
            Effect::AutoPromote { group_id, members } => EffectView::AutoPromote {
                group_id: group_id.deep_view(),
                members: members.deep_view(),
            },
            Effect::RemoveMember { group_id, user_id } => EffectView::RemoveMember {
                group_id: group_id.deep_view(),
                user_id: user_id.deep_view(),
            },
            Effect::RegisterWithRelay { group_id, group_name, members } => EffectView::RegisterWithRelay {
                group_id: group_id.deep_view(),
                group_name: group_name.deep_view(),
                members: members.deep_view(),
            },
            Effect::ResyncGroup { group_id } => EffectView::ResyncGroup {
                group_id: group_id.deep_view(),
            },
            Effect::ResendBroadcast { message_id, pending } => EffectView::ResendBroadcast {
                message_id: message_id.deep_view(),
                pending: pending.deep_view(),
            },
            Effect::DowngradeBroadcast { message_id, pending } => EffectView::DowngradeBroadcast {
                message_id: message_id.deep_view(),
                pending: pending.deep_view(),
            },
            Effect::ResolveFork { group_id, local_epoch } => EffectView::ResolveFork {
                group_id: group_id.deep_view(),
                local_epoch: local_epoch.deep_view(),
            },
            Effect::ReviewElection { group_id, user_id } => EffectView::ReviewElection {
                group_id: group_id.deep_view(),
                user_id: user_id.deep_view(),
            },
        }
    }
}

impl Notice {
    /// `event` says what this notice says.
    pub open spec fn shown_as(self, event: Event) -> bool {
        match self {
            Notice::MessageReceived { group_id, sender, content, timestamp, message_id, reply_to, forward_info, media_metadata, content_type } => event matches Event::GroupMessageReceived {
                group_id: e_group_id,
                sender: e_sender,
                content: e_content,
                timestamp: e_timestamp,
                message_id: e_message_id,
                reply_to_msg: e_reply_to_msg,
                forward_info: e_forward_info,
                media_metadata: e_media_metadata,
                content_type: e_content_type,
            } && e_group_id == group_id && e_sender == sender && e_content == content && e_timestamp == timestamp && e_message_id == message_id && e_reply_to_msg == reply_to && ForwardInfoEvent::of_option(e_forward_info, forward_info) && e_media_metadata == media_metadata && e_content_type == content_type,
            Notice::MemberAdded { group_id, user_id, added_by, group_name, authorized } => event matches Event::GroupMemberAdded {
                group_id: e_group_id,
                user_id: e_user_id,
                added_by: e_added_by,
                group_name: e_group_name,
                authorized: e_authorized,
            } && e_group_id == group_id && e_user_id == user_id && e_added_by == added_by && e_group_name == group_name && e_authorized == authorized,
            Notice::MemberRemoved { group_id, user_id, removed_by, authorized } => event matches Event::GroupMemberRemoved {
                group_id: e_group_id,
                user_id: e_user_id,
                removed_by: e_removed_by,
                authorized: e_authorized,
            } && e_group_id == group_id && e_user_id == user_id && e_removed_by == removed_by && e_authorized == authorized,
            Notice::RoleChanged { group_id, user_id, new_role, changed_by } => event matches Event::GroupRoleChanged {
                group_id: e_group_id,
                user_id: e_user_id,
                new_role: e_new_role,
                changed_by: e_changed_by,
            } && e_group_id == group_id && e_user_id == user_id && e_new_role@ == new_role.text() && e_changed_by == changed_by,
            Notice::Renamed { group_id, new_name, old_name, renamed_by } => event matches Event::GroupRenamed {
                group_id: e_group_id,
                new_name: e_new_name,
                old_name: e_old_name,
                renamed_by: e_renamed_by,
            } && e_group_id == group_id && e_new_name == new_name && e_old_name == old_name && e_renamed_by == renamed_by,
            Notice::Created { group_id, name } => event matches Event::GroupCreated {
                group_id: e_group_id,
                name: e_name,
            } && e_group_id == group_id && e_name == name,
            Notice::RelayUnsynced { group_id, reason } => event matches Event::GroupRelaySyncChanged {
                group_id: e_group_id,
                synced: e_synced,
                reason: e_reason,
            } && e_group_id == group_id && !e_synced && e_reason@ == reason.text(),
            Notice::MessageSent { group_id, message_ids, member_count } => event matches Event::GroupMessageSent {
                group_id: e_group_id,
                message_ids: e_message_ids,
                member_count: e_member_count,
            } && e_group_id == group_id && e_message_ids == message_ids && e_member_count == member_count,
            Notice::PartialFailure { group_id, failed_members, succeeded_members } => event matches Event::GroupMessagePartialFailure {
                group_id: e_group_id,
                failed_members: e_failed_members,
                succeeded_members: e_succeeded_members,
            } && e_group_id == group_id && e_failed_members == failed_members && e_succeeded_members == succeeded_members,
            Notice::DeliveryReport { group_id, message_id, delivered, pushed, missed_reissued } => event matches Event::GroupMessageDeliveryReport {
                group_id: e_group_id,
                message_id: e_message_id,
                delivered: e_delivered,
                pushed: e_pushed,
                missed_reissued: e_missed_reissued,
            } && e_group_id == group_id && e_message_id == message_id && e_delivered == delivered && e_pushed == pushed && e_missed_reissued == missed_reissued,
            Notice::RichExtrasDropped { group_id, unknown_members } => event matches Event::GroupRichExtrasDropped {
                group_id: e_group_id,
                unknown_members: e_unknown_members,
            } && e_group_id == group_id && e_unknown_members == unknown_members,
            Notice::UnauthorizedChange { group_id, committer, added, removed, reason, enforced } => event matches Event::GroupUnauthorizedMembershipChange {
                group_id: e_group_id,
                committer: e_committer,
                added: e_added,
                removed: e_removed,
                reason: e_reason,
                enforced: e_enforced,
            } && e_group_id == group_id && e_committer == committer && e_added == added && e_removed == removed && e_reason@ == reason.text() && e_enforced == enforced,
            Notice::EpochForkDetected { group_id, local_epoch } => event matches Event::GroupEpochForkDetected {
                group_id: e_group_id,
                local_epoch: e_local_epoch,
            } && e_group_id == group_id && e_local_epoch == local_epoch,
            Notice::EpochForkResolved { group_id, resolved_epoch, failed_members } => event matches Event::GroupEpochForkResolved {
                group_id: e_group_id,
                resolved_epoch: e_resolved_epoch,
                failed_members: e_failed_members,
            } && e_group_id == group_id && e_resolved_epoch == resolved_epoch && e_failed_members == failed_members,
            Notice::PlaintextRejected { peer_id } => event matches Event::SecurityWarning {
                peer_id: e_peer_id,
                reason_code,
                reason,
            } && e_peer_id == peer_id && reason_code
                == SecurityWarningCode::PlaintextReceiveRejected && reason@
                == PLAINTEXT_REJECTED@,
            Notice::LeafUnproven { peer_id } => event matches Event::SecurityWarning {
                peer_id: e_peer_id,
                reason_code,
                reason,
            } && e_peer_id == peer_id && reason_code
                == SecurityWarningCode::GroupLeafIdentityUnproven && reason@ == LEAF_UNPROVEN@,
        }
    }

    /// The event that the application sees.
    pub fn into_event(self) -> (event: Event)
        ensures
            self.shown_as(event),
    {
        match self {
            Notice::MessageReceived { group_id, sender, content, timestamp, message_id, reply_to, forward_info, media_metadata, content_type } => Event::group_message_received(
                group_id,
                sender,
                content,
                timestamp,
                message_id,
                reply_to,
                ForwardInfoEvent::from_option(&forward_info),
                media_metadata,
                content_type,
            ),
            Notice::MemberAdded { group_id, user_id, added_by, group_name, authorized } => Event::group_member_added(
                group_id,
                user_id,
                added_by,
                group_name,
                authorized,
            ),
            Notice::MemberRemoved { group_id, user_id, removed_by, authorized } => Event::group_member_removed(
                group_id,
                user_id,
                removed_by,
                authorized,
            ),
            Notice::RoleChanged { group_id, user_id, new_role, changed_by } => Event::group_role_changed(
                group_id,
                user_id,
                new_role.as_str().to_owned(),
                changed_by,
            ),
            Notice::Renamed { group_id, new_name, old_name, renamed_by } => Event::group_renamed(
                group_id,
                new_name,
                old_name,
                renamed_by,
            ),
            Notice::Created { group_id, name } => Event::group_created(
                group_id,
                name,
            ),
            Notice::RelayUnsynced { group_id, reason } => Event::group_relay_sync_changed(
                group_id,
                false,
                reason.as_str(),
            ),
            Notice::MessageSent { group_id, message_ids, member_count } => Event::group_message_sent(
                group_id,
                message_ids,
                member_count,
            ),
            Notice::PartialFailure { group_id, failed_members, succeeded_members } => Event::group_message_partial_failure(
                group_id,
                failed_members,
                succeeded_members,
            ),
            Notice::DeliveryReport { group_id, message_id, delivered, pushed, missed_reissued } => Event::group_message_delivery_report(
                group_id,
                message_id,
                delivered,
                pushed,
                missed_reissued,
            ),
            Notice::RichExtrasDropped { group_id, unknown_members } => Event::group_rich_extras_dropped(
                group_id,
                unknown_members,
            ),
            Notice::UnauthorizedChange { group_id, committer, added, removed, reason, enforced } => Event::group_unauthorized_membership_change(
                group_id,
                committer,
                added,
                removed,
                reason.as_str().to_owned(),
                enforced,
            ),
            Notice::EpochForkDetected { group_id, local_epoch } => Event::group_epoch_fork_detected(
                group_id,
                local_epoch,
            ),
            Notice::EpochForkResolved { group_id, resolved_epoch, failed_members } => Event::group_epoch_fork_resolved(
                group_id,
                resolved_epoch,
                failed_members,
            ),
            Notice::PlaintextRejected { peer_id } => Event::security_warning(
                peer_id,
                SecurityWarningCode::PlaintextReceiveRejected,
                PLAINTEXT_REJECTED.to_owned(),
            ),
            Notice::LeafUnproven { peer_id } => Event::security_warning(
                peer_id,
                SecurityWarningCode::GroupLeafIdentityUnproven,
                LEAF_UNPROVEN.to_owned(),
            ),
        }
    }
}

/// Effects in the order in which they are to be carried out.
#[derive(Debug, PartialEq, Eq)]
pub struct Effects {
    pub list: Vec<Effect>,
}

impl View for Effects {
    type V = Seq<EffectView>;

    open spec fn view(&self) -> Seq<EffectView> {
        self.list.deep_view()
    }
}

impl Effects {
    /// Nothing to carry out.
    pub fn new() -> (r: Self)
        ensures
            r@ == Seq::<EffectView>::empty(),
    {
        let r = Effects { list: Vec::new() };
        assert(r@ =~= Seq::<EffectView>::empty());
        r
    }

    /// Adds one effect at the end.
    pub fn push(&mut self, effect: Effect)
        ensures
            final(self)@ == old(self)@.push(effect.deep_view()),
    {
        let ghost before = self@;
        let ghost added = effect.deep_view();
        self.list.push(effect);
        assert(self@ =~= before.push(added));
    }

    /// Adds an event for the application at the end.
    pub fn notify(&mut self, notice: Notice)
        ensures
            final(self)@ == old(self)@.push(EffectView::Notify(notice.deep_view())),
    {
        self.push(Effect::Notify(notice));
    }
}

} // verus!
