//! Group values: what MLS reports about a group, what travels between members,
//! and what waits for group state to catch up.
//!
//! Monotonic times are nanoseconds since a fixed start; wall-clock times are
//! nanoseconds since 1970.

use vstd::prelude::*;

use crate::group_mesh::buffer::Buffered;
use crate::message::{ContentType, ForwardInfo, MediaMetadata, MessagePriority, TransportType};

verus! {

impl DeepView for MessagePriority {
    type V = MessagePriority;

    open spec fn deep_view(&self) -> MessagePriority {
        *self
    }
}

impl DeepView for TransportType {
    type V = TransportType;

    open spec fn deep_view(&self) -> TransportType {
        *self
    }
}

/// Media metadata is its encoded form.
impl DeepView for MediaMetadata {
    type V = Seq<char>;

    open spec fn deep_view(&self) -> Seq<char> {
        self.encoded@
    }
}

/// What a [`ForwardInfo`] says.
#[verifier::ext_equal]
pub struct ForwardInfoView {
    pub original_sender: Seq<char>,
    pub original_message_id: Seq<char>,
    pub original_timestamp: i64,
    pub forward_count: u32,
}

impl DeepView for ForwardInfo {
    type V = ForwardInfoView;

    open spec fn deep_view(&self) -> ForwardInfoView {
        ForwardInfoView {
            original_sender: self.original_sender@,
            original_message_id: self.original_message_id@,
            original_timestamp: self.original_timestamp,
            forward_count: self.forward_count,
        }
    }
}

/// A copy of an optional attribution.
pub fn copy_forward(info: &Option<ForwardInfo>) -> (r: Option<ForwardInfo>)
    ensures
        r.deep_view() == info.deep_view(),
{
    match info {
        Some(i) => Some(
            ForwardInfo {
                original_sender: i.original_sender.clone(),
                original_message_id: i.original_message_id.clone(),
                original_timestamp: i.original_timestamp,
                forward_count: i.forward_count,
            },
        ),
        None => None,
    }
}

/// A member's role in a group.
#[derive(Debug, Clone, Copy, PartialEq, Eq, Structural)]
pub enum GroupRole {
    Admin,
    /// The role of whoever has none on record.
    Member,
}

impl GroupRole {
    /// The role's display string.
    pub open spec fn text(self) -> Seq<char> {
        match self {
            GroupRole::Admin => "admin"@,
            GroupRole::Member => "member"@,
        }
    }

    /// The role's display string.
    pub fn as_str(&self) -> (r: &'static str)
        ensures
            r@ == self.text(),
    {
        match self {
            GroupRole::Admin => "admin",
            GroupRole::Member => "member",
        }
    }
}

impl DeepView for GroupRole {
    type V = GroupRole;

    open spec fn deep_view(&self) -> GroupRole {
        *self
    }
}

/// What MLS reports about a group it holds.
#[derive(Debug, Clone, PartialEq, Eq)]
pub struct GroupInfo {
    /// MLS group identifier.
    pub group_id: String,
    /// Member user ids.
    pub members: Vec<String>,
    /// Current epoch.
    pub epoch: u64,
}

/// What a [`GroupInfo`] says.
#[verifier::ext_equal]
pub struct GroupInfoView {
    pub group_id: Seq<char>,
    pub members: Seq<Seq<char>>,
    pub epoch: u64,
}

impl DeepView for GroupInfo {
    type V = GroupInfoView;

    open spec fn deep_view(&self) -> GroupInfoView {
        GroupInfoView {
            group_id: self.group_id.deep_view(),
            members: self.members.deep_view(),
            epoch: self.epoch.deep_view(),
        }
    }
}

/// The role overlay that is kept beside a group.
#[derive(Debug, Clone, PartialEq, Eq)]
pub struct GroupMetadata {
    /// Roles on record. The first entry of a user counts.
    pub roles: Vec<(String, GroupRole)>,
    /// Who created the group, where that is known.
    pub created_by: Option<String>,
    /// Human-readable name.
    pub name: Option<String>,
}

/// What a [`GroupMetadata`] says.
#[verifier::ext_equal]
pub struct GroupMetadataView {
    pub roles: Seq<(Seq<char>, GroupRole)>,
    pub created_by: Option<Seq<char>>,
    pub name: Option<Seq<char>>,
}

impl DeepView for GroupMetadata {
    type V = GroupMetadataView;

    open spec fn deep_view(&self) -> GroupMetadataView {
        GroupMetadataView {
            roles: self.roles.deep_view(),
            created_by: self.created_by.deep_view(),
            name: self.name.deep_view(),
        }
    }
}

/// Relay-side registration state of a group.
#[derive(Debug, Clone, Copy, PartialEq, Eq, Structural)]
pub enum RelaySyncState {
    /// The relay positively acknowledged the group's registration on the
    /// current connection.
    Synced,
    /// A registration was sent and its acknowledgment is outstanding.
    Pending,
    /// No registration is in flight.
    Unsynced,
}

/// Snapshot of whether a rich group send right now would seal its extras.
#[derive(Debug, Clone, PartialEq, Eq)]
pub struct GroupRichReadiness {
    /// True when every other member is known rich-capable and the local kill
    /// switch is on.
    pub ready: bool,
    /// Members not known to parse the sealed rich payload. Empty when `ready`,
    /// and also empty when only the local kill switch blocks sealing.
    pub unknown_members: Vec<String>,
}

/// Options of a group send.
#[derive(Debug, Clone, PartialEq, Eq)]
pub struct GroupSendOptions {
    /// Message priority (medium where absent).
    pub priority: Option<MessagePriority>,
    /// Id of the message this is replying to.
    pub reply_to_msg: Option<String>,
    /// Content-type rendering hint, delivered sealed only.
    pub content_type: Option<ContentType>,
    /// Rich media metadata, delivered sealed only.
    pub media_metadata: Option<MediaMetadata>,
}

impl Default for GroupSendOptions {
    fn default() -> (r: Self)
        ensures
            r.priority is None,
            r.reply_to_msg is None,
            r.content_type is None,
            r.media_metadata is None,
    {
        GroupSendOptions {
            priority: None,
            reply_to_msg: None,
            content_type: None,
            media_metadata: None,
        }
    }
}

/// What the receive loop does with a frame after a handler has seen it.
#[derive(Debug, Clone, Copy, PartialEq, Eq, Structural)]
pub enum InternalMessageResult {
    /// Handled: acknowledge it.
    Consumed,
    /// Held back: do not acknowledge, so that the sender keeps retrying.
    Deferred,
    /// Refused for its sender: suppress the acknowledgment.
    SecurityRejected,
}

/// Type of a group membership commit.
#[derive(Debug, Clone, Copy, PartialEq, Eq, Structural)]
pub enum GroupCommitType {
    /// A member was added.
    Add,
    /// A member was removed.
    Remove,
    /// The epoch advances without a membership change.
    KeyUpdate,
}

impl DeepView for GroupCommitType {
    type V = GroupCommitType;

    open spec fn deep_view(&self) -> GroupCommitType {
        *self
    }
}

/// An MLS-encrypted group message.
#[derive(Debug, Clone, PartialEq, Eq)]
pub struct GroupMlsMessagePayload {
    /// MLS group identifier.
    pub group_id: String,
    /// Base64-encoded MLS ciphertext.
    pub ciphertext: String,
    /// Epoch of encryption.
    pub epoch: u64,
    /// Message this replies to.
    pub reply_to: Option<String>,
    /// Forwarding attribution.
    pub forward_info: Option<ForwardInfo>,
    /// Logical id, present when the frame re-issues a relay broadcast.
    pub message_id: Option<String>,
}

/// What a [`GroupMlsMessagePayload`] says.
#[verifier::ext_equal]
pub struct GroupMlsMessagePayloadView {
    pub group_id: Seq<char>,
    pub ciphertext: Seq<char>,
    pub epoch: u64,
    pub reply_to: Option<Seq<char>>,
    pub forward_info: Option<ForwardInfoView>,
    pub message_id: Option<Seq<char>>,
}

impl DeepView for GroupMlsMessagePayload {
    type V = GroupMlsMessagePayloadView;

    open spec fn deep_view(&self) -> GroupMlsMessagePayloadView {
        GroupMlsMessagePayloadView {
            group_id: self.group_id.deep_view(),
            ciphertext: self.ciphertext.deep_view(),
            epoch: self.epoch.deep_view(),
            reply_to: self.reply_to.deep_view(),
            forward_info: self.forward_info.deep_view(),
            message_id: self.message_id.deep_view(),
        }
    }
}

/// An MLS welcome: a group invite.
#[derive(Debug, Clone, PartialEq, Eq)]
pub struct GroupMlsWelcomePayload {
    /// MLS group identifier.
    pub group_id: String,
    /// Human-readable name.
    pub group_name: Option<String>,
    /// Base64-encoded MLS welcome.
    pub welcome_data: String,
    /// Members at the time of the invite.
    pub member_list: Vec<String>,
    /// Role assignments.
    pub member_roles: Vec<(String, GroupRole)>,
    /// Rich-payload versions attested per member.
    pub member_rich: Vec<(String, Vec<u8>)>,
    /// The creator the inviter has on record.
    pub created_by: Option<String>,
}

/// What a [`GroupMlsWelcomePayload`] says.
#[verifier::ext_equal]
pub struct GroupMlsWelcomePayloadView {
    pub group_id: Seq<char>,
    pub group_name: Option<Seq<char>>,
    pub welcome_data: Seq<char>,
    pub member_list: Seq<Seq<char>>,
    pub member_roles: Seq<(Seq<char>, GroupRole)>,
    pub member_rich: Seq<(Seq<char>, Seq<u8>)>,
    pub created_by: Option<Seq<char>>,
}

impl DeepView for GroupMlsWelcomePayload {
    type V = GroupMlsWelcomePayloadView;

    open spec fn deep_view(&self) -> GroupMlsWelcomePayloadView {
        GroupMlsWelcomePayloadView {
            group_id: self.group_id.deep_view(),
            group_name: self.group_name.deep_view(),
            welcome_data: self.welcome_data.deep_view(),
            member_list: self.member_list.deep_view(),
            member_roles: self.member_roles.deep_view(),
            member_rich: self.member_rich.deep_view(),
            created_by: self.created_by.deep_view(),
        }
    }
}

/// An MLS commit: a membership change or a key update.
#[derive(Debug, Clone, PartialEq, Eq)]
pub struct GroupMlsCommitPayload {
    /// MLS group identifier.
    pub group_id: String,
    /// What the commit claims to do.
    pub commit_type: GroupCommitType,
    /// Base64-encoded MLS commit.
    pub ciphertext: String,
    /// Epoch of the commit.
    pub epoch: u64,
    /// Member it claims to add or remove.
    pub affected_member: Option<String>,
    /// Role it assigns to the added member.
    pub role: Option<GroupRole>,
    /// Rich-payload versions attested for the added member.
    pub affected_member_rich: Option<Vec<u8>>,
}

/// What a [`GroupMlsCommitPayload`] says.
#[verifier::ext_equal]
pub struct GroupMlsCommitPayloadView {
    pub group_id: Seq<char>,
    pub commit_type: GroupCommitType,
    pub ciphertext: Seq<char>,
    pub epoch: u64,
    pub affected_member: Option<Seq<char>>,
    pub role: Option<GroupRole>,
    pub affected_member_rich: Option<Seq<u8>>,
}

impl DeepView for GroupMlsCommitPayload {
    type V = GroupMlsCommitPayloadView;

    open spec fn deep_view(&self) -> GroupMlsCommitPayloadView {
        GroupMlsCommitPayloadView {
            group_id: self.group_id.deep_view(),
            commit_type: self.commit_type.deep_view(),
            ciphertext: self.ciphertext.deep_view(),
            epoch: self.epoch.deep_view(),
            affected_member: self.affected_member.deep_view(),
            role: self.role.deep_view(),
            affected_member_rich: self.affected_member_rich.deep_view(),
        }
    }
}

/// A leave notification.
#[derive(Debug, Clone, PartialEq, Eq)]
pub struct GroupMlsLeavePayload {
    /// MLS group identifier.
    pub group_id: String,
    /// Who leaves.
    pub leaving_member: String,
}

/// What a [`GroupMlsLeavePayload`] says.
#[verifier::ext_equal]
pub struct GroupMlsLeavePayloadView {
    pub group_id: Seq<char>,
    pub leaving_member: Seq<char>,
}

impl DeepView for GroupMlsLeavePayload {
    type V = GroupMlsLeavePayloadView;

    open spec fn deep_view(&self) -> GroupMlsLeavePayloadView {
        GroupMlsLeavePayloadView {
            group_id: self.group_id.deep_view(),
            leaving_member: self.leaving_member.deep_view(),
        }
    }
}

/// A role change notification.
#[derive(Debug, Clone, PartialEq, Eq)]
pub struct GroupRoleChangePayload {
    /// MLS group identifier.
    pub group_id: String,
    /// Whose role changed.
    pub target_user_id: String,
    /// The new role.
    pub new_role: GroupRole,
    /// Who changed it.
    pub changed_by: String,
}

/// What a [`GroupRoleChangePayload`] says.
#[verifier::ext_equal]
pub struct GroupRoleChangePayloadView {
    pub group_id: Seq<char>,
    pub target_user_id: Seq<char>,
    pub new_role: GroupRole,
    pub changed_by: Seq<char>,
}

impl DeepView for GroupRoleChangePayload {
    type V = GroupRoleChangePayloadView;

    open spec fn deep_view(&self) -> GroupRoleChangePayloadView {
        GroupRoleChangePayloadView {
            group_id: self.group_id.deep_view(),
            target_user_id: self.target_user_id.deep_view(),
            new_role: self.new_role.deep_view(),
            changed_by: self.changed_by.deep_view(),
        }
    }
}

/// A rename notification.
#[derive(Debug, Clone, PartialEq, Eq)]
pub struct GroupRenamePayload {
    /// MLS group identifier.
    pub group_id: String,
    /// The new name.
    pub new_name: String,
    /// Who renamed the group.
    pub renamed_by: String,
}

/// What a [`GroupRenamePayload`] says.
#[verifier::ext_equal]
pub struct GroupRenamePayloadView {
    pub group_id: Seq<char>,
    pub new_name: Seq<char>,
    pub renamed_by: Seq<char>,
}

impl DeepView for GroupRenamePayload {
    type V = GroupRenamePayloadView;

    open spec fn deep_view(&self) -> GroupRenamePayloadView {
        GroupRenamePayloadView {
            group_id: self.group_id.deep_view(),
            new_name: self.new_name.deep_view(),
            renamed_by: self.renamed_by.deep_view(),
        }
    }
}

/// Tells a removed member that they were removed.
#[derive(Debug, Clone, PartialEq, Eq)]
pub struct GroupMemberRemovedPayload {
    /// MLS group identifier.
    pub group_id: String,
    /// Who was removed.
    pub user_id: String,
    /// Who removed them.
    pub removed_by: String,
}

/// What a [`GroupMemberRemovedPayload`] says.
#[verifier::ext_equal]
pub struct GroupMemberRemovedPayloadView {
    pub group_id: Seq<char>,
    pub user_id: Seq<char>,
    pub removed_by: Seq<char>,
}

impl DeepView for GroupMemberRemovedPayload {
    type V = GroupMemberRemovedPayloadView;

    open spec fn deep_view(&self) -> GroupMemberRemovedPayloadView {
        GroupMemberRemovedPayloadView {
            group_id: self.group_id.deep_view(),
            user_id: self.user_id.deep_view(),
            removed_by: self.removed_by.deep_view(),
        }
    }
}

/// Registers a group with the relay.
#[derive(Debug, Clone, PartialEq, Eq)]
pub struct RelayGroupRegistrationPayload {
    /// MLS group identifier.
    pub group_id: String,
    /// Human-readable name.
    pub group_name: Option<String>,
    /// Current members.
    pub members: Vec<String>,
    /// Whether the registering user is an admin, where that is known.
    pub is_admin: Option<bool>,
}

/// What a [`RelayGroupRegistrationPayload`] says.
#[verifier::ext_equal]
pub struct RelayGroupRegistrationPayloadView {
    pub group_id: Seq<char>,
    pub group_name: Option<Seq<char>>,
    pub members: Seq<Seq<char>>,
    pub is_admin: Option<bool>,
}

impl DeepView for RelayGroupRegistrationPayload {
    type V = RelayGroupRegistrationPayloadView;

    open spec fn deep_view(&self) -> RelayGroupRegistrationPayloadView {
        RelayGroupRegistrationPayloadView {
            group_id: self.group_id.deep_view(),
            group_name: self.group_name.deep_view(),
            members: self.members.deep_view(),
            is_admin: self.is_admin.deep_view(),
        }
    }
}

/// A group message for the relay to fan out.
#[derive(Debug, Clone, PartialEq, Eq)]
pub struct RelayGroupBroadcastPayload {
    /// MLS group identifier.
    pub group_id: String,
    /// Base64-encoded MLS ciphertext.
    pub ciphertext: String,
    /// Epoch of encryption.
    pub epoch: u64,
    /// Message this replies to.
    pub reply_to: Option<String>,
    /// Forwarding attribution.
    pub forward_info: Option<ForwardInfo>,
    /// Logical id, stable across re-sends.
    pub message_id: String,
}

/// What a [`RelayGroupBroadcastPayload`] says.
#[verifier::ext_equal]
pub struct RelayGroupBroadcastPayloadView {
    pub group_id: Seq<char>,
    pub ciphertext: Seq<char>,
    pub epoch: u64,
    pub reply_to: Option<Seq<char>>,
    pub forward_info: Option<ForwardInfoView>,
    pub message_id: Seq<char>,
}

impl DeepView for RelayGroupBroadcastPayload {
    type V = RelayGroupBroadcastPayloadView;

    open spec fn deep_view(&self) -> RelayGroupBroadcastPayloadView {
        RelayGroupBroadcastPayloadView {
            group_id: self.group_id.deep_view(),
            ciphertext: self.ciphertext.deep_view(),
            epoch: self.epoch.deep_view(),
            reply_to: self.reply_to.deep_view(),
            forward_info: self.forward_info.deep_view(),
            message_id: self.message_id.deep_view(),
        }
    }
}

/// What the relay reports of a settled fan-out. Members it could not reach are
/// told by their absence from both lists.
#[derive(Debug, Clone, PartialEq, Eq)]
pub struct RelayGroupDeliveryReport {
    /// MLS group identifier.
    pub group_id: String,
    /// The broadcast's logical id.
    pub message_id: String,
    /// Members whose socket write was confirmed.
    pub delivered: Vec<String>,
    /// Members who took a device push.
    pub pushed: Vec<String>,
}

/// What a [`RelayGroupDeliveryReport`] says.
#[verifier::ext_equal]
pub struct RelayGroupDeliveryReportView {
    pub group_id: Seq<char>,
    pub message_id: Seq<char>,
    pub delivered: Seq<Seq<char>>,
    pub pushed: Seq<Seq<char>>,
}

impl DeepView for RelayGroupDeliveryReport {
    type V = RelayGroupDeliveryReportView;

    open spec fn deep_view(&self) -> RelayGroupDeliveryReportView {
        RelayGroupDeliveryReportView {
            group_id: self.group_id.deep_view(),
            message_id: self.message_id.deep_view(),
            delivered: self.delivered.deep_view(),
            pushed: self.pushed.deep_view(),
        }
    }
}

/// A commit that arrived out of order and waits to be tried again.
#[derive(Debug, Clone, PartialEq, Eq)]
pub struct PendingCommit {
    /// Who sent it.
    pub sender: String,
    /// Its id, already recorded as seen.
    pub message_id: String,
    /// The frame body, for replay.
    pub data: String,
    /// When it was buffered.
    pub buffered_at: u128,
    /// How often it was tried again and still failed.
    pub retry_count: u32,
}

/// What a [`PendingCommit`] says.
#[verifier::ext_equal]
pub struct PendingCommitView {
    pub sender: Seq<char>,
    pub message_id: Seq<char>,
    pub data: Seq<char>,
    pub buffered_at: u128,
    pub retry_count: u32,
}

impl DeepView for PendingCommit {
    type V = PendingCommitView;

    open spec fn deep_view(&self) -> PendingCommitView {
        PendingCommitView {
            sender: self.sender.deep_view(),
            message_id: self.message_id.deep_view(),
            data: self.data.deep_view(),
            buffered_at: self.buffered_at.deep_view(),
            retry_count: self.retry_count.deep_view(),
        }
    }
}

/// A group message that arrived before local state could decrypt it.
#[derive(Debug, Clone, PartialEq, Eq)]
pub struct PendingGroupMessage {
    /// Who sent it.
    pub sender: String,
    /// Its id, already recorded as seen.
    pub message_id: String,
    /// Logical id, when the frame re-issued a relay broadcast.
    pub logical_id: Option<String>,
    /// Base64-encoded MLS ciphertext.
    pub ciphertext_b64: String,
    /// Relay-provided timestamp; absent for mesh messages.
    pub timestamp: Option<String>,
    /// Message this replies to.
    pub reply_to: Option<String>,
    /// Forwarding attribution.
    pub forward_info: Option<ForwardInfo>,
    /// When it was buffered.
    pub buffered_at: u128,
    /// Transport it arrived on, for the deferred acknowledgment.
    pub received_via: Option<TransportType>,
}

/// What a [`PendingGroupMessage`] says.
#[verifier::ext_equal]
pub struct PendingGroupMessageView {
    pub sender: Seq<char>,
    pub message_id: Seq<char>,
    pub logical_id: Option<Seq<char>>,
    pub ciphertext_b64: Seq<char>,
    pub timestamp: Option<Seq<char>>,
    pub reply_to: Option<Seq<char>>,
    pub forward_info: Option<ForwardInfoView>,
    pub buffered_at: u128,
    pub received_via: Option<TransportType>,
}

impl DeepView for PendingGroupMessage {
    type V = PendingGroupMessageView;

    open spec fn deep_view(&self) -> PendingGroupMessageView {
        PendingGroupMessageView {
            sender: self.sender.deep_view(),
            message_id: self.message_id.deep_view(),
            logical_id: self.logical_id.deep_view(),
            ciphertext_b64: self.ciphertext_b64.deep_view(),
            timestamp: self.timestamp.deep_view(),
            reply_to: self.reply_to.deep_view(),
            forward_info: self.forward_info.deep_view(),
            buffered_at: self.buffered_at.deep_view(),
            received_via: self.received_via.deep_view(),
        }
    }
}

impl Buffered for PendingCommit {
    open spec fn weight(entry: PendingCommitView) -> nat {
        vstd::utf8::encode_utf8(entry.data).len()
    }

    open spec fn since(entry: PendingCommitView) -> u128 {
        entry.buffered_at
    }

    fn entry_bytes(&self) -> (n: usize) {
        self.data.as_str().as_bytes().len()
    }

    fn buffered_since(&self) -> (t: u128) {
        self.buffered_at
    }
}

impl Buffered for PendingGroupMessage {
    open spec fn weight(entry: PendingGroupMessageView) -> nat {
        vstd::utf8::encode_utf8(entry.ciphertext_b64).len()
    }

    open spec fn since(entry: PendingGroupMessageView) -> u128 {
        entry.buffered_at
    }

    fn entry_bytes(&self) -> (n: usize) {
        self.ciphertext_b64.as_str().as_bytes().len()
    }

    fn buffered_since(&self) -> (t: u128) {
        self.buffered_at
    }
}

/// A leave that waits for the elected member's remove-commit.
#[derive(Debug, Clone, PartialEq, Eq)]
pub struct PendingLeaveElection {
    /// Group the leave is for.
    pub group_id: String,
    /// Who leaves.
    pub leaving_member: String,
    /// When the notification came.
    pub received_at: u128,
    /// When this node last tried to issue the commit.
    pub last_attempt_at: Option<u128>,
}

/// What a [`PendingLeaveElection`] says.
#[verifier::ext_equal]
pub struct PendingLeaveElectionView {
    pub group_id: Seq<char>,
    pub leaving_member: Seq<char>,
    pub received_at: u128,
    pub last_attempt_at: Option<u128>,
}

impl DeepView for PendingLeaveElection {
    type V = PendingLeaveElectionView;

    open spec fn deep_view(&self) -> PendingLeaveElectionView {
        PendingLeaveElectionView {
            group_id: self.group_id.deep_view(),
            leaving_member: self.leaving_member.deep_view(),
            received_at: self.received_at.deep_view(),
            last_attempt_at: self.last_attempt_at.deep_view(),
        }
    }
}

/// A suspected epoch fork.
#[derive(Debug, Clone, PartialEq, Eq)]
pub struct EpochForkState {
    /// Local epoch at detection, where MLS could tell.
    pub local_epoch: Option<u64>,
    /// When the fork was first suspected.
    pub detected_at: u128,
    /// Whether resolution was attempted.
    pub resolution_attempted: bool,
}

/// What a [`EpochForkState`] says.
#[verifier::ext_equal]
pub struct EpochForkStateView {
    pub local_epoch: Option<u64>,
    pub detected_at: u128,
    pub resolution_attempted: bool,
}

impl DeepView for EpochForkState {
    type V = EpochForkStateView;

    open spec fn deep_view(&self) -> EpochForkStateView {
        EpochForkStateView {
            local_epoch: self.local_epoch.deep_view(),
            detected_at: self.detected_at.deep_view(),
            resolution_attempted: self.resolution_attempted.deep_view(),
        }
    }
}

/// A relay registration in flight.
#[derive(Debug, Clone, PartialEq, Eq)]
pub struct RelayRegisterPending {
    /// When the frame was last sent (wall clock).
    pub armed_at: i64,
    /// Sends on this connection.
    pub attempts: u32,
}

/// What a [`RelayRegisterPending`] says.
#[verifier::ext_equal]
pub struct RelayRegisterPendingView {
    pub armed_at: i64,
    pub attempts: u32,
}

impl DeepView for RelayRegisterPending {
    type V = RelayRegisterPendingView;

    open spec fn deep_view(&self) -> RelayRegisterPendingView {
        RelayRegisterPendingView {
            armed_at: self.armed_at.deep_view(),
            attempts: self.attempts.deep_view(),
        }
    }
}

/// A relay broadcast that waits for its delivery report.
#[derive(Debug, Clone, PartialEq, Eq)]
pub struct RelayBroadcastPending {
    /// MLS group identifier.
    pub group_id: String,
    /// Base64-encoded MLS ciphertext, reused verbatim.
    pub ciphertext_b64: String,
    /// Epoch of encryption.
    pub epoch: u64,
    /// Message this replies to.
    pub reply_to: Option<String>,
    /// Hop-visible attribution.
    pub forward_info: Option<ForwardInfo>,
    /// Priority of the send.
    pub priority: MessagePriority,
    /// When the broadcast was last sent (wall clock).
    pub armed_at: i64,
    /// Sends of this message.
    pub attempts: u32,
}

/// What a [`RelayBroadcastPending`] says.
#[verifier::ext_equal]
pub struct RelayBroadcastPendingView {
    pub group_id: Seq<char>,
    pub ciphertext_b64: Seq<char>,
    pub epoch: u64,
    pub reply_to: Option<Seq<char>>,
    pub forward_info: Option<ForwardInfoView>,
    pub priority: MessagePriority,
    pub armed_at: i64,
    pub attempts: u32,
}

impl DeepView for RelayBroadcastPending {
    type V = RelayBroadcastPendingView;

    open spec fn deep_view(&self) -> RelayBroadcastPendingView {
        RelayBroadcastPendingView {
            group_id: self.group_id.deep_view(),
            ciphertext_b64: self.ciphertext_b64.deep_view(),
            epoch: self.epoch.deep_view(),
            reply_to: self.reply_to.deep_view(),
            forward_info: self.forward_info.deep_view(),
            priority: self.priority.deep_view(),
            armed_at: self.armed_at.deep_view(),
            attempts: self.attempts.deep_view(),
        }
    }
}

/// When an unauthorized membership change was last reported.
#[derive(Debug, Clone, PartialEq, Eq)]
pub struct UnauthorizedReport {
    /// Group.
    pub group_id: String,
    /// Who committed the change.
    pub committer: String,
    /// Whether the commit was refused rather than applied.
    pub enforced: bool,
    /// When it was reported.
    pub reported_at: u128,
}

/// What a [`UnauthorizedReport`] says.
#[verifier::ext_equal]
pub struct UnauthorizedReportView {
    pub group_id: Seq<char>,
    pub committer: Seq<char>,
    pub enforced: bool,
    pub reported_at: u128,
}

impl DeepView for UnauthorizedReport {
    type V = UnauthorizedReportView;

    open spec fn deep_view(&self) -> UnauthorizedReportView {
        UnauthorizedReportView {
            group_id: self.group_id.deep_view(),
            committer: self.committer.deep_view(),
            enforced: self.enforced.deep_view(),
            reported_at: self.reported_at.deep_view(),
        }
    }
}

} // verus!
