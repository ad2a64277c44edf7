//! What the application is told: an event says all that its notice says.

use vstd::prelude::*;

use crate::events::{Event, SecurityWarningCode};
use crate::group_mesh::effect::Notice;

verus! {

/// A notice can be read back from the event that it is told as: every name, list,
/// id, count and verdict stands in the event as it stood in the notice.
pub proof fn an_event_says_what_its_notice_says(notice: Notice, event: Event)
    requires
        notice.shown_as(event),
    ensures
        match event {
            Event::GroupMessageReceived {
                group_id,
                sender,
                content,
                timestamp,
                message_id,
                reply_to_msg,
                forward_info,
                media_metadata,
                content_type,
            } => notice matches Notice::MessageReceived { forward_info: told, .. } && notice == (
            Notice::MessageReceived {
                group_id,
                sender,
                content,
                timestamp,
                message_id,
                reply_to: reply_to_msg,
                forward_info: told,
                media_metadata,
                content_type,
            }) && (forward_info is Some <==> told is Some) && (told matches Some(info)
                ==> forward_info->0.original_sender@ == info.original_sender@
                && forward_info->0.original_message_id@ == info.original_message_id@
                && forward_info->0.original_timestamp == info.original_timestamp
                && forward_info->0.forward_count == info.forward_count),
            Event::GroupMemberAdded { group_id, user_id, added_by, group_name, authorized } => notice
                == (Notice::MemberAdded { group_id, user_id, added_by, group_name, authorized }),
            Event::GroupMemberRemoved { group_id, user_id, removed_by, authorized } => notice == (
            Notice::MemberRemoved { group_id, user_id, removed_by, authorized }),
            Event::GroupRoleChanged { group_id, user_id, new_role, changed_by } => notice matches
                Notice::RoleChanged { new_role: role, .. } && notice == (Notice::RoleChanged {
                group_id,
                user_id,
                new_role: role,
                changed_by,
            }) && new_role@ == role.text(),
            Event::GroupRenamed { group_id, new_name, old_name, renamed_by } => notice == (
            Notice::Renamed { group_id, new_name, old_name, renamed_by }),
            Event::GroupCreated { group_id, name } => notice == (Notice::Created {
                group_id,
                name,
            }),
            Event::GroupRelaySyncChanged { group_id, synced, reason } => notice matches
                Notice::RelayUnsynced { reason: why, .. } && notice == (Notice::RelayUnsynced {
                group_id,
                reason: why,
            }) && !synced && reason@ == why.text(),
            Event::GroupMessageSent { group_id, message_ids, member_count } => notice == (
            Notice::MessageSent { group_id, message_ids, member_count }),
            Event::GroupMessagePartialFailure { group_id, failed_members, succeeded_members } => notice
                == (Notice::PartialFailure { group_id, failed_members, succeeded_members }),
            Event::GroupMessageDeliveryReport {
                group_id,
                message_id,
                delivered,
                pushed,
                missed_reissued,
            } => notice == (Notice::DeliveryReport {
                group_id,
                message_id,
                delivered,
                pushed,
                missed_reissued,
            }),
            Event::GroupRichExtrasDropped { group_id, unknown_members } => notice == (
            Notice::RichExtrasDropped { group_id, unknown_members }),
            Event::GroupUnauthorizedMembershipChange {
                group_id,
                committer,
                added,
                removed,
                reason,
                enforced,
            } => notice matches Notice::UnauthorizedChange { reason: why, .. } && notice == (
            Notice::UnauthorizedChange {
                group_id,
                committer,
                added,
                removed,
                reason: why,
                enforced,
            }) && reason@ == why.text(),
            Event::GroupEpochForkDetected { group_id, local_epoch } => notice == (
            Notice::EpochForkDetected { group_id, local_epoch }),
            Event::GroupEpochForkResolved { group_id, resolved_epoch, failed_members } => notice
                == (Notice::EpochForkResolved { group_id, resolved_epoch, failed_members }),
            Event::SecurityWarning { peer_id, reason_code, .. } => {
                ||| notice == (Notice::PlaintextRejected { peer_id }) && reason_code
                    == SecurityWarningCode::PlaintextReceiveRejected
                ||| notice == (Notice::LeafUnproven { peer_id }) && reason_code
                    == SecurityWarningCode::GroupLeafIdentityUnproven
            },
            _ => false,
        },
{
}

} // verus!
