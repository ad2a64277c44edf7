//! What a debug rendering of an event shows.
//!
//! Message content, and every field that names a person or a device, is left out
//! of the rendering, so that logs cannot carry it.

use vstd::prelude::*;

use crate::events::{copy_text, Event, ForwardInfoEvent, GroupInfoMember, ReplyContextEvent};

verus! {

/// The value shown for one field.
#[derive(Debug)]
pub enum Shown {
    /// The field is withheld.
    Redacted,
    /// The field is withheld; its length in bytes is shown.
    RedactedBytes(usize),
    /// Base64 text; its length in bytes is shown.
    Base64Bytes(usize),
    Text(String),
    OptionalText(Option<String>),
    Bool(bool),
    OptionalBool(Option<bool>),
    Unsigned(u64),
    OptionalUnsigned(Option<u64>),
    Signed(i64),
    OptionalSigned(Option<i64>),
    OptionalShort(Option<i16>),
    /// The name of an enumeration's variant.
    Variant(&'static str),
    /// A single-precision value, as bits.
    Single(u32),
    /// Names with single-precision scores, as bits.
    Scores(Vec<(String, u32)>),
}

/// One line of a rendering: a field's name and what is shown for it.
pub type Line = (&'static str, Shown);

fn copy_scores(scores: &Vec<(String, u32)>) -> (r: Vec<(String, u32)>)
    ensures
        r@ == scores@,
{
    let mut r: Vec<(String, u32)> = Vec::new();
    let mut i: usize = 0;
    while i < scores.len()
        invariant
            i <= scores@.len(),
            r@ == scores@.take(i as int),
        decreases scores@.len() - i,
    {
        r.push((scores[i].0.clone(), scores[i].1));
        assert(r@ =~= scores@.take(i + 1));
        i = i + 1;
    }
    assert(r@ =~= scores@);
    r
}

/// Two lines show the same: the same field and the same value.
pub open spec fn same_line(a: Line, b: Line) -> bool {
    &&& a.0 == b.0
    &&& match (a.1, b.1) {
        (Shown::Scores(x), Shown::Scores(y)) => x@ == y@,
        (x, y) => x == y,
    }
}

/// The event's name in a rendering.
pub open spec fn title(event: Event) -> &'static str {
    match event {
        Event::MessageSent { .. } => "MessageSent",
        Event::MessageReceived { .. } => "MessageReceived",
        Event::MessageDelivered { .. } => "MessageDelivered",
        Event::MessageFailed { .. } => "MessageFailed",
        Event::MessageDecryptionFailed { .. } => "MessageDecryptionFailed",
        Event::TransportSwitched { .. } => "TransportSwitched",
        Event::RelayPromoted { .. } => "RelayPromoted",
        Event::RelayDemoted { .. } => "RelayDemoted",
        Event::NeighborDiscovered { .. } => "NeighborDiscovered",
        Event::NeighborLost { .. } => "NeighborLost",
        Event::IdentityReady { .. } => "IdentityReady",
        Event::NetworkMetrics { .. } => "NetworkMetrics",
        Event::FileProgress { .. } => "FileProgress",
        Event::FileReceived { .. } => "FileReceived",
        Event::FileReceiveFailed { .. } => "FileReceiveFailed",
        Event::MediaSent { .. } => "MediaSent",
        Event::MediaSendFailed { .. } => "MediaSendFailed",
        Event::MessageDeferred { .. } => "MessageDeferred",
        Event::MessageRetrying { .. } => "MessageRetrying",
        Event::MessageUndeliverable { .. } => "MessageUndeliverable",
        Event::MediaResendRequired { .. } => "MediaResendRequired",
        Event::AckEvicted { .. } => "AckEvicted",
        Event::FragmentAssemblyEvicted { .. } => "FragmentAssemblyEvicted",
        Event::RelayDemotedBattery { .. } => "RelayDemotedBattery",
        Event::SecureSessionEstablished { .. } => "SecureSessionEstablished",
        Event::SecureSessionFailed { .. } => "SecureSessionFailed",
        Event::ConvergenceDiag { .. } => "ConvergenceDiag",
        Event::WelcomeSendAttempted { .. } => "WelcomeSendAttempted",
        Event::WelcomeSendSucceeded { .. } => "WelcomeSendSucceeded",
        Event::WelcomeSendFailed { .. } => "WelcomeSendFailed",
        Event::WelcomeSendExpired { .. } => "WelcomeSendExpired",
        Event::ConnectionRequestReceived { .. } => "ConnectionRequestReceived",
        Event::ConnectionRequestUndeliverable { .. } => "ConnectionRequestUndeliverable",
        Event::ConnectionAccepted { .. } => "ConnectionAccepted",
        Event::ConnectionRejected { .. } => "ConnectionRejected",
        Event::ConnectionRequestCancelled { .. } => "ConnectionRequestCancelled",
        Event::GroupCreated { .. } => "GroupCreated",
        Event::GroupMessageReceived { .. } => "GroupMessageReceived",
        Event::GroupMemberAdded { .. } => "GroupMemberAdded",
        Event::GroupMemberRemoved { .. } => "GroupMemberRemoved",
        Event::GroupInfo { .. } => "GroupInfo",
        Event::UserGroups { .. } => "UserGroups",
        Event::GroupError { .. } => "GroupError",
        Event::GroupRelaySyncChanged { .. } => "GroupRelaySyncChanged",
        Event::GroupMessageSent { .. } => "GroupMessageSent",
        Event::GroupMessagePartialFailure { .. } => "GroupMessagePartialFailure",
        Event::GroupMessageDeliveryReport { .. } => "GroupMessageDeliveryReport",
        Event::GroupRichExtrasDropped { .. } => "GroupRichExtrasDropped",
        Event::GroupUnauthorizedMembershipChange { .. } => "GroupUnauthorizedMembershipChange",
        Event::GroupEpochForkDetected { .. } => "GroupEpochForkDetected",
        Event::GroupEpochForkResolved { .. } => "GroupEpochForkResolved",
        Event::GroupRoleChanged { .. } => "GroupRoleChanged",
        Event::GroupRenamed { .. } => "GroupRenamed",
        Event::ServiceDiscovered { .. } => "ServiceDiscovered",
        Event::ServiceRequestReceived { .. } => "ServiceRequestReceived",
        Event::ServiceResponseReceived { .. } => "ServiceResponseReceived",
        Event::PresenceUpdated { .. } => "PresenceUpdated",
        Event::TypingIndicatorReceived { .. } => "TypingIndicatorReceived",
        Event::ReadReceiptReceived { .. } => "ReadReceiptReceived",
        Event::DorsScoreUpdated { .. } => "DorsScoreUpdated",
        Event::DorsTransportSelected { .. } => "DorsTransportSelected",
        Event::DorsTransportSwitched { .. } => "DorsTransportSwitched",
        Event::DorsEscalationTriggered { .. } => "DorsEscalationTriggered",
        Event::SecurityWarning { .. } => "SecurityWarning",
        Event::MessageRelayed { .. } => "MessageRelayed",
        Event::UserBlocked { .. } => "UserBlocked",
        Event::UserUnblocked { .. } => "UserUnblocked",
    }
}

/// The lines of an event's rendering, in order.
pub open spec fn lines(event: Event) -> Seq<Line> {
    match event {
        Event::MessageSent { message_id, content, priority, requires_ack, timestamp, lamport_clock, forward_info, .. } => seq![
            ("message_id", Shown::Text(message_id)),
            ("sender", Shown::Redacted),
            ("recipient", Shown::Redacted),
            ("content", Shown::RedactedBytes(byte_len(content))),
            ("priority", Shown::Text(priority)),
            ("requires_ack", Shown::Bool(requires_ack)),
            ("timestamp", Shown::Signed(timestamp)),
            ("lamport_clock", Shown::Unsigned(lamport_clock)),
            ("forward_info", Shown::Bool(forward_info.is_some())),
        ],
        Event::MessageReceived { message_id, content, hop_count, transport, timestamp, lamport_clock, reply_context, content_type, forward_info, encrypted, .. } => seq![
            ("message_id", Shown::Text(message_id)),
            ("sender", Shown::Redacted),
            ("recipient", Shown::Redacted),
            ("content", Shown::RedactedBytes(byte_len(content))),
            ("hop_count", Shown::Unsigned(hop_count as u64)),
            ("transport", Shown::Text(transport)),
            ("timestamp", Shown::Signed(timestamp)),
            ("lamport_clock", Shown::Unsigned(lamport_clock)),
            ("reply_to_msg", Shown::Redacted),
            ("reply_context", Shown::Bool(reply_context.is_some())),
            ("content_type", Shown::Text(content_type)),
            ("forward_info", Shown::Bool(forward_info.is_some())),
            ("encrypted", Shown::Bool(encrypted)),
        ],
        Event::MessageDelivered { message_id, latency_ms, hop_count, transport } => seq![
            ("message_id", Shown::Text(message_id)),
            ("latency_ms", Shown::Unsigned(latency_ms)),
            ("hop_count", Shown::Unsigned(hop_count as u64)),
            ("transport", Shown::Text(transport)),
        ],
        Event::MessageFailed { message_id, reason, retry_count } => seq![
            ("message_id", Shown::Text(message_id)),
            ("reason", Shown::Text(reason)),
            ("retry_count", Shown::Unsigned(retry_count as u64)),
        ],
        Event::MessageDecryptionFailed { message_id, code, reason, .. } => seq![
            ("message_id", Shown::Text(message_id)),
            ("sender", Shown::Redacted),
            ("code", Shown::Variant(code.variant())),
            ("reason", Shown::Text(reason)),
        ],
        Event::TransportSwitched { from, to, reason } => seq![
            ("from", Shown::OptionalText(from)),
            ("to", Shown::Text(to)),
            ("reason", Shown::Text(reason)),
        ],
        Event::RelayPromoted { connection_count, battery_level } => seq![
            ("connection_count", Shown::Unsigned(connection_count as u64)),
            ("battery_level", Shown::Unsigned(battery_level as u64)),
        ],
        Event::RelayDemoted { reason } => seq![
            ("reason", Shown::Text(reason)),
        ],
        Event::NeighborDiscovered { transport, rssi, .. } => seq![
            ("peer_id", Shown::Redacted),
            ("transport", Shown::Text(transport)),
            ("rssi", Shown::OptionalShort(rssi)),
        ],
        Event::NeighborLost { .. } => seq![
            ("peer_id", Shown::Redacted),
        ],
        Event::IdentityReady { .. } => seq![
            ("address", Shown::Redacted),
        ],
        Event::NetworkMetrics { neighbor_count, relay_count, delivery_ratio, avg_latency_ms } => seq![
            ("neighbor_count", Shown::Unsigned(neighbor_count as u64)),
            ("relay_count", Shown::Unsigned(relay_count as u64)),
            ("delivery_ratio", Shown::Single(delivery_ratio)),
            ("avg_latency_ms", Shown::Unsigned(avg_latency_ms)),
        ],
        Event::FileProgress { file_id, chunks_sent, total_chunks, percentage } => seq![
            ("file_id", Shown::Text(file_id)),
            ("chunks_sent", Shown::Unsigned(chunks_sent as u64)),
            ("total_chunks", Shown::Unsigned(total_chunks as u64)),
            ("percentage", Shown::Unsigned(percentage as u64)),
        ],
        Event::FileReceived { file_id, file_name, file_size, content_type, file_data, timestamp, caption, reply_context, forward_info, .. } => seq![
            ("file_id", Shown::Text(file_id)),
            ("file_name", Shown::Text(file_name)),
            ("file_size", Shown::Unsigned(file_size)),
            ("sender", Shown::Redacted),
            ("content_type", Shown::Text(content_type)),
            ("file_data", Shown::Base64Bytes(byte_len(file_data))),
            ("timestamp", Shown::OptionalSigned(timestamp)),
            ("caption", Shown::Bool(caption.is_some())),
            ("reply_to_msg", Shown::Redacted),
            ("reply_context", Shown::Bool(reply_context.is_some())),
            ("forward_info", Shown::Bool(forward_info.is_some())),
        ],
        Event::FileReceiveFailed { file_id, file_name, reason, .. } => seq![
            ("file_id", Shown::Text(file_id)),
            ("file_name", Shown::Text(file_name)),
            ("sender", Shown::Redacted),
            ("reason", Shown::Text(reason)),
        ],
        Event::MediaSent { file_id, content_type, .. } => seq![
            ("file_id", Shown::Text(file_id)),
            ("content_type", Shown::Text(content_type)),
            ("recipient", Shown::Redacted),
        ],
        Event::MediaSendFailed { file_id, reason, .. } => seq![
            ("file_id", Shown::Text(file_id)),
            ("recipient", Shown::Redacted),
            ("reason", Shown::Text(reason)),
        ],
        Event::MessageDeferred { message_id, reason, retry_count, next_retry_at } => seq![
            ("message_id", Shown::Text(message_id)),
            ("reason", Shown::Text(reason)),
            ("retry_count", Shown::Unsigned(retry_count as u64)),
            ("next_retry_at", Shown::OptionalSigned(next_retry_at)),
        ],
        Event::MessageRetrying { message_id, retry_count, next_retry_at, .. } => seq![
            ("message_id", Shown::Text(message_id)),
            ("recipient", Shown::Redacted),
            ("retry_count", Shown::Unsigned(retry_count as u64)),
            ("next_retry_at", Shown::Signed(next_retry_at)),
        ],
        Event::MessageUndeliverable { message_id, reason, file_id, .. } => seq![
            ("message_id", Shown::Text(message_id)),
            ("recipient", Shown::Redacted),
            ("reason", Shown::Text(reason)),
            ("file_id", Shown::OptionalText(file_id)),
        ],
        Event::MediaResendRequired { file_id, file_name, file_size, .. } => seq![
            ("file_id", Shown::Text(file_id)),
            ("recipient", Shown::Redacted),
            ("file_name", Shown::Text(file_name)),
            ("file_size", Shown::Unsigned(file_size)),
        ],
        Event::AckEvicted { message_id, priority, reason } => seq![
            ("message_id", Shown::Text(message_id)),
            ("priority", Shown::Text(priority)),
            ("reason", Shown::Text(reason)),
        ],
        Event::FragmentAssemblyEvicted { message_id, completion_percent, reason } => seq![
            ("message_id", Shown::Text(message_id)),
            ("completion_percent", Shown::Unsigned(completion_percent as u64)),
            ("reason", Shown::Text(reason)),
        ],
        Event::RelayDemotedBattery { battery_level, min_required } => seq![
            ("battery_level", Shown::Unsigned(battery_level as u64)),
            ("min_required", Shown::Unsigned(min_required as u64)),
        ],
        Event::SecureSessionEstablished { group_id, is_session, initiated_by_local, .. } => seq![
            ("peer_id", Shown::Redacted),
            ("group_id", Shown::Text(group_id)),
            ("is_session", Shown::Bool(is_session)),
            ("initiated_by_local", Shown::Bool(initiated_by_local)),
        ],
        Event::SecureSessionFailed { reason, .. } => seq![
            ("peer_id", Shown::Redacted),
            ("reason", Shown::Text(reason)),
        ],
        Event::ConvergenceDiag { stage, detail, .. } => seq![
            ("stage", Shown::Text(stage)),
            ("peer_id", Shown::Redacted),
            ("detail", Shown::Text(detail)),
        ],
        Event::WelcomeSendAttempted { message_id, group_id, attempt, .. } => seq![
            ("peer_id", Shown::Redacted),
            ("message_id", Shown::Text(message_id)),
            ("group_id", Shown::Text(group_id)),
            ("attempt", Shown::Unsigned(attempt as u64)),
        ],
        Event::WelcomeSendSucceeded { message_id, group_id, attempt, .. } => seq![
            ("peer_id", Shown::Redacted),
            ("message_id", Shown::Text(message_id)),
            ("group_id", Shown::Text(group_id)),
            ("attempt", Shown::Unsigned(attempt as u64)),
        ],
        Event::WelcomeSendFailed { message_id, group_id, attempt, reason_code, transport_error, retryable, next_retry_at, .. } => seq![
            ("peer_id", Shown::Redacted),
            ("message_id", Shown::Text(message_id)),
            ("group_id", Shown::Text(group_id)),
            ("attempt", Shown::Unsigned(attempt as u64)),
            ("reason_code", Shown::Variant(reason_code.variant())),
            ("transport_error", Shown::OptionalText(transport_error)),
            ("retryable", Shown::Bool(retryable)),
            ("next_retry_at", Shown::OptionalSigned(next_retry_at)),
        ],
        Event::WelcomeSendExpired { message_id, attempt, reason_code, .. } => seq![
            ("peer_id", Shown::Redacted),
            ("message_id", Shown::Text(message_id)),
            ("attempt", Shown::Unsigned(attempt as u64)),
            ("reason_code", Shown::Variant(reason_code.variant())),
        ],
        Event::ConnectionRequestReceived { timestamp, key_package, initial_message, .. } => seq![
            ("sender", Shown::Redacted),
            ("sender_name", Shown::Redacted),
            ("timestamp", Shown::Signed(timestamp)),
            ("has_key_package", Shown::Bool(key_package.is_some())),
            ("has_initial_message", Shown::Bool(initial_message.is_some())),
        ],
        Event::ConnectionRequestUndeliverable { message_id, reason, .. } => seq![
            ("recipient", Shown::Redacted),
            ("message_id", Shown::Text(message_id)),
            ("reason", Shown::Text(reason)),
        ],
        Event::ConnectionAccepted { timestamp, key_package, .. } => seq![
            ("accepted_by", Shown::Redacted),
            ("accepted_by_name", Shown::Redacted),
            ("timestamp", Shown::Signed(timestamp)),
            ("has_key_package", Shown::Bool(key_package.is_some())),
        ],
        Event::ConnectionRejected { .. } => seq![
            ("rejected_by", Shown::Redacted),
        ],
        Event::ConnectionRequestCancelled { .. } => seq![
            ("cancelled_by", Shown::Redacted),
        ],
        Event::GroupCreated { group_id, name } => seq![
            ("group_id", Shown::Text(group_id)),
            ("name", Shown::Text(name)),
        ],
        Event::GroupMessageReceived { group_id, content, forward_info, .. } => seq![
            ("group_id", Shown::Text(group_id)),
            ("sender", Shown::Redacted),
            ("content", Shown::RedactedBytes(byte_len(content))),
            ("forward_info", Shown::Bool(forward_info.is_some())),
        ],
        Event::GroupMemberAdded { group_id, group_name, authorized, .. } => seq![
            ("group_id", Shown::Text(group_id)),
            ("user_id", Shown::Redacted),
            ("added_by", Shown::Redacted),
            ("group_name", Shown::OptionalText(group_name)),
            ("authorized", Shown::OptionalBool(authorized)),
        ],
        Event::GroupMemberRemoved { group_id, authorized, .. } => seq![
            ("group_id", Shown::Text(group_id)),
            ("user_id", Shown::Redacted),
            ("removed_by", Shown::Redacted),
            ("authorized", Shown::OptionalBool(authorized)),
        ],
        Event::GroupInfo { group_id, name, created_at, members, .. } => seq![
            ("group_id", Shown::Text(group_id)),
            ("name", Shown::Text(name)),
            ("created_by", Shown::Redacted),
            ("created_at", Shown::Text(created_at)),
            ("members_count", Shown::Unsigned(members.len() as u64)),
        ],
        Event::UserGroups { groups } => seq![
            ("groups_count", Shown::Unsigned(groups.len() as u64)),
        ],
        Event::GroupError { reason, group_id } => seq![
            ("reason", Shown::Text(reason)),
            ("group_id", Shown::OptionalText(group_id)),
        ],
        Event::GroupRelaySyncChanged { group_id, synced, reason } => seq![
            ("group_id", Shown::Text(group_id)),
            ("synced", Shown::Bool(synced)),
            ("reason", Shown::Text(reason)),
        ],
        Event::GroupMessageSent { group_id, message_ids, member_count } => seq![
            ("group_id", Shown::Text(group_id)),
            ("message_count", Shown::Unsigned(message_ids.len() as u64)),
            ("member_count", Shown::Unsigned(member_count as u64)),
        ],
        Event::GroupMessagePartialFailure { group_id, failed_members, succeeded_members } => seq![
            ("group_id", Shown::Text(group_id)),
            ("failed_count", Shown::Unsigned(failed_members.len() as u64)),
            ("succeeded_count", Shown::Unsigned(succeeded_members.len() as u64)),
        ],
        Event::GroupMessageDeliveryReport { group_id, message_id, delivered, pushed, missed_reissued } => seq![
            ("group_id", Shown::Text(group_id)),
            ("message_id", Shown::Text(message_id)),
            ("delivered_count", Shown::Unsigned(delivered.len() as u64)),
            ("pushed_count", Shown::Unsigned(pushed.len() as u64)),
            ("missed_reissued_count", Shown::Unsigned(missed_reissued.len() as u64)),
        ],
        Event::GroupRichExtrasDropped { group_id, unknown_members } => seq![
            ("group_id", Shown::Text(group_id)),
            ("unknown_count", Shown::Unsigned(unknown_members.len() as u64)),
        ],
        Event::GroupUnauthorizedMembershipChange { group_id, added, removed, reason, enforced, .. } => seq![
            ("group_id", Shown::Text(group_id)),
            ("committer", Shown::Redacted),
            ("added_count", Shown::Unsigned(added.len() as u64)),
            ("removed_count", Shown::Unsigned(removed.len() as u64)),
            ("reason", Shown::Text(reason)),
            ("enforced", Shown::Bool(enforced)),
        ],
        Event::GroupEpochForkDetected { group_id, local_epoch } => seq![
            ("group_id", Shown::Text(group_id)),
            ("local_epoch", Shown::OptionalUnsigned(local_epoch)),
        ],
        Event::GroupEpochForkResolved { group_id, resolved_epoch, failed_members } => seq![
            ("group_id", Shown::Text(group_id)),
            ("resolved_epoch", Shown::Unsigned(resolved_epoch)),
            ("failed_count", Shown::Unsigned(failed_members.len() as u64)),
        ],
        Event::GroupRoleChanged { group_id, new_role, .. } => seq![
            ("group_id", Shown::Text(group_id)),
            ("user_id", Shown::Redacted),
            ("new_role", Shown::Text(new_role)),
            ("changed_by", Shown::Redacted),
        ],
        Event::GroupRenamed { group_id, new_name, .. } => seq![
            ("group_id", Shown::Text(group_id)),
            ("new_name", Shown::Text(new_name)),
            ("renamed_by", Shown::Redacted),
        ],
        Event::ServiceDiscovered { query_id, service_id, version, capabilities, hop_count, .. } => seq![
            ("query_id", Shown::Text(query_id)),
            ("service_id", Shown::Text(service_id)),
            ("version", Shown::Text(version)),
            ("provider_peer_id", Shown::Redacted),
            ("capabilities_count", Shown::Unsigned(capabilities.len() as u64)),
            ("hop_count", Shown::Unsigned(hop_count as u64)),
        ],
        Event::ServiceRequestReceived { request_id, service_id, method, body, .. } => seq![
            ("request_id", Shown::Text(request_id)),
            ("service_id", Shown::Text(service_id)),
            ("method", Shown::Text(method)),
            ("body", Shown::RedactedBytes(byte_len(body))),
            ("sender", Shown::Redacted),
        ],
        Event::ServiceResponseReceived { request_id, service_id, status, body, .. } => seq![
            ("request_id", Shown::Text(request_id)),
            ("service_id", Shown::Text(service_id)),
            ("status", Shown::Text(status)),
            ("body", Shown::RedactedBytes(byte_len(body))),
            ("provider_peer_id", Shown::Redacted),
        ],
        Event::PresenceUpdated { status, timestamp, last_seen_ms, source, .. } => seq![
            ("peer_id", Shown::Redacted),
            ("status", Shown::Variant(status.variant())),
            ("timestamp", Shown::Signed(timestamp)),
            ("last_seen_ms", Shown::OptionalSigned(last_seen_ms)),
            ("source", Shown::Variant(source.variant())),
        ],
        Event::TypingIndicatorReceived { is_typing, timestamp, .. } => seq![
            ("sender", Shown::Redacted),
            ("conversation_id", Shown::Redacted),
            ("is_typing", Shown::Bool(is_typing)),
            ("timestamp", Shown::Signed(timestamp)),
        ],
        Event::ReadReceiptReceived { message_ids, timestamp, .. } => seq![
            ("sender", Shown::Redacted),
            ("message_count", Shown::Unsigned(message_ids.len() as u64)),
            ("timestamp", Shown::Signed(timestamp)),
        ],
        Event::DorsScoreUpdated { scores } => seq![
            ("scores", Shown::Scores(scores)),
        ],
        Event::DorsTransportSelected { from, transport, reason_code, score } => seq![
            ("from", Shown::OptionalText(from)),
            ("transport", Shown::Text(transport)),
            ("reason_code", Shown::Variant(reason_code.variant())),
            ("score", Shown::Single(score)),
        ],
        Event::DorsTransportSwitched { from, to, reason_code, reason_detail } => seq![
            ("from", Shown::OptionalText(from)),
            ("to", Shown::Text(to)),
            ("reason_code", Shown::Variant(reason_code.variant())),
            ("reason_detail", Shown::OptionalText(reason_detail)),
        ],
        Event::DorsEscalationTriggered { phase, from, to, reason_code, reason_detail } => seq![
            ("phase", Shown::Variant(phase.variant())),
            ("from", Shown::Text(from)),
            ("to", Shown::Text(to)),
            ("reason_code", Shown::Variant(reason_code.variant())),
            ("reason_detail", Shown::OptionalText(reason_detail)),
        ],
        Event::SecurityWarning { reason_code, reason, .. } => seq![
            ("peer_id", Shown::Redacted),
            ("reason_code", Shown::Variant(reason_code.variant())),
            ("reason", Shown::Text(reason)),
        ],
        Event::MessageRelayed { message_id, hop_count, remaining_ttl, .. } => seq![
            ("message_id", Shown::Text(message_id)),
            ("sender", Shown::Redacted),
            ("recipient", Shown::Redacted),
            ("hop_count", Shown::Unsigned(hop_count as u64)),
            ("remaining_ttl", Shown::Unsigned(remaining_ttl as u64)),
        ],
        Event::UserBlocked { .. } => seq![
            ("user_id", Shown::Redacted),
        ],
        Event::UserUnblocked { .. } => seq![
            ("user_id", Shown::Redacted),
        ],
    }
}

/// Length of a text in bytes.
pub open spec fn byte_len(text: String) -> usize {
    vstd::utf8::encode_utf8(text@).len() as usize
}

/// What a debug rendering of an event shows.
#[derive(Debug)]
pub struct Rendering {
    /// The event's name.
    pub title: &'static str,
    /// Its fields, in order.
    pub lines: Vec<Line>,
}

impl Rendering {
    /// The rendering shows exactly the title and lines of `event`.
    pub open spec fn shows(self, event: Event) -> bool {
        &&& self.title == title(event)
        &&& self.lines@.len() == lines(event).len()
        &&& forall|i: int|
            0 <= i < lines(event).len() ==> same_line(#[trigger] self.lines@[i], lines(event)[i])
    }
}


spec fn in_part_1(event: Event) -> bool {
    ||| event is MessageSent
    ||| event is MessageReceived
    ||| event is MessageDelivered
    ||| event is MessageFailed
    ||| event is MessageDecryptionFailed
    ||| event is TransportSwitched
    ||| event is RelayPromoted
    ||| event is RelayDemoted
    ||| event is NeighborDiscovered
    ||| event is NeighborLost
    ||| event is IdentityReady
    ||| event is NetworkMetrics
}

fn render_part_1(event: &Event) -> (r: Option<Rendering>)
    ensures
        r is Some <==> in_part_1(*event),
        r matches Some(x) ==> x.shows(*event),
{
    let mut lines: Vec<Line> = Vec::new();
    let title: &'static str = match event {
        Event::MessageSent { message_id, content, priority, requires_ack, timestamp, lamport_clock, forward_info, .. } => {
            lines.push(("message_id", Shown::Text(message_id.clone())));
            lines.push(("sender", Shown::Redacted));
            lines.push(("recipient", Shown::Redacted));
            lines.push(("content", Shown::RedactedBytes(content.as_str().len())));
            lines.push(("priority", Shown::Text(priority.clone())));
            lines.push(("requires_ack", Shown::Bool(*requires_ack)));
            lines.push(("timestamp", Shown::Signed(*timestamp)));
            lines.push(("lamport_clock", Shown::Unsigned(*lamport_clock)));
            lines.push(("forward_info", Shown::Bool(forward_info.is_some())));
            "MessageSent"
        },
        Event::MessageReceived { message_id, content, hop_count, transport, timestamp, lamport_clock, reply_context, content_type, forward_info, encrypted, .. } => {
            lines.push(("message_id", Shown::Text(message_id.clone())));
            lines.push(("sender", Shown::Redacted));
            lines.push(("recipient", Shown::Redacted));
            lines.push(("content", Shown::RedactedBytes(content.as_str().len())));
            lines.push(("hop_count", Shown::Unsigned(*hop_count as u64)));
            lines.push(("transport", Shown::Text(transport.clone())));
            lines.push(("timestamp", Shown::Signed(*timestamp)));
            lines.push(("lamport_clock", Shown::Unsigned(*lamport_clock)));
            lines.push(("reply_to_msg", Shown::Redacted));
            lines.push(("reply_context", Shown::Bool(reply_context.is_some())));
            lines.push(("content_type", Shown::Text(content_type.clone())));
            lines.push(("forward_info", Shown::Bool(forward_info.is_some())));
            lines.push(("encrypted", Shown::Bool(*encrypted)));
            "MessageReceived"
        },
        Event::MessageDelivered { message_id, latency_ms, hop_count, transport } => {
            lines.push(("message_id", Shown::Text(message_id.clone())));
            lines.push(("latency_ms", Shown::Unsigned(*latency_ms)));
            lines.push(("hop_count", Shown::Unsigned(*hop_count as u64)));
            lines.push(("transport", Shown::Text(transport.clone())));
            "MessageDelivered"
        },
        Event::MessageFailed { message_id, reason, retry_count } => {
            lines.push(("message_id", Shown::Text(message_id.clone())));
            lines.push(("reason", Shown::Text(reason.clone())));
            lines.push(("retry_count", Shown::Unsigned(*retry_count as u64)));
            "MessageFailed"
        },
        Event::MessageDecryptionFailed { message_id, code, reason, .. } => {
            lines.push(("message_id", Shown::Text(message_id.clone())));
            lines.push(("sender", Shown::Redacted));
            lines.push(("code", Shown::Variant(code.name())));
            lines.push(("reason", Shown::Text(reason.clone())));
            "MessageDecryptionFailed"
        },
        Event::TransportSwitched { from, to, reason } => {
            lines.push(("from", Shown::OptionalText(copy_text(from))));
            lines.push(("to", Shown::Text(to.clone())));
            lines.push(("reason", Shown::Text(reason.clone())));
            "TransportSwitched"
        },
        Event::RelayPromoted { connection_count, battery_level } => {
            lines.push(("connection_count", Shown::Unsigned(*connection_count as u64)));
            lines.push(("battery_level", Shown::Unsigned(*battery_level as u64)));
            "RelayPromoted"
        },
        Event::RelayDemoted { reason } => {
            lines.push(("reason", Shown::Text(reason.clone())));
            "RelayDemoted"
        },
        Event::NeighborDiscovered { transport, rssi, .. } => {
            lines.push(("peer_id", Shown::Redacted));
            lines.push(("transport", Shown::Text(transport.clone())));
            lines.push(("rssi", Shown::OptionalShort(*rssi)));
            "NeighborDiscovered"
        },
        Event::NeighborLost { .. } => {
            lines.push(("peer_id", Shown::Redacted));
            "NeighborLost"
        },
        Event::IdentityReady { .. } => {
            lines.push(("address", Shown::Redacted));
            "IdentityReady"
        },
        Event::NetworkMetrics { neighbor_count, relay_count, delivery_ratio, avg_latency_ms } => {
            lines.push(("neighbor_count", Shown::Unsigned(*neighbor_count as u64)));
            lines.push(("relay_count", Shown::Unsigned(*relay_count as u64)));
            lines.push(("delivery_ratio", Shown::Single(*delivery_ratio)));
            lines.push(("avg_latency_ms", Shown::Unsigned(*avg_latency_ms)));
            "NetworkMetrics"
        },
        _ => {
            return None;
        },
    };
    Some(Rendering { title, lines })
}

spec fn in_part_2(event: Event) -> bool {
    ||| event is FileProgress
    ||| event is FileReceived
    ||| event is FileReceiveFailed
    ||| event is MediaSent
    ||| event is MediaSendFailed
    ||| event is MessageDeferred
    ||| event is MessageRetrying
    ||| event is MessageUndeliverable
    ||| event is MediaResendRequired
    ||| event is AckEvicted
    ||| event is FragmentAssemblyEvicted
    ||| event is RelayDemotedBattery
}

fn render_part_2(event: &Event) -> (r: Option<Rendering>)
    ensures
        r is Some <==> in_part_2(*event),
        r matches Some(x) ==> x.shows(*event),
{
    let mut lines: Vec<Line> = Vec::new();
    let title: &'static str = match event {
        Event::FileProgress { file_id, chunks_sent, total_chunks, percentage } => {
            lines.push(("file_id", Shown::Text(file_id.clone())));
            lines.push(("chunks_sent", Shown::Unsigned(*chunks_sent as u64)));
            lines.push(("total_chunks", Shown::Unsigned(*total_chunks as u64)));
            lines.push(("percentage", Shown::Unsigned(*percentage as u64)));
            "FileProgress"
        },
        Event::FileReceived { file_id, file_name, file_size, content_type, file_data, timestamp, caption, reply_context, forward_info, .. } => {
            lines.push(("file_id", Shown::Text(file_id.clone())));
            lines.push(("file_name", Shown::Text(file_name.clone())));
            lines.push(("file_size", Shown::Unsigned(*file_size)));
            lines.push(("sender", Shown::Redacted));
            lines.push(("content_type", Shown::Text(content_type.clone())));
            lines.push(("file_data", Shown::Base64Bytes(file_data.as_str().len())));
            lines.push(("timestamp", Shown::OptionalSigned(*timestamp)));
            lines.push(("caption", Shown::Bool(caption.is_some())));
            lines.push(("reply_to_msg", Shown::Redacted));
            lines.push(("reply_context", Shown::Bool(reply_context.is_some())));
            lines.push(("forward_info", Shown::Bool(forward_info.is_some())));
            "FileReceived"
        },
        Event::FileReceiveFailed { file_id, file_name, reason, .. } => {
            lines.push(("file_id", Shown::Text(file_id.clone())));
            lines.push(("file_name", Shown::Text(file_name.clone())));
            lines.push(("sender", Shown::Redacted));
            lines.push(("reason", Shown::Text(reason.clone())));
            "FileReceiveFailed"
        },
        Event::MediaSent { file_id, content_type, .. } => {
            lines.push(("file_id", Shown::Text(file_id.clone())));
            lines.push(("content_type", Shown::Text(content_type.clone())));
            lines.push(("recipient", Shown::Redacted));
            "MediaSent"
        },
        Event::MediaSendFailed { file_id, reason, .. } => {
            lines.push(("file_id", Shown::Text(file_id.clone())));
            lines.push(("recipient", Shown::Redacted));
            lines.push(("reason", Shown::Text(reason.clone())));
            "MediaSendFailed"
        },
        Event::MessageDeferred { message_id, reason, retry_count, next_retry_at } => {
            lines.push(("message_id", Shown::Text(message_id.clone())));
            lines.push(("reason", Shown::Text(reason.clone())));
            lines.push(("retry_count", Shown::Unsigned(*retry_count as u64)));
            lines.push(("next_retry_at", Shown::OptionalSigned(*next_retry_at)));
            "MessageDeferred"
        },
        Event::MessageRetrying { message_id, retry_count, next_retry_at, .. } => {
            lines.push(("message_id", Shown::Text(message_id.clone())));
            lines.push(("recipient", Shown::Redacted));
            lines.push(("retry_count", Shown::Unsigned(*retry_count as u64)));
            lines.push(("next_retry_at", Shown::Signed(*next_retry_at)));
            "MessageRetrying"
        },
        Event::MessageUndeliverable { message_id, reason, file_id, .. } => {
            lines.push(("message_id", Shown::Text(message_id.clone())));
            lines.push(("recipient", Shown::Redacted));
            lines.push(("reason", Shown::Text(reason.clone())));
            lines.push(("file_id", Shown::OptionalText(copy_text(file_id))));
            "MessageUndeliverable"
        },
        Event::MediaResendRequired { file_id, file_name, file_size, .. } => {
            lines.push(("file_id", Shown::Text(file_id.clone())));
            lines.push(("recipient", Shown::Redacted));
            lines.push(("file_name", Shown::Text(file_name.clone())));
            lines.push(("file_size", Shown::Unsigned(*file_size)));
            "MediaResendRequired"
        },
        Event::AckEvicted { message_id, priority, reason } => {
            lines.push(("message_id", Shown::Text(message_id.clone())));
            lines.push(("priority", Shown::Text(priority.clone())));
            lines.push(("reason", Shown::Text(reason.clone())));
            "AckEvicted"
        },
        Event::FragmentAssemblyEvicted { message_id, completion_percent, reason } => {
            lines.push(("message_id", Shown::Text(message_id.clone())));
            lines.push(("completion_percent", Shown::Unsigned(*completion_percent as u64)));
            lines.push(("reason", Shown::Text(reason.clone())));
            "FragmentAssemblyEvicted"
        },
        Event::RelayDemotedBattery { battery_level, min_required } => {
            lines.push(("battery_level", Shown::Unsigned(*battery_level as u64)));
            lines.push(("min_required", Shown::Unsigned(*min_required as u64)));
            "RelayDemotedBattery"
        },
        _ => {
            return None;
        },
    };
    Some(Rendering { title, lines })
}

spec fn in_part_3(event: Event) -> bool {
    ||| event is SecureSessionEstablished
    ||| event is SecureSessionFailed
    ||| event is ConvergenceDiag
    ||| event is WelcomeSendAttempted
    ||| event is WelcomeSendSucceeded
    ||| event is WelcomeSendFailed
    ||| event is WelcomeSendExpired
    ||| event is ConnectionRequestReceived
    ||| event is ConnectionRequestUndeliverable
    ||| event is ConnectionAccepted
    ||| event is ConnectionRejected
    ||| event is ConnectionRequestCancelled
}

fn render_part_3(event: &Event) -> (r: Option<Rendering>)
    ensures
        r is Some <==> in_part_3(*event),
        r matches Some(x) ==> x.shows(*event),
{
    let mut lines: Vec<Line> = Vec::new();
    let title: &'static str = match event {
        Event::SecureSessionEstablished { group_id, is_session, initiated_by_local, .. } => {
            lines.push(("peer_id", Shown::Redacted));
            lines.push(("group_id", Shown::Text(group_id.clone())));
            lines.push(("is_session", Shown::Bool(*is_session)));
            lines.push(("initiated_by_local", Shown::Bool(*initiated_by_local)));
            "SecureSessionEstablished"
        },
        Event::SecureSessionFailed { reason, .. } => {
            lines.push(("peer_id", Shown::Redacted));
            lines.push(("reason", Shown::Text(reason.clone())));
            "SecureSessionFailed"
        },
        Event::ConvergenceDiag { stage, detail, .. } => {
            lines.push(("stage", Shown::Text(stage.clone())));
            lines.push(("peer_id", Shown::Redacted));
            lines.push(("detail", Shown::Text(detail.clone())));
            "ConvergenceDiag"
        },
        Event::WelcomeSendAttempted { message_id, group_id, attempt, .. } => {
            lines.push(("peer_id", Shown::Redacted));
            lines.push(("message_id", Shown::Text(message_id.clone())));
            lines.push(("group_id", Shown::Text(group_id.clone())));
            lines.push(("attempt", Shown::Unsigned(*attempt as u64)));
            "WelcomeSendAttempted"
        },
        Event::WelcomeSendSucceeded { message_id, group_id, attempt, .. } => {
            lines.push(("peer_id", Shown::Redacted));
            lines.push(("message_id", Shown::Text(message_id.clone())));
            lines.push(("group_id", Shown::Text(group_id.clone())));
            lines.push(("attempt", Shown::Unsigned(*attempt as u64)));
            "WelcomeSendSucceeded"
        },
        Event::WelcomeSendFailed { message_id, group_id, attempt, reason_code, transport_error, retryable, next_retry_at, .. } => {
            lines.push(("peer_id", Shown::Redacted));
            lines.push(("message_id", Shown::Text(message_id.clone())));
            lines.push(("group_id", Shown::Text(group_id.clone())));
            lines.push(("attempt", Shown::Unsigned(*attempt as u64)));
            lines.push(("reason_code", Shown::Variant(reason_code.name())));
            lines.push(("transport_error", Shown::OptionalText(copy_text(transport_error))));
            lines.push(("retryable", Shown::Bool(*retryable)));
            lines.push(("next_retry_at", Shown::OptionalSigned(*next_retry_at)));
            "WelcomeSendFailed"
        },
        Event::WelcomeSendExpired { message_id, attempt, reason_code, .. } => {
            lines.push(("peer_id", Shown::Redacted));
            lines.push(("message_id", Shown::Text(message_id.clone())));
            lines.push(("attempt", Shown::Unsigned(*attempt as u64)));
            lines.push(("reason_code", Shown::Variant(reason_code.name())));
            "WelcomeSendExpired"
        },
        Event::ConnectionRequestReceived { timestamp, key_package, initial_message, .. } => {
            lines.push(("sender", Shown::Redacted));
            lines.push(("sender_name", Shown::Redacted));
            lines.push(("timestamp", Shown::Signed(*timestamp)));
            lines.push(("has_key_package", Shown::Bool(key_package.is_some())));
            lines.push(("has_initial_message", Shown::Bool(initial_message.is_some())));
            "ConnectionRequestReceived"
        },
        Event::ConnectionRequestUndeliverable { message_id, reason, .. } => {
            lines.push(("recipient", Shown::Redacted));
            lines.push(("message_id", Shown::Text(message_id.clone())));
            lines.push(("reason", Shown::Text(reason.clone())));
            "ConnectionRequestUndeliverable"
        },
        Event::ConnectionAccepted { timestamp, key_package, .. } => {
            lines.push(("accepted_by", Shown::Redacted));
            lines.push(("accepted_by_name", Shown::Redacted));
            lines.push(("timestamp", Shown::Signed(*timestamp)));
            lines.push(("has_key_package", Shown::Bool(key_package.is_some())));
            "ConnectionAccepted"
        },
        Event::ConnectionRejected { .. } => {
            lines.push(("rejected_by", Shown::Redacted));
            "ConnectionRejected"
        },
        Event::ConnectionRequestCancelled { .. } => {
            lines.push(("cancelled_by", Shown::Redacted));
            "ConnectionRequestCancelled"
        },
        _ => {
            return None;
        },
    };
    Some(Rendering { title, lines })
}

spec fn in_part_4(event: Event) -> bool {
    ||| event is GroupCreated
    ||| event is GroupMessageReceived
    ||| event is GroupMemberAdded
    ||| event is GroupMemberRemoved
    ||| event is GroupInfo
    ||| event is UserGroups
    ||| event is GroupError
    ||| event is GroupRelaySyncChanged
    ||| event is GroupMessageSent
    ||| event is GroupMessagePartialFailure
    ||| event is GroupMessageDeliveryReport
    ||| event is GroupRichExtrasDropped
}

fn render_part_4(event: &Event) -> (r: Option<Rendering>)
    ensures
        r is Some <==> in_part_4(*event),
        r matches Some(x) ==> x.shows(*event),
{
    let mut lines: Vec<Line> = Vec::new();
    let title: &'static str = match event {
        Event::GroupCreated { group_id, name } => {
            lines.push(("group_id", Shown::Text(group_id.clone())));
            lines.push(("name", Shown::Text(name.clone())));
            "GroupCreated"
        },
        Event::GroupMessageReceived { group_id, content, forward_info, .. } => {
            lines.push(("group_id", Shown::Text(group_id.clone())));
            lines.push(("sender", Shown::Redacted));
            lines.push(("content", Shown::RedactedBytes(content.as_str().len())));
            lines.push(("forward_info", Shown::Bool(forward_info.is_some())));
            "GroupMessageReceived"
        },
        Event::GroupMemberAdded { group_id, group_name, authorized, .. } => {
            lines.push(("group_id", Shown::Text(group_id.clone())));
            lines.push(("user_id", Shown::Redacted));
            lines.push(("added_by", Shown::Redacted));
            lines.push(("group_name", Shown::OptionalText(copy_text(group_name))));
            lines.push(("authorized", Shown::OptionalBool(*authorized)));
            "GroupMemberAdded"
        },
        Event::GroupMemberRemoved { group_id, authorized, .. } => {
            lines.push(("group_id", Shown::Text(group_id.clone())));
            lines.push(("user_id", Shown::Redacted));
            lines.push(("removed_by", Shown::Redacted));
            lines.push(("authorized", Shown::OptionalBool(*authorized)));
            "GroupMemberRemoved"
        },
        Event::GroupInfo { group_id, name, created_at, members, .. } => {
            lines.push(("group_id", Shown::Text(group_id.clone())));
            lines.push(("name", Shown::Text(name.clone())));
            lines.push(("created_by", Shown::Redacted));
            lines.push(("created_at", Shown::Text(created_at.clone())));
            lines.push(("members_count", Shown::Unsigned(members.len() as u64)));
            "GroupInfo"
        },
        Event::UserGroups { groups } => {
            lines.push(("groups_count", Shown::Unsigned(groups.len() as u64)));
            "UserGroups"
        },
        Event::GroupError { reason, group_id } => {
            lines.push(("reason", Shown::Text(reason.clone())));
            lines.push(("group_id", Shown::OptionalText(copy_text(group_id))));
            "GroupError"
        },
        Event::GroupRelaySyncChanged { group_id, synced, reason } => {
            lines.push(("group_id", Shown::Text(group_id.clone())));
            lines.push(("synced", Shown::Bool(*synced)));
            lines.push(("reason", Shown::Text(reason.clone())));
            "GroupRelaySyncChanged"
        },
        Event::GroupMessageSent { group_id, message_ids, member_count } => {
            lines.push(("group_id", Shown::Text(group_id.clone())));
            lines.push(("message_count", Shown::Unsigned(message_ids.len() as u64)));
            lines.push(("member_count", Shown::Unsigned(*member_count as u64)));
            "GroupMessageSent"
        },
        Event::GroupMessagePartialFailure { group_id, failed_members, succeeded_members } => {
            lines.push(("group_id", Shown::Text(group_id.clone())));
            lines.push(("failed_count", Shown::Unsigned(failed_members.len() as u64)));
            lines.push(("succeeded_count", Shown::Unsigned(succeeded_members.len() as u64)));
            "GroupMessagePartialFailure"
        },
        Event::GroupMessageDeliveryReport { group_id, message_id, delivered, pushed, missed_reissued } => {
            lines.push(("group_id", Shown::Text(group_id.clone())));
            lines.push(("message_id", Shown::Text(message_id.clone())));
            lines.push(("delivered_count", Shown::Unsigned(delivered.len() as u64)));
            lines.push(("pushed_count", Shown::Unsigned(pushed.len() as u64)));
            lines.push(("missed_reissued_count", Shown::Unsigned(missed_reissued.len() as u64)));
            "GroupMessageDeliveryReport"
        },
        Event::GroupRichExtrasDropped { group_id, unknown_members } => {
            lines.push(("group_id", Shown::Text(group_id.clone())));
            lines.push(("unknown_count", Shown::Unsigned(unknown_members.len() as u64)));
            "GroupRichExtrasDropped"
        },
        _ => {
            return None;
        },
    };
    Some(Rendering { title, lines })
}

spec fn in_part_5(event: Event) -> bool {
    ||| event is GroupUnauthorizedMembershipChange
    ||| event is GroupEpochForkDetected
    ||| event is GroupEpochForkResolved
    ||| event is GroupRoleChanged
    ||| event is GroupRenamed
    ||| event is ServiceDiscovered
    ||| event is ServiceRequestReceived
    ||| event is ServiceResponseReceived
    ||| event is PresenceUpdated
    ||| event is TypingIndicatorReceived
    ||| event is ReadReceiptReceived
    ||| event is DorsScoreUpdated
}

fn render_part_5(event: &Event) -> (r: Option<Rendering>)
    ensures
        r is Some <==> in_part_5(*event),
        r matches Some(x) ==> x.shows(*event),
{
    let mut lines: Vec<Line> = Vec::new();
    let title: &'static str = match event {
        Event::GroupUnauthorizedMembershipChange { group_id, added, removed, reason, enforced, .. } => {
            lines.push(("group_id", Shown::Text(group_id.clone())));
            lines.push(("committer", Shown::Redacted));
            lines.push(("added_count", Shown::Unsigned(added.len() as u64)));
            lines.push(("removed_count", Shown::Unsigned(removed.len() as u64)));
            lines.push(("reason", Shown::Text(reason.clone())));
            lines.push(("enforced", Shown::Bool(*enforced)));
            "GroupUnauthorizedMembershipChange"
        },
        Event::GroupEpochForkDetected { group_id, local_epoch } => {
            lines.push(("group_id", Shown::Text(group_id.clone())));
            lines.push(("local_epoch", Shown::OptionalUnsigned(*local_epoch)));
            "GroupEpochForkDetected"
        },
        Event::GroupEpochForkResolved { group_id, resolved_epoch, failed_members } => {
            lines.push(("group_id", Shown::Text(group_id.clone())));
            lines.push(("resolved_epoch", Shown::Unsigned(*resolved_epoch)));
            lines.push(("failed_count", Shown::Unsigned(failed_members.len() as u64)));
            "GroupEpochForkResolved"
        },
        Event::GroupRoleChanged { group_id, new_role, .. } => {
            lines.push(("group_id", Shown::Text(group_id.clone())));
            lines.push(("user_id", Shown::Redacted));
            lines.push(("new_role", Shown::Text(new_role.clone())));
            lines.push(("changed_by", Shown::Redacted));
            "GroupRoleChanged"
        },
        Event::GroupRenamed { group_id, new_name, .. } => {
            lines.push(("group_id", Shown::Text(group_id.clone())));
            lines.push(("new_name", Shown::Text(new_name.clone())));
            lines.push(("renamed_by", Shown::Redacted));
            "GroupRenamed"
        },
        Event::ServiceDiscovered { query_id, service_id, version, capabilities, hop_count, .. } => {
            lines.push(("query_id", Shown::Text(query_id.clone())));
            lines.push(("service_id", Shown::Text(service_id.clone())));
            lines.push(("version", Shown::Text(version.clone())));
            lines.push(("provider_peer_id", Shown::Redacted));
            lines.push(("capabilities_count", Shown::Unsigned(capabilities.len() as u64)));
            lines.push(("hop_count", Shown::Unsigned(*hop_count as u64)));
            "ServiceDiscovered"
        },
        Event::ServiceRequestReceived { request_id, service_id, method, body, .. } => {
            lines.push(("request_id", Shown::Text(request_id.clone())));
            lines.push(("service_id", Shown::Text(service_id.clone())));
            lines.push(("method", Shown::Text(method.clone())));
            lines.push(("body", Shown::RedactedBytes(body.as_str().len())));
            lines.push(("sender", Shown::Redacted));
            "ServiceRequestReceived"
        },
        Event::ServiceResponseReceived { request_id, service_id, status, body, .. } => {
            lines.push(("request_id", Shown::Text(request_id.clone())));
            lines.push(("service_id", Shown::Text(service_id.clone())));
            lines.push(("status", Shown::Text(status.clone())));
            lines.push(("body", Shown::RedactedBytes(body.as_str().len())));
            lines.push(("provider_peer_id", Shown::Redacted));
            "ServiceResponseReceived"
        },
        Event::PresenceUpdated { status, timestamp, last_seen_ms, source, .. } => {
            lines.push(("peer_id", Shown::Redacted));
            lines.push(("status", Shown::Variant(status.name())));
            lines.push(("timestamp", Shown::Signed(*timestamp)));
            lines.push(("last_seen_ms", Shown::OptionalSigned(*last_seen_ms)));
            lines.push(("source", Shown::Variant(source.name())));
            "PresenceUpdated"
        },
        Event::TypingIndicatorReceived { is_typing, timestamp, .. } => {
            lines.push(("sender", Shown::Redacted));
            lines.push(("conversation_id", Shown::Redacted));
            lines.push(("is_typing", Shown::Bool(*is_typing)));
            lines.push(("timestamp", Shown::Signed(*timestamp)));
            "TypingIndicatorReceived"
        },
        Event::ReadReceiptReceived { message_ids, timestamp, .. } => {
            lines.push(("sender", Shown::Redacted));
            lines.push(("message_count", Shown::Unsigned(message_ids.len() as u64)));
            lines.push(("timestamp", Shown::Signed(*timestamp)));
            "ReadReceiptReceived"
        },
        Event::DorsScoreUpdated { scores } => {
            lines.push(("scores", Shown::Scores(copy_scores(scores))));
            "DorsScoreUpdated"
        },
        _ => {
            return None;
        },
    };
    Some(Rendering { title, lines })
}

spec fn in_part_6(event: Event) -> bool {
    ||| event is DorsTransportSelected
    ||| event is DorsTransportSwitched
    ||| event is DorsEscalationTriggered
    ||| event is SecurityWarning
    ||| event is MessageRelayed
    ||| event is UserBlocked
    ||| event is UserUnblocked
}

fn render_part_6(event: &Event) -> (r: Option<Rendering>)
    ensures
        r is Some <==> in_part_6(*event),
        r matches Some(x) ==> x.shows(*event),
{
    let mut lines: Vec<Line> = Vec::new();
    let title: &'static str = match event {
        Event::DorsTransportSelected { from, transport, reason_code, score } => {
            lines.push(("from", Shown::OptionalText(copy_text(from))));
            lines.push(("transport", Shown::Text(transport.clone())));
            lines.push(("reason_code", Shown::Variant(reason_code.name())));
            lines.push(("score", Shown::Single(*score)));
            "DorsTransportSelected"
        },
        Event::DorsTransportSwitched { from, to, reason_code, reason_detail } => {
            lines.push(("from", Shown::OptionalText(copy_text(from))));
            lines.push(("to", Shown::Text(to.clone())));
            lines.push(("reason_code", Shown::Variant(reason_code.name())));
            lines.push(("reason_detail", Shown::OptionalText(copy_text(reason_detail))));
            "DorsTransportSwitched"
        },
        Event::DorsEscalationTriggered { phase, from, to, reason_code, reason_detail } => {
            lines.push(("phase", Shown::Variant(phase.name())));
            lines.push(("from", Shown::Text(from.clone())));
            lines.push(("to", Shown::Text(to.clone())));
            lines.push(("reason_code", Shown::Variant(reason_code.name())));
            lines.push(("reason_detail", Shown::OptionalText(copy_text(reason_detail))));
            "DorsEscalationTriggered"
        },
        Event::SecurityWarning { reason_code, reason, .. } => {
            lines.push(("peer_id", Shown::Redacted));
            lines.push(("reason_code", Shown::Variant(reason_code.name())));
            lines.push(("reason", Shown::Text(reason.clone())));
            "SecurityWarning"
        },
        Event::MessageRelayed { message_id, hop_count, remaining_ttl, .. } => {
            lines.push(("message_id", Shown::Text(message_id.clone())));
            lines.push(("sender", Shown::Redacted));
            lines.push(("recipient", Shown::Redacted));
            lines.push(("hop_count", Shown::Unsigned(*hop_count as u64)));
            lines.push(("remaining_ttl", Shown::Unsigned(*remaining_ttl as u64)));
            "MessageRelayed"
        },
        Event::UserBlocked { .. } => {
            lines.push(("user_id", Shown::Redacted));
            "UserBlocked"
        },
        Event::UserUnblocked { .. } => {
            lines.push(("user_id", Shown::Redacted));
            "UserUnblocked"
        },
        _ => {
            return None;
        },
    };
    Some(Rendering { title, lines })
}

impl Event {
    /// What a debug rendering of this event shows.
    pub fn rendering(&self) -> (r: Rendering)
        ensures
            r.shows(*self),
    {
        if let Some(r) = render_part_1(self) {
            return r;
        }
        if let Some(r) = render_part_2(self) {
            return r;
        }
        if let Some(r) = render_part_3(self) {
            return r;
        }
        if let Some(r) = render_part_4(self) {
            return r;
        }
        if let Some(r) = render_part_5(self) {
            return r;
        }
        if let Some(r) = render_part_6(self) {
            return r;
        }
        assert(false);
        Rendering { title: "", lines: Vec::new() }
    }
}

/// The text that stands for any person.
pub open spec fn nobody() -> String {
    arbitrary()
}

/// As many people, whoever they are.
pub open spec fn people(count: nat) -> Vec<String> {
    choose|list: Vec<String>| (#[trigger] list@).len() == count
}

/// As many members of a group, whoever they are.
pub open spec fn members_of_some_group(count: nat) -> Vec<GroupInfoMember> {
    choose|list: Vec<GroupInfoMember>| (#[trigger] list@).len() == count
}

/// The attribution with its person replaced.
pub open spec fn forwarded_from_nobody(info: Option<ForwardInfoEvent>) -> Option<
    ForwardInfoEvent,
> {
    match info {
        Some(i) => Some(ForwardInfoEvent { original_sender: nobody(), ..i }),
        None => None,
    }
}

/// The quotation with its person replaced.
pub open spec fn quoting_nobody(context: Option<Box<ReplyContextEvent>>) -> Option<
    Box<ReplyContextEvent>,
> {
    match context {
        Some(c) => Some(Box::new(ReplyContextEvent { sender: nobody(), ..*c })),
        None => None,
    }
}

/// The event with every field that names a person or a device replaced, and every
/// list of people by one of the same length.
pub open spec fn anonymous(event: Event) -> Event {
    match event {
        Event::MessageSent { message_id, content, priority, requires_ack, timestamp, lamport_clock, forward_info, .. } => Event::MessageSent { message_id, sender: nobody(), recipient: nobody(), content, priority, requires_ack, timestamp, lamport_clock, forward_info: forwarded_from_nobody(forward_info) },
        Event::MessageReceived { message_id, content, hop_count, transport, timestamp, lamport_clock, reply_to_msg, reply_context, content_type, media_metadata, forward_info, encrypted, .. } => Event::MessageReceived { message_id, sender: nobody(), recipient: nobody(), content, hop_count, transport, timestamp, lamport_clock, reply_to_msg, reply_context: quoting_nobody(reply_context), content_type, media_metadata, forward_info: forwarded_from_nobody(forward_info), encrypted },
        Event::MessageDecryptionFailed { message_id, code, reason, .. } => Event::MessageDecryptionFailed { message_id, sender: nobody(), code, reason },
        Event::NeighborDiscovered { transport, rssi, .. } => Event::NeighborDiscovered { peer_id: nobody(), transport, rssi },
        Event::NeighborLost { .. } => Event::NeighborLost { peer_id: nobody() },
        Event::IdentityReady { .. } => Event::IdentityReady { address: nobody() },
        Event::FileReceived { file_id, file_name, file_size, content_type, media_metadata, file_data, timestamp, caption, reply_to_msg, reply_context, forward_info, .. } => Event::FileReceived { file_id, file_name, file_size, sender: nobody(), content_type, media_metadata, file_data, timestamp, caption, reply_to_msg, reply_context: quoting_nobody(reply_context), forward_info: forwarded_from_nobody(forward_info) },
        Event::FileReceiveFailed { file_id, file_name, reason, .. } => Event::FileReceiveFailed { file_id, file_name, sender: nobody(), reason },
        Event::MediaSent { file_id, content_type, .. } => Event::MediaSent { file_id, content_type, recipient: nobody() },
        Event::MediaSendFailed { file_id, reason, .. } => Event::MediaSendFailed { file_id, recipient: nobody(), reason },
        Event::MessageRetrying { message_id, retry_count, next_retry_at, .. } => Event::MessageRetrying { message_id, recipient: nobody(), retry_count, next_retry_at },
        Event::MessageUndeliverable { message_id, reason, file_id, .. } => Event::MessageUndeliverable { message_id, recipient: nobody(), reason, file_id },
        Event::MediaResendRequired { file_id, file_name, file_size, .. } => Event::MediaResendRequired { file_id, recipient: nobody(), file_name, file_size },
        Event::SecureSessionEstablished { group_id, is_session, initiated_by_local, .. } => Event::SecureSessionEstablished { peer_id: nobody(), group_id, is_session, initiated_by_local },
        Event::SecureSessionFailed { reason, .. } => Event::SecureSessionFailed { peer_id: nobody(), reason },
        Event::ConvergenceDiag { stage, detail, .. } => Event::ConvergenceDiag { stage, peer_id: nobody(), detail },
        Event::WelcomeSendAttempted { message_id, group_id, attempt, .. } => Event::WelcomeSendAttempted { peer_id: nobody(), message_id, group_id, attempt },
        Event::WelcomeSendSucceeded { message_id, group_id, attempt, .. } => Event::WelcomeSendSucceeded { peer_id: nobody(), message_id, group_id, attempt },
        Event::WelcomeSendFailed { message_id, group_id, attempt, reason_code, transport_error, retryable, next_retry_at, .. } => Event::WelcomeSendFailed { peer_id: nobody(), message_id, group_id, attempt, reason_code, transport_error, retryable, next_retry_at },
        Event::WelcomeSendExpired { message_id, attempt, reason_code, .. } => Event::WelcomeSendExpired { peer_id: nobody(), message_id, attempt, reason_code },
        Event::ConnectionRequestReceived { timestamp, key_package, initial_message, .. } => Event::ConnectionRequestReceived { sender: nobody(), sender_name: nobody(), timestamp, key_package, initial_message },
        Event::ConnectionRequestUndeliverable { message_id, reason, .. } => Event::ConnectionRequestUndeliverable { recipient: nobody(), message_id, reason },
        Event::ConnectionAccepted { timestamp, key_package, .. } => Event::ConnectionAccepted { accepted_by: nobody(), accepted_by_name: nobody(), timestamp, key_package },
        Event::ConnectionRejected { .. } => Event::ConnectionRejected { rejected_by: nobody() },
        Event::ConnectionRequestCancelled { .. } => Event::ConnectionRequestCancelled { cancelled_by: nobody() },
        Event::GroupMessageReceived { group_id, content, timestamp, message_id, reply_to_msg, forward_info, media_metadata, content_type, .. } => Event::GroupMessageReceived { group_id, sender: nobody(), content, timestamp, message_id, reply_to_msg, forward_info: forwarded_from_nobody(forward_info), media_metadata, content_type },
        Event::GroupMemberAdded { group_id, group_name, authorized, .. } => Event::GroupMemberAdded { group_id, user_id: nobody(), added_by: nobody(), group_name, authorized },
        Event::GroupMemberRemoved { group_id, authorized, .. } => Event::GroupMemberRemoved { group_id, user_id: nobody(), removed_by: nobody(), authorized },
        Event::GroupInfo { group_id, name, created_at, members, .. } => Event::GroupInfo { group_id, name, created_by: nobody(), created_at, members: members_of_some_group(members@.len()) },
        Event::GroupUnauthorizedMembershipChange { group_id, added, removed, reason, enforced, .. } => Event::GroupUnauthorizedMembershipChange { group_id, committer: nobody(), added: people(added@.len()), removed: people(removed@.len()), reason, enforced },
        Event::GroupRoleChanged { group_id, new_role, .. } => Event::GroupRoleChanged { group_id, user_id: nobody(), new_role, changed_by: nobody() },
        Event::GroupRenamed { group_id, new_name, old_name, .. } => Event::GroupRenamed { group_id, new_name, old_name, renamed_by: nobody() },
        Event::ServiceDiscovered { query_id, service_id, version, capabilities, hop_count, .. } => Event::ServiceDiscovered { query_id, service_id, version, provider_peer_id: nobody(), capabilities, hop_count },
        Event::ServiceRequestReceived { request_id, service_id, method, body, .. } => Event::ServiceRequestReceived { request_id, service_id, method, body, sender: nobody() },
        Event::ServiceResponseReceived { request_id, service_id, status, body, .. } => Event::ServiceResponseReceived { request_id, service_id, status, body, provider_peer_id: nobody() },
        Event::PresenceUpdated { status, timestamp, last_seen_ms, source, .. } => Event::PresenceUpdated { peer_id: nobody(), status, timestamp, last_seen_ms, source },
        Event::TypingIndicatorReceived { is_typing, timestamp, .. } => Event::TypingIndicatorReceived { sender: nobody(), conversation_id: nobody(), is_typing, timestamp },
        Event::ReadReceiptReceived { message_ids, timestamp, .. } => Event::ReadReceiptReceived { sender: nobody(), message_ids, timestamp },
        Event::SecurityWarning { reason_code, reason, .. } => Event::SecurityWarning { peer_id: nobody(), reason_code, reason },
        Event::MessageRelayed { message_id, hop_count, remaining_ttl, .. } => Event::MessageRelayed { message_id, sender: nobody(), recipient: nobody(), hop_count, remaining_ttl },
        Event::UserBlocked { .. } => Event::UserBlocked { user_id: nobody() },
        Event::UserUnblocked { .. } => Event::UserUnblocked { user_id: nobody() },
        Event::GroupMessagePartialFailure { group_id, failed_members, succeeded_members } => Event::GroupMessagePartialFailure { group_id, failed_members: people(failed_members@.len()), succeeded_members: people(succeeded_members@.len()) },
        Event::GroupMessageDeliveryReport { group_id, message_id, delivered, pushed, missed_reissued } => Event::GroupMessageDeliveryReport { group_id, message_id, delivered: people(delivered@.len()), pushed: people(pushed@.len()), missed_reissued: people(missed_reissued@.len()) },
        Event::GroupRichExtrasDropped { group_id, unknown_members } => Event::GroupRichExtrasDropped { group_id, unknown_members: people(unknown_members@.len()) },
        Event::GroupEpochForkResolved { group_id, resolved_epoch, failed_members } => Event::GroupEpochForkResolved { group_id, resolved_epoch, failed_members: people(failed_members@.len()) },
        other => other,
    }
}

/// A rendering does not depend on who an event is about: whoever is put in the
/// place of the people named in it, the same lines are shown, and of a list of
/// people only how many they are.
pub proof fn rendering_names_nobody(event: Event)
    ensures
        title(event) == title(anonymous(event)),
        lines(event) == lines(anonymous(event)),
{
    assert forall|list: Vec<String>| #[trigger] people(list@.len())@.len() == list@.len() by {
        assert(exists|other: Vec<String>| (#[trigger] other@).len() == list@.len());
    }
    assert forall|list: Vec<GroupInfoMember>| #[trigger]
        members_of_some_group(list@.len())@.len() == list@.len() by {
        assert(exists|other: Vec<GroupInfoMember>| (#[trigger] other@).len() == list@.len());
    }
}

} // verus!
