//! The telemetry names of events.

use vstd::prelude::*;

use crate::events::Event;

verus! {

/// A lower-case letter or an underscore.
pub open spec fn word_char(c: char) -> bool {
    'a' <= c <= 'z' || c == '_'
}

/// The text is `protocol.`, a word up to `dot`, a dot and a word.
pub open spec fn parted_at(text: Seq<char>, dot: int) -> bool {
    &&& 9 < dot < text.len() - 1
    &&& text.take(9) == "protocol."@
    &&& text[dot] == '.'
    &&& forall|i: int| 9 <= i < text.len() && i != dot ==> word_char(#[trigger] text[i])
}

/// The text is `protocol.`, a word, a dot and a word.
pub open spec fn well_named(text: Seq<char>) -> bool {
    exists|dot: int| #[trigger] parted_at(text, dot)
}

/// Two events are of the same variant.
pub open spec fn same_variant(a: Event, b: Event) -> bool {
    match (a, b) {
        (Event::MessageSent { .. }, Event::MessageSent { .. }) => true,
        (Event::MessageReceived { .. }, Event::MessageReceived { .. }) => true,
        (Event::MessageDelivered { .. }, Event::MessageDelivered { .. }) => true,
        (Event::MessageFailed { .. }, Event::MessageFailed { .. }) => true,
        (Event::MessageDecryptionFailed { .. }, Event::MessageDecryptionFailed { .. }) => true,
        (Event::TransportSwitched { .. }, Event::TransportSwitched { .. }) => true,
        (Event::RelayPromoted { .. }, Event::RelayPromoted { .. }) => true,
        (Event::RelayDemoted { .. }, Event::RelayDemoted { .. }) => true,
        (Event::NeighborDiscovered { .. }, Event::NeighborDiscovered { .. }) => true,
        (Event::NeighborLost { .. }, Event::NeighborLost { .. }) => true,
        (Event::IdentityReady { .. }, Event::IdentityReady { .. }) => true,
        (Event::NetworkMetrics { .. }, Event::NetworkMetrics { .. }) => true,
        (Event::FileProgress { .. }, Event::FileProgress { .. }) => true,
        (Event::FileReceived { .. }, Event::FileReceived { .. }) => true,
        (Event::FileReceiveFailed { .. }, Event::FileReceiveFailed { .. }) => true,
        (Event::MediaSent { .. }, Event::MediaSent { .. }) => true,
        (Event::MediaSendFailed { .. }, Event::MediaSendFailed { .. }) => true,
        (Event::MessageDeferred { .. }, Event::MessageDeferred { .. }) => true,
        (Event::MessageRetrying { .. }, Event::MessageRetrying { .. }) => true,
        (Event::MessageUndeliverable { .. }, Event::MessageUndeliverable { .. }) => true,
        (Event::MediaResendRequired { .. }, Event::MediaResendRequired { .. }) => true,
        (Event::AckEvicted { .. }, Event::AckEvicted { .. }) => true,
        (Event::FragmentAssemblyEvicted { .. }, Event::FragmentAssemblyEvicted { .. }) => true,
        (Event::RelayDemotedBattery { .. }, Event::RelayDemotedBattery { .. }) => true,
        (Event::SecureSessionEstablished { .. }, Event::SecureSessionEstablished { .. }) => true,
        (Event::SecureSessionFailed { .. }, Event::SecureSessionFailed { .. }) => true,
        (Event::ConvergenceDiag { .. }, Event::ConvergenceDiag { .. }) => true,
        (Event::WelcomeSendAttempted { .. }, Event::WelcomeSendAttempted { .. }) => true,
        (Event::WelcomeSendSucceeded { .. }, Event::WelcomeSendSucceeded { .. }) => true,
        (Event::WelcomeSendFailed { .. }, Event::WelcomeSendFailed { .. }) => true,
        (Event::WelcomeSendExpired { .. }, Event::WelcomeSendExpired { .. }) => true,
        (Event::ConnectionRequestReceived { .. }, Event::ConnectionRequestReceived { .. }) => true,
        (Event::ConnectionRequestUndeliverable { .. }, Event::ConnectionRequestUndeliverable { .. }) => true,
        (Event::ConnectionAccepted { .. }, Event::ConnectionAccepted { .. }) => true,
        (Event::ConnectionRejected { .. }, Event::ConnectionRejected { .. }) => true,
        (Event::ConnectionRequestCancelled { .. }, Event::ConnectionRequestCancelled { .. }) => true,
        (Event::GroupCreated { .. }, Event::GroupCreated { .. }) => true,
        (Event::GroupMessageReceived { .. }, Event::GroupMessageReceived { .. }) => true,
        (Event::GroupMemberAdded { .. }, Event::GroupMemberAdded { .. }) => true,
        (Event::GroupMemberRemoved { .. }, Event::GroupMemberRemoved { .. }) => true,
        (Event::GroupInfo { .. }, Event::GroupInfo { .. }) => true,
        (Event::UserGroups { .. }, Event::UserGroups { .. }) => true,
        (Event::GroupError { .. }, Event::GroupError { .. }) => true,
        (Event::GroupRelaySyncChanged { .. }, Event::GroupRelaySyncChanged { .. }) => true,
        (Event::GroupMessageSent { .. }, Event::GroupMessageSent { .. }) => true,
        (Event::GroupMessagePartialFailure { .. }, Event::GroupMessagePartialFailure { .. }) => true,
        (Event::GroupMessageDeliveryReport { .. }, Event::GroupMessageDeliveryReport { .. }) => true,
        (Event::GroupRichExtrasDropped { .. }, Event::GroupRichExtrasDropped { .. }) => true,
        (Event::GroupUnauthorizedMembershipChange { .. }, Event::GroupUnauthorizedMembershipChange { .. }) => true,
        (Event::GroupEpochForkDetected { .. }, Event::GroupEpochForkDetected { .. }) => true,
        (Event::GroupEpochForkResolved { .. }, Event::GroupEpochForkResolved { .. }) => true,
        (Event::GroupRoleChanged { .. }, Event::GroupRoleChanged { .. }) => true,
        (Event::GroupRenamed { .. }, Event::GroupRenamed { .. }) => true,
        (Event::ServiceDiscovered { .. }, Event::ServiceDiscovered { .. }) => true,
        (Event::ServiceRequestReceived { .. }, Event::ServiceRequestReceived { .. }) => true,
        (Event::ServiceResponseReceived { .. }, Event::ServiceResponseReceived { .. }) => true,
        (Event::PresenceUpdated { .. }, Event::PresenceUpdated { .. }) => true,
        (Event::TypingIndicatorReceived { .. }, Event::TypingIndicatorReceived { .. }) => true,
        (Event::ReadReceiptReceived { .. }, Event::ReadReceiptReceived { .. }) => true,
        (Event::DorsScoreUpdated { .. }, Event::DorsScoreUpdated { .. }) => true,
        (Event::DorsTransportSelected { .. }, Event::DorsTransportSelected { .. }) => true,
        (Event::DorsTransportSwitched { .. }, Event::DorsTransportSwitched { .. }) => true,
        (Event::DorsEscalationTriggered { .. }, Event::DorsEscalationTriggered { .. }) => true,
        (Event::SecurityWarning { .. }, Event::SecurityWarning { .. }) => true,
        (Event::MessageRelayed { .. }, Event::MessageRelayed { .. }) => true,
        (Event::UserBlocked { .. }, Event::UserBlocked { .. }) => true,
        (Event::UserUnblocked { .. }, Event::UserUnblocked { .. }) => true,
        _ => false,
    }
}

/// What tells a name from every other: its length, and two of its letters.
spec fn mark(text: Seq<char>) -> (nat, char, char) {
    (text.len(), text[9], text[text.len() - 6])
}

/// The mark of each variant's name.
spec fn mark_of(event: Event) -> (nat, char, char) {
    match event {
        Event::MessageSent { .. } => (21, 'm', 'e'),
        Event::MessageReceived { .. } => (25, 'm', 'c'),
        Event::MessageDelivered { .. } => (26, 'm', 'i'),
        Event::MessageFailed { .. } => (23, 'm', 'f'),
        Event::MessageDecryptionFailed { .. } => (34, 'm', 'f'),
        Event::TransportSwitched { .. } => (27, 't', 'i'),
        Event::RelayPromoted { .. } => (23, 'r', 'o'),
        Event::RelayDemoted { .. } => (22, 'r', 'e'),
        Event::NeighborDiscovered { .. } => (28, 'n', 'o'),
        Event::NeighborLost { .. } => (22, 'n', 'r'),
        Event::IdentityReady { .. } => (23, 'i', '.'),
        Event::NetworkMetrics { .. } => (24, 'n', 'e'),
        Event::FileProgress { .. } => (22, 'f', 'o'),
        Event::FileReceived { .. } => (22, 'f', 'c'),
        Event::FileReceiveFailed { .. } => (28, 'f', 'f'),
        Event::MediaSent { .. } => (19, 'm', 'a'),
        Event::MediaSendFailed { .. } => (26, 'm', 'f'),
        Event::MessageDeferred { .. } => (25, 'm', 'f'),
        Event::MessageRetrying { .. } => (25, 'm', 't'),
        Event::MessageUndeliverable { .. } => (30, 'm', 'e'),
        Event::MediaResendRequired { .. } => (30, 'm', 'q'),
        Event::AckEvicted { .. } => (20, 'a', 'v'),
        Event::FragmentAssemblyEvicted { .. } => (34, 'f', 'v'),
        Event::RelayDemotedBattery { .. } => (30, 'r', 'a'),
        Event::SecureSessionEstablished { .. } => (35, 's', 'l'),
        Event::SecureSessionFailed { .. } => (30, 's', 'f'),
        Event::ConvergenceDiag { .. } => (25, 'c', 'e'),
        Event::WelcomeSendAttempted { .. } => (31, 'w', 'e'),
        Event::WelcomeSendSucceeded { .. } => (31, 'w', 'c'),
        Event::WelcomeSendFailed { .. } => (28, 'w', 'f'),
        Event::WelcomeSendExpired { .. } => (29, 'w', 'x'),
        Event::ConnectionRequestReceived { .. } => (36, 'c', 'c'),
        Event::ConnectionRequestUndeliverable { .. } => (41, 'c', 'e'),
        Event::ConnectionAccepted { .. } => (28, 'c', 'c'),
        Event::ConnectionRejected { .. } => (28, 'c', 'j'),
        Event::ConnectionRequestCancelled { .. } => (37, 'c', 'c'),
        Event::GroupCreated { .. } => (22, 'g', 'r'),
        Event::GroupMessageReceived { .. } => (31, 'g', 'c'),
        Event::GroupMemberAdded { .. } => (27, 'g', '_'),
        Event::GroupMemberRemoved { .. } => (29, 'g', 'e'),
        Event::GroupInfo { .. } => (19, 'g', 'p'),
        Event::UserGroups { .. } => (26, 'g', 'g'),
        Event::GroupError { .. } => (20, 'g', '.'),
        Event::GroupRelaySyncChanged { .. } => (33, 'g', 'h'),
        Event::GroupMessageSent { .. } => (27, 'g', 'e'),
        Event::GroupMessagePartialFailure { .. } => (38, 'g', 'a'),
        Event::GroupMessageDeliveryReport { .. } => (30, 'g', 'r'),
        Event::GroupRichExtrasDropped { .. } => (34, 'g', 'r'),
        Event::GroupUnauthorizedMembershipChange { .. } => (45, 'g', 'c'),
        Event::GroupEpochForkDetected { .. } => (34, 'g', 't'),
        Event::GroupEpochForkResolved { .. } => (34, 'g', 's'),
        Event::GroupRoleChanged { .. } => (27, 'g', 'h'),
        Event::GroupRenamed { .. } => (22, 'g', 'e'),
        Event::ServiceDiscovered { .. } => (27, 's', 'o'),
        Event::ServiceRequestReceived { .. } => (33, 's', 'c'),
        Event::ServiceResponseReceived { .. } => (34, 's', 'c'),
        Event::PresenceUpdated { .. } => (25, 'p', 'p'),
        Event::TypingIndicatorReceived { .. } => (24, 't', 'c'),
        Event::ReadReceiptReceived { .. } => (30, 'r', 'c'),
        Event::DorsScoreUpdated { .. } => (27, 'd', 'p'),
        Event::DorsTransportSelected { .. } => (32, 'd', 'l'),
        Event::DorsTransportSwitched { .. } => (32, 'd', 'i'),
        Event::DorsEscalationTriggered { .. } => (34, 'd', 'g'),
        Event::SecurityWarning { .. } => (25, 's', 'a'),
        Event::MessageRelayed { .. } => (24, 'm', 'e'),
        Event::UserBlocked { .. } => (21, 'u', 'l'),
        Event::UserUnblocked { .. } => (23, 'u', 'l'),
    }
}

proof fn lemma_name_1(event: Event) -> (done: bool)
    ensures
        done == (event is MessageSent || event is MessageReceived || event is MessageDelivered || event is MessageFailed || event is MessageDecryptionFailed || event is TransportSwitched || event is RelayPromoted || event is RelayDemoted || event is NeighborDiscovered || event is NeighborLost || event is IdentityReady || event is NetworkMetrics),
        done ==> well_named(event.telemetry_text()) && mark(event.telemetry_text()) == mark_of(
            event,
        ),
{
    reveal_strlit("protocol.");
    match event {
        Event::MessageSent { .. } => {
            reveal_strlit("protocol.message.sent");
            assert("protocol.message.sent"@.take(9) =~= "protocol."@);
            assert(parted_at("protocol.message.sent"@, 16));
            true
        },
        Event::MessageReceived { .. } => {
            reveal_strlit("protocol.message.received");
            assert("protocol.message.received"@.take(9) =~= "protocol."@);
            assert(parted_at("protocol.message.received"@, 16));
            true
        },
        Event::MessageDelivered { .. } => {
            reveal_strlit("protocol.message.delivered");
            assert("protocol.message.delivered"@.take(9) =~= "protocol."@);
            assert(parted_at("protocol.message.delivered"@, 16));
            true
        },
        Event::MessageFailed { .. } => {
            reveal_strlit("protocol.message.failed");
            assert("protocol.message.failed"@.take(9) =~= "protocol."@);
            assert(parted_at("protocol.message.failed"@, 16));
            true
        },
        Event::MessageDecryptionFailed { .. } => {
            reveal_strlit("protocol.message.decryption_failed");
            assert("protocol.message.decryption_failed"@.take(9) =~= "protocol."@);
            assert(parted_at("protocol.message.decryption_failed"@, 16));
            true
        },
        Event::TransportSwitched { .. } => {
            reveal_strlit("protocol.transport.switched");
            assert("protocol.transport.switched"@.take(9) =~= "protocol."@);
            assert(parted_at("protocol.transport.switched"@, 18));
            true
        },
        Event::RelayPromoted { .. } => {
            reveal_strlit("protocol.relay.promoted");
            assert("protocol.relay.promoted"@.take(9) =~= "protocol."@);
            assert(parted_at("protocol.relay.promoted"@, 14));
            true
        },
        Event::RelayDemoted { .. } => {
            reveal_strlit("protocol.relay.demoted");
            assert("protocol.relay.demoted"@.take(9) =~= "protocol."@);
            assert(parted_at("protocol.relay.demoted"@, 14));
            true
        },
        Event::NeighborDiscovered { .. } => {
            reveal_strlit("protocol.neighbor.discovered");
            assert("protocol.neighbor.discovered"@.take(9) =~= "protocol."@);
            assert(parted_at("protocol.neighbor.discovered"@, 17));
            true
        },
        Event::NeighborLost { .. } => {
            reveal_strlit("protocol.neighbor.lost");
            assert("protocol.neighbor.lost"@.take(9) =~= "protocol."@);
            assert(parted_at("protocol.neighbor.lost"@, 17));
            true
        },
        Event::IdentityReady { .. } => {
            reveal_strlit("protocol.identity.ready");
            assert("protocol.identity.ready"@.take(9) =~= "protocol."@);
            assert(parted_at("protocol.identity.ready"@, 17));
            true
        },
        Event::NetworkMetrics { .. } => {
            reveal_strlit("protocol.network.metrics");
            assert("protocol.network.metrics"@.take(9) =~= "protocol."@);
            assert(parted_at("protocol.network.metrics"@, 16));
            true
        },
        _ => false,
    }
}

proof fn lemma_name_2(event: Event) -> (done: bool)
    ensures
        done == (event is FileProgress || event is FileReceived || event is FileReceiveFailed || event is MediaSent || event is MediaSendFailed || event is MessageDeferred || event is MessageRetrying || event is MessageUndeliverable || event is MediaResendRequired || event is AckEvicted || event is FragmentAssemblyEvicted || event is RelayDemotedBattery),
        done ==> well_named(event.telemetry_text()) && mark(event.telemetry_text()) == mark_of(
            event,
        ),
{
    reveal_strlit("protocol.");
    match event {
        Event::FileProgress { .. } => {
            reveal_strlit("protocol.file.progress");
            assert("protocol.file.progress"@.take(9) =~= "protocol."@);
            assert(parted_at("protocol.file.progress"@, 13));
            true
        },
        Event::FileReceived { .. } => {
            reveal_strlit("protocol.file.received");
            assert("protocol.file.received"@.take(9) =~= "protocol."@);
            assert(parted_at("protocol.file.received"@, 13));
            true
        },
        Event::FileReceiveFailed { .. } => {
            reveal_strlit("protocol.file.receive_failed");
            assert("protocol.file.receive_failed"@.take(9) =~= "protocol."@);
            assert(parted_at("protocol.file.receive_failed"@, 13));
            true
        },
        Event::MediaSent { .. } => {
            reveal_strlit("protocol.media.sent");
            assert("protocol.media.sent"@.take(9) =~= "protocol."@);
            assert(parted_at("protocol.media.sent"@, 14));
            true
        },
        Event::MediaSendFailed { .. } => {
            reveal_strlit("protocol.media.send_failed");
            assert("protocol.media.send_failed"@.take(9) =~= "protocol."@);
            assert(parted_at("protocol.media.send_failed"@, 14));
            true
        },
        Event::MessageDeferred { .. } => {
            reveal_strlit("protocol.message.deferred");
            assert("protocol.message.deferred"@.take(9) =~= "protocol."@);
            assert(parted_at("protocol.message.deferred"@, 16));
            true
        },
        Event::MessageRetrying { .. } => {
            reveal_strlit("protocol.message.retrying");
            assert("protocol.message.retrying"@.take(9) =~= "protocol."@);
            assert(parted_at("protocol.message.retrying"@, 16));
            true
        },
        Event::MessageUndeliverable { .. } => {
            reveal_strlit("protocol.message.undeliverable");
            assert("protocol.message.undeliverable"@.take(9) =~= "protocol."@);
            assert(parted_at("protocol.message.undeliverable"@, 16));
            true
        },
        Event::MediaResendRequired { .. } => {
            reveal_strlit("protocol.media.resend_required");
            assert("protocol.media.resend_required"@.take(9) =~= "protocol."@);
            assert(parted_at("protocol.media.resend_required"@, 14));
            true
        },
        Event::AckEvicted { .. } => {
            reveal_strlit("protocol.ack.evicted");
            assert("protocol.ack.evicted"@.take(9) =~= "protocol."@);
            assert(parted_at("protocol.ack.evicted"@, 12));
            true
        },
        Event::FragmentAssemblyEvicted { .. } => {
            reveal_strlit("protocol.fragment.assembly_evicted");
            assert("protocol.fragment.assembly_evicted"@.take(9) =~= "protocol."@);
            assert(parted_at("protocol.fragment.assembly_evicted"@, 17));
            true
        },
        Event::RelayDemotedBattery { .. } => {
            reveal_strlit("protocol.relay.demoted_battery");
            assert("protocol.relay.demoted_battery"@.take(9) =~= "protocol."@);
            assert(parted_at("protocol.relay.demoted_battery"@, 14));
            true
        },
        _ => false,
    }
}

proof fn lemma_name_3(event: Event) -> (done: bool)
    ensures
        done == (event is SecureSessionEstablished || event is SecureSessionFailed || event is ConvergenceDiag || event is WelcomeSendAttempted || event is WelcomeSendSucceeded || event is WelcomeSendFailed || event is WelcomeSendExpired || event is ConnectionRequestReceived || event is ConnectionRequestUndeliverable || event is ConnectionAccepted || event is ConnectionRejected || event is ConnectionRequestCancelled),
        done ==> well_named(event.telemetry_text()) && mark(event.telemetry_text()) == mark_of(
            event,
        ),
{
    reveal_strlit("protocol.");
    match event {
        Event::SecureSessionEstablished { .. } => {
            reveal_strlit("protocol.secure_session.established");
            assert("protocol.secure_session.established"@.take(9) =~= "protocol."@);
            assert(parted_at("protocol.secure_session.established"@, 23));
            true
        },
        Event::SecureSessionFailed { .. } => {
            reveal_strlit("protocol.secure_session.failed");
            assert("protocol.secure_session.failed"@.take(9) =~= "protocol."@);
            assert(parted_at("protocol.secure_session.failed"@, 23));
            true
        },
        Event::ConvergenceDiag { .. } => {
            reveal_strlit("protocol.convergence.diag");
            assert("protocol.convergence.diag"@.take(9) =~= "protocol."@);
            assert(parted_at("protocol.convergence.diag"@, 20));
            true
        },
        Event::WelcomeSendAttempted { .. } => {
            reveal_strlit("protocol.welcome.send_attempted");
            assert("protocol.welcome.send_attempted"@.take(9) =~= "protocol."@);
            assert(parted_at("protocol.welcome.send_attempted"@, 16));
            true
        },
        Event::WelcomeSendSucceeded { .. } => {
            reveal_strlit("protocol.welcome.send_succeeded");
            assert("protocol.welcome.send_succeeded"@.take(9) =~= "protocol."@);
            assert(parted_at("protocol.welcome.send_succeeded"@, 16));
            true
        },
        Event::WelcomeSendFailed { .. } => {
            reveal_strlit("protocol.welcome.send_failed");
            assert("protocol.welcome.send_failed"@.take(9) =~= "protocol."@);
            assert(parted_at("protocol.welcome.send_failed"@, 16));
            true
        },
        Event::WelcomeSendExpired { .. } => {
            reveal_strlit("protocol.welcome.send_expired");
            assert("protocol.welcome.send_expired"@.take(9) =~= "protocol."@);
            assert(parted_at("protocol.welcome.send_expired"@, 16));
            true
        },
        Event::ConnectionRequestReceived { .. } => {
            reveal_strlit("protocol.connection.request_received");
            assert("protocol.connection.request_received"@.take(9) =~= "protocol."@);
            assert(parted_at("protocol.connection.request_received"@, 19));
            true
        },
        Event::ConnectionRequestUndeliverable { .. } => {
            reveal_strlit("protocol.connection.request_undeliverable");
            assert("protocol.connection.request_undeliverable"@.take(9) =~= "protocol."@);
            assert(parted_at("protocol.connection.request_undeliverable"@, 19));
            true
        },
        Event::ConnectionAccepted { .. } => {
            reveal_strlit("protocol.connection.accepted");
            assert("protocol.connection.accepted"@.take(9) =~= "protocol."@);
            assert(parted_at("protocol.connection.accepted"@, 19));
            true
        },
        Event::ConnectionRejected { .. } => {
            reveal_strlit("protocol.connection.rejected");
            assert("protocol.connection.rejected"@.take(9) =~= "protocol."@);
            assert(parted_at("protocol.connection.rejected"@, 19));
            true
        },
        Event::ConnectionRequestCancelled { .. } => {
            reveal_strlit("protocol.connection.request_cancelled");
            assert("protocol.connection.request_cancelled"@.take(9) =~= "protocol."@);
            assert(parted_at("protocol.connection.request_cancelled"@, 19));
            true
        },
        _ => false,
    }
}

proof fn lemma_name_4(event: Event) -> (done: bool)
    ensures
        done == (event is GroupCreated || event is GroupMessageReceived || event is GroupMemberAdded || event is GroupMemberRemoved || event is GroupInfo || event is UserGroups || event is GroupError || event is GroupRelaySyncChanged || event is GroupMessageSent || event is GroupMessagePartialFailure || event is GroupMessageDeliveryReport || event is GroupRichExtrasDropped),
        done ==> well_named(event.telemetry_text()) && mark(event.telemetry_text()) == mark_of(
            event,
        ),
{
    reveal_strlit("protocol.");
    match event {
        Event::GroupCreated { .. } => {
            reveal_strlit("protocol.group.created");
            assert("protocol.group.created"@.take(9) =~= "protocol."@);
            assert(parted_at("protocol.group.created"@, 14));
            true
        },
        Event::GroupMessageReceived { .. } => {
            reveal_strlit("protocol.group.message_received");
            assert("protocol.group.message_received"@.take(9) =~= "protocol."@);
            assert(parted_at("protocol.group.message_received"@, 14));
            true
        },
        Event::GroupMemberAdded { .. } => {
            reveal_strlit("protocol.group.member_added");
            assert("protocol.group.member_added"@.take(9) =~= "protocol."@);
            assert(parted_at("protocol.group.member_added"@, 14));
            true
        },
        Event::GroupMemberRemoved { .. } => {
            reveal_strlit("protocol.group.member_removed");
            assert("protocol.group.member_removed"@.take(9) =~= "protocol."@);
            assert(parted_at("protocol.group.member_removed"@, 14));
            true
        },
        Event::GroupInfo { .. } => {
            reveal_strlit("protocol.group.info");
            assert("protocol.group.info"@.take(9) =~= "protocol."@);
            assert(parted_at("protocol.group.info"@, 14));
            true
        },
        Event::UserGroups { .. } => {
            reveal_strlit("protocol.group.user_groups");
            assert("protocol.group.user_groups"@.take(9) =~= "protocol."@);
            assert(parted_at("protocol.group.user_groups"@, 14));
            true
        },
        Event::GroupError { .. } => {
            reveal_strlit("protocol.group.error");
            assert("protocol.group.error"@.take(9) =~= "protocol."@);
            assert(parted_at("protocol.group.error"@, 14));
            true
        },
        Event::GroupRelaySyncChanged { .. } => {
            reveal_strlit("protocol.group.relay_sync_changed");
            assert("protocol.group.relay_sync_changed"@.take(9) =~= "protocol."@);
            assert(parted_at("protocol.group.relay_sync_changed"@, 14));
            true
        },
        Event::GroupMessageSent { .. } => {
            reveal_strlit("protocol.group.message_sent");
            assert("protocol.group.message_sent"@.take(9) =~= "protocol."@);
            assert(parted_at("protocol.group.message_sent"@, 14));
            true
        },
        Event::GroupMessagePartialFailure { .. } => {
            reveal_strlit("protocol.group.message_partial_failure");
            assert("protocol.group.message_partial_failure"@.take(9) =~= "protocol."@);
            assert(parted_at("protocol.group.message_partial_failure"@, 14));
            true
        },
        Event::GroupMessageDeliveryReport { .. } => {
            reveal_strlit("protocol.group.delivery_report");
            assert("protocol.group.delivery_report"@.take(9) =~= "protocol."@);
            assert(parted_at("protocol.group.delivery_report"@, 14));
            true
        },
        Event::GroupRichExtrasDropped { .. } => {
            reveal_strlit("protocol.group.rich_extras_dropped");
            assert("protocol.group.rich_extras_dropped"@.take(9) =~= "protocol."@);
            assert(parted_at("protocol.group.rich_extras_dropped"@, 14));
            true
        },
        _ => false,
    }
}

proof fn lemma_name_5(event: Event) -> (done: bool)
    ensures
        done == (event is GroupUnauthorizedMembershipChange || event is GroupEpochForkDetected || event is GroupEpochForkResolved || event is GroupRoleChanged || event is GroupRenamed || event is ServiceDiscovered || event is ServiceRequestReceived || event is ServiceResponseReceived || event is PresenceUpdated || event is TypingIndicatorReceived || event is ReadReceiptReceived || event is DorsScoreUpdated),
        done ==> well_named(event.telemetry_text()) && mark(event.telemetry_text()) == mark_of(
            event,
        ),
{
    reveal_strlit("protocol.");
    match event {
        Event::GroupUnauthorizedMembershipChange { .. } => {
            reveal_strlit("protocol.group.unauthorized_membership_change");
            assert("protocol.group.unauthorized_membership_change"@.take(9) =~= "protocol."@);
            assert(parted_at("protocol.group.unauthorized_membership_change"@, 14));
            true
        },
        Event::GroupEpochForkDetected { .. } => {
            reveal_strlit("protocol.group.epoch_fork_detected");
            assert("protocol.group.epoch_fork_detected"@.take(9) =~= "protocol."@);
            assert(parted_at("protocol.group.epoch_fork_detected"@, 14));
            true
        },
        Event::GroupEpochForkResolved { .. } => {
            reveal_strlit("protocol.group.epoch_fork_resolved");
            assert("protocol.group.epoch_fork_resolved"@.take(9) =~= "protocol."@);
            assert(parted_at("protocol.group.epoch_fork_resolved"@, 14));
            true
        },
        Event::GroupRoleChanged { .. } => {
            reveal_strlit("protocol.group.role_changed");
            assert("protocol.group.role_changed"@.take(9) =~= "protocol."@);
            assert(parted_at("protocol.group.role_changed"@, 14));
            true
        },
        Event::GroupRenamed { .. } => {
            reveal_strlit("protocol.group.renamed");
            assert("protocol.group.renamed"@.take(9) =~= "protocol."@);
            assert(parted_at("protocol.group.renamed"@, 14));
            true
        },
        Event::ServiceDiscovered { .. } => {
            reveal_strlit("protocol.service.discovered");
            assert("protocol.service.discovered"@.take(9) =~= "protocol."@);
            assert(parted_at("protocol.service.discovered"@, 16));
            true
        },
        Event::ServiceRequestReceived { .. } => {
            reveal_strlit("protocol.service.request_received");
            assert("protocol.service.request_received"@.take(9) =~= "protocol."@);
            assert(parted_at("protocol.service.request_received"@, 16));
            true
        },
        Event::ServiceResponseReceived { .. } => {
            reveal_strlit("protocol.service.response_received");
            assert("protocol.service.response_received"@.take(9) =~= "protocol."@);
            assert(parted_at("protocol.service.response_received"@, 16));
            true
        },
        Event::PresenceUpdated { .. } => {
            reveal_strlit("protocol.presence.updated");
            assert("protocol.presence.updated"@.take(9) =~= "protocol."@);
            assert(parted_at("protocol.presence.updated"@, 17));
            true
        },
        Event::TypingIndicatorReceived { .. } => {
            reveal_strlit("protocol.typing.received");
            assert("protocol.typing.received"@.take(9) =~= "protocol."@);
            assert(parted_at("protocol.typing.received"@, 15));
            true
        },
        Event::ReadReceiptReceived { .. } => {
            reveal_strlit("protocol.read_receipt.received");
            assert("protocol.read_receipt.received"@.take(9) =~= "protocol."@);
            assert(parted_at("protocol.read_receipt.received"@, 21));
            true
        },
        Event::DorsScoreUpdated { .. } => {
            reveal_strlit("protocol.dors.score_updated");
            assert("protocol.dors.score_updated"@.take(9) =~= "protocol."@);
            assert(parted_at("protocol.dors.score_updated"@, 13));
            true
        },
        _ => false,
    }
}

proof fn lemma_name_6(event: Event) -> (done: bool)
    ensures
        done == (event is DorsTransportSelected || event is DorsTransportSwitched || event is DorsEscalationTriggered || event is SecurityWarning || event is MessageRelayed || event is UserBlocked || event is UserUnblocked),
        done ==> well_named(event.telemetry_text()) && mark(event.telemetry_text()) == mark_of(
            event,
        ),
{
    reveal_strlit("protocol.");
    match event {
        Event::DorsTransportSelected { .. } => {
            reveal_strlit("protocol.dors.transport_selected");
            assert("protocol.dors.transport_selected"@.take(9) =~= "protocol."@);
            assert(parted_at("protocol.dors.transport_selected"@, 13));
            true
        },
        Event::DorsTransportSwitched { .. } => {
            reveal_strlit("protocol.dors.transport_switched");
            assert("protocol.dors.transport_switched"@.take(9) =~= "protocol."@);
            assert(parted_at("protocol.dors.transport_switched"@, 13));
            true
        },
        Event::DorsEscalationTriggered { .. } => {
            reveal_strlit("protocol.dors.escalation_triggered");
            assert("protocol.dors.escalation_triggered"@.take(9) =~= "protocol."@);
            assert(parted_at("protocol.dors.escalation_triggered"@, 13));
            true
        },
        Event::SecurityWarning { .. } => {
            reveal_strlit("protocol.security.warning");
            assert("protocol.security.warning"@.take(9) =~= "protocol."@);
            assert(parted_at("protocol.security.warning"@, 17));
            true
        },
        Event::MessageRelayed { .. } => {
            reveal_strlit("protocol.message.relayed");
            assert("protocol.message.relayed"@.take(9) =~= "protocol."@);
            assert(parted_at("protocol.message.relayed"@, 16));
            true
        },
        Event::UserBlocked { .. } => {
            reveal_strlit("protocol.user.blocked");
            assert("protocol.user.blocked"@.take(9) =~= "protocol."@);
            assert(parted_at("protocol.user.blocked"@, 13));
            true
        },
        Event::UserUnblocked { .. } => {
            reveal_strlit("protocol.user.unblocked");
            assert("protocol.user.unblocked"@.take(9) =~= "protocol."@);
            assert(parted_at("protocol.user.unblocked"@, 13));
            true
        },
        _ => false,
    }
}

proof fn lemma_name(event: Event)
    ensures
        well_named(event.telemetry_text()),
        mark(event.telemetry_text()) == mark_of(event),
{
    let _ = lemma_name_1(event);
    let _ = lemma_name_2(event);
    let _ = lemma_name_3(event);
    let _ = lemma_name_4(event);
    let _ = lemma_name_5(event);
    let _ = lemma_name_6(event);
}

/// A telemetry name is made of `protocol`, what the event is about and what
/// happened, and tells the variant and nothing else: no two variants share one,
/// and what an event carries never matters.
pub proof fn a_telemetry_name_tells_the_variant(a: Event, b: Event)
    ensures
        well_named(a.telemetry_text()),
        a.telemetry_text() == b.telemetry_text() <==> same_variant(a, b),
{
    lemma_name(a);
    lemma_name(b);
    if mark_of(a) == mark_of(b) {
        assert(same_variant(a, b));
    }
}

} // verus!
