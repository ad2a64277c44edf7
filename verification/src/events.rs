//! Event types.

pub mod names;
pub mod shown;

use std::collections::HashMap;
use vstd::prelude::*;

use crate::base64_codec::{base64_encode, base64_text, encodable};
use crate::file_transfer::progress::{percentage_of, FileProgress};
use crate::message::{
    ContentType, ForwardInfo, MediaMetadata, Message, ReplyContext, ServiceEvent, TransportType,
};

verus! {

/// Machine-readable reason taxonomy for welcome delivery failures.
#[derive(Debug, Clone, Copy, PartialEq, Eq, Structural)]
pub enum WelcomeReasonCode {
    /// No transport was available or all transport sends failed.
    TransportUnavailable,
    /// The transport is up but this peer is unreachable on it.
    PeerUnreachable,
    /// Peer was disconnected or became unavailable during send.
    PeerDisconnected,
    /// Send operation timed out.
    Timeout,
    /// Local error prevented the send.
    InternalError,
    /// Retry budget or lifetime was exhausted.
    RetryExhausted,
}

impl WelcomeReasonCode {
    /// The stable machine-readable code.
    pub open spec fn text(self) -> Seq<char> {
        match self {
            WelcomeReasonCode::TransportUnavailable => "TRANSPORT_UNAVAILABLE"@,
            WelcomeReasonCode::PeerUnreachable => "PEER_UNREACHABLE"@,
            WelcomeReasonCode::PeerDisconnected => "PEER_DISCONNECTED"@,
            WelcomeReasonCode::Timeout => "TIMEOUT"@,
            WelcomeReasonCode::InternalError => "INTERNAL_ERROR"@,
            WelcomeReasonCode::RetryExhausted => "RETRY_EXHAUSTED"@,
        }
    }

    /// Returns the stable machine-readable code.
    pub fn as_str(&self) -> (r: &'static str)
        ensures
            r@ == self.text(),
    {
        match self {
            WelcomeReasonCode::TransportUnavailable => "TRANSPORT_UNAVAILABLE",
            WelcomeReasonCode::PeerUnreachable => "PEER_UNREACHABLE",
            WelcomeReasonCode::PeerDisconnected => "PEER_DISCONNECTED",
            WelcomeReasonCode::Timeout => "TIMEOUT",
            WelcomeReasonCode::InternalError => "INTERNAL_ERROR",
            WelcomeReasonCode::RetryExhausted => "RETRY_EXHAUSTED",
        }
    }

    /// The variant's name.
    pub open spec fn variant(self) -> &'static str {
        match self {
            WelcomeReasonCode::TransportUnavailable => "TransportUnavailable",
            WelcomeReasonCode::PeerUnreachable => "PeerUnreachable",
            WelcomeReasonCode::PeerDisconnected => "PeerDisconnected",
            WelcomeReasonCode::Timeout => "Timeout",
            WelcomeReasonCode::InternalError => "InternalError",
            WelcomeReasonCode::RetryExhausted => "RetryExhausted",
        }
    }

    /// The variant's name.
    pub fn name(&self) -> (r: &'static str)
        ensures
            r == self.variant(),
    {
        match self {
            WelcomeReasonCode::TransportUnavailable => "TransportUnavailable",
            WelcomeReasonCode::PeerUnreachable => "PeerUnreachable",
            WelcomeReasonCode::PeerDisconnected => "PeerDisconnected",
            WelcomeReasonCode::Timeout => "Timeout",
            WelcomeReasonCode::InternalError => "InternalError",
            WelcomeReasonCode::RetryExhausted => "RetryExhausted",
        }
    }
}

/// Machine-readable taxonomy for [`Event::SecurityWarning`].
#[derive(Debug, Clone, Copy, PartialEq, Eq, Structural)]
pub enum SecurityWarningCode {
    /// A control message verified, but its key does not derive to the claimed address.
    SenderAddressMismatch,
    /// A control message's signed sender did not match its transport peer.
    TransportIdentityMismatch,
    /// A control message's signature failed verification.
    ControlSignatureInvalid,
    /// An unsigned control message was rejected.
    UnsignedControlRejected,
    /// An encrypted media chunk's group did not match the claimed sender's session.
    MediaSenderGroupMismatch,
    /// An outbound message left this node as plaintext.
    PlaintextSend,
    /// Inbound plaintext content was rejected by the encryption policy.
    PlaintextReceiveRejected,
    /// An encrypted envelope named a group that is not the claimed sender's session.
    SessionSenderGroupMismatch,
    /// A session was torn down and re-advertised after an epoch desync.
    SessionRekeyTriggered,
    /// A key-package publication slot could not be refilled.
    NostrKeyPackageSlotExhausted,
    /// The per-peer key-package pool hit its ceiling.
    PushKeyPackagePoolExhausted,
    /// The relay acknowledged an address that is not this node's.
    RelayAddressBindingMismatch,
    /// The relay refused this connection's address declaration.
    RelayAddressDeclarationRefused,
    /// A group leaf carries a credential that its key does not derive to.
    GroupLeafIdentityUnproven,
}

impl SecurityWarningCode {
    /// The stable machine-readable code.
    pub open spec fn text(self) -> Seq<char> {
        match self {
            SecurityWarningCode::SenderAddressMismatch => "SENDER_ADDRESS_MISMATCH"@,
            SecurityWarningCode::TransportIdentityMismatch => "TRANSPORT_IDENTITY_MISMATCH"@,
            SecurityWarningCode::ControlSignatureInvalid => "CONTROL_SIGNATURE_INVALID"@,
            SecurityWarningCode::UnsignedControlRejected => "UNSIGNED_CONTROL_REJECTED"@,
            SecurityWarningCode::MediaSenderGroupMismatch => "MEDIA_SENDER_GROUP_MISMATCH"@,
            SecurityWarningCode::PlaintextSend => "PLAINTEXT_SEND"@,
            SecurityWarningCode::PlaintextReceiveRejected => "PLAINTEXT_RECEIVE_REJECTED"@,
            SecurityWarningCode::SessionSenderGroupMismatch => "SESSION_SENDER_GROUP_MISMATCH"@,
            SecurityWarningCode::SessionRekeyTriggered => "SESSION_REKEY_TRIGGERED"@,
            SecurityWarningCode::NostrKeyPackageSlotExhausted => "NOSTR_KEY_PACKAGE_SLOT_EXHAUSTED"@,
            SecurityWarningCode::PushKeyPackagePoolExhausted => "PUSH_KEY_PACKAGE_POOL_EXHAUSTED"@,
            SecurityWarningCode::RelayAddressBindingMismatch => "RELAY_ADDRESS_BINDING_MISMATCH"@,
            SecurityWarningCode::RelayAddressDeclarationRefused => "RELAY_ADDRESS_DECLARATION_REFUSED"@,
            SecurityWarningCode::GroupLeafIdentityUnproven => "GROUP_LEAF_IDENTITY_UNPROVEN"@,
        }
    }

    /// Returns the stable machine-readable code.
    pub fn as_str(&self) -> (r: &'static str)
        ensures
            r@ == self.text(),
    {
        match self {
            SecurityWarningCode::SenderAddressMismatch => "SENDER_ADDRESS_MISMATCH",
            SecurityWarningCode::TransportIdentityMismatch => "TRANSPORT_IDENTITY_MISMATCH",
            SecurityWarningCode::ControlSignatureInvalid => "CONTROL_SIGNATURE_INVALID",
            SecurityWarningCode::UnsignedControlRejected => "UNSIGNED_CONTROL_REJECTED",
            SecurityWarningCode::MediaSenderGroupMismatch => "MEDIA_SENDER_GROUP_MISMATCH",
            SecurityWarningCode::PlaintextSend => "PLAINTEXT_SEND",
            SecurityWarningCode::PlaintextReceiveRejected => "PLAINTEXT_RECEIVE_REJECTED",
            SecurityWarningCode::SessionSenderGroupMismatch => "SESSION_SENDER_GROUP_MISMATCH",
            SecurityWarningCode::SessionRekeyTriggered => "SESSION_REKEY_TRIGGERED",
            SecurityWarningCode::NostrKeyPackageSlotExhausted => "NOSTR_KEY_PACKAGE_SLOT_EXHAUSTED",
            SecurityWarningCode::PushKeyPackagePoolExhausted => "PUSH_KEY_PACKAGE_POOL_EXHAUSTED",
            SecurityWarningCode::RelayAddressBindingMismatch => "RELAY_ADDRESS_BINDING_MISMATCH",
            SecurityWarningCode::RelayAddressDeclarationRefused => "RELAY_ADDRESS_DECLARATION_REFUSED",
            SecurityWarningCode::GroupLeafIdentityUnproven => "GROUP_LEAF_IDENTITY_UNPROVEN",
        }
    }

    /// The variant's name.
    pub open spec fn variant(self) -> &'static str {
        match self {
            SecurityWarningCode::SenderAddressMismatch => "SenderAddressMismatch",
            SecurityWarningCode::TransportIdentityMismatch => "TransportIdentityMismatch",
            SecurityWarningCode::ControlSignatureInvalid => "ControlSignatureInvalid",
            SecurityWarningCode::UnsignedControlRejected => "UnsignedControlRejected",
            SecurityWarningCode::MediaSenderGroupMismatch => "MediaSenderGroupMismatch",
            SecurityWarningCode::PlaintextSend => "PlaintextSend",
            SecurityWarningCode::PlaintextReceiveRejected => "PlaintextReceiveRejected",
            SecurityWarningCode::SessionSenderGroupMismatch => "SessionSenderGroupMismatch",
            SecurityWarningCode::SessionRekeyTriggered => "SessionRekeyTriggered",
            SecurityWarningCode::NostrKeyPackageSlotExhausted => "NostrKeyPackageSlotExhausted",
            SecurityWarningCode::PushKeyPackagePoolExhausted => "PushKeyPackagePoolExhausted",
            SecurityWarningCode::RelayAddressBindingMismatch => "RelayAddressBindingMismatch",
            SecurityWarningCode::RelayAddressDeclarationRefused => "RelayAddressDeclarationRefused",
            SecurityWarningCode::GroupLeafIdentityUnproven => "GroupLeafIdentityUnproven",
        }
    }

    /// The variant's name.
    pub fn name(&self) -> (r: &'static str)
        ensures
            r == self.variant(),
    {
        match self {
            SecurityWarningCode::SenderAddressMismatch => "SenderAddressMismatch",
            SecurityWarningCode::TransportIdentityMismatch => "TransportIdentityMismatch",
            SecurityWarningCode::ControlSignatureInvalid => "ControlSignatureInvalid",
            SecurityWarningCode::UnsignedControlRejected => "UnsignedControlRejected",
            SecurityWarningCode::MediaSenderGroupMismatch => "MediaSenderGroupMismatch",
            SecurityWarningCode::PlaintextSend => "PlaintextSend",
            SecurityWarningCode::PlaintextReceiveRejected => "PlaintextReceiveRejected",
            SecurityWarningCode::SessionSenderGroupMismatch => "SessionSenderGroupMismatch",
            SecurityWarningCode::SessionRekeyTriggered => "SessionRekeyTriggered",
            SecurityWarningCode::NostrKeyPackageSlotExhausted => "NostrKeyPackageSlotExhausted",
            SecurityWarningCode::PushKeyPackagePoolExhausted => "PushKeyPackagePoolExhausted",
            SecurityWarningCode::RelayAddressBindingMismatch => "RelayAddressBindingMismatch",
            SecurityWarningCode::RelayAddressDeclarationRefused => "RelayAddressDeclarationRefused",
            SecurityWarningCode::GroupLeafIdentityUnproven => "GroupLeafIdentityUnproven",
        }
    }
}

/// Machine-readable reason for a transport selection or switch.
#[derive(Debug, Clone, Copy, PartialEq, Eq, Structural)]
pub enum DorsReasonCode {
    /// First selection; no previous transport.
    InitialSelection,
    /// Primary selected, before the send attempt.
    PrimarySelected,
    /// Primary send succeeded.
    PrimarySuccess,
    /// Primary failed; fallback send succeeded.
    FallbackSuccess,
    /// Fallback from BLE to WiFi succeeded.
    EscalationApplied,
    /// Previous transport unavailable; switched to the best available.
    CurrentUnavailable,
}

impl DorsReasonCode {
    /// The stable machine-readable code.
    pub open spec fn text(self) -> Seq<char> {
        match self {
            DorsReasonCode::InitialSelection => "INITIAL_SELECTION"@,
            DorsReasonCode::PrimarySelected => "PRIMARY_SELECTED"@,
            DorsReasonCode::PrimarySuccess => "PRIMARY_SUCCESS"@,
            DorsReasonCode::FallbackSuccess => "FALLBACK_SUCCESS"@,
            DorsReasonCode::EscalationApplied => "ESCALATION_APPLIED"@,
            DorsReasonCode::CurrentUnavailable => "CURRENT_UNAVAILABLE"@,
        }
    }

    /// Returns the stable machine-readable code.
    pub fn as_str(&self) -> (r: &'static str)
        ensures
            r@ == self.text(),
    {
        match self {
            DorsReasonCode::InitialSelection => "INITIAL_SELECTION",
            DorsReasonCode::PrimarySelected => "PRIMARY_SELECTED",
            DorsReasonCode::PrimarySuccess => "PRIMARY_SUCCESS",
            DorsReasonCode::FallbackSuccess => "FALLBACK_SUCCESS",
            DorsReasonCode::EscalationApplied => "ESCALATION_APPLIED",
            DorsReasonCode::CurrentUnavailable => "CURRENT_UNAVAILABLE",
        }
    }

    /// The variant's name.
    pub open spec fn variant(self) -> &'static str {
        match self {
            DorsReasonCode::InitialSelection => "InitialSelection",
            DorsReasonCode::PrimarySelected => "PrimarySelected",
            DorsReasonCode::PrimarySuccess => "PrimarySuccess",
            DorsReasonCode::FallbackSuccess => "FallbackSuccess",
            DorsReasonCode::EscalationApplied => "EscalationApplied",
            DorsReasonCode::CurrentUnavailable => "CurrentUnavailable",
        }
    }

    /// The variant's name.
    pub fn name(&self) -> (r: &'static str)
        ensures
            r == self.variant(),
    {
        match self {
            DorsReasonCode::InitialSelection => "InitialSelection",
            DorsReasonCode::PrimarySelected => "PrimarySelected",
            DorsReasonCode::PrimarySuccess => "PrimarySuccess",
            DorsReasonCode::FallbackSuccess => "FallbackSuccess",
            DorsReasonCode::EscalationApplied => "EscalationApplied",
            DorsReasonCode::CurrentUnavailable => "CurrentUnavailable",
        }
    }
}

/// Phase of an escalation: recommended, or carried out.
#[derive(Debug, Clone, Copy, PartialEq, Eq, Structural)]
pub enum DorsEscalationPhase {
    /// Escalation was decided; the fallback may not succeed.
    Triggered,
    /// The fallback send succeeded.
    Applied,
}

impl DorsEscalationPhase {
    /// The stable machine-readable code.
    pub open spec fn text(self) -> Seq<char> {
        match self {
            DorsEscalationPhase::Triggered => "TRIGGERED"@,
            DorsEscalationPhase::Applied => "APPLIED"@,
        }
    }

    /// Returns the stable machine-readable code.
    pub fn as_str(&self) -> (r: &'static str)
        ensures
            r@ == self.text(),
    {
        match self {
            DorsEscalationPhase::Triggered => "TRIGGERED",
            DorsEscalationPhase::Applied => "APPLIED",
        }
    }

    /// The variant's name.
    pub open spec fn variant(self) -> &'static str {
        match self {
            DorsEscalationPhase::Triggered => "Triggered",
            DorsEscalationPhase::Applied => "Applied",
        }
    }

    /// The variant's name.
    pub fn name(&self) -> (r: &'static str)
        ensures
            r == self.variant(),
    {
        match self {
            DorsEscalationPhase::Triggered => "Triggered",
            DorsEscalationPhase::Applied => "Applied",
        }
    }
}

/// Machine-readable reason for an escalation from BLE to WiFi.
#[derive(Debug, Clone, Copy, PartialEq, Eq, Structural)]
pub enum DorsEscalationReasonCode {
    /// Fallback succeeded after the primary send failed.
    FallbackSuccess,
    /// Suggested by the retry threshold.
    RetryThreshold,
    /// Suggested by sustained poor signal.
    PoorSignal,
    /// Suggested by congestion.
    Congestion,
    /// Suggested by low time-to-live on messages.
    LowTtl,
    /// Suggested by a success rate below the configured minimum.
    LowSuccessRate,
}

impl DorsEscalationReasonCode {
    /// The stable machine-readable code.
    pub open spec fn text(self) -> Seq<char> {
        match self {
            DorsEscalationReasonCode::FallbackSuccess => "FALLBACK_SUCCESS"@,
            DorsEscalationReasonCode::RetryThreshold => "RETRY_THRESHOLD"@,
            DorsEscalationReasonCode::PoorSignal => "POOR_SIGNAL"@,
            DorsEscalationReasonCode::Congestion => "CONGESTION"@,
            DorsEscalationReasonCode::LowTtl => "LOW_TTL"@,
            DorsEscalationReasonCode::LowSuccessRate => "LOW_SUCCESS_RATE"@,
        }
    }

    /// Returns the stable machine-readable code.
    pub fn as_str(&self) -> (r: &'static str)
        ensures
            r@ == self.text(),
    {
        match self {
            DorsEscalationReasonCode::FallbackSuccess => "FALLBACK_SUCCESS",
            DorsEscalationReasonCode::RetryThreshold => "RETRY_THRESHOLD",
            DorsEscalationReasonCode::PoorSignal => "POOR_SIGNAL",
            DorsEscalationReasonCode::Congestion => "CONGESTION",
            DorsEscalationReasonCode::LowTtl => "LOW_TTL",
            DorsEscalationReasonCode::LowSuccessRate => "LOW_SUCCESS_RATE",
        }
    }

    /// The variant's name.
    pub open spec fn variant(self) -> &'static str {
        match self {
            DorsEscalationReasonCode::FallbackSuccess => "FallbackSuccess",
            DorsEscalationReasonCode::RetryThreshold => "RetryThreshold",
            DorsEscalationReasonCode::PoorSignal => "PoorSignal",
            DorsEscalationReasonCode::Congestion => "Congestion",
            DorsEscalationReasonCode::LowTtl => "LowTtl",
            DorsEscalationReasonCode::LowSuccessRate => "LowSuccessRate",
        }
    }

    /// The variant's name.
    pub fn name(&self) -> (r: &'static str)
        ensures
            r == self.variant(),
    {
        match self {
            DorsEscalationReasonCode::FallbackSuccess => "FallbackSuccess",
            DorsEscalationReasonCode::RetryThreshold => "RetryThreshold",
            DorsEscalationReasonCode::PoorSignal => "PoorSignal",
            DorsEscalationReasonCode::Congestion => "Congestion",
            DorsEscalationReasonCode::LowTtl => "LowTtl",
            DorsEscalationReasonCode::LowSuccessRate => "LowSuccessRate",
        }
    }
}

/// Machine-readable reason taxonomy for inbound decryption failures.
#[derive(Debug, Clone, Copy, PartialEq, Eq, Structural)]
pub enum DecryptionFailureCode {
    /// The payload is malformed and cannot be parsed.
    InvalidPayload,
    /// The MLS layer is not initialized locally.
    NotInitialized,
    /// Ciphertext is invalid or cannot be decrypted.
    InvalidCiphertext,
    /// Sender identity or signature verification failed.
    IdentityMismatch,
    /// Cryptographic operation failed.
    CryptoFailure,
    /// A media chunk left the pending queue before the session became ready. Advisory: a
    /// resend can still complete the transfer.
    PendingQueueDropped,
    /// Failure class is unknown.
    Unknown,
}

impl DecryptionFailureCode {
    /// The variant's name.
    pub open spec fn variant(self) -> &'static str {
        match self {
            DecryptionFailureCode::InvalidPayload => "InvalidPayload",
            DecryptionFailureCode::NotInitialized => "NotInitialized",
            DecryptionFailureCode::InvalidCiphertext => "InvalidCiphertext",
            DecryptionFailureCode::IdentityMismatch => "IdentityMismatch",
            DecryptionFailureCode::CryptoFailure => "CryptoFailure",
            DecryptionFailureCode::PendingQueueDropped => "PendingQueueDropped",
            DecryptionFailureCode::Unknown => "Unknown",
        }
    }

    /// The variant's name.
    pub fn name(&self) -> (r: &'static str)
        ensures
            r == self.variant(),
    {
        match self {
            DecryptionFailureCode::InvalidPayload => "InvalidPayload",
            DecryptionFailureCode::NotInitialized => "NotInitialized",
            DecryptionFailureCode::InvalidCiphertext => "InvalidCiphertext",
            DecryptionFailureCode::IdentityMismatch => "IdentityMismatch",
            DecryptionFailureCode::CryptoFailure => "CryptoFailure",
            DecryptionFailureCode::PendingQueueDropped => "PendingQueueDropped",
            DecryptionFailureCode::Unknown => "Unknown",
        }
    }
}

/// Presence status for a peer.
#[derive(Debug, Clone, Copy, PartialEq, Eq, Structural)]
pub enum PresenceStatus {
    /// Peer is online and available.
    Online,
    /// Peer is away or idle.
    Away,
    /// Peer is explicitly offline.
    Offline,
}

impl PresenceStatus {
    /// The variant's name.
    pub open spec fn variant(self) -> &'static str {
        match self {
            PresenceStatus::Online => "Online",
            PresenceStatus::Away => "Away",
            PresenceStatus::Offline => "Offline",
        }
    }

    /// The variant's name.
    pub fn name(&self) -> (r: &'static str)
        ensures
            r == self.variant(),
    {
        match self {
            PresenceStatus::Online => "Online",
            PresenceStatus::Away => "Away",
            PresenceStatus::Offline => "Offline",
        }
    }
}

/// Where a presence update came from.
#[derive(Debug, Clone, Copy, PartialEq, Eq, Structural)]
pub enum PresenceSource {
    /// Relay-observed presence.
    Internet,
    /// A peer-sent self-report.
    Peer,
}

impl PresenceSource {
    /// The variant's name.
    pub open spec fn variant(self) -> &'static str {
        match self {
            PresenceSource::Internet => "Internet",
            PresenceSource::Peer => "Peer",
        }
    }

    /// The variant's name.
    pub fn name(&self) -> (r: &'static str)
        ensures
            r == self.variant(),
    {
        match self {
            PresenceSource::Internet => "Internet",
            PresenceSource::Peer => "Peer",
        }
    }
}

impl Default for PresenceSource {
    fn default() -> (r: Self)
        ensures
            r == PresenceSource::Peer,
    {
        PresenceSource::Peer
    }
}

/// Forwarding attribution in events.
#[derive(Debug, Clone)]
pub struct ForwardInfoEvent {
    /// The original sender of the message.
    pub original_sender: String,
    /// The original message id.
    pub original_message_id: String,
    /// The original timestamp (wall-clock ms).
    pub original_timestamp: i64,
    /// Number of times this message has been forwarded.
    pub forward_count: u32,
}

impl ForwardInfoEvent {
    /// `event` attributes what `info` attributes.
    pub open spec fn of(event: ForwardInfoEvent, info: ForwardInfo) -> bool {
        &&& event.original_sender@ == info.original_sender@
        &&& event.original_message_id@ == info.original_message_id@
        &&& event.original_timestamp == info.original_timestamp
        &&& event.forward_count == info.forward_count
    }

    /// The attribution as an event carries it.
    pub fn from_info(info: &ForwardInfo) -> (r: ForwardInfoEvent)
        ensures
            Self::of(r, *info),
    {
        ForwardInfoEvent {
            original_sender: info.original_sender.clone(),
            original_message_id: info.original_message_id.clone(),
            original_timestamp: info.original_timestamp,
            forward_count: info.forward_count,
        }
    }

    /// An optional attribution as an event carries it.
    pub fn from_option(info: &Option<ForwardInfo>) -> (r: Option<ForwardInfoEvent>)
        ensures
            Self::of_option(r, *info),
    {
        match info {
            Some(i) => Some(Self::from_info(i)),
            None => None,
        }
    }

    /// `event` attributes what `info` attributes, if anything.
    pub open spec fn of_option(event: Option<ForwardInfoEvent>, info: Option<ForwardInfo>) -> bool {
        match (event, info) {
            (Some(e), Some(i)) => Self::of(e, i),
            (None, None) => true,
            _ => false,
        }
    }
}

/// Quoted-reply context in events.
#[derive(Debug, Clone)]
pub struct ReplyContextEvent {
    /// Sender of the message being replied to.
    pub sender: String,
    /// Text (or excerpt) of the message being replied to.
    pub text: String,
    /// Timestamp of the quoted message (wall-clock ms).
    pub timestamp: Option<i64>,
    /// Short human-readable label for quoted media.
    pub reply_media_label: Option<String>,
    /// Content type of the quoted message, as a display string.
    pub reply_content_type: Option<String>,
}

/// A copy of an optional text.
pub fn copy_text(text: &Option<String>) -> (r: Option<String>)
    ensures
        r == *text,
{
    match text {
        Some(t) => Some(t.clone()),
        None => None,
    }
}

/// A copy of a list of texts.
pub fn copy_texts(texts: &Vec<String>) -> (r: Vec<String>)
    ensures
        r@ == texts@,
        r.deep_view() == texts.deep_view(),
{
    let mut r: Vec<String> = Vec::new();
    let mut i: usize = 0;
    while i < texts.len()
        invariant
            i <= texts@.len(),
            r@ == texts@.take(i as int),
        decreases texts@.len() - i,
    {
        r.push(texts[i].clone());
        assert(r@ =~= texts@.take(i + 1));
        i = i + 1;
    }
    assert(r@ =~= texts@);
    assert(r.deep_view() =~= texts.deep_view());
    r
}

impl ReplyContextEvent {
    /// `event` quotes what `context` quotes.
    pub open spec fn of(event: ReplyContextEvent, context: ReplyContext) -> bool {
        &&& event.sender == context.sender
        &&& event.text == context.text
        &&& event.timestamp == context.timestamp
        &&& event.reply_media_label == context.reply_media_label
        &&& event.reply_content_type == context.reply_content_type
    }

    /// The quotation as an event carries it.
    pub fn from_context(context: &ReplyContext) -> (r: ReplyContextEvent)
        ensures
            Self::of(r, *context),
    {
        ReplyContextEvent {
            sender: context.sender.clone(),
            text: context.text.clone(),
            timestamp: context.timestamp,
            reply_media_label: copy_text(&context.reply_media_label),
            reply_content_type: copy_text(&context.reply_content_type),
        }
    }
}

/// Member entry in [`Event::GroupInfo`].
#[derive(Debug, Clone)]
pub struct GroupInfoMember {
    /// User id of the member.
    pub user_id: String,
    /// Role within the group (for instance `admin` or `member`).
    pub role: String,
    /// ISO-8601 timestamp when the member joined.
    pub joined_at: String,
}

/// Group summary in [`Event::UserGroups`].
#[derive(Debug, Clone)]
pub struct UserGroupSummary {
    /// Group identifier.
    pub group_id: String,
    /// Human-readable group name.
    pub name: String,
    /// ISO-8601 creation timestamp.
    pub created_at: String,
}

/// Events that can occur in the protocol.
///
/// Single-precision values (ratios and scores) are held as their bit patterns.
pub enum Event {
    /// A message was sent (queued for delivery).
    MessageSent {
        /// ID of the sent message.
        message_id: String,
        /// Sender's user ID.
        sender: String,
        /// Recipient's user ID.
        recipient: String,
        /// Content of the sent message.
        content: String,
        /// Priority of the message when sent.
        priority: String,
        /// Whether the message requires an acknowledgement.
        requires_ack: bool,
        /// When the message was queued for delivery (wall-clock, for display).
        timestamp: i64,
        /// Lamport logical clock value for causal ordering.
        lamport_clock: u64,
        /// Forwarding attribution (present when this is a forwarded message).
        forward_info: Option<ForwardInfoEvent>,
    },
    /// A message was received.
    MessageReceived {
        /// ID of the received message.
        message_id: String,
        /// Sender's user ID.
        sender: String,
        /// Recipient's user ID.
        recipient: String,
        /// Message content.
        content: String,
        /// Number of hops the message traversed.
        hop_count: u8,
        /// Transport used for final delivery.
        transport: String,
        /// When the message was received (wall-clock, for display).
        timestamp: i64,
        /// Lamport logical clock value for causal ordering.
        lamport_clock: u64,
        /// ID of the message this is replying to (optional).
        reply_to_msg: Option<String>,
        /// Quoted-reply context (present when this message quotes another).
        reply_context: Option<Box<ReplyContextEvent>>,
        /// The type of content (text, image, video, etc.).
        content_type: String,
        /// Media metadata (present for non-text content).
        media_metadata: Option<MediaMetadata>,
        /// Forwarding attribution (present when this is a forwarded message).
        forward_info: Option<ForwardInfoEvent>,
        /// `true` when the content arrived MLS-encrypted and was decrypted by this
        /// node; `false` for plaintext accepted under the `require_encryption =
        /// false` opt-out.
        encrypted: bool,
    },
    /// A message was successfully delivered (ACK received).
    MessageDelivered {
        /// ID of the delivered message.
        message_id: String,
        /// Latency in milliseconds.
        latency_ms: u64,
        /// Number of hops traversed.
        hop_count: u8,
        /// Transport used.
        transport: String,
    },
    /// A message failed to deliver.
    MessageFailed {
        /// ID of the failed message.
        message_id: String,
        /// Reason for failure.
        reason: String,
        /// Number of retries attempted.
        retry_count: u32,
    },
    /// An inbound encrypted message failed to decrypt on this attempt.
    MessageDecryptionFailed {
        /// ID of the message that could not be decrypted.
        message_id: String,
        /// Sender's user ID.
        sender: String,
        /// Machine-readable decryption failure code.
        code: DecryptionFailureCode,
        /// Clear failure reason for application handling/logging.
        reason: String,
    },
    /// Transport was switched by DORS.
    TransportSwitched {
        /// Previous transport (if any).
        from: Option<String>,
        /// New transport.
        to: String,
        /// Reason for switch.
        reason: String,
    },
    /// This device was promoted to relay role.
    RelayPromoted {
        /// Number of connections when promoted.
        connection_count: usize,
        /// Battery level when promoted.
        battery_level: u8,
    },
    /// This device was demoted from relay role.
    RelayDemoted {
        /// Reason for demotion.
        reason: String,
    },
    /// A new neighbor was discovered.
    NeighborDiscovered {
        /// The peer's canonical user id — the same value the peer supplied as
        /// `ProtocolConfig.user_id`, on every transport.
        peer_id: String,
        /// Transport used to discover.
        transport: String,
        /// RSSI signal strength (if available).
        rssi: Option<i16>,
    },
    /// A neighbor was lost (disconnected).
    NeighborLost {
        /// Peer ID of the lost neighbor.
        peer_id: String,
    },
    /// This device's own address is known: MLS storage was opened and the identity
    /// key in it derived to `address`.
    IdentityReady {
        /// This device's self-certifying address (`off1…`).
        address: String,
    },
    /// Network metrics update.
    NetworkMetrics {
        /// Number of active neighbors.
        neighbor_count: usize,
        /// Number of active relays.
        relay_count: usize,
        /// Message delivery ratio (0.0-1.0), as bits.
        delivery_ratio: u32,
        /// Average message latency in milliseconds.
        avg_latency_ms: u64,
    },
    /// File transfer progress update.
    FileProgress {
        /// File identifier.
        file_id: String,
        /// Number of chunks sent so far.
        chunks_sent: u32,
        /// Total number of chunks.
        total_chunks: u32,
        /// Progress percentage (0-100).
        percentage: u8,
    },
    /// File was completely received.
    FileReceived {
        /// File identifier.
        file_id: String,
        /// File name.
        file_name: String,
        /// File size in bytes.
        file_size: u64,
        /// Sender's user ID.
        sender: String,
        /// The content type of the media (image, video, file, etc.).
        content_type: String,
        /// Media metadata from the first chunk (present for typed media).
        media_metadata: Option<MediaMetadata>,
        /// Base64-encoded reassembled file data.
        file_data: String,
        /// When the sender queued the transfer (chunk-0 outer message timestamp,
        /// wall-clock ms) — for display ordering alongside
        /// `MessageReceived.timestamp`.
        timestamp: Option<i64>,
        /// Caption text from the sealed chunk-0 rich extras.
        caption: Option<String>,
        /// ID of the message this media replies to (sealed chunk-0 extras).
        reply_to_msg: Option<String>,
        /// Quoted-reply context (sealed chunk-0 extras).
        reply_context: Option<Box<ReplyContextEvent>>,
        /// Forwarding attribution (sealed chunk-0 extras).
        forward_info: Option<ForwardInfoEvent>,
    },
    /// An inbound file transfer was dropped before completion — the receiver hit a
    /// resource limit (too many concurrent transfers, per-sender quota, or the
    /// buffered-bytes budget), the reassembled file failed its integrity checks, or
    /// the transfer went stale (no chunks within the stale timeout).
    FileReceiveFailed {
        /// File identifier.
        file_id: String,
        /// File name from the chunk metadata.
        file_name: String,
        /// Sender's user ID.
        sender: String,
        /// Machine-readable reason the transfer was dropped.
        reason: String,
    },
    /// All chunks of a media attachment were ACK-delivered.
    MediaSent {
        /// File identifier for tracking.
        file_id: String,
        /// The content type of the media.
        content_type: String,
        /// Recipient's user ID.
        recipient: String,
    },
    /// An outbound media transfer was aborted before all chunks were delivered — a
    /// chunk failed to encrypt, or a chunk failed terminally in the outbox.
    MediaSendFailed {
        /// File identifier for tracking.
        file_id: String,
        /// Recipient's user ID.
        recipient: String,
        /// Reason the transfer was aborted.
        reason: String,
    },
    /// A message was deferred due to network conditions.
    MessageDeferred {
        /// ID of the deferred message.
        message_id: String,
        /// Reason for deferral.
        reason: String,
        /// Current retry count.
        retry_count: u32,
        /// Next retry scheduled time (Unix timestamp ms).
        next_retry_at: Option<i64>,
    },
    /// A retry for a previously deferred/unacked message was scheduled.
    MessageRetrying {
        /// ID of the retrying message.
        message_id: String,
        /// Recipient's user ID.
        recipient: String,
        /// Retry count this schedule corresponds to.
        retry_count: u32,
        /// Absolute time the retry is scheduled for (Unix timestamp ms).
        next_retry_at: i64,
    },
    /// The transport layer reported the recipient unreachable for an in-flight
    /// message (e.g.
    MessageUndeliverable {
        /// ID of the affected message.
        message_id: String,
        /// Recipient's user ID.
        recipient: String,
        /// Transport-reported reason (starts with `recipient_unreachable`).
        reason: String,
        /// Owning media transfer when the message is a media chunk.
        file_id: Option<String>,
    },
    /// An outbound media transfer was in flight when the previous process died.
    MediaResendRequired {
        /// File identifier of the interrupted transfer.
        file_id: String,
        /// Recipient's user ID.
        recipient: String,
        /// Original file name.
        file_name: String,
        /// Total file size in bytes.
        file_size: u64,
    },
    /// A pending ACK was evicted due to capacity constraints.
    AckEvicted {
        /// ID of the message whose ACK was evicted.
        message_id: String,
        /// Priority of the evicted message.
        priority: String,
        /// Reason for eviction.
        reason: String,
    },
    /// A fragment assembly was evicted to make room for new fragments.
    FragmentAssemblyEvicted {
        /// ID of the message whose fragments were evicted.
        message_id: String,
        /// Completion percentage when evicted.
        completion_percent: u8,
        /// Reason for eviction.
        reason: String,
    },
    /// Relay role was demoted due to battery constraints.
    RelayDemotedBattery {
        /// Battery level at time of demotion.
        battery_level: u8,
        /// Minimum required battery level.
        min_required: u8,
    },
    /// A secure MLS session was successfully established.
    SecureSessionEstablished {
        /// Peer ID of the other party.
        peer_id: String,
        /// MLS group ID for the session.
        group_id: String,
        /// Whether this is a 1:1 session (true) or a multi-party group (false).
        is_session: bool,
        /// Whether the local device initiated the session (sent the Welcome).
        initiated_by_local: bool,
    },
    /// Failed to establish a secure MLS session.
    SecureSessionFailed {
        /// Peer ID of the other party.
        peer_id: String,
        /// Reason for the failure.
        reason: String,
    },
    /// Diagnostic breadcrumb for the 1:1 MLS convergence (Welcome receive / adopt /
    /// confirm) path.
    ConvergenceDiag {
        /// Fixed stage label, e.g.
        stage: String,
        /// Peer ID this breadcrumb concerns.
        peer_id: String,
        /// Free-form `key=value` context (counts, branch taken, errors).
        detail: String,
    },
    /// Welcome send lifecycle entered attempted state.
    WelcomeSendAttempted {
        /// Peer identifier for this welcome lifecycle.
        peer_id: String,
        /// Welcome message identifier for lifecycle correlation.
        message_id: String,
        /// MLS group identifier associated with the welcome.
        group_id: String,
        /// 1-based send attempt number.
        attempt: u32,
    },
    /// Welcome send lifecycle reached successful sent state.
    WelcomeSendSucceeded {
        /// Peer identifier for this welcome lifecycle.
        peer_id: String,
        /// Welcome message identifier for lifecycle correlation.
        message_id: String,
        /// MLS group identifier associated with the welcome.
        group_id: String,
        /// 1-based send attempt number.
        attempt: u32,
    },
    /// Welcome send attempt failed and may be retried.
    WelcomeSendFailed {
        /// Peer identifier for this welcome lifecycle.
        peer_id: String,
        /// Welcome message identifier for lifecycle correlation.
        message_id: String,
        /// MLS group identifier associated with the welcome.
        group_id: String,
        /// 1-based send attempt number.
        attempt: u32,
        /// Machine-readable reason code.
        reason_code: WelcomeReasonCode,
        /// Optional transport/native error detail.
        transport_error: Option<String>,
        /// Whether this failure will be retried.
        retryable: bool,
        /// Next scheduled retry timestamp in Unix ms.
        next_retry_at: Option<i64>,
    },
    /// Welcome send lifecycle reached terminal expiry.
    WelcomeSendExpired {
        /// Peer identifier for this welcome lifecycle.
        peer_id: String,
        /// Welcome message identifier for lifecycle correlation.
        message_id: String,
        /// Final attempt number when lifecycle expired.
        attempt: u32,
        /// Terminal machine-readable reason code.
        reason_code: WelcomeReasonCode,
    },
    /// A connection request was received from another user.
    ConnectionRequestReceived {
        /// User ID of the sender.
        sender: String,
        /// Display name of the sender.
        sender_name: String,
        /// Timestamp of the request (Unix ms).
        timestamp: i64,
        /// MLS key package data (if provided for encrypted session setup).
        key_package: Option<Vec<u8>>,
        /// Optional first message sent along with the request.
        initial_message: Option<String>,
    },
    /// An outbound connection request could not be delivered: the transport
    /// reported the recipient unreachable (e.g.
    ConnectionRequestUndeliverable {
        /// Recipient the request was addressed to.
        recipient: String,
        /// Message id returned by `send_connection_request`.
        message_id: String,
        /// Failure reason: starts with `recipient_unreachable`, or is
        /// `max_retries_exceeded` when the retry budget ran out.
        reason: String,
    },
    /// A previously sent connection request was accepted.
    ConnectionAccepted {
        /// User ID of the accepting party.
        accepted_by: String,
        /// Display name of the accepting party.
        accepted_by_name: String,
        /// Timestamp of the acceptance (Unix ms).
        timestamp: i64,
        /// MLS key package data (if provided for encrypted session setup).
        key_package: Option<Vec<u8>>,
    },
    /// A previously sent connection request was rejected.
    ConnectionRejected {
        /// User ID of the rejecting party.
        rejected_by: String,
    },
    /// A previously sent connection request was cancelled by the sender.
    ConnectionRequestCancelled {
        /// User ID of the party who cancelled their request.
        cancelled_by: String,
    },
    /// A group was created (from relay).
    GroupCreated {
        /// Group identifier.
        group_id: String,
        /// Human-readable group name.
        name: String,
    },
    /// A message was received in a group (from relay).
    GroupMessageReceived {
        /// Group identifier.
        group_id: String,
        /// User ID of the sender.
        sender: String,
        /// Message content.
        content: String,
        /// ISO-8601 timestamp.
        timestamp: String,
        /// Unique message identifier.
        message_id: String,
        /// Optional reply-to message ID.
        reply_to_msg: Option<String>,
        /// Forwarding attribution (present when this is a forwarded message).
        forward_info: Option<ForwardInfoEvent>,
        /// Media metadata restored from the sealed `__RICH_V1__` body of a rich
        /// group message (cloud attachments — including the `encryption_key`/`iv`
        /// secrets, which only ever travel inside the group MLS ciphertext).
        media_metadata: Option<MediaMetadata>,
        /// Content-type rendering hint from the sealed body (text, image, video,
        /// ...).
        content_type: Option<String>,
    },
    /// A member was added to a group (from relay).
    GroupMemberAdded {
        /// Group identifier.
        group_id: String,
        /// User ID of the added member.
        user_id: String,
        /// User ID of who performed the add.
        added_by: String,
        /// Human-readable group name (present when the invitee first joins).
        group_name: Option<String>,
        /// Whether `added_by` was authorized to make this change.
        authorized: Option<bool>,
    },
    /// A member was removed from a group (from relay).
    GroupMemberRemoved {
        /// Group identifier.
        group_id: String,
        /// User ID of the removed member.
        user_id: String,
        /// User ID of who performed the removal.
        removed_by: String,
        /// Whether this change was authorized (`None` = not evaluated on this
        /// path).
        authorized: Option<bool>,
    },
    /// Group info was received (from relay).
    GroupInfo {
        /// Group identifier.
        group_id: String,
        /// Human-readable group name.
        name: String,
        /// User ID of the group creator.
        created_by: String,
        /// ISO-8601 creation timestamp.
        created_at: String,
        /// Group member list.
        members: Vec<GroupInfoMember>,
    },
    /// User's groups list was received (from relay).
    UserGroups {
        /// List of group summaries.
        groups: Vec<UserGroupSummary>,
    },
    /// A group operation failed (from relay).
    GroupError {
        /// Why the operation failed, from a fixed set: `not_found` (the relay has
        /// no such group — invite links and relay fan-out for it are dead, not
        /// merely refused), `sync_denied` (the relay refused to register or sync
        /// the group for this caller), or `error` (any other refusal).
        reason: String,
        /// Group the error concerns, when the relay scoped it.
        group_id: Option<String>,
    },
    /// The relay-side registration state of a group changed.
    GroupRelaySyncChanged {
        /// MLS group identifier.
        group_id: String,
        /// Whether the relay currently holds a positively acknowledged registration
        /// for this group.
        synced: bool,
        /// Why the state changed: `registered` (relay ack), `error` (group-scoped
        /// relay error), `removed` (we were removed from the group), `left` (local
        /// leave), `internet_dropped` (Internet transport lost; re-registration re-
        /// arms on reconnect), or `ack_timeout` (relay never answered the
        /// registration — likely a relay without group support).
        reason: String,
    },
    /// A group message was sent to all members via mesh (MLS-encrypted fan-out).
    GroupMessageSent {
        /// MLS group identifier.
        group_id: String,
        /// Per-member message IDs from fan-out.
        message_ids: Vec<String>,
        /// Number of members the message was sent to.
        member_count: u32,
    },
    /// A group message was only partially delivered (some members failed).
    GroupMessagePartialFailure {
        /// MLS group identifier.
        group_id: String,
        /// Members for whom send failed.
        failed_members: Vec<String>,
        /// Members for whom send succeeded.
        succeeded_members: Vec<String>,
    },
    /// The relay's settled per-recipient delivery report for a group message sent
    /// via relay broadcast, after the SDK acted on it.
    GroupMessageDeliveryReport {
        /// MLS group identifier.
        group_id: String,
        /// The logical group message id, as returned by the send and echoed by the
        /// relay.
        message_id: String,
        /// Members whose relay socket write was confirmed (a relay-side write-ack,
        /// not an end-to-end delivery ACK).
        delivered: Vec<String>,
        /// Members offline at the relay who took a device push.
        pushed: Vec<String>,
        /// Members re-sent a per-member copy because the relay reached them neither
        /// way (or never knew them).
        missed_reissued: Vec<String>,
    },
    /// Rich media metadata was dropped from an outbound group message because the
    /// group is not fully rich-capable (not every member advertised sealed rich
    /// payload support, or the local kill switch disabled it).
    GroupRichExtrasDropped {
        /// MLS group identifier.
        group_id: String,
        /// Members not known to parse the sealed rich payload — the ones holding
        /// the seal gate closed.
        unknown_members: Vec<String>,
    },
    /// An MLS membership change was applied that its committer was not authorized
    /// to make.
    GroupUnauthorizedMembershipChange {
        /// MLS group identifier.
        group_id: String,
        /// The MLS-authenticated committer that made the change.
        committer: String,
        /// Members the commit added, sorted.
        added: Vec<String>,
        /// Members the commit removed, sorted.
        removed: Vec<String>,
        /// Why the change was judged unauthorized.
        reason: String,
        /// Whether the commit was *refused* rather than applied.
        enforced: bool,
    },
    /// An epoch fork was detected in a group — concurrent commits caused members to
    /// diverge onto different MLS branches.
    GroupEpochForkDetected {
        /// MLS group identifier.
        group_id: String,
        /// Our local epoch when the fork was detected, or `None` if MLS state was
        /// unavailable at detection time.
        local_epoch: Option<u64>,
    },
    /// An epoch fork was successfully resolved by the leader issuing a resync
    /// commit that re-established a canonical epoch.
    GroupEpochForkResolved {
        /// MLS group identifier.
        group_id: String,
        /// The new canonical epoch after resolution.
        resolved_epoch: u64,
        /// Members to whom the resolution commit could not be sent.
        failed_members: Vec<String>,
    },
    /// A member's role was changed in a group.
    GroupRoleChanged {
        /// Group identifier.
        group_id: String,
        /// User ID of the member whose role changed.
        user_id: String,
        /// New role (e.g.
        new_role: String,
        /// User ID of who changed the role.
        changed_by: String,
    },
    /// A group was renamed.
    GroupRenamed {
        /// Group identifier.
        group_id: String,
        /// New group name.
        new_name: String,
        /// Previous group name (if known).
        old_name: Option<String>,
        /// User ID of who renamed the group.
        renamed_by: String,
    },
    /// A service was discovered on the mesh in response to a discovery query.
    ServiceDiscovered {
        /// Query ID that triggered this discovery.
        query_id: String,
        /// Service identifier.
        service_id: String,
        /// Service version.
        version: String,
        /// Peer user ID of the provider.
        provider_peer_id: String,
        /// Service capabilities.
        capabilities: HashMap<String, String>,
        /// Number of hops from the provider.
        hop_count: u8,
    },
    /// A service request was received from another peer.
    ServiceRequestReceived {
        /// Unique request identifier.
        request_id: String,
        /// Service identifier being invoked.
        service_id: String,
        /// Method name or action.
        method: String,
        /// Request body (JSON or arbitrary string).
        body: String,
        /// Peer user ID of the requester.
        sender: String,
    },
    /// A response to a service request was received.
    ServiceResponseReceived {
        /// Request identifier this response corresponds to.
        request_id: String,
        /// Service identifier.
        service_id: String,
        /// Status: "ok", "not_found", or "error".
        status: String,
        /// Response body.
        body: String,
        /// Peer user ID of the provider.
        provider_peer_id: String,
    },
    /// A peer's presence status was updated.
    PresenceUpdated {
        /// Peer whose presence changed.
        peer_id: String,
        /// Presence status.
        status: PresenceStatus,
        /// Timestamp of the update (Unix ms).
        timestamp: i64,
        /// When the peer was last seen (Unix ms), if the source knows it — e.g.
        last_seen_ms: Option<i64>,
        /// Which channel produced this update: the internet relay's authoritative
        /// answer, or a peer-sent self-report.
        source: PresenceSource,
    },
    /// A typing indicator was received from a peer.
    TypingIndicatorReceived {
        /// User who is typing (or stopped typing).
        sender: String,
        /// Conversation identifier, echoed back verbatim from the sender.
        conversation_id: String,
        /// Whether the user is currently typing.
        is_typing: bool,
        /// Timestamp of the indicator (Unix ms).
        timestamp: i64,
    },
    /// A read receipt was received from a peer.
    ReadReceiptReceived {
        /// User who read the messages.
        sender: String,
        /// IDs of the messages that were read.
        message_ids: Vec<String>,
        /// Timestamp when the messages were read (Unix ms).
        timestamp: i64,
    },
    /// DORS scored all available transports for this decision cycle.
    DorsScoreUpdated {
        /// Transport type and score pairs (descending by score); scores as bits.
        scores: Vec<(String, u32)>,
    },
    /// DORS selected a transport for the current message.
    DorsTransportSelected {
        /// Previous transport (if any); provides decision boundary context.
        from: Option<String>,
        /// Selected transport.
        transport: String,
        /// Typed reason for selection (initial vs primary selected).
        reason_code: DorsReasonCode,
        /// Score of the selected transport (supplemental), as bits.
        score: u32,
    },
    /// DORS switched from one transport to another.
    DorsTransportSwitched {
        /// Previous transport (if any).
        from: Option<String>,
        /// New transport (now active).
        to: String,
        /// Stable enum-backed reason for the transition.
        reason_code: DorsReasonCode,
        /// Optional human-readable context (e.g.
        reason_detail: Option<String>,
    },
    /// DORS escalation from BLE to Wi‑Fi.
    DorsEscalationTriggered {
        /// TRIGGERED = DORS decided to escalate (reason = trigger); APPLIED =
        /// fallback succeeded.
        phase: DorsEscalationPhase,
        /// Transport we escalated from (e.g.
        from: String,
        /// Transport we escalated to (e.g.
        to: String,
        /// Stable enum-backed reason code.
        reason_code: DorsEscalationReasonCode,
        /// Optional human-readable context.
        reason_detail: Option<String>,
    },
    /// A security-relevant anomaly was detected (e.g.
    SecurityWarning {
        /// Peer ID involved in the warning.
        peer_id: String,
        /// Stable machine-readable classification of the warning.
        reason_code: SecurityWarningCode,
        /// Human-readable description of the security issue.
        reason: String,
    },
    /// A message was relayed (forwarded for a third party).
    MessageRelayed {
        /// ID of the relayed message.
        message_id: String,
        /// Original sender.
        sender: String,
        /// Intended recipient.
        recipient: String,
        /// Current hop count after increment.
        hop_count: u8,
        /// Remaining TTL after decrement.
        remaining_ttl: u8,
    },
    /// A user was blocked.
    UserBlocked {
        /// User ID that was blocked.
        user_id: String,
    },
    /// A user was unblocked.
    UserUnblocked {
        /// User ID that was unblocked.
        user_id: String,
    },
}

impl Event {
    /// Creates a MessageDelivered event.
    pub fn message_delivered(
        message_id: String,
        latency_ms: u64,
        hop_count: u8,
        transport: TransportType,
    ) -> (r: Self)
        ensures
            r matches Event::MessageDelivered { message_id: f_message_id, latency_ms: f_latency_ms, hop_count: f_hop_count, transport: f_transport } && f_message_id == message_id && f_latency_ms == latency_ms && f_hop_count == hop_count && f_transport@ == transport.text(),
    {
        Event::MessageDelivered {
            message_id,
            latency_ms,
            hop_count,
            transport: transport.as_str().to_owned(),
        }
    }

    /// Creates a MessageFailed event.
    pub fn message_failed(
        message_id: String,
        reason: String,
        retry_count: u32,
    ) -> (r: Self)
        ensures
            r == (Event::MessageFailed { message_id, reason, retry_count }),
    {
        Event::MessageFailed {
            message_id,
            reason,
            retry_count,
        }
    }

    /// Creates a MessageDecryptionFailed event.
    pub fn message_decryption_failed(
        message_id: String,
        sender: String,
        code: DecryptionFailureCode,
        reason: String,
    ) -> (r: Self)
        ensures
            r == (Event::MessageDecryptionFailed { message_id, sender, code, reason }),
    {
        Event::MessageDecryptionFailed {
            message_id,
            sender,
            code,
            reason,
        }
    }

    /// Creates a TransportSwitched event.
    pub fn transport_switched(
        from: Option<TransportType>,
        to: TransportType,
        reason: String,
    ) -> (r: Self)
        ensures
            r matches Event::TransportSwitched { from: f_from, to: f_to, reason: f_reason } && (match (f_from, from) {
                (Some(t), Some(x)) => t@ == x.text(),
                (None, None) => true,
                _ => false,
            }) && f_to@ == to.text() && f_reason == reason,
    {
        Event::TransportSwitched {
            from: match from {
                Some(t) => Some(t.as_str().to_owned()),
                None => None,
            },
            to: to.as_str().to_owned(),
            reason,
        }
    }

    /// Creates a RelayPromoted event.
    pub fn relay_promoted(
        connection_count: usize,
        battery_level: u8,
    ) -> (r: Self)
        ensures
            r == (Event::RelayPromoted { connection_count, battery_level }),
    {
        Event::RelayPromoted {
            connection_count,
            battery_level,
        }
    }

    /// Creates a RelayDemoted event.
    pub fn relay_demoted(
        reason: String,
    ) -> (r: Self)
        ensures
            r == (Event::RelayDemoted { reason }),
    {
        Event::RelayDemoted {
            reason,
        }
    }

    /// Creates a NeighborDiscovered event.
    pub fn neighbor_discovered(
        peer_id: String,
        transport: TransportType,
        rssi: Option<i16>,
    ) -> (r: Self)
        ensures
            r matches Event::NeighborDiscovered { peer_id: f_peer_id, transport: f_transport, rssi: f_rssi } && f_peer_id == peer_id && f_transport@ == transport.variant()@ && f_rssi == rssi,
    {
        Event::NeighborDiscovered {
            peer_id,
            transport: transport.name().to_owned(),
            rssi,
        }
    }

    /// Creates a NeighborLost event.
    pub fn neighbor_lost(
        peer_id: String,
    ) -> (r: Self)
        ensures
            r == (Event::NeighborLost { peer_id }),
    {
        Event::NeighborLost {
            peer_id,
        }
    }

    /// Creates a NetworkMetrics event.
    pub fn network_metrics(
        neighbor_count: usize,
        relay_count: usize,
        delivery_ratio: u32,
        avg_latency_ms: u64,
    ) -> (r: Self)
        ensures
            r == (Event::NetworkMetrics { neighbor_count, relay_count, delivery_ratio, avg_latency_ms }),
    {
        Event::NetworkMetrics {
            neighbor_count,
            relay_count,
            delivery_ratio,
            avg_latency_ms,
        }
    }

    /// Creates a FileReceiveFailed event.
    pub fn file_receive_failed(
        file_id: String,
        file_name: String,
        sender: String,
        reason: String,
    ) -> (r: Self)
        ensures
            r == (Event::FileReceiveFailed { file_id, file_name, sender, reason }),
    {
        Event::FileReceiveFailed {
            file_id,
            file_name,
            sender,
            reason,
        }
    }

    /// Creates a MediaSent event.
    pub fn media_sent(
        file_id: String,
        content_type: ContentType,
        recipient: String,
    ) -> (r: Self)
        ensures
            r matches Event::MediaSent { file_id: f_file_id, content_type: f_content_type, recipient: f_recipient } && f_file_id == file_id && f_content_type@ == content_type.text() && f_recipient == recipient,
    {
        Event::MediaSent {
            file_id,
            content_type: content_type.to_text(),
            recipient,
        }
    }

    /// Creates a MediaSendFailed event.
    pub fn media_send_failed(
        file_id: String,
        recipient: String,
        reason: String,
    ) -> (r: Self)
        ensures
            r == (Event::MediaSendFailed { file_id, recipient, reason }),
    {
        Event::MediaSendFailed {
            file_id,
            recipient,
            reason,
        }
    }

    /// Creates a MessageDeferred event.
    pub fn message_deferred(
        message_id: String,
        reason: String,
        retry_count: u32,
        next_retry_at: Option<i64>,
    ) -> (r: Self)
        ensures
            r == (Event::MessageDeferred { message_id, reason, retry_count, next_retry_at }),
    {
        Event::MessageDeferred {
            message_id,
            reason,
            retry_count,
            next_retry_at,
        }
    }

    /// Creates a MessageRetrying event.
    pub fn message_retrying(
        message_id: String,
        recipient: String,
        retry_count: u32,
        next_retry_at: i64,
    ) -> (r: Self)
        ensures
            r == (Event::MessageRetrying { message_id, recipient, retry_count, next_retry_at }),
    {
        Event::MessageRetrying {
            message_id,
            recipient,
            retry_count,
            next_retry_at,
        }
    }

    /// Creates a MessageUndeliverable event.
    pub fn message_undeliverable(
        message_id: String,
        recipient: String,
        reason: String,
        file_id: Option<String>,
    ) -> (r: Self)
        ensures
            r == (Event::MessageUndeliverable { message_id, recipient, reason, file_id }),
    {
        Event::MessageUndeliverable {
            message_id,
            recipient,
            reason,
            file_id,
        }
    }

    /// Creates a MediaResendRequired event.
    pub fn media_resend_required(
        file_id: String,
        recipient: String,
        file_name: String,
        file_size: u64,
    ) -> (r: Self)
        ensures
            r == (Event::MediaResendRequired { file_id, recipient, file_name, file_size }),
    {
        Event::MediaResendRequired {
            file_id,
            recipient,
            file_name,
            file_size,
        }
    }

    /// Creates an AckEvicted event.
    pub fn ack_evicted(
        message_id: String,
        priority: &str,
        reason: String,
    ) -> (r: Self)
        ensures
            r matches Event::AckEvicted { message_id: f_message_id, priority: f_priority, reason: f_reason } && f_message_id == message_id && f_priority@ == priority@ && f_reason == reason,
    {
        Event::AckEvicted {
            message_id,
            priority: priority.to_owned(),
            reason,
        }
    }

    /// Creates a FragmentAssemblyEvicted event.
    pub fn fragment_assembly_evicted(
        message_id: String,
        completion_percent: u8,
        reason: String,
    ) -> (r: Self)
        ensures
            r == (Event::FragmentAssemblyEvicted { message_id, completion_percent, reason }),
    {
        Event::FragmentAssemblyEvicted {
            message_id,
            completion_percent,
            reason,
        }
    }

    /// Creates a RelayDemotedBattery event.
    pub fn relay_demoted_battery(
        battery_level: u8,
        min_required: u8,
    ) -> (r: Self)
        ensures
            r == (Event::RelayDemotedBattery { battery_level, min_required }),
    {
        Event::RelayDemotedBattery {
            battery_level,
            min_required,
        }
    }

    /// Creates a SecureSessionEstablished event.
    pub fn secure_session_established(
        peer_id: String,
        group_id: String,
        is_session: bool,
        initiated_by_local: bool,
    ) -> (r: Self)
        ensures
            r == (Event::SecureSessionEstablished { peer_id, group_id, is_session, initiated_by_local }),
    {
        Event::SecureSessionEstablished {
            peer_id,
            group_id,
            is_session,
            initiated_by_local,
        }
    }

    /// Creates a SecureSessionFailed event.
    pub fn secure_session_failed(
        peer_id: String,
        reason: String,
    ) -> (r: Self)
        ensures
            r == (Event::SecureSessionFailed { peer_id, reason }),
    {
        Event::SecureSessionFailed {
            peer_id,
            reason,
        }
    }

    /// Creates a ConvergenceDiag event (1:1 MLS convergence instrumentation).
    pub fn convergence_diag(
        stage: String,
        peer_id: String,
        detail: String,
    ) -> (r: Self)
        ensures
            r == (Event::ConvergenceDiag { stage, peer_id, detail }),
    {
        Event::ConvergenceDiag {
            stage,
            peer_id,
            detail,
        }
    }

    /// Creates a WelcomeSendAttempted event.
    pub fn welcome_send_attempted(
        peer_id: String,
        message_id: String,
        group_id: String,
        attempt: u32,
    ) -> (r: Self)
        ensures
            r == (Event::WelcomeSendAttempted { peer_id, message_id, group_id, attempt }),
    {
        Event::WelcomeSendAttempted {
            peer_id,
            message_id,
            group_id,
            attempt,
        }
    }

    /// Creates a WelcomeSendSucceeded event.
    pub fn welcome_send_succeeded(
        peer_id: String,
        message_id: String,
        group_id: String,
        attempt: u32,
    ) -> (r: Self)
        ensures
            r == (Event::WelcomeSendSucceeded { peer_id, message_id, group_id, attempt }),
    {
        Event::WelcomeSendSucceeded {
            peer_id,
            message_id,
            group_id,
            attempt,
        }
    }

    /// Creates a WelcomeSendFailed event.
    pub fn welcome_send_failed(
        peer_id: String,
        message_id: String,
        group_id: String,
        attempt: u32,
        reason_code: WelcomeReasonCode,
        transport_error: Option<String>,
        retryable: bool,
        next_retry_at: Option<i64>,
    ) -> (r: Self)
        ensures
            r == (Event::WelcomeSendFailed { peer_id, message_id, group_id, attempt, reason_code, transport_error, retryable, next_retry_at }),
    {
        Event::WelcomeSendFailed {
            peer_id,
            message_id,
            group_id,
            attempt,
            reason_code,
            transport_error,
            retryable,
            next_retry_at,
        }
    }

    /// Creates a WelcomeSendExpired event.
    pub fn welcome_send_expired(
        peer_id: String,
        message_id: String,
        attempt: u32,
        reason_code: WelcomeReasonCode,
    ) -> (r: Self)
        ensures
            r == (Event::WelcomeSendExpired { peer_id, message_id, attempt, reason_code }),
    {
        Event::WelcomeSendExpired {
            peer_id,
            message_id,
            attempt,
            reason_code,
        }
    }

    /// Creates a ConnectionRequestReceived event.
    pub fn connection_request_received(
        sender: String,
        sender_name: String,
        timestamp: i64,
        key_package: Option<Vec<u8>>,
        initial_message: Option<String>,
    ) -> (r: Self)
        ensures
            r == (Event::ConnectionRequestReceived { sender, sender_name, timestamp, key_package, initial_message }),
    {
        Event::ConnectionRequestReceived {
            sender,
            sender_name,
            timestamp,
            key_package,
            initial_message,
        }
    }

    /// Creates a ConnectionRequestUndeliverable event.
    pub fn connection_request_undeliverable(
        recipient: String,
        message_id: String,
        reason: String,
    ) -> (r: Self)
        ensures
            r == (Event::ConnectionRequestUndeliverable { recipient, message_id, reason }),
    {
        Event::ConnectionRequestUndeliverable {
            recipient,
            message_id,
            reason,
        }
    }

    /// Creates a ConnectionAccepted event.
    pub fn connection_accepted(
        accepted_by: String,
        accepted_by_name: String,
        timestamp: i64,
        key_package: Option<Vec<u8>>,
    ) -> (r: Self)
        ensures
            r == (Event::ConnectionAccepted { accepted_by, accepted_by_name, timestamp, key_package }),
    {
        Event::ConnectionAccepted {
            accepted_by,
            accepted_by_name,
            timestamp,
            key_package,
        }
    }

    /// Creates a ConnectionRejected event.
    pub fn connection_rejected(
        rejected_by: String,
    ) -> (r: Self)
        ensures
            r == (Event::ConnectionRejected { rejected_by }),
    {
        Event::ConnectionRejected {
            rejected_by,
        }
    }

    /// Creates a ConnectionRequestCancelled event.
    pub fn connection_request_cancelled(
        cancelled_by: String,
    ) -> (r: Self)
        ensures
            r == (Event::ConnectionRequestCancelled { cancelled_by }),
    {
        Event::ConnectionRequestCancelled {
            cancelled_by,
        }
    }

    /// Creates a PresenceUpdated event for a peer-sent `__PRESENCE__`
    /// self-report (`source: peer`).
    pub fn presence_updated(
        peer_id: String,
        status: PresenceStatus,
        timestamp: i64,
    ) -> (r: Self)
        ensures
            r == (Event::PresenceUpdated { peer_id, status, timestamp, last_seen_ms: None, source: PresenceSource::Peer }),
    {
        Event::PresenceUpdated {
            peer_id,
            status,
            timestamp,
            last_seen_ms: None,
            source: PresenceSource::Peer,
        }
    }

    /// Creates a PresenceUpdated event carrying a last-seen timestamp
    /// (relay-sourced presence, `source: internet`).
    pub fn presence_updated_with_last_seen(
        peer_id: String,
        status: PresenceStatus,
        timestamp: i64,
        last_seen_ms: Option<i64>,
    ) -> (r: Self)
        ensures
            r == (Event::PresenceUpdated { peer_id, status, timestamp, last_seen_ms, source: PresenceSource::Internet }),
    {
        Event::PresenceUpdated {
            peer_id,
            status,
            timestamp,
            last_seen_ms,
            source: PresenceSource::Internet,
        }
    }

    /// Creates a TypingIndicatorReceived event.
    pub fn typing_indicator_received(
        sender: String,
        conversation_id: String,
        is_typing: bool,
        timestamp: i64,
    ) -> (r: Self)
        ensures
            r == (Event::TypingIndicatorReceived { sender, conversation_id, is_typing, timestamp }),
    {
        Event::TypingIndicatorReceived {
            sender,
            conversation_id,
            is_typing,
            timestamp,
        }
    }

    /// Creates a ReadReceiptReceived event.
    pub fn read_receipt_received(
        sender: String,
        message_ids: Vec<String>,
        timestamp: i64,
    ) -> (r: Self)
        ensures
            r == (Event::ReadReceiptReceived { sender, message_ids, timestamp }),
    {
        Event::ReadReceiptReceived {
            sender,
            message_ids,
            timestamp,
        }
    }

    /// Creates a GroupCreated event.
    pub fn group_created(
        group_id: String,
        name: String,
    ) -> (r: Self)
        ensures
            r == (Event::GroupCreated { group_id, name }),
    {
        Event::GroupCreated {
            group_id,
            name,
        }
    }

    /// Creates a GroupMessageReceived event.
    pub fn group_message_received(
        group_id: String,
        sender: String,
        content: String,
        timestamp: String,
        message_id: String,
        reply_to_msg: Option<String>,
        forward_info: Option<ForwardInfoEvent>,
        media_metadata: Option<MediaMetadata>,
        content_type: Option<String>,
    ) -> (r: Self)
        ensures
            r == (Event::GroupMessageReceived { group_id, sender, content, timestamp, message_id, reply_to_msg, forward_info, media_metadata, content_type }),
    {
        Event::GroupMessageReceived {
            group_id,
            sender,
            content,
            timestamp,
            message_id,
            reply_to_msg,
            forward_info,
            media_metadata,
            content_type,
        }
    }

    /// Creates a GroupMemberAdded event.
    pub fn group_member_added(
        group_id: String,
        user_id: String,
        added_by: String,
        group_name: Option<String>,
        authorized: Option<bool>,
    ) -> (r: Self)
        ensures
            r == (Event::GroupMemberAdded { group_id, user_id, added_by, group_name, authorized }),
    {
        Event::GroupMemberAdded {
            group_id,
            user_id,
            added_by,
            group_name,
            authorized,
        }
    }

    /// Creates a GroupMemberRemoved event.
    pub fn group_member_removed(
        group_id: String,
        user_id: String,
        removed_by: String,
        authorized: Option<bool>,
    ) -> (r: Self)
        ensures
            r == (Event::GroupMemberRemoved { group_id, user_id, removed_by, authorized }),
    {
        Event::GroupMemberRemoved {
            group_id,
            user_id,
            removed_by,
            authorized,
        }
    }

    /// Creates a GroupRoleChanged event.
    pub fn group_role_changed(
        group_id: String,
        user_id: String,
        new_role: String,
        changed_by: String,
    ) -> (r: Self)
        ensures
            r == (Event::GroupRoleChanged { group_id, user_id, new_role, changed_by }),
    {
        Event::GroupRoleChanged {
            group_id,
            user_id,
            new_role,
            changed_by,
        }
    }

    /// Creates a GroupRenamed event.
    pub fn group_renamed(
        group_id: String,
        new_name: String,
        old_name: Option<String>,
        renamed_by: String,
    ) -> (r: Self)
        ensures
            r == (Event::GroupRenamed { group_id, new_name, old_name, renamed_by }),
    {
        Event::GroupRenamed {
            group_id,
            new_name,
            old_name,
            renamed_by,
        }
    }

    /// Creates a GroupInfo event.
    pub fn group_info(
        group_id: String,
        name: String,
        created_by: String,
        created_at: String,
        members: Vec<GroupInfoMember>,
    ) -> (r: Self)
        ensures
            r == (Event::GroupInfo { group_id, name, created_by, created_at, members }),
    {
        Event::GroupInfo {
            group_id,
            name,
            created_by,
            created_at,
            members,
        }
    }

    /// Creates a UserGroups event.
    pub fn user_groups(
        groups: Vec<UserGroupSummary>,
    ) -> (r: Self)
        ensures
            r == (Event::UserGroups { groups }),
    {
        Event::UserGroups {
            groups,
        }
    }

    /// Creates a GroupError event.
    ///
    /// `reason` must be a locally-minted code, never relay text — callers on
    /// the wire path get theirs from `GroupErrorPayload::classify_reason`.
    pub fn group_error(
        reason: String,
        group_id: Option<String>,
    ) -> (r: Self)
        ensures
            r == (Event::GroupError { reason, group_id }),
    {
        Event::GroupError {
            reason,
            group_id,
        }
    }

    /// Creates a GroupRelaySyncChanged event.
    pub fn group_relay_sync_changed(
        group_id: String,
        synced: bool,
        reason: &str,
    ) -> (r: Self)
        ensures
            r matches Event::GroupRelaySyncChanged { group_id: f_group_id, synced: f_synced, reason: f_reason } && f_group_id == group_id && f_synced == synced && f_reason@ == reason@,
    {
        Event::GroupRelaySyncChanged {
            group_id,
            synced,
            reason: reason.to_owned(),
        }
    }

    /// Creates a GroupMessageSent event.
    pub fn group_message_sent(
        group_id: String,
        message_ids: Vec<String>,
        member_count: u32,
    ) -> (r: Self)
        ensures
            r == (Event::GroupMessageSent { group_id, message_ids, member_count }),
    {
        Event::GroupMessageSent {
            group_id,
            message_ids,
            member_count,
        }
    }

    /// Creates a GroupMessagePartialFailure event.
    pub fn group_message_partial_failure(
        group_id: String,
        failed_members: Vec<String>,
        succeeded_members: Vec<String>,
    ) -> (r: Self)
        ensures
            r == (Event::GroupMessagePartialFailure { group_id, failed_members, succeeded_members }),
    {
        Event::GroupMessagePartialFailure {
            group_id,
            failed_members,
            succeeded_members,
        }
    }

    /// Creates a GroupMessageDeliveryReport event.
    pub fn group_message_delivery_report(
        group_id: String,
        message_id: String,
        delivered: Vec<String>,
        pushed: Vec<String>,
        missed_reissued: Vec<String>,
    ) -> (r: Self)
        ensures
            r == (Event::GroupMessageDeliveryReport { group_id, message_id, delivered, pushed, missed_reissued }),
    {
        Event::GroupMessageDeliveryReport {
            group_id,
            message_id,
            delivered,
            pushed,
            missed_reissued,
        }
    }

    /// Creates a GroupRichExtrasDropped event.
    pub fn group_rich_extras_dropped(
        group_id: String,
        unknown_members: Vec<String>,
    ) -> (r: Self)
        ensures
            r == (Event::GroupRichExtrasDropped { group_id, unknown_members }),
    {
        Event::GroupRichExtrasDropped {
            group_id,
            unknown_members,
        }
    }

    /// Creates a GroupUnauthorizedMembershipChange event.
    pub fn group_unauthorized_membership_change(
        group_id: String,
        committer: String,
        added: Vec<String>,
        removed: Vec<String>,
        reason: String,
        enforced: bool,
    ) -> (r: Self)
        ensures
            r == (Event::GroupUnauthorizedMembershipChange { group_id, committer, added, removed, reason, enforced }),
    {
        Event::GroupUnauthorizedMembershipChange {
            group_id,
            committer,
            added,
            removed,
            reason,
            enforced,
        }
    }

    /// Creates a GroupEpochForkDetected event.
    pub fn group_epoch_fork_detected(
        group_id: String,
        local_epoch: Option<u64>,
    ) -> (r: Self)
        ensures
            r == (Event::GroupEpochForkDetected { group_id, local_epoch }),
    {
        Event::GroupEpochForkDetected {
            group_id,
            local_epoch,
        }
    }

    /// Creates a GroupEpochForkResolved event.
    pub fn group_epoch_fork_resolved(
        group_id: String,
        resolved_epoch: u64,
        failed_members: Vec<String>,
    ) -> (r: Self)
        ensures
            r == (Event::GroupEpochForkResolved { group_id, resolved_epoch, failed_members }),
    {
        Event::GroupEpochForkResolved {
            group_id,
            resolved_epoch,
            failed_members,
        }
    }

    /// Creates a ServiceDiscovered event.
    pub fn service_discovered(
        query_id: String,
        service_id: String,
        version: String,
        provider_peer_id: String,
        capabilities: HashMap<String, String>,
        hop_count: u8,
    ) -> (r: Self)
        ensures
            r == (Event::ServiceDiscovered { query_id, service_id, version, provider_peer_id, capabilities, hop_count }),
    {
        Event::ServiceDiscovered {
            query_id,
            service_id,
            version,
            provider_peer_id,
            capabilities,
            hop_count,
        }
    }

    /// Creates a ServiceRequestReceived event.
    pub fn service_request_received(
        request_id: String,
        service_id: String,
        method: String,
        body: String,
        sender: String,
    ) -> (r: Self)
        ensures
            r == (Event::ServiceRequestReceived { request_id, service_id, method, body, sender }),
    {
        Event::ServiceRequestReceived {
            request_id,
            service_id,
            method,
            body,
            sender,
        }
    }

    /// Creates a ServiceResponseReceived event.
    pub fn service_response_received(
        request_id: String,
        service_id: String,
        status: String,
        body: String,
        provider_peer_id: String,
    ) -> (r: Self)
        ensures
            r == (Event::ServiceResponseReceived { request_id, service_id, status, body, provider_peer_id }),
    {
        Event::ServiceResponseReceived {
            request_id,
            service_id,
            status,
            body,
            provider_peer_id,
        }
    }

    /// Creates a DorsScoreUpdated event (DORS observability).
    pub fn dors_score_updated(
        scores: Vec<(String, u32)>,
    ) -> (r: Self)
        ensures
            r == (Event::DorsScoreUpdated { scores }),
    {
        Event::DorsScoreUpdated {
            scores,
        }
    }

    /// Creates a DorsTransportSelected event (DORS observability).
    pub fn dors_transport_selected(
        from: Option<String>,
        transport: String,
        reason_code: DorsReasonCode,
        score: u32,
    ) -> (r: Self)
        ensures
            r == (Event::DorsTransportSelected { from, transport, reason_code, score }),
    {
        Event::DorsTransportSelected {
            from,
            transport,
            reason_code,
            score,
        }
    }

    /// Creates a DorsTransportSwitched event (DORS observability).
    /// Emitted only when active transport actually changes after a successful send.
    pub fn dors_transport_switched(
        from: Option<String>,
        to: String,
        reason_code: DorsReasonCode,
        reason_detail: Option<String>,
    ) -> (r: Self)
        ensures
            r == (Event::DorsTransportSwitched { from, to, reason_code, reason_detail }),
    {
        Event::DorsTransportSwitched {
            from,
            to,
            reason_code,
            reason_detail,
        }
    }

    /// Creates a DorsEscalationTriggered event (DORS observability).
    /// Use phase Triggered at the DORS trigger boundary, Applied when fallback succeeds.
    pub fn dors_escalation_triggered(
        phase: DorsEscalationPhase,
        from: String,
        to: String,
        reason_code: DorsEscalationReasonCode,
        reason_detail: Option<String>,
    ) -> (r: Self)
        ensures
            r == (Event::DorsEscalationTriggered { phase, from, to, reason_code, reason_detail }),
    {
        Event::DorsEscalationTriggered {
            phase,
            from,
            to,
            reason_code,
            reason_detail,
        }
    }

    /// Creates a SecurityWarning event.
    pub fn security_warning(
        peer_id: String,
        reason_code: SecurityWarningCode,
        reason: String,
    ) -> (r: Self)
        ensures
            r == (Event::SecurityWarning { peer_id, reason_code, reason }),
    {
        Event::SecurityWarning {
            peer_id,
            reason_code,
            reason,
        }
    }

    /// Creates a MessageRelayed event.
    pub fn message_relayed(
        message_id: String,
        sender: String,
        recipient: String,
        hop_count: u8,
        remaining_ttl: u8,
    ) -> (r: Self)
        ensures
            r == (Event::MessageRelayed { message_id, sender, recipient, hop_count, remaining_ttl }),
    {
        Event::MessageRelayed {
            message_id,
            sender,
            recipient,
            hop_count,
            remaining_ttl,
        }
    }

    /// Creates a UserBlocked event.
    pub fn user_blocked(
        user_id: String,
    ) -> (r: Self)
        ensures
            r == (Event::UserBlocked { user_id }),
    {
        Event::UserBlocked {
            user_id,
        }
    }

    /// Creates a UserUnblocked event.
    pub fn user_unblocked(
        user_id: String,
    ) -> (r: Self)
        ensures
            r == (Event::UserUnblocked { user_id }),
    {
        Event::UserUnblocked {
            user_id,
        }
    }

    /// Creates a `MessageSent` event.
    pub fn message_sent(message: &Message) -> (r: Self)
        ensures
            r matches Event::MessageSent {
                message_id,
                sender,
                recipient,
                content,
                priority,
                requires_ack,
                timestamp,
                lamport_clock,
                forward_info,
            } && message_id == message.id && sender == message.sender && recipient
                == message.recipient && content == message.content && priority@
                == message.priority.text() && requires_ack == message.requires_ack && timestamp
                == message.timestamp && lamport_clock == message.lamport_clock
                && ForwardInfoEvent::of_option(forward_info, message.forwarded_from),
    {
        Event::MessageSent {
            message_id: message.id.clone(),
            sender: message.sender.clone(),
            recipient: message.recipient.clone(),
            content: message.content.clone(),
            priority: message.priority.as_str().to_owned(),
            requires_ack: message.requires_ack,
            timestamp: message.timestamp,
            lamport_clock: message.lamport_clock,
            forward_info: ForwardInfoEvent::from_option(&message.forwarded_from),
        }
    }

    /// Creates an `IdentityReady` event.
    pub fn identity_ready(address: String) -> (r: Self)
        ensures
            r == (Event::IdentityReady { address }),
    {
        Event::IdentityReady { address }
    }

    /// Creates a `FileProgress` event.
    pub fn file_progress(file_id: String, chunks_sent: u32, total_chunks: u32) -> (r: Self)
        ensures
            r == (Event::FileProgress {
                file_id,
                chunks_sent,
                total_chunks,
                percentage: percentage_of(chunks_sent, total_chunks),
            }),
    {
        Event::FileProgress {
            file_id,
            chunks_sent,
            total_chunks,
            percentage: FileProgress::calculate_percentage(chunks_sent, total_chunks),
        }
    }

    /// Creates a `FileReceived` event.
    pub fn file_received(
        file_id: String,
        file_name: String,
        file_size: u64,
        sender: String,
        content_type: ContentType,
        media_metadata: Option<MediaMetadata>,
        file_data: Vec<u8>,
        timestamp: Option<i64>,
        caption: Option<String>,
        reply_to_msg: Option<String>,
        reply_context: Option<&ReplyContext>,
        forward_info: Option<&ForwardInfo>,
    ) -> (r: Self)
        requires
            encodable(file_data@),
        ensures
            r matches Event::FileReceived {
                file_id: f_id,
                file_name: f_name,
                file_size: f_size,
                sender: f_sender,
                content_type: f_type,
                media_metadata: f_media,
                file_data: f_data,
                timestamp: f_time,
                caption: f_caption,
                reply_to_msg: f_reply,
                reply_context: f_context,
                forward_info: f_forward,
            } && f_id == file_id && f_name == file_name && f_size == file_size && f_sender == sender
                && f_type@ == content_type.text() && f_media == media_metadata && f_data@
                == base64_text(file_data@) && f_time == timestamp && f_caption == caption && f_reply
                == reply_to_msg && (match (f_context, reply_context) {
                (Some(e), Some(c)) => ReplyContextEvent::of(*e, *c),
                (None, None) => true,
                _ => false,
            }) && (match (f_forward, forward_info) {
                (Some(e), Some(i)) => ForwardInfoEvent::of(e, *i),
                (None, None) => true,
                _ => false,
            }),
    {
        let quoted: Option<Box<ReplyContextEvent>> = match reply_context {
            Some(c) => Some(Box::new(ReplyContextEvent::from_context(c))),
            None => None,
        };
        let forwarded: Option<ForwardInfoEvent> = match forward_info {
            Some(i) => Some(ForwardInfoEvent::from_info(i)),
            None => None,
        };
        Event::FileReceived {
            file_id,
            file_name,
            file_size,
            sender,
            content_type: content_type.to_text(),
            media_metadata,
            file_data: base64_encode(file_data.as_slice()),
            timestamp,
            caption,
            reply_to_msg,
            reply_context: quoted,
            forward_info: forwarded,
        }
    }

    /// The stable telemetry name.
    pub open spec fn telemetry_text(self) -> Seq<char> {
        match self {
            Event::MessageSent { .. } => "protocol.message.sent"@,
            Event::MessageReceived { .. } => "protocol.message.received"@,
            Event::MessageDelivered { .. } => "protocol.message.delivered"@,
            Event::MessageFailed { .. } => "protocol.message.failed"@,
            Event::MessageDecryptionFailed { .. } => "protocol.message.decryption_failed"@,
            Event::TransportSwitched { .. } => "protocol.transport.switched"@,
            Event::RelayPromoted { .. } => "protocol.relay.promoted"@,
            Event::RelayDemoted { .. } => "protocol.relay.demoted"@,
            Event::NeighborDiscovered { .. } => "protocol.neighbor.discovered"@,
            Event::NeighborLost { .. } => "protocol.neighbor.lost"@,
            Event::IdentityReady { .. } => "protocol.identity.ready"@,
            Event::NetworkMetrics { .. } => "protocol.network.metrics"@,
            Event::FileProgress { .. } => "protocol.file.progress"@,
            Event::FileReceived { .. } => "protocol.file.received"@,
            Event::FileReceiveFailed { .. } => "protocol.file.receive_failed"@,
            Event::MediaSent { .. } => "protocol.media.sent"@,
            Event::MediaSendFailed { .. } => "protocol.media.send_failed"@,
            Event::MessageDeferred { .. } => "protocol.message.deferred"@,
            Event::MessageRetrying { .. } => "protocol.message.retrying"@,
            Event::MessageUndeliverable { .. } => "protocol.message.undeliverable"@,
            Event::MediaResendRequired { .. } => "protocol.media.resend_required"@,
            Event::AckEvicted { .. } => "protocol.ack.evicted"@,
            Event::FragmentAssemblyEvicted { .. } => "protocol.fragment.assembly_evicted"@,
            Event::RelayDemotedBattery { .. } => "protocol.relay.demoted_battery"@,
            Event::SecureSessionEstablished { .. } => "protocol.secure_session.established"@,
            Event::SecureSessionFailed { .. } => "protocol.secure_session.failed"@,
            Event::ConvergenceDiag { .. } => "protocol.convergence.diag"@,
            Event::WelcomeSendAttempted { .. } => "protocol.welcome.send_attempted"@,
            Event::WelcomeSendSucceeded { .. } => "protocol.welcome.send_succeeded"@,
            Event::WelcomeSendFailed { .. } => "protocol.welcome.send_failed"@,
            Event::WelcomeSendExpired { .. } => "protocol.welcome.send_expired"@,
            Event::ConnectionRequestReceived { .. } => "protocol.connection.request_received"@,
            Event::ConnectionRequestUndeliverable { .. } => "protocol.connection.request_undeliverable"@,
            Event::ConnectionAccepted { .. } => "protocol.connection.accepted"@,
            Event::ConnectionRejected { .. } => "protocol.connection.rejected"@,
            Event::ConnectionRequestCancelled { .. } => "protocol.connection.request_cancelled"@,
            Event::GroupCreated { .. } => "protocol.group.created"@,
            Event::GroupMessageReceived { .. } => "protocol.group.message_received"@,
            Event::GroupMemberAdded { .. } => "protocol.group.member_added"@,
            Event::GroupMemberRemoved { .. } => "protocol.group.member_removed"@,
            Event::GroupInfo { .. } => "protocol.group.info"@,
            Event::UserGroups { .. } => "protocol.group.user_groups"@,
            Event::GroupError { .. } => "protocol.group.error"@,
            Event::GroupRelaySyncChanged { .. } => "protocol.group.relay_sync_changed"@,
            Event::GroupMessageSent { .. } => "protocol.group.message_sent"@,
            Event::GroupMessagePartialFailure { .. } => "protocol.group.message_partial_failure"@,
            Event::GroupMessageDeliveryReport { .. } => "protocol.group.delivery_report"@,
            Event::GroupRichExtrasDropped { .. } => "protocol.group.rich_extras_dropped"@,
            Event::GroupUnauthorizedMembershipChange { .. } => "protocol.group.unauthorized_membership_change"@,
            Event::GroupEpochForkDetected { .. } => "protocol.group.epoch_fork_detected"@,
            Event::GroupEpochForkResolved { .. } => "protocol.group.epoch_fork_resolved"@,
            Event::GroupRoleChanged { .. } => "protocol.group.role_changed"@,
            Event::GroupRenamed { .. } => "protocol.group.renamed"@,
            Event::ServiceDiscovered { .. } => "protocol.service.discovered"@,
            Event::ServiceRequestReceived { .. } => "protocol.service.request_received"@,
            Event::ServiceResponseReceived { .. } => "protocol.service.response_received"@,
            Event::PresenceUpdated { .. } => "protocol.presence.updated"@,
            Event::TypingIndicatorReceived { .. } => "protocol.typing.received"@,
            Event::ReadReceiptReceived { .. } => "protocol.read_receipt.received"@,
            Event::DorsScoreUpdated { .. } => "protocol.dors.score_updated"@,
            Event::DorsTransportSelected { .. } => "protocol.dors.transport_selected"@,
            Event::DorsTransportSwitched { .. } => "protocol.dors.transport_switched"@,
            Event::DorsEscalationTriggered { .. } => "protocol.dors.escalation_triggered"@,
            Event::SecurityWarning { .. } => "protocol.security.warning"@,
            Event::MessageRelayed { .. } => "protocol.message.relayed"@,
            Event::UserBlocked { .. } => "protocol.user.blocked"@,
            Event::UserUnblocked { .. } => "protocol.user.unblocked"@,
        }
    }

    /// Returns the stable `snake.dot.case` telemetry name for this event.
    pub fn telemetry_name(&self) -> (r: &'static str)
        ensures
            r@ == self.telemetry_text(),
    {
        match self {
            Event::MessageSent { .. } => "protocol.message.sent",
            Event::MessageReceived { .. } => "protocol.message.received",
            Event::MessageDelivered { .. } => "protocol.message.delivered",
            Event::MessageFailed { .. } => "protocol.message.failed",
            Event::MessageDecryptionFailed { .. } => "protocol.message.decryption_failed",
            Event::TransportSwitched { .. } => "protocol.transport.switched",
            Event::RelayPromoted { .. } => "protocol.relay.promoted",
            Event::RelayDemoted { .. } => "protocol.relay.demoted",
            Event::NeighborDiscovered { .. } => "protocol.neighbor.discovered",
            Event::NeighborLost { .. } => "protocol.neighbor.lost",
            Event::IdentityReady { .. } => "protocol.identity.ready",
            Event::NetworkMetrics { .. } => "protocol.network.metrics",
            Event::FileProgress { .. } => "protocol.file.progress",
            Event::FileReceived { .. } => "protocol.file.received",
            Event::FileReceiveFailed { .. } => "protocol.file.receive_failed",
            Event::MediaSent { .. } => "protocol.media.sent",
            Event::MediaSendFailed { .. } => "protocol.media.send_failed",
            Event::MessageDeferred { .. } => "protocol.message.deferred",
            Event::MessageRetrying { .. } => "protocol.message.retrying",
            Event::MessageUndeliverable { .. } => "protocol.message.undeliverable",
            Event::MediaResendRequired { .. } => "protocol.media.resend_required",
            Event::AckEvicted { .. } => "protocol.ack.evicted",
            Event::FragmentAssemblyEvicted { .. } => "protocol.fragment.assembly_evicted",
            Event::RelayDemotedBattery { .. } => "protocol.relay.demoted_battery",
            Event::SecureSessionEstablished { .. } => "protocol.secure_session.established",
            Event::SecureSessionFailed { .. } => "protocol.secure_session.failed",
            Event::ConvergenceDiag { .. } => "protocol.convergence.diag",
            Event::WelcomeSendAttempted { .. } => "protocol.welcome.send_attempted",
            Event::WelcomeSendSucceeded { .. } => "protocol.welcome.send_succeeded",
            Event::WelcomeSendFailed { .. } => "protocol.welcome.send_failed",
            Event::WelcomeSendExpired { .. } => "protocol.welcome.send_expired",
            Event::ConnectionRequestReceived { .. } => "protocol.connection.request_received",
            Event::ConnectionRequestUndeliverable { .. } => "protocol.connection.request_undeliverable",
            Event::ConnectionAccepted { .. } => "protocol.connection.accepted",
            Event::ConnectionRejected { .. } => "protocol.connection.rejected",
            Event::ConnectionRequestCancelled { .. } => "protocol.connection.request_cancelled",
            Event::GroupCreated { .. } => "protocol.group.created",
            Event::GroupMessageReceived { .. } => "protocol.group.message_received",
            Event::GroupMemberAdded { .. } => "protocol.group.member_added",
            Event::GroupMemberRemoved { .. } => "protocol.group.member_removed",
            Event::GroupInfo { .. } => "protocol.group.info",
            Event::UserGroups { .. } => "protocol.group.user_groups",
            Event::GroupError { .. } => "protocol.group.error",
            Event::GroupRelaySyncChanged { .. } => "protocol.group.relay_sync_changed",
            Event::GroupMessageSent { .. } => "protocol.group.message_sent",
            Event::GroupMessagePartialFailure { .. } => "protocol.group.message_partial_failure",
            Event::GroupMessageDeliveryReport { .. } => "protocol.group.delivery_report",
            Event::GroupRichExtrasDropped { .. } => "protocol.group.rich_extras_dropped",
            Event::GroupUnauthorizedMembershipChange { .. } => "protocol.group.unauthorized_membership_change",
            Event::GroupEpochForkDetected { .. } => "protocol.group.epoch_fork_detected",
            Event::GroupEpochForkResolved { .. } => "protocol.group.epoch_fork_resolved",
            Event::GroupRoleChanged { .. } => "protocol.group.role_changed",
            Event::GroupRenamed { .. } => "protocol.group.renamed",
            Event::ServiceDiscovered { .. } => "protocol.service.discovered",
            Event::ServiceRequestReceived { .. } => "protocol.service.request_received",
            Event::ServiceResponseReceived { .. } => "protocol.service.response_received",
            Event::PresenceUpdated { .. } => "protocol.presence.updated",
            Event::TypingIndicatorReceived { .. } => "protocol.typing.received",
            Event::ReadReceiptReceived { .. } => "protocol.read_receipt.received",
            Event::DorsScoreUpdated { .. } => "protocol.dors.score_updated",
            Event::DorsTransportSelected { .. } => "protocol.dors.transport_selected",
            Event::DorsTransportSwitched { .. } => "protocol.dors.transport_switched",
            Event::DorsEscalationTriggered { .. } => "protocol.dors.escalation_triggered",
            Event::SecurityWarning { .. } => "protocol.security.warning",
            Event::MessageRelayed { .. } => "protocol.message.relayed",
            Event::UserBlocked { .. } => "protocol.user.blocked",
            Event::UserUnblocked { .. } => "protocol.user.unblocked",
        }
    }
}

/// The event that a service event becomes.
pub open spec fn service_event(event: ServiceEvent) -> Event {
    match event {
        ServiceEvent::ServiceDiscovered {
            query_id,
            service_id,
            version,
            provider_peer_id,
            capabilities,
            hop_count,
        } => Event::ServiceDiscovered {
            query_id,
            service_id,
            version,
            provider_peer_id,
            capabilities,
            hop_count,
        },
        ServiceEvent::ServiceRequestReceived { request_id, service_id, method, body, sender } => {
            Event::ServiceRequestReceived { request_id, service_id, method, body, sender }
        },
        ServiceEvent::ServiceResponseReceived {
            request_id,
            service_id,
            status,
            body,
            provider_peer_id,
        } => Event::ServiceResponseReceived {
            request_id,
            service_id,
            status,
            body,
            provider_peer_id,
        },
    }
}

impl vstd::std_specs::convert::FromSpecImpl<ServiceEvent> for Event {
    open spec fn obeys_from_spec() -> bool {
        true
    }

    open spec fn from_spec(event: ServiceEvent) -> Event {
        service_event(event)
    }
}

impl From<ServiceEvent> for Event {
    fn from(event: ServiceEvent) -> (r: Event) {
        match event {
            ServiceEvent::ServiceDiscovered {
                query_id,
                service_id,
                version,
                provider_peer_id,
                capabilities,
                hop_count,
            } => Event::ServiceDiscovered {
                query_id,
                service_id,
                version,
                provider_peer_id,
                capabilities,
                hop_count,
            },
            ServiceEvent::ServiceRequestReceived {
                request_id,
                service_id,
                method,
                body,
                sender,
            } => Event::ServiceRequestReceived { request_id, service_id, method, body, sender },
            ServiceEvent::ServiceResponseReceived {
                request_id,
                service_id,
                status,
                body,
                provider_peer_id,
            } => Event::ServiceResponseReceived {
                request_id,
                service_id,
                status,
                body,
                provider_peer_id,
            },
        }
    }
}

/// A service event can be read back from the event that it becomes: what was
/// found, asked or answered, by whom and under which id stands in it unchanged.
pub proof fn a_service_event_is_told_unchanged(event: ServiceEvent)
    ensures
        match service_event(event) {
            Event::ServiceDiscovered {
                query_id,
                service_id,
                version,
                provider_peer_id,
                capabilities,
                hop_count,
            } => event == (ServiceEvent::ServiceDiscovered {
                query_id,
                service_id,
                version,
                provider_peer_id,
                capabilities,
                hop_count,
            }),
            Event::ServiceRequestReceived { request_id, service_id, method, body, sender } => event
                == (ServiceEvent::ServiceRequestReceived {
                request_id,
                service_id,
                method,
                body,
                sender,
            }),
            Event::ServiceResponseReceived {
                request_id,
                service_id,
                status,
                body,
                provider_peer_id,
            } => event == (ServiceEvent::ServiceResponseReceived {
                request_id,
                service_id,
                status,
                body,
                provider_peer_id,
            }),
            _ => false,
        },
{
}

/// A quotation is told unchanged: two that are told alike quote alike.
pub proof fn a_quotation_is_told_unchanged(event: ReplyContextEvent, context: ReplyContext)
    requires
        ReplyContextEvent::of(event, context),
    ensures
        context.sender == event.sender && context.text == event.text,
        context.timestamp == event.timestamp,
        context.reply_media_label == event.reply_media_label,
        context.reply_content_type == event.reply_content_type,
{
}

} // verus!
