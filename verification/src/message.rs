//! Messages and what they carry, as plain values.

use std::collections::HashMap;
use vstd::prelude::*;

verus! {

/// How urgent a message is.
#[derive(Debug, Clone, Copy, PartialEq, Eq, Structural)]
pub enum MessagePriority {
    Low,
    Medium,
    High,
    Critical,
}

impl MessagePriority {
    /// The priority's stable name.
    pub open spec fn text(self) -> Seq<char> {
        match self {
            MessagePriority::Low => "low"@,
            MessagePriority::Medium => "medium"@,
            MessagePriority::High => "high"@,
            MessagePriority::Critical => "critical"@,
        }
    }

    /// The priority's stable name.
    pub fn as_str(&self) -> (r: &'static str)
        ensures
            r@ == self.text(),
    {
        match self {
            MessagePriority::Low => "low",
            MessagePriority::Medium => "medium",
            MessagePriority::High => "high",
            MessagePriority::Critical => "critical",
        }
    }
}

/// The transport that a frame travels by.
#[derive(Debug, Clone, Copy, PartialEq, Eq, Structural)]
pub enum TransportType {
    BLE,
    WiFiDirect,
    Internet,
    Reticulum,
    Nostr,
}

impl TransportType {
    /// The transport's stable display string.
    pub open spec fn text(self) -> Seq<char> {
        match self {
            TransportType::BLE => "ble"@,
            TransportType::WiFiDirect => "wifiDirect"@,
            TransportType::Internet => "internet"@,
            TransportType::Reticulum => "reticulum"@,
            TransportType::Nostr => "nostr"@,
        }
    }

    /// The transport's stable display string.
    pub fn as_str(&self) -> (r: &'static str)
        ensures
            r@ == self.text(),
    {
        match self {
            TransportType::BLE => "ble",
            TransportType::WiFiDirect => "wifiDirect",
            TransportType::Internet => "internet",
            TransportType::Reticulum => "reticulum",
            TransportType::Nostr => "nostr",
        }
    }

    /// The variant's name.
    pub open spec fn variant(self) -> &'static str {
        match self {
            TransportType::BLE => "BLE",
            TransportType::WiFiDirect => "WiFiDirect",
            TransportType::Internet => "Internet",
            TransportType::Reticulum => "Reticulum",
            TransportType::Nostr => "Nostr",
        }
    }

    /// The variant's name.
    pub fn name(&self) -> (r: &'static str)
        ensures
            r == self.variant(),
    {
        match self {
            TransportType::BLE => "BLE",
            TransportType::WiFiDirect => "WiFiDirect",
            TransportType::Internet => "Internet",
            TransportType::Reticulum => "Reticulum",
            TransportType::Nostr => "Nostr",
        }
    }
}

/// What a message's content is.
#[derive(Debug, Clone, PartialEq, Eq)]
pub enum ContentType {
    /// Plain text, the default.
    Text,
    Image,
    Video,
    File,
    /// A piece of a file transfer; never sent by an application directly.
    FileChunk,
    /// Any other kind, by its display string.
    Other(String),
}

impl ContentType {
    /// The kind's display string.
    pub open spec fn text(self) -> Seq<char> {
        match self {
            ContentType::Text => "text"@,
            ContentType::Image => "image"@,
            ContentType::Video => "video"@,
            ContentType::File => "file"@,
            ContentType::FileChunk => "file_chunk"@,
            ContentType::Other(name) => name@,
        }
    }

    /// The kind's display string.
    pub fn to_text(&self) -> (r: String)
        ensures
            r@ == self.text(),
    {
        match self {
            ContentType::Text => "text".to_owned(),
            ContentType::Image => "image".to_owned(),
            ContentType::Video => "video".to_owned(),
            ContentType::File => "file".to_owned(),
            ContentType::FileChunk => "file_chunk".to_owned(),
            ContentType::Other(name) => name.clone(),
        }
    }

    /// Whether this is plain text.
    pub fn is_text(&self) -> (r: bool)
        ensures
            r == (*self is Text),
    {
        matches!(self, ContentType::Text)
    }

    /// Whether this is a piece of a file transfer.
    pub fn is_file_chunk(&self) -> (r: bool)
        ensures
            r == (*self is FileChunk),
    {
        matches!(self, ContentType::FileChunk)
    }
}

/// Media metadata, in its encoded form. The protocol core carries it and never
/// looks inside.
#[derive(Debug, Clone, PartialEq, Eq)]
pub struct MediaMetadata {
    pub encoded: String,
}

/// Who first wrote a forwarded message, and how often it was passed on.
#[derive(Debug, Clone, PartialEq, Eq)]
pub struct ForwardInfo {
    pub original_sender: String,
    pub original_message_id: String,
    /// Wall-clock milliseconds.
    pub original_timestamp: i64,
    pub forward_count: u32,
}

/// The message that a reply quotes.
#[derive(Debug, Clone, PartialEq, Eq)]
pub struct ReplyContext {
    pub sender: String,
    pub text: String,
    /// Wall-clock milliseconds.
    pub timestamp: Option<i64>,
    pub reply_media_label: Option<String>,
    pub reply_content_type: Option<String>,
}

/// A message.
#[derive(Debug, Clone)]
pub struct Message {
    pub id: String,
    pub sender: String,
    pub recipient: String,
    pub content: String,
    pub priority: MessagePriority,
    pub requires_ack: bool,
    /// Wall-clock milliseconds.
    pub timestamp: i64,
    pub lamport_clock: u64,
    pub forwarded_from: Option<ForwardInfo>,
    pub content_type: ContentType,
    pub media_metadata: Option<MediaMetadata>,
}

/// What the service layer reports.
#[derive(Debug, Clone)]
pub enum ServiceEvent {
    /// A service was discovered.
    ServiceDiscovered {
        query_id: String,
        service_id: String,
        version: String,
        provider_peer_id: String,
        capabilities: HashMap<String, String>,
        hop_count: u8,
    },
    /// A service request came in.
    ServiceRequestReceived {
        request_id: String,
        service_id: String,
        method: String,
        body: String,
        sender: String,
    },
    /// A service response came in.
    ServiceResponseReceived {
        request_id: String,
        service_id: String,
        status: String,
        body: String,
        provider_peer_id: String,
    },
}

} // verus!
