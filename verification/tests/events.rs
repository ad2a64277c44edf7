//! Events: constructors, codes and renderings.

use offline_protocol::error::EstablishmentState;
use offline_protocol::events::shown::Shown;
use offline_protocol::events::{
    DorsEscalationPhase, DorsEscalationReasonCode, DorsReasonCode, Event, PresenceSource,
    PresenceStatus, SecurityWarningCode, WelcomeReasonCode,
};
use offline_protocol::message::{
    ContentType, ForwardInfo, MediaMetadata, Message, MessagePriority, ReplyContext, ServiceEvent,
    TransportType,
};
use std::collections::HashMap;

fn message() -> Message {
    Message {
        id: "0192aaaa-bbbb-cccc-dddd-eeeeffff0000".to_string(),
        sender: "alice".to_string(),
        recipient: "bob".to_string(),
        content: "Hello".to_string(),
        priority: MessagePriority::High,
        requires_ack: true,
        timestamp: 1_700_000_000_000,
        lamport_clock: 7,
        forwarded_from: None,
        content_type: ContentType::Text,
        media_metadata: None,
    }
}

#[test]
fn test_message_sent_event() {
    let message = message();
    let event = Event::message_sent(&message);
    match event {
        Event::MessageSent {
            message_id,
            sender,
            recipient,
            content,
            priority,
            requires_ack,
            timestamp,
            lamport_clock,
            forward_info,
        } => {
            assert_eq!(message_id, message.id);
            assert_eq!(sender, message.sender);
            assert_eq!(recipient, message.recipient);
            assert_eq!(content, message.content);
            assert_eq!(priority, "high");
            assert!(requires_ack);
            assert_eq!(timestamp, message.timestamp);
            assert_eq!(lamport_clock, message.lamport_clock);
            assert!(forward_info.is_none());
        }
        _ => panic!("Wrong event type"),
    }
}

#[test]
fn test_message_delivered_event() {
    let msg_id = "m1".to_string();
    let event = Event::message_delivered(msg_id.clone(), 100, 3, TransportType::BLE);
    match event {
        Event::MessageDelivered {
            message_id,
            latency_ms,
            hop_count,
            transport,
        } => {
            assert_eq!(message_id, msg_id);
            assert_eq!(latency_ms, 100);
            assert_eq!(hop_count, 3);
            assert_eq!(transport, "ble");
        }
        _ => panic!("Wrong event type"),
    }
}

#[test]
fn test_transport_switched_event() {
    let event = Event::transport_switched(
        Some(TransportType::BLE),
        TransportType::WiFiDirect,
        "Poor signal".to_string(),
    );
    match event {
        Event::TransportSwitched { from, to, reason } => {
            assert_eq!(from.as_deref(), Some("ble"));
            assert_eq!(to, "wifiDirect");
            assert_eq!(reason, "Poor signal");
        }
        _ => panic!("Wrong event type"),
    }
}

#[test]
fn test_relay_promoted_event() {
    let event = Event::relay_promoted(5, 80);
    match event {
        Event::RelayPromoted {
            connection_count,
            battery_level,
        } => {
            assert_eq!(connection_count, 5);
            assert_eq!(battery_level, 80);
        }
        _ => panic!("Wrong event type"),
    }
}

#[test]
fn test_file_progress_event() {
    let event = Event::file_progress("file123".to_string(), 50, 100);
    match event {
        Event::FileProgress {
            file_id,
            chunks_sent,
            total_chunks,
            percentage,
        } => {
            assert_eq!(file_id, "file123");
            assert_eq!(chunks_sent, 50);
            assert_eq!(total_chunks, 100);
            assert_eq!(percentage, 50);
        }
        _ => panic!("Wrong event type"),
    }
}

#[test]
fn test_network_metrics_event() {
    let event = Event::network_metrics(10, 3, 0.95f32.to_bits(), 150);
    match event {
        Event::NetworkMetrics {
            neighbor_count,
            relay_count,
            delivery_ratio,
            avg_latency_ms,
        } => {
            assert_eq!(neighbor_count, 10);
            assert_eq!(relay_count, 3);
            assert_eq!(f32::from_bits(delivery_ratio), 0.95);
            assert_eq!(avg_latency_ms, 150);
        }
        _ => panic!("Wrong event type"),
    }
}

#[test]
fn test_file_received_event() {
    let event = Event::file_received(
        "file123".to_string(),
        "photo.jpg".to_string(),
        1024000,
        "alice".to_string(),
        ContentType::Image,
        None,
        vec![1, 2, 3, 4],
        None,
        None,
        None,
        None,
        None,
    );
    match event {
        Event::FileReceived {
            file_id,
            file_name,
            file_size,
            sender,
            content_type,
            file_data,
            ..
        } => {
            assert_eq!(file_id, "file123");
            assert_eq!(file_name, "photo.jpg");
            assert_eq!(file_size, 1024000);
            assert_eq!(sender, "alice");
            assert_eq!(content_type, "image");
            assert!(!file_data.is_empty());
            assert_eq!(file_data, "AQIDBA==");
        }
        _ => panic!("Wrong event type"),
    }
}

#[test]
fn file_received_carries_its_rich_fields() {
    let rc = ReplyContext {
        sender: "carol".to_string(),
        text: "the original".to_string(),
        timestamp: None,
        reply_media_label: None,
        reply_content_type: Some("text".to_string()),
    };
    let fwd = ForwardInfo {
        original_sender: "dave".to_string(),
        original_message_id: "m0".to_string(),
        original_timestamp: 5,
        forward_count: 1,
    };
    let event = Event::file_received(
        "file123".to_string(),
        "photo.jpg".to_string(),
        1024,
        "alice".to_string(),
        ContentType::Image,
        Some(MediaMetadata {
            encoded: "{}".to_string(),
        }),
        vec![1, 2, 3],
        Some(1_700_000_000_000),
        Some("look".to_string()),
        Some("0192aaaa-bbbb-cccc-dddd-eeeeffff0000".to_string()),
        Some(&rc),
        Some(&fwd),
    );
    match event {
        Event::FileReceived {
            timestamp,
            caption,
            reply_to_msg,
            reply_context,
            forward_info,
            media_metadata,
            ..
        } => {
            assert_eq!(timestamp, Some(1_700_000_000_000));
            assert_eq!(caption.as_deref(), Some("look"));
            assert_eq!(
                reply_to_msg.as_deref(),
                Some("0192aaaa-bbbb-cccc-dddd-eeeeffff0000")
            );
            let rc = reply_context.expect("reply context");
            assert_eq!(rc.sender, "carol");
            assert_eq!(rc.text, "the original");
            let fwd = forward_info.expect("forward info");
            assert_eq!(fwd.original_sender, "dave");
            assert_eq!(fwd.forward_count, 1);
            assert_eq!(media_metadata.expect("metadata").encoded, "{}");
        }
        _ => panic!("Wrong event type"),
    }
}

#[test]
fn codes_are_stable() {
    let codes = [
        (SecurityWarningCode::SenderAddressMismatch, "SENDER_ADDRESS_MISMATCH"),
        (SecurityWarningCode::TransportIdentityMismatch, "TRANSPORT_IDENTITY_MISMATCH"),
        (SecurityWarningCode::ControlSignatureInvalid, "CONTROL_SIGNATURE_INVALID"),
        (SecurityWarningCode::UnsignedControlRejected, "UNSIGNED_CONTROL_REJECTED"),
        (SecurityWarningCode::MediaSenderGroupMismatch, "MEDIA_SENDER_GROUP_MISMATCH"),
        (SecurityWarningCode::PlaintextSend, "PLAINTEXT_SEND"),
        (SecurityWarningCode::PlaintextReceiveRejected, "PLAINTEXT_RECEIVE_REJECTED"),
        (SecurityWarningCode::SessionSenderGroupMismatch, "SESSION_SENDER_GROUP_MISMATCH"),
        (SecurityWarningCode::SessionRekeyTriggered, "SESSION_REKEY_TRIGGERED"),
        (SecurityWarningCode::NostrKeyPackageSlotExhausted, "NOSTR_KEY_PACKAGE_SLOT_EXHAUSTED"),
        (SecurityWarningCode::PushKeyPackagePoolExhausted, "PUSH_KEY_PACKAGE_POOL_EXHAUSTED"),
        (SecurityWarningCode::RelayAddressBindingMismatch, "RELAY_ADDRESS_BINDING_MISMATCH"),
        (SecurityWarningCode::RelayAddressDeclarationRefused, "RELAY_ADDRESS_DECLARATION_REFUSED"),
        (SecurityWarningCode::GroupLeafIdentityUnproven, "GROUP_LEAF_IDENTITY_UNPROVEN"),
    ];
    for (code, text) in codes {
        assert_eq!(code.as_str(), text);
    }
    assert_eq!(WelcomeReasonCode::RetryExhausted.as_str(), "RETRY_EXHAUSTED");
    assert_eq!(
        DorsReasonCode::InitialSelection.as_str(),
        "INITIAL_SELECTION"
    );
    assert_eq!(DorsEscalationPhase::Applied.as_str(), "APPLIED");
    assert_eq!(DorsEscalationReasonCode::LowTtl.as_str(), "LOW_TTL");
    assert_eq!(EstablishmentState::SessionPending.as_str(), "SessionPending");
}

#[test]
fn telemetry_names_are_stable() {
    assert_eq!(
        Event::relay_promoted(1, 2).telemetry_name(),
        "protocol.relay.promoted"
    );
    assert_eq!(
        Event::connection_request_undeliverable(
            "bob".to_string(),
            "m1".to_string(),
            "recipient_unreachable".to_string()
        )
        .telemetry_name(),
        "protocol.connection.request_undeliverable"
    );
    assert_eq!(
        Event::group_message_delivery_report(
            "g".to_string(),
            "m".to_string(),
            vec![],
            vec![],
            vec![]
        )
        .telemetry_name(),
        "protocol.group.delivery_report"
    );
}

#[test]
fn presence_sources_are_told_apart() {
    match Event::presence_updated("bob".to_string(), PresenceStatus::Away, 9) {
        Event::PresenceUpdated {
            last_seen_ms,
            source,
            ..
        } => {
            assert_eq!(last_seen_ms, None);
            assert_eq!(source, PresenceSource::Peer);
        }
        _ => panic!("Wrong event type"),
    }
    match Event::presence_updated_with_last_seen(
        "bob".to_string(),
        PresenceStatus::Offline,
        9,
        Some(4),
    ) {
        Event::PresenceUpdated {
            last_seen_ms,
            source,
            ..
        } => {
            assert_eq!(last_seen_ms, Some(4));
            assert_eq!(source, PresenceSource::Internet);
        }
        _ => panic!("Wrong event type"),
    }
    assert_eq!(PresenceSource::default(), PresenceSource::Peer);
}

#[test]
fn neighbor_events_name_the_transport_variant() {
    match Event::neighbor_discovered("bob".to_string(), TransportType::WiFiDirect, Some(-40)) {
        Event::NeighborDiscovered {
            transport, rssi, ..
        } => {
            assert_eq!(transport, "WiFiDirect");
            assert_eq!(rssi, Some(-40));
        }
        _ => panic!("Wrong event type"),
    }
}

#[test]
fn service_events_become_events() {
    let event = Event::from(ServiceEvent::ServiceRequestReceived {
        request_id: "r".to_string(),
        service_id: "s".to_string(),
        method: "m".to_string(),
        body: "b".to_string(),
        sender: "alice".to_string(),
    });
    match event {
        Event::ServiceRequestReceived { request_id, sender, .. } => {
            assert_eq!(request_id, "r");
            assert_eq!(sender, "alice");
        }
        _ => panic!("Wrong event type"),
    }
}

#[test]
fn test_debug_redacts_every_peer_identifying_field() {
    const SENTINEL: &str = "off1qy4aspkf0u8qptc6rlpn9ra8vw5jd9ereq4cwpfs";

    let events = vec![
        Event::NeighborDiscovered {
            peer_id: SENTINEL.to_string(),
            transport: "ble".to_string(),
            rssi: Some(-40),
        },
        Event::NeighborLost {
            peer_id: SENTINEL.to_string(),
        },
        Event::SecureSessionEstablished {
            peer_id: SENTINEL.to_string(),
            group_id: "session:a:b".to_string(),
            is_session: true,
            initiated_by_local: true,
        },
        Event::SecureSessionFailed {
            peer_id: SENTINEL.to_string(),
            reason: "nope".to_string(),
        },
        Event::ConvergenceDiag {
            stage: "stage".to_string(),
            peer_id: SENTINEL.to_string(),
            detail: "detail".to_string(),
        },
        Event::WelcomeSendAttempted {
            peer_id: SENTINEL.to_string(),
            message_id: "m1".to_string(),
            group_id: "g1".to_string(),
            attempt: 1,
        },
        Event::WelcomeSendSucceeded {
            peer_id: SENTINEL.to_string(),
            message_id: "m1".to_string(),
            group_id: "g1".to_string(),
            attempt: 1,
        },
        Event::WelcomeSendFailed {
            peer_id: SENTINEL.to_string(),
            message_id: "m1".to_string(),
            group_id: "g1".to_string(),
            attempt: 1,
            reason_code: WelcomeReasonCode::Timeout,
            transport_error: None,
            retryable: true,
            next_retry_at: None,
        },
        Event::WelcomeSendExpired {
            peer_id: SENTINEL.to_string(),
            message_id: "m1".to_string(),
            attempt: 3,
            reason_code: WelcomeReasonCode::RetryExhausted,
        },
        Event::ServiceDiscovered {
            query_id: "q1".to_string(),
            service_id: "s1".to_string(),
            version: "1".to_string(),
            provider_peer_id: SENTINEL.to_string(),
            capabilities: HashMap::new(),
            hop_count: 1,
        },
        Event::ServiceResponseReceived {
            request_id: "r1".to_string(),
            service_id: "s1".to_string(),
            status: "ok".to_string(),
            body: "body".to_string(),
            provider_peer_id: SENTINEL.to_string(),
        },
        Event::PresenceUpdated {
            peer_id: SENTINEL.to_string(),
            status: PresenceStatus::Online,
            timestamp: 0,
            last_seen_ms: None,
            source: PresenceSource::Peer,
        },
        Event::SecurityWarning {
            peer_id: SENTINEL.to_string(),
            reason_code: SecurityWarningCode::SenderAddressMismatch,
            reason: "mismatch".to_string(),
        },
    ];

    for event in &events {
        let rendered = format!("{:?}", event.rendering());
        assert!(
            !rendered.contains(SENTINEL),
            "Debug leaked a peer identifier: {rendered}",
        );
    }
}

#[test]
fn renderings_show_lengths_of_what_they_withhold() {
    let event = Event::message_sent(&message());
    let rendering = event.rendering();
    assert_eq!(rendering.title, "MessageSent");
    assert_eq!(rendering.lines.len(), 9);
    assert_eq!(rendering.lines[1].0, "sender");
    assert!(matches!(rendering.lines[1].1, Shown::Redacted));
    assert_eq!(rendering.lines[3].0, "content");
    assert!(matches!(rendering.lines[3].1, Shown::RedactedBytes(5)));
    assert!(matches!(&rendering.lines[4].1, Shown::Text(t) if t == "high"));

    let event = Event::group_message_sent("g".to_string(), vec!["a".to_string()], 3);
    let rendering = event.rendering();
    assert_eq!(rendering.lines[1].0, "message_count");
    assert!(matches!(rendering.lines[1].1, Shown::Unsigned(1)));
}

#[test]
fn lists_of_members_are_shown_as_counts() {
    const SENTINEL: &str = "off1qy4aspkf0u8qptc6rlpn9ra8vw5jd9ereq4cwpfs";
    let who = || vec![SENTINEL.to_string()];
    let g = || "g1".to_string();
    let events = vec![
        Event::group_epoch_fork_resolved(g(), 7, who()),
        Event::group_message_partial_failure(g(), who(), who()),
        Event::group_message_delivery_report(g(), "m".to_string(), who(), who(), who()),
        Event::group_rich_extras_dropped(g(), who()),
    ];
    for event in &events {
        let rendered = format!("{:?}", event.rendering());
        assert!(!rendered.contains(SENTINEL), "{}", rendered);
    }
    let lines = events[0].rendering().lines;
    assert!(matches!(lines[2], ("failed_count", Shown::Unsigned(1))));
}

#[test]
fn a_telemetry_name_does_not_depend_on_what_an_event_carries() {
    let name = |epoch| Event::group_epoch_fork_resolved("g".to_string(), epoch, vec![]);
    assert_eq!(name(1).telemetry_name(), name(2).telemetry_name());
    assert_ne!(
        name(1).telemetry_name(),
        Event::group_epoch_fork_detected("g".to_string(), None).telemetry_name()
    );
}

#[test]
fn every_transport_has_its_name_and_display_string() {
    let transports = [
        (TransportType::BLE, "BLE", "ble"),
        (TransportType::WiFiDirect, "WiFiDirect", "wifiDirect"),
        (TransportType::Internet, "Internet", "internet"),
        (TransportType::Reticulum, "Reticulum", "reticulum"),
        (TransportType::Nostr, "Nostr", "nostr"),
    ];
    for (transport, name, text) in transports {
        assert_eq!(transport.name(), name);
        assert_eq!(transport.as_str(), text);
    }
}
