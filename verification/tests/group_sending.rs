use offline_protocol::config::ProtocolConfig;
use offline_protocol::error::{Error, TransportError};
use offline_protocol::group_mesh::commits::base64_decode;
use offline_protocol::group_mesh::effect::{Effect, Effects, Notice};
use offline_protocol::group_mesh::sending::GroupSend;
use offline_protocol::group_mesh::state::OfflineProtocol;
use offline_protocol::group_mesh::types::{GroupInfo, GroupSendOptions, RelayBroadcastPending};
use offline_protocol::message::{ContentType, ForwardInfo, MediaMetadata, Message, MessagePriority};

fn texts(names: &[&str]) -> Vec<String> {
    names.iter().map(|n| n.to_string()).collect()
}

fn node() -> OfflineProtocol {
    OfflineProtocol::new("ann", &ProtocolConfig::new("app", "ann"), true)
}

fn info(members: &[&str]) -> Result<Option<GroupInfo>, Error> {
    Ok(Some(GroupInfo { group_id: "g".to_string(), members: texts(members), epoch: 4 }))
}

fn media() -> MediaMetadata {
    MediaMetadata { encoded: "{}".to_string() }
}

fn forward(count: u32) -> ForwardInfo {
    ForwardInfo {
        original_sender: "zoe".to_string(),
        original_message_id: "o".to_string(),
        original_timestamp: 1,
        forward_count: count,
    }
}

fn send(media_metadata: Option<MediaMetadata>, forward_info: Option<ForwardInfo>) -> GroupSend {
    GroupSend {
        group_id: "g".to_string(),
        content: "hi".to_string(),
        priority: MessagePriority::Low,
        reply_to: Some("r".to_string()),
        forward_info,
        media_metadata,
        content_type: ContentType::Text,
    }
}

fn original(kind: ContentType) -> Message {
    Message {
        id: "o".to_string(),
        sender: "zoe".to_string(),
        recipient: "ann".to_string(),
        content: "said".to_string(),
        priority: MessagePriority::Low,
        requires_ack: false,
        timestamp: 1,
        lamport_clock: 0,
        forwarded_from: None,
        content_type: kind,
        media_metadata: Some(media()),
    }
}

#[test]
fn a_plain_message_has_defaults_and_no_reserved_prefix() {
    let ann = node();
    assert_eq!(
        ann.send_group_message("g", "hi", None, None, false),
        Ok(GroupSend {
            group_id: "g".to_string(),
            content: "hi".to_string(),
            priority: MessagePriority::Medium,
            reply_to: None,
            forward_info: None,
            media_metadata: None,
            content_type: ContentType::Text,
        })
    );
    assert_eq!(
        ann.send_group_message("g", "hi", None, None, true),
        Err(Error::InvalidArgument(
            "Message content must not start with a reserved internal prefix".to_string()
        ))
    );
}

#[test]
fn a_rich_message_is_checked_in_order() {
    let ann = node();
    let options = |kind| GroupSendOptions {
        priority: Some(MessagePriority::High),
        reply_to_msg: Some("r".to_string()),
        content_type: kind,
        media_metadata: Some(media()),
    };
    let large = || Err(Error::InvalidArgument("too large".to_string()));
    assert_eq!(
        ann.send_group_message_with("g", "x", options(Some(ContentType::FileChunk)), true, large()),
        Err(Error::InvalidArgument(
            "Message content must not start with a reserved internal prefix".to_string()
        ))
    );
    assert_eq!(
        ann.send_group_message_with("g", "x", options(Some(ContentType::FileChunk)), false, large()),
        Err(Error::InvalidArgument(
            "FileChunk is an internal content type and cannot be sent directly".to_string()
        ))
    );
    assert_eq!(
        ann.send_group_message_with("g", "x", options(None), false, large()),
        Err(Error::InvalidArgument("too large".to_string()))
    );
    let sent = ann.send_group_message_with("g", "x", options(Some(ContentType::Image)), false, Ok(()));
    assert_eq!(sent.unwrap().content_type, ContentType::Image);
}

#[test]
fn a_forward_is_checked_in_order() {
    let ann = node();
    let go = |kind, count, reserved| {
        ann.forward_message_to_group(&original(kind), "g", None, forward(count), reserved, Ok(()))
    };
    assert_eq!(
        go(ContentType::Text, 1, true),
        Err(Error::InvalidArgument(
            "Cannot forward a message with reserved internal prefix content".to_string()
        ))
    );
    assert_eq!(
        go(ContentType::FileChunk, 1, false),
        Err(Error::InvalidArgument(
            "FileChunk is an internal content type and cannot be forwarded".to_string()
        ))
    );
    let max = offline_protocol::constants::MAX_FORWARD_COUNT;
    assert_eq!(
        go(ContentType::Text, max + 1, false),
        Err(Error::InvalidArgument(format!("Forward count {} exceeds maximum of {}", max + 1, max)))
    );
    let sent = go(ContentType::Image, max, false).unwrap();
    assert_eq!(sent.content, "said");
    assert_eq!(sent.forward_info, Some(forward(max)));
    assert_eq!(sent.media_metadata, Some(media()));
    assert_eq!(sent.priority, MessagePriority::Medium);
}

#[test]
fn a_body_is_sealed_only_where_everybody_can_open_it() {
    let mut ann = node();
    let mut effects = Effects::new();
    let opened = ann
        .open_group_send(&send(Some(media()), None), info(&["ann", "bob", "cat"]), &texts(&["bob", "cat"]), &mut effects)
        .unwrap();
    assert!(opened.sealed);
    assert_eq!(opened.members, texts(&["ann", "bob", "cat"]));
    assert_eq!(effects.list, Vec::new());
    let partly = ann
        .open_group_send(&send(Some(media()), None), info(&[]), &texts(&["bob"]), &mut effects)
        .unwrap();
    assert!(!partly.sealed);
    assert_eq!(
        effects.list,
        vec![
            Effect::ProbeRichCapabilities { members: texts(&["cat"]) },
            Effect::Notify(Notice::RichExtrasDropped {
                group_id: "g".to_string(),
                unknown_members: texts(&["cat"]),
            }),
        ]
    );
    let mut plain = Effects::new();
    assert!(!ann.open_group_send(&send(None, None), info(&[]), &Vec::new(), &mut plain).unwrap().sealed);
    assert_eq!(plain.list, Vec::new());
}

#[test]
fn with_sealing_switched_off_nobody_is_blamed() {
    let mut ann = node();
    ann.settings.rich_payload_enabled = false;
    let mut effects = Effects::new();
    let opened = ann
        .open_group_send(&send(Some(media()), None), info(&["ann", "bob"]), &Vec::new(), &mut effects)
        .unwrap();
    assert!(!opened.sealed);
    assert_eq!(
        effects.list,
        vec![Effect::Notify(Notice::RichExtrasDropped {
            group_id: "g".to_string(),
            unknown_members: Vec::new(),
        })]
    );
    let readiness = ann.group_rich_readiness("g", info(&[]), &Vec::new()).unwrap();
    assert!(!readiness.ready);
    assert_eq!(readiness.unknown_members, Vec::<String>::new());
}

#[test]
fn readiness_names_who_is_not_ready() {
    let ann = node();
    let readiness = ann.group_rich_readiness("g", info(&["ann", "bob", "cat"]), &texts(&["cat"])).unwrap();
    assert!(!readiness.ready);
    assert_eq!(readiness.unknown_members, texts(&["bob"]));
    assert!(ann.group_rich_readiness("g", info(&["ann"]), &Vec::new()).unwrap().ready);
    assert_eq!(
        ann.group_rich_readiness("g", Ok(None), &Vec::new()),
        Err(Error::GroupNotFound("g".to_string()))
    );
    let mut other = node();
    let mut effects = Effects::new();
    assert_eq!(
        other.open_group_send(&send(None, None), Err(Error::MlsNotInitialized), &Vec::new(), &mut effects),
        Err(Error::MlsNotInitialized)
    );
}

#[test]
fn frames_carry_the_ciphertext_and_hide_a_sealed_attribution() {
    let ann = node();
    let ciphertext = b"secret".to_vec();
    let open = ann.fanout_group_frames_per_member(
        &send(None, Some(forward(1))),
        false,
        &ciphertext,
        4,
        &texts(&["bob", "ann"]),
    );
    assert_eq!(open.message.forward_info, Some(forward(1)));
    assert_eq!(open.message.message_id, None);
    assert_eq!(open.recipients, texts(&["bob"]));
    assert_eq!(base64_decode(&open.message.ciphertext), Some(b"secret".to_vec()));
    let sealed =
        ann.fanout_group_frames_per_member(&send(None, Some(forward(1))), true, &ciphertext, 4, &Vec::new());
    assert_eq!(sealed.message.forward_info, None);
}

#[test]
fn a_broadcast_is_tracked_until_its_report() {
    let mut ann = node();
    let s = send(None, Some(forward(1)));
    let ciphertext = b"secret".to_vec();
    assert_eq!(ann.try_relay_broadcast(&s, true, &ciphertext, 4, true, 9), None);
    let _ = ann.group_mesh.relay_synced.insert("g".to_string(), ());
    ann.set_relay_capabilities(texts(&["group_delivery_v3"]));
    let armed = ann.try_relay_broadcast(&s, true, &ciphertext, 4, true, 9).unwrap();
    assert_eq!(
        armed,
        RelayBroadcastPending {
            group_id: "g".to_string(),
            ciphertext_b64: "c2VjcmV0".to_string(),
            epoch: 4,
            reply_to: Some("r".to_string()),
            forward_info: None,
            priority: MessagePriority::Low,
            armed_at: 9,
            attempts: 1,
        }
    );
    let mut effects = Effects::new();
    let ids = ann.relay_broadcast_sent("b", armed, &texts(&["ann", "bob", "cat"]), &mut effects);
    assert_eq!(ids, texts(&["b"]));
    assert_eq!(
        effects.list,
        vec![Effect::Notify(Notice::MessageSent {
            group_id: "g".to_string(),
            message_ids: texts(&["b"]),
            member_count: 2,
        })]
    );
    assert!(ann.group_mesh.relay_broadcast_pending.contains_key("b"));
}

#[test]
fn the_oldest_broadcast_makes_way() {
    let mut ann = node();
    let mut effects = Effects::new();
    for i in 0..65i64 {
        let mut p = RelayBroadcastPending {
            group_id: "g".to_string(),
            ciphertext_b64: String::new(),
            epoch: 0,
            reply_to: None,
            forward_info: None,
            priority: MessagePriority::Low,
            armed_at: 100 - i,
            attempts: 1,
        };
        if i == 3 {
            p.armed_at = -5;
        }
        let _ = ann.relay_broadcast_sent(&format!("b{}", i), p, &Vec::new(), &mut effects);
    }
    assert_eq!(ann.group_mesh.relay_broadcast_pending.len(), 64);
    assert!(!ann.group_mesh.relay_broadcast_pending.contains_key("b3"));
    let moved: Vec<&Effect> =
        effects.list.iter().filter(|e| matches!(e, Effect::DowngradeBroadcast { .. })).collect();
    assert_eq!(moved.len(), 1);
}

#[test]
fn a_send_is_settled_by_whom_it_reached() {
    let recipients = texts(&["bob", "cat"]);
    let mut all = Effects::new();
    let both = vec![Some("1".to_string()), Some("2".to_string())];
    assert_eq!(
        OfflineProtocol::group_send_settled("g", &recipients, &both, &mut all),
        Ok(texts(&["1", "2"]))
    );
    assert_eq!(
        all.list,
        vec![Effect::Notify(Notice::MessageSent {
            group_id: "g".to_string(),
            message_ids: texts(&["1", "2"]),
            member_count: 2,
        })]
    );
    let mut some = Effects::new();
    let one = vec![None, Some("2".to_string())];
    assert_eq!(
        OfflineProtocol::group_send_settled("g", &recipients, &one, &mut some),
        Ok(texts(&["2"]))
    );
    assert_eq!(
        some.list,
        vec![Effect::Notify(Notice::PartialFailure {
            group_id: "g".to_string(),
            failed_members: texts(&["bob"]),
            succeeded_members: texts(&["cat"]),
        })]
    );
    let mut none = Effects::new();
    assert_eq!(
        OfflineProtocol::group_send_settled("g", &recipients, &vec![None, None], &mut none),
        Err(Error::Transport(TransportError::SendFailed("All group message sends failed".to_string())))
    );
    assert_eq!(none.list.len(), 1);
    let mut alone = Effects::new();
    assert_eq!(
        OfflineProtocol::group_send_settled("g", &Vec::new(), &Vec::new(), &mut alone),
        Ok(Vec::new())
    );
}
