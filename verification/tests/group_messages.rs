use offline_protocol::config::ProtocolConfig;
use offline_protocol::error::MlsError;
use offline_protocol::events::{Event, SecurityWarningCode};
use offline_protocol::group_mesh::dated::SECOND;
use offline_protocol::group_mesh::effect::{ChangeReason, Effect, Effects, Notice};
use offline_protocol::group_mesh::messages::{
    decrypt_group_application, has_mls_group_state, restore_group_rich, text_of, Decryption,
    GroupDecryptOutcome, MessageIntake, RelayGroupMessage, RichContent,
};
use offline_protocol::group_mesh::pending_messages::{MessageDrain, MessageTask};
use offline_protocol::group_mesh::state::OfflineProtocol;
use offline_protocol::group_mesh::types::{
    GroupMlsMessagePayload, InternalMessageResult, PendingGroupMessage,
};
use offline_protocol::message::{ContentType, ForwardInfo, MediaMetadata, TransportType};

fn node(me: &str) -> OfflineProtocol {
    OfflineProtocol::new(me, &ProtocolConfig::new("app", me), true)
}

fn forward() -> ForwardInfo {
    ForwardInfo {
        original_sender: "zoe".to_string(),
        original_message_id: "o".to_string(),
        original_timestamp: 1,
        forward_count: 2,
    }
}

fn payload(logical: Option<&str>) -> GroupMlsMessagePayload {
    GroupMlsMessagePayload {
        group_id: "g".to_string(),
        ciphertext: "aGk=".to_string(),
        epoch: 4,
        reply_to: Some("r".to_string()),
        forward_info: Some(forward()),
        message_id: logical.map(|l| l.to_string()),
    }
}

fn waiting(id: &str, logical: Option<&str>, at: u128) -> PendingGroupMessage {
    PendingGroupMessage {
        sender: "bob".to_string(),
        message_id: id.to_string(),
        logical_id: logical.map(|l| l.to_string()),
        ciphertext_b64: "aGk=".to_string(),
        timestamp: None,
        reply_to: None,
        forward_info: None,
        buffered_at: at,
        received_via: Some(TransportType::BLE),
    }
}

fn relayed(content: &str) -> RelayGroupMessage {
    RelayGroupMessage {
        group_id: "g".to_string(),
        sender: "bob".to_string(),
        content: content.to_string(),
        timestamp: "then".to_string(),
        message_id: "m".to_string(),
        reply_to: None,
        forward_info: None,
    }
}

fn received(content: &str, timestamp: &str, id: &str) -> Effect {
    Effect::Notify(Notice::MessageReceived {
        group_id: "g".to_string(),
        sender: "bob".to_string(),
        content: content.to_string(),
        timestamp: timestamp.to_string(),
        message_id: id.to_string(),
        reply_to: None,
        forward_info: None,
        media_metadata: None,
        content_type: None,
    })
}

fn acked(id: &str) -> Effect {
    Effect::AckDelivery {
        to: "bob".to_string(),
        message_id: id.to_string(),
        transport: TransportType::BLE,
    }
}

fn answer(error: MlsError, framed: bool) -> GroupDecryptOutcome {
    decrypt_group_application(Decryption { answer: Some(Err(error)), framed })
}

#[test]
fn a_decryption_is_classified() {
    let of = |answer| decrypt_group_application(Decryption { answer, framed: true });
    assert_eq!(of(None), GroupDecryptOutcome::Failed);
    assert_eq!(of(Some(Ok(Some(vec![1])))), GroupDecryptOutcome::Plaintext(vec![1]));
    assert_eq!(of(Some(Ok(None))), GroupDecryptOutcome::NonApplication);
    assert_eq!(
        answer(MlsError::SenderIdentityMismatch { claimed: "a".to_string(), authenticated: "b".to_string() }, true),
        GroupDecryptOutcome::SecurityRejected
    );
    assert_eq!(
        answer(
            MlsError::CommitNotAuthorized {
                committer: "eve".to_string(),
                added: vec!["mal".to_string()],
                removed: Vec::new(),
            },
            true
        ),
        GroupDecryptOutcome::PolicyRejected {
            committer: "eve".to_string(),
            added: vec!["mal".to_string()],
            removed: Vec::new(),
        }
    );
    assert_eq!(answer(MlsError::GroupNotFound("g".to_string()), true), GroupDecryptOutcome::Retriable);
    assert_eq!(
        answer(MlsError::GroupNotFound("g".to_string()), false),
        GroupDecryptOutcome::NotMlsCiphertext
    );
    assert_eq!(answer(MlsError::Decryption("x".to_string()), false), GroupDecryptOutcome::Retriable);
    assert_eq!(answer(MlsError::SessionDesync("x".to_string()), false), GroupDecryptOutcome::Retriable);
    assert_eq!(answer(MlsError::NotInitialized, true), GroupDecryptOutcome::Failed);
    assert_eq!(
        answer(MlsError::LeafAddressMismatch("x".to_string()), true),
        GroupDecryptOutcome::SecurityRejected
    );
    assert_eq!(
        answer(MlsError::UnsupportedSender("x".to_string()), true),
        GroupDecryptOutcome::SecurityRejected
    );
}

#[test]
fn an_uncertain_lookup_fails_closed() {
    assert!(has_mls_group_state(true, Some(true)));
    assert!(!has_mls_group_state(true, Some(false)));
    assert!(has_mls_group_state(true, None));
    assert!(!has_mls_group_state(false, Some(true)));
}

#[test]
fn a_sealed_body_outranks_what_stands_beside_it() {
    let sealed = RichContent {
        text: "inside".to_string(),
        media_metadata: Some(MediaMetadata { encoded: "{}".to_string() }),
        content_type: Some(ContentType::Image),
        forward_info: None,
    };
    let shown = restore_group_rich("outside".to_string(), Some(sealed), Some(forward()));
    assert_eq!(shown.content, "inside");
    assert_eq!(shown.media_metadata, Some(MediaMetadata { encoded: "{}".to_string() }));
    assert_eq!(shown.content_type, Some(ContentType::Image.to_text()));
    assert_eq!(shown.forward_info, None);
    let plain = restore_group_rich("outside".to_string(), None, Some(forward()));
    assert_eq!(plain.content, "outside");
    assert_eq!(plain.forward_info, Some(forward()));
    assert_eq!(plain.content_type, None);
}

#[test]
fn only_valid_text_is_text() {
    assert_eq!(text_of("hé".as_bytes().to_vec()), Some("hé".to_string()));
    assert_eq!(text_of(vec![0xff, 0xfe]), None);
}

#[test]
fn a_message_is_decrypted_once() {
    let mut ann = node("ann");
    let mut effects = Effects::new();
    let p = Some(payload(Some("logical")));
    let consumed = MessageIntake::Settled(InternalMessageResult::Consumed);
    assert_eq!(
        ann.group_mesh.handle_group_mls_msg_via("m", &None, 1, &mut effects),
        MessageIntake::Settled(InternalMessageResult::Consumed)
    );
    assert_eq!(
        ann.group_mesh.handle_group_mls_msg_via("m", &p, 1, &mut effects),
        MessageIntake::Decrypt(b"hi".to_vec())
    );
    assert_eq!(ann.group_mesh.handle_group_mls_msg_via("m", &p, 1, &mut effects), consumed);
    assert!(!ann.group_mesh.was_seen("logical"));
    let mut broken = payload(None);
    broken.ciphertext = "###".to_string();
    assert_eq!(
        ann.group_mesh.handle_group_mls_msg_via("n", &Some(broken), 1, &mut effects),
        MessageIntake::Settled(InternalMessageResult::Consumed)
    );
    assert!(ann.group_mesh.was_seen("n"));
}

#[test]
fn a_delivered_message_marks_its_logical_id() {
    let mut ann = node("ann");
    let mut effects = Effects::new();
    let result = ann.group_mesh.group_message_decrypted(
        "m",
        "bob",
        payload(Some("logical")),
        GroupDecryptOutcome::Plaintext(b"hi".to_vec()),
        None,
        None,
        1,
        "now",
        &mut effects,
    );
    assert_eq!(result, InternalMessageResult::Consumed);
    assert_eq!(
        effects.list,
        vec![Effect::Notify(Notice::MessageReceived {
            group_id: "g".to_string(),
            sender: "bob".to_string(),
            content: "hi".to_string(),
            timestamp: "now".to_string(),
            message_id: "logical".to_string(),
            reply_to: Some("r".to_string()),
            forward_info: Some(forward()),
            media_metadata: None,
            content_type: None,
        })]
    );
    assert!(ann.group_mesh.was_seen("logical"));
    let p = Some(payload(Some("logical")));
    assert_eq!(
        ann.group_mesh.handle_group_mls_msg_via("other envelope", &p, 1, &mut effects),
        MessageIntake::Settled(InternalMessageResult::Consumed)
    );
}

fn settle(outcome: GroupDecryptOutcome) -> (InternalMessageResult, Vec<Effect>, bool) {
    let mut ann = node("ann");
    let mut effects = Effects::new();
    let result = ann.group_mesh.group_message_decrypted(
        "m",
        "bob",
        payload(Some("logical")),
        outcome,
        None,
        Some(TransportType::WiFiDirect),
        1,
        "now",
        &mut effects,
    );
    let marked = ann.group_mesh.was_seen("logical");
    (result, effects.list, marked)
}

#[test]
fn whatever_is_not_decrypted_marks_nothing() {
    assert_eq!(
        settle(GroupDecryptOutcome::SecurityRejected),
        (InternalMessageResult::SecurityRejected, Vec::new(), false)
    );
    assert_eq!(
        settle(GroupDecryptOutcome::Retriable),
        (InternalMessageResult::Deferred, Vec::new(), false)
    );
    assert_eq!(
        settle(GroupDecryptOutcome::NonApplication),
        (
            InternalMessageResult::Consumed,
            vec![
                Effect::DrainCommits { group_id: "g".to_string() },
                Effect::DrainMessages { group_id: "g".to_string() },
            ],
            false
        )
    );
    assert_eq!(
        settle(GroupDecryptOutcome::PolicyRejected {
            committer: "eve".to_string(),
            added: Vec::new(),
            removed: vec!["ann".to_string()],
        }),
        (
            InternalMessageResult::Consumed,
            vec![Effect::Notify(Notice::UnauthorizedChange {
                group_id: "g".to_string(),
                committer: "eve".to_string(),
                added: Vec::new(),
                removed: vec!["ann".to_string()],
                reason: ChangeReason::SenderNotAdmin,
                enforced: true,
            })],
            false
        )
    );
    for outcome in [
        GroupDecryptOutcome::NotMlsCiphertext,
        GroupDecryptOutcome::Failed,
        GroupDecryptOutcome::Plaintext(vec![0xff]),
    ] {
        assert_eq!(settle(outcome), (InternalMessageResult::Consumed, Vec::new(), false));
    }
}

#[test]
fn a_waiting_message_stays_deferred_under_both_its_ids() {
    let mut ann = node("ann");
    let mut effects = Effects::new();
    let p = payload(Some("logical"));
    let _ = ann.group_mesh.handle_group_mls_msg_via("m", &Some(p.clone()), 1, &mut effects);
    let _ = ann.group_mesh.group_message_decrypted(
        "m",
        "bob",
        p.clone(),
        GroupDecryptOutcome::Retriable,
        None,
        None,
        1,
        "now",
        &mut effects,
    );
    assert!(ann.group_mesh.is_group_message_pending("g", "m"));
    assert!(ann.group_mesh.is_group_message_pending("g", "logical"));
    assert!(!ann.group_mesh.is_group_message_pending("h", "m"));
    assert_eq!(
        ann.group_mesh.handle_group_mls_msg_via("m", &Some(p), 2, &mut effects),
        MessageIntake::Settled(InternalMessageResult::Deferred)
    );
    assert_eq!(effects.list, Vec::new());
}

#[test]
fn plaintext_for_a_secured_group_is_refused_and_leaves_no_mark() {
    let mut ann = node("ann");
    let mut effects = Effects::new();
    let message = relayed("hello there");
    assert_eq!(
        ann.group_mesh.handle_relay_group_message_with_mls(&message, true, 1, &mut effects),
        None
    );
    assert_eq!(
        effects.list,
        vec![Effect::Notify(Notice::PlaintextRejected { peer_id: "bob".to_string() })]
    );
    assert!(!ann.group_mesh.was_seen("m"));
    let notice = Notice::PlaintextRejected { peer_id: "bob".to_string() };
    match notice.into_event() {
        Event::SecurityWarning { peer_id, reason_code, reason } => {
            assert_eq!(peer_id, "bob");
            assert_eq!(reason_code, SecurityWarningCode::PlaintextReceiveRejected);
            assert_eq!(
                reason,
                "Plaintext group message rejected: the named group is secured with MLS, so unauthenticated plaintext cannot be attributed to the claimed sender"
            );
        }
        _ => panic!("another event"),
    }
}

#[test]
fn plaintext_for_a_legacy_group_is_delivered_once() {
    let mut ann = node("ann");
    let mut effects = Effects::new();
    let message = relayed("hello there");
    for _ in 0..2 {
        let _ = ann.group_mesh.handle_relay_group_message_with_mls(&message, false, 1, &mut effects);
    }
    assert_eq!(effects.list, vec![received("hello there", "then", "m")]);
}

fn settle_relayed(outcome: GroupDecryptOutcome) -> (Vec<Effect>, bool) {
    let mut ann = node("ann");
    let mut effects = Effects::new();
    let message = relayed("aGk=");
    assert_eq!(
        ann.group_mesh.handle_relay_group_message_with_mls(&message, true, 1, &mut effects),
        Some(b"hi".to_vec())
    );
    ann.group_mesh.relay_message_decrypted(message, outcome, None, 1, &mut effects);
    (effects.list, ann.group_mesh.was_seen("m"))
}

#[test]
fn a_relayed_message_is_settled_by_its_outcome() {
    assert_eq!(
        settle_relayed(GroupDecryptOutcome::Plaintext(b"hi".to_vec())),
        (vec![received("hi", "then", "m")], true)
    );
    assert_eq!(settle_relayed(GroupDecryptOutcome::Plaintext(vec![0xff])), (Vec::new(), true));
    assert_eq!(
        settle_relayed(GroupDecryptOutcome::NotMlsCiphertext),
        (vec![received("aGk=", "then", "m")], true)
    );
    assert_eq!(settle_relayed(GroupDecryptOutcome::SecurityRejected), (Vec::new(), false));
    assert_eq!(settle_relayed(GroupDecryptOutcome::Failed), (Vec::new(), false));
    assert_eq!(settle_relayed(GroupDecryptOutcome::Retriable), (Vec::new(), true));
}

#[test]
fn a_drain_delivers_once_and_acknowledges_every_copy() {
    let mut ann = node("ann");
    let mut effects = Effects::new();
    let _ = ann.group_mesh.pending_group_messages.insert(
        "g".to_string(),
        vec![waiting("e1", Some("l"), 0), waiting("e2", Some("l"), 0), waiting("l", None, 0)],
    );
    let mut drain = MessageDrain::new("g");
    let mut decrypted = 0;
    loop {
        match ann.group_mesh.drain_pending_group_messages(&mut drain, 1, &mut effects) {
            MessageTask::Decrypt(entry, bytes) => {
                decrypted += 1;
                ann.group_mesh.pending_message_decrypted(
                    &mut drain,
                    entry,
                    GroupDecryptOutcome::Plaintext(bytes),
                    None,
                    1,
                    "now",
                    &mut effects,
                );
            }
            MessageTask::DrainCommits => unreachable!(),
            MessageTask::Finished => break,
        }
    }
    assert_eq!(decrypted, 1);
    assert_eq!(effects.list, vec![received("hi", "now", "l"), acked("e1"), acked("e2"), acked("l")]);
    assert_eq!(ann.group_mesh.pending_group_messages.len(), 0);
    assert!(ann.group_mesh.was_seen("l"));
}

#[test]
fn a_drain_goes_on_after_a_commit_came_by() {
    let mut ann = node("ann");
    let mut effects = Effects::new();
    let _ = ann.group_mesh.pending_group_messages.insert(
        "g".to_string(),
        vec![waiting("message", None, 0), waiting("commit", None, 0)],
    );
    let mut drain = MessageDrain::new("g");
    let mut steps: Vec<String> = Vec::new();
    let mut advanced = false;
    loop {
        match ann.group_mesh.drain_pending_group_messages(&mut drain, 1, &mut effects) {
            MessageTask::Decrypt(entry, bytes) => {
                steps.push(entry.message_id.clone());
                let outcome = if entry.message_id == "commit" {
                    GroupDecryptOutcome::NonApplication
                } else if advanced {
                    GroupDecryptOutcome::Plaintext(bytes)
                } else {
                    GroupDecryptOutcome::Retriable
                };
                ann.group_mesh.pending_message_decrypted(
                    &mut drain,
                    entry,
                    outcome,
                    None,
                    1,
                    "now",
                    &mut effects,
                );
            }
            MessageTask::DrainCommits => {
                steps.push("(commits)".to_string());
                advanced = true;
            }
            MessageTask::Finished => break,
        }
    }
    assert_eq!(steps, vec!["message", "commit", "(commits)", "message"]);
    assert_eq!(effects.list, vec![received("hi", "now", "message"), acked("message")]);
}

#[test]
fn a_drain_drops_what_is_spent() {
    let mut ann = node("ann");
    let mut effects = Effects::new();
    let mut broken = waiting("broken", None, 200 * SECOND);
    broken.ciphertext_b64 = "###".to_string();
    ann.group_mesh.mark_seen("old", 0);
    let _ = ann
        .group_mesh
        .pending_group_messages
        .insert("g".to_string(), vec![waiting("old", None, 0), broken]);
    let mut drain = MessageDrain::new("g");
    assert_eq!(
        ann.group_mesh.drain_pending_group_messages(&mut drain, 301 * SECOND, &mut effects),
        MessageTask::Finished
    );
    assert_eq!(effects.list, vec![Effect::UnmarkSeen { message_id: "old".to_string() }]);
    assert!(!ann.group_mesh.was_seen("old"));
    assert_eq!(ann.group_mesh.pending_group_messages.len(), 0);
}

#[test]
fn a_drained_message_that_mls_rejects_is_released() {
    for outcome in [
        GroupDecryptOutcome::SecurityRejected,
        GroupDecryptOutcome::NotMlsCiphertext,
        GroupDecryptOutcome::Failed,
    ] {
        let mut ann = node("ann");
        let mut effects = Effects::new();
        ann.group_mesh.mark_seen("m", 0);
        let mut drain = MessageDrain::new("g");
        ann.group_mesh.pending_message_decrypted(
            &mut drain,
            waiting("m", None, 0),
            outcome,
            None,
            1,
            "now",
            &mut effects,
        );
        assert_eq!(effects.list, vec![Effect::UnmarkSeen { message_id: "m".to_string() }]);
        assert!(!ann.group_mesh.was_seen("m"));
    }
}
