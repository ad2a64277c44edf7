use offline_protocol::config::ProtocolConfig;
use offline_protocol::error::Error;
use offline_protocol::group_mesh::effect::{Effect, Effects, GroupFrame, Notice, SyncReason};
use offline_protocol::group_mesh::relay::{broadcast_frame, reissue_frame, sent_to, RegistrationStep};
use offline_protocol::group_mesh::roles::GroupReads;
use offline_protocol::group_mesh::state::OfflineProtocol;
use offline_protocol::group_mesh::types::{
    GroupInfo, GroupMetadata, GroupRole, RelayBroadcastPending, RelayGroupDeliveryReport,
    RelayGroupRegistrationPayload, RelayRegisterPending, RelaySyncState,
};
use offline_protocol::message::MessagePriority;

const SEC: i64 = 1_000_000_000;

fn texts(names: &[&str]) -> Vec<String> {
    names.iter().map(|n| n.to_string()).collect()
}

fn node() -> OfflineProtocol {
    OfflineProtocol::new("ann", &ProtocolConfig::new("app", "ann"), true)
}

fn info(members: &[&str]) -> Result<Option<GroupInfo>, Error> {
    Ok(Some(GroupInfo { group_id: "g".to_string(), members: texts(members), epoch: 4 }))
}

fn reads(members: &[&str]) -> GroupReads {
    GroupReads {
        metadata: Ok(Some(GroupMetadata {
            roles: vec![("ann".to_string(), GroupRole::Admin)],
            created_by: None,
            name: None,
        })),
        info: info(members),
    }
}

fn pending(attempts: u32, armed_at: i64) -> RelayBroadcastPending {
    RelayBroadcastPending {
        group_id: "g".to_string(),
        ciphertext_b64: "aGk=".to_string(),
        epoch: 4,
        reply_to: None,
        forward_info: None,
        priority: MessagePriority::High,
        armed_at,
        attempts,
    }
}

fn synced_node() -> OfflineProtocol {
    let mut ann = node();
    let _ = ann.group_mesh.members.insert("g".to_string(), texts(&["ann", "bob"]));
    let _ = ann.group_mesh.relay_synced.insert("g".to_string(), ());
    ann.set_relay_capabilities(texts(&["group_delivery_v3"]));
    ann
}

#[test]
fn stored_capabilities_are_few_short_and_distinct() {
    let mut ann = node();
    let long = "x".repeat(129);
    let fits = "x".repeat(128);
    ann.set_relay_capabilities(texts(&["a", "", &long, "a", &fits]));
    assert_eq!(ann.group_mesh.relay_capabilities, texts(&["a", &fits]));
    ann.set_relay_capabilities((0..100).map(|i| format!("t{}", i)).collect());
    assert_eq!(ann.group_mesh.relay_capabilities.len(), 64);
    assert_eq!(ann.group_mesh.relay_capabilities[63], "t63");
}

#[test]
fn a_group_is_synced_only_by_an_acknowledgment() {
    let mut ann = node();
    assert_eq!(ann.group_relay_sync_state("g"), RelaySyncState::Unsynced);
    assert!(!ann.relay_registration_sent("g", false, 1));
    assert_eq!(ann.group_relay_sync_state("g"), RelaySyncState::Unsynced);
    assert!(ann.relay_registration_sent("g", true, 1));
    assert!(ann.relay_registration_sent("g", true, 2));
    assert_eq!(ann.group_relay_sync_state("g"), RelaySyncState::Pending);
    assert_eq!(
        ann.group_mesh.relay_register_pending.get("g"),
        Some(&RelayRegisterPending { armed_at: 2, attempts: 2 })
    );
    let _ = ann.group_mesh.relay_synced.insert("g".to_string(), ());
    assert_eq!(ann.group_relay_sync_state("g"), RelaySyncState::Synced);
}

#[test]
fn a_registration_tells_what_is_known_of_the_sender() {
    let ann = node();
    assert_eq!(
        ann.try_relay_register_group("g", &Some("team".to_string()), &texts(&["ann"]), true, reads(&["ann"])),
        Some(RelayGroupRegistrationPayload {
            group_id: "g".to_string(),
            group_name: Some("team".to_string()),
            members: texts(&["ann"]),
            is_admin: Some(true),
        })
    );
    let unknown = GroupReads { metadata: Ok(None), info: Ok(None) };
    assert_eq!(
        ann.try_relay_register_group("g", &None, &texts(&["ann"]), true, unknown).unwrap().is_admin,
        None
    );
    assert_eq!(
        ann.try_relay_register_group("g", &None, &texts(&["ann"]), false, reads(&["ann"])),
        None
    );
}

#[test]
fn a_requested_registration_takes_each_step() {
    let mut ann = node();
    assert_eq!(
        ann.request_group_relay_registration("g", true, GroupReads { metadata: Ok(None), info: Ok(None) }),
        Err(Error::GroupNotFound("g".to_string()))
    );
    assert_eq!(
        ann.request_group_relay_registration("g", false, reads(&["ann", "bob"])),
        Ok(RegistrationStep::Unavailable)
    );
    assert_eq!(
        ann.request_group_relay_registration("g", true, reads(&["ann", "bob"])),
        Ok(RegistrationStep::Send(RelayGroupRegistrationPayload {
            group_id: "g".to_string(),
            group_name: None,
            members: texts(&["ann", "bob"]),
            is_admin: Some(true),
        }))
    );
    let _ = ann.group_mesh.relay_synced.insert("g".to_string(), ());
    assert_eq!(
        ann.request_group_relay_registration("g", true, reads(&["ann"])),
        Ok(RegistrationStep::Synced)
    );
}

#[test]
fn the_internet_coming_back_registers_what_is_not_synced() {
    let mut ann = synced_node();
    let _ = ann.group_mesh.members.insert("h".to_string(), texts(&["ann"]));
    let mut effects = Effects::new();
    ann.check_relay_group_sync(true, &mut effects);
    ann.check_relay_group_sync(true, &mut effects);
    assert_eq!(effects.list, vec![Effect::ResyncGroup { group_id: "h".to_string() }]);
    let mut resynced = Effects::new();
    ann.resync_group("h", &info(&["ann", "cat"]), &mut resynced);
    assert_eq!(
        resynced.list,
        vec![Effect::RegisterWithRelay {
            group_id: "h".to_string(),
            group_name: None,
            members: texts(&["ann", "cat"]),
        }]
    );
}

#[test]
fn a_lost_connection_forgets_and_downgrades() {
    let mut ann = synced_node();
    let mut effects = Effects::new();
    ann.check_relay_group_sync(true, &mut effects);
    let _ = ann.relay_registration_sent("g", true, 0);
    let _ = ann.relay_registration_sent("h", true, 0);
    let _ = ann.group_mesh.relay_broadcast_pending.insert("b".to_string(), pending(1, 0));
    let mut lost = Effects::new();
    ann.check_relay_group_sync(false, &mut lost);
    let dropped = |g: &str| {
        Effect::Notify(Notice::RelayUnsynced {
            group_id: g.to_string(),
            reason: SyncReason::InternetDropped,
        })
    };
    assert_eq!(
        lost.list,
        vec![
            dropped("g"),
            dropped("h"),
            Effect::DowngradeBroadcast { message_id: "b".to_string(), pending: pending(1, 0) },
        ]
    );
    assert_eq!(ann.group_relay_sync_state("g"), RelaySyncState::Unsynced);
    assert!(!ann.may_broadcast("g", true));
    assert_eq!(ann.group_mesh.relay_capabilities.len(), 0);
}

#[test]
fn without_relay_grouping_nothing_is_synced() {
    let mut ann = synced_node();
    ann.settings.relay_enabled = false;
    let mut effects = Effects::new();
    ann.check_relay_group_sync(true, &mut effects);
    ann.process_relay_register_retries(true, 0, &mut effects);
    assert_eq!(effects.list, Vec::new());
    assert!(!ann.group_mesh.internet_was_available);
}

#[test]
fn an_overdue_registration_is_retried_and_then_given_up() {
    let mut ann = node();
    let _ = ann.group_mesh.members.insert("g".to_string(), texts(&["ann"]));
    let arm = |attempts| RelayRegisterPending { armed_at: 0, attempts };
    let _ = ann.group_mesh.relay_register_pending.insert("g".to_string(), arm(2));
    let _ = ann.group_mesh.relay_register_pending.insert("gone".to_string(), arm(1));
    let mut effects = Effects::new();
    ann.process_relay_register_retries(true, 30 * SEC - 1, &mut effects);
    ann.process_relay_register_retries(false, 30 * SEC, &mut effects);
    assert_eq!(effects.list, Vec::new());
    ann.process_relay_register_retries(true, 30 * SEC, &mut effects);
    assert_eq!(effects.list, vec![Effect::ResyncGroup { group_id: "g".to_string() }]);
    assert!(!ann.group_mesh.relay_register_pending.contains_key("gone"));
    let _ = ann.group_mesh.relay_register_pending.insert("g".to_string(), arm(3));
    let mut over = Effects::new();
    ann.process_relay_register_retries(true, 30 * SEC, &mut over);
    assert_eq!(
        over.list,
        vec![Effect::Notify(Notice::RelayUnsynced {
            group_id: "g".to_string(),
            reason: SyncReason::AckTimeout,
        })]
    );
    assert_eq!(ann.group_mesh.relay_register_pending.len(), 0);
}

#[test]
fn an_overdue_broadcast_goes_out_again_or_to_each_member() {
    let mut ann = synced_node();
    let _ = ann.group_mesh.relay_broadcast_pending.insert("b".to_string(), pending(1, 0));
    let _ = ann.group_mesh.relay_broadcast_pending.insert("c".to_string(), pending(3, 0));
    let _ = ann.group_mesh.relay_broadcast_pending.insert("d".to_string(), pending(1, 1));
    let mut effects = Effects::new();
    ann.process_relay_broadcast_report_timeouts(true, 60 * SEC, &mut effects);
    assert_eq!(
        effects.list,
        vec![
            Effect::ResendBroadcast { message_id: "b".to_string(), pending: pending(1, 0) },
            Effect::DowngradeBroadcast { message_id: "c".to_string(), pending: pending(3, 0) },
        ]
    );
    assert_eq!(ann.group_mesh.relay_broadcast_pending.len(), 1);
    let mut resent = Effects::new();
    ann.broadcast_resent("b", pending(1, 0), true, 77, &mut resent);
    assert_eq!(resent.list, Vec::new());
    assert_eq!(ann.group_mesh.relay_broadcast_pending.get("b"), Some(&pending(2, 77)));
    ann.broadcast_resent("c", pending(1, 0), false, 77, &mut resent);
    assert_eq!(
        resent.list,
        vec![Effect::DowngradeBroadcast { message_id: "c".to_string(), pending: pending(1, 0) }]
    );
}

#[test]
fn a_downgraded_broadcast_keeps_its_logical_id() {
    let mut ann = node();
    let mut effects = Effects::new();
    ann.downgrade_broadcast_to_per_member("b", &pending(1, 0), &info(&["bob", "ann"]), &mut effects);
    let frame = reissue_frame("b", &pending(1, 0));
    assert_eq!(frame.message_id, Some("b".to_string()));
    assert_eq!(frame.ciphertext, "aGk=");
    assert_eq!(
        effects.list,
        vec![Effect::Send {
            recipients: texts(&["bob"]),
            frame: GroupFrame::Message(frame),
            priority: MessagePriority::High,
        }]
    );
    assert_eq!(broadcast_frame("b", &pending(1, 0)).message_id, "b");
}

#[test]
fn a_delivery_report_leaves_out_nobody() {
    let mut ann = node();
    let _ = ann.group_mesh.relay_broadcast_pending.insert("b".to_string(), pending(1, 0));
    let report = |group: &str, id: &str| RelayGroupDeliveryReport {
        group_id: group.to_string(),
        message_id: id.to_string(),
        delivered: texts(&["bob"]),
        pushed: texts(&["cat"]),
    };
    let members = info(&["ann", "bob", "cat", "dan", "eve"]);
    assert!(ann.handle_relay_group_delivery_report(&report("g", "other"), &members).is_none());
    assert!(ann.handle_relay_group_delivery_report(&report("h", "b"), &members).is_none());
    let settled = ann.handle_relay_group_delivery_report(&report("g", "b"), &members).unwrap();
    assert_eq!(settled.missed, texts(&["dan", "eve"]));
    assert_eq!(settled.pending, pending(1, 0));
    assert!(ann.handle_relay_group_delivery_report(&report("g", "b"), &members).is_none());
    let replies = vec![None, Some("m".to_string())];
    assert_eq!(sent_to(&settled.missed, &replies), texts(&["eve"]));
    let mut effects = Effects::new();
    OfflineProtocol::delivery_report_settled(report("g", "b"), &settled.missed, &replies, &mut effects);
    assert_eq!(
        effects.list,
        vec![Effect::Notify(Notice::DeliveryReport {
            group_id: "g".to_string(),
            message_id: "b".to_string(),
            delivered: texts(&["bob"]),
            pushed: texts(&["cat"]),
            missed_reissued: texts(&["eve"]),
        })]
    );
}

#[test]
fn a_broadcast_needs_everything() {
    let mut ann = synced_node();
    assert!(ann.may_broadcast("g", true));
    assert!(!ann.may_broadcast("g", false));
    assert!(!ann.may_broadcast("h", true));
    ann.settings.relay_broadcast_enabled = false;
    assert!(!ann.may_broadcast("g", true));
    let mut bare = synced_node();
    bare.set_relay_capabilities(texts(&["group_delivery_v2"]));
    assert!(!bare.may_broadcast("g", true));
}
