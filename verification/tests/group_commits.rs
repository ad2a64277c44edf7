use offline_protocol::config::ProtocolConfig;
use offline_protocol::error::{Error, MlsError};
use offline_protocol::events::{Event, SecurityWarningCode};
use offline_protocol::group_mesh::commits::{open_commit, CommitOutcome};
use offline_protocol::group_mesh::dated::SECOND;
use offline_protocol::group_mesh::effect::{
    ChangeReason, Effect, Effects, Notice, SyncReason,
};
use offline_protocol::group_mesh::inbound::welcome_refused;
use offline_protocol::group_mesh::pending_commits::CommitDrain;
use offline_protocol::group_mesh::state::OfflineProtocol;
use offline_protocol::group_mesh::types::{
    EpochForkState, GroupCommitType, GroupInfo, GroupMlsCommitPayload, GroupMlsWelcomePayload,
    GroupRole, PendingCommit, PendingLeaveElection,
};

fn texts(names: &[&str]) -> Vec<String> {
    names.iter().map(|n| n.to_string()).collect()
}

fn node(me: &str) -> OfflineProtocol {
    OfflineProtocol::new(me, &ProtocolConfig::new("app", me), true)
}

fn info(members: &[&str]) -> Result<Option<GroupInfo>, Error> {
    Ok(Some(GroupInfo { group_id: "g".to_string(), members: texts(members), epoch: 4 }))
}

fn commit(kind: GroupCommitType, affected: Option<&str>) -> GroupMlsCommitPayload {
    GroupMlsCommitPayload {
        group_id: "g".to_string(),
        commit_type: kind,
        ciphertext: "Y29tbWl0".to_string(),
        epoch: 4,
        affected_member: affected.map(|a| a.to_string()),
        role: Some(GroupRole::Admin),
        affected_member_rich: Some(vec![1]),
    }
}

fn held(id: &str, at: u128, retries: u32) -> PendingCommit {
    PendingCommit {
        sender: "bob".to_string(),
        message_id: id.to_string(),
        data: "data".to_string(),
        buffered_at: at,
        retry_count: retries,
    }
}

fn refused() -> MlsError {
    MlsError::CommitNotAuthorized {
        committer: "eve".to_string(),
        added: texts(&["mal"]),
        removed: Vec::new(),
    }
}

fn report(committer: &str, added: &[&str], removed: &[&str], reason: ChangeReason, enforced: bool) -> Effect {
    Effect::Notify(Notice::UnauthorizedChange {
        group_id: "g".to_string(),
        committer: committer.to_string(),
        added: texts(added),
        removed: texts(removed),
        reason,
        enforced,
    })
}

#[test]
fn an_empty_or_malformed_commit_holds_nothing() {
    let mut empty = commit(GroupCommitType::Add, None);
    empty.ciphertext = String::new();
    assert_eq!(open_commit(&Some(empty)), None);
    let mut broken = commit(GroupCommitType::Add, None);
    broken.ciphertext = "%%%".to_string();
    assert_eq!(open_commit(&Some(broken)), None);
    assert_eq!(open_commit(&Some(commit(GroupCommitType::Add, None))), Some(b"commit".to_vec()));
}

#[test]
fn an_admin_evicts_and_nobody_else_does() {
    let mut ann = node("ann");
    let mut effects = Effects::new();
    let _ = ann.group_mesh.members.insert("g".to_string(), texts(&["ann", "bob"]));
    let _ = ann.group_mesh.relay_synced.insert("g".to_string(), ());
    let removal = commit(GroupCommitType::Remove, Some("ann"));
    let error = MlsError::Decryption("evicted".to_string());
    let first = ann.commit_failed(&removal, "eve", &error, false, 1, &mut effects);
    assert_eq!(first, CommitOutcome::Retriable("g".to_string()));
    assert_eq!(effects.list, Vec::new());
    assert!(ann.group_mesh.members.contains_key("g"));
    let second = ann.commit_failed(&removal, "bob", &error, true, 1, &mut effects);
    assert_eq!(second, CommitOutcome::Rejected);
    assert!(!ann.group_mesh.members.contains_key("g"));
    assert_eq!(
        effects.list,
        vec![
            Effect::LeaveMlsGroup { group_id: "g".to_string() },
            Effect::Notify(Notice::RelayUnsynced {
                group_id: "g".to_string(),
                reason: SyncReason::Removed,
            }),
            Effect::Notify(Notice::MemberRemoved {
                group_id: "g".to_string(),
                user_id: "ann".to_string(),
                removed_by: "bob".to_string(),
                authorized: Some(true),
            }),
        ]
    );
}

#[test]
fn a_failed_commit_is_classified() {
    let mut ann = node("ann");
    let mut effects = Effects::new();
    let c = commit(GroupCommitType::Add, Some("cat"));
    let permanent = vec![
        MlsError::Deserialization("x".to_string()),
        MlsError::InvalidMessage("x".to_string()),
        MlsError::Storage("x".to_string()),
        MlsError::SenderIdentityMismatch {
            claimed: "a".to_string(),
            authenticated: "b".to_string(),
        },
    ];
    for error in &permanent {
        assert_eq!(
            ann.commit_failed(&c, "bob", error, true, 1, &mut effects),
            CommitOutcome::Rejected
        );
    }
    let passing = vec![
        MlsError::GroupNotFound("g".to_string()),
        MlsError::SessionDesync("x".to_string()),
        MlsError::NotInitialized,
    ];
    for error in &passing {
        assert_eq!(
            ann.commit_failed(&c, "bob", error, true, 1, &mut effects),
            CommitOutcome::Retriable("g".to_string())
        );
    }
    assert_eq!(effects.list, Vec::new());
}

#[test]
fn a_refusal_is_reported_once_in_the_window() {
    let mut ann = node("ann");
    let mut effects = Effects::new();
    let c = commit(GroupCommitType::Add, Some("mal"));
    for now in [0u128, 299 * SECOND, 300 * SECOND] {
        assert_eq!(
            ann.commit_failed(&c, "eve", &refused(), false, now, &mut effects),
            CommitOutcome::Rejected
        );
    }
    let told = report("eve", &["mal"], &[], ChangeReason::SenderNotAdmin, true);
    assert_eq!(effects.list, vec![told.clone(), told]);
    assert_eq!(ann.group_mesh.unauthorized_change_reports.len(), 1);
}

#[test]
fn an_applied_change_does_not_hide_a_refused_one() {
    let mut ann = node("ann");
    let mut effects = Effects::new();
    let none: Vec<String> = Vec::new();
    for (who, enforced) in [("eve", false), ("eve", true), ("mal", false), ("eve", false)] {
        ann.group_mesh.report_unauthorized_membership_change(
            "g",
            who,
            &none,
            &none,
            ChangeReason::SenderNotAdmin,
            enforced,
            5,
            &mut effects,
        );
    }
    assert_eq!(effects.list.len(), 3);
}

#[test]
fn the_record_of_reports_is_bounded() {
    let mut ann = node("ann");
    let mut effects = Effects::new();
    let none: Vec<String> = Vec::new();
    for i in 0..300u128 {
        let who = format!("eve{}", i);
        ann.group_mesh.report_unauthorized_membership_change(
            "g",
            &who,
            &none,
            &none,
            ChangeReason::SenderNotAdmin,
            false,
            i,
            &mut effects,
        );
    }
    assert_eq!(effects.list.len(), 300);
    assert_eq!(ann.group_mesh.unauthorized_change_reports.len(), 256);
    assert_eq!(ann.group_mesh.unauthorized_change_reports[0].committer, "eve44");
}

#[test]
fn an_admins_addition_is_announced_with_its_claims() {
    let mut ann = node("ann");
    let mut effects = Effects::new();
    let outcome = ann.group_mesh.commit_applied(
        &commit(GroupCommitType::Add, Some("cat")),
        "bob",
        &info(&["ann", "bob"]),
        &info(&["cat", "bob", "ann"]),
        true,
        1,
        &mut effects,
    );
    assert_eq!(outcome, CommitOutcome::Success("g".to_string()));
    assert_eq!(
        effects.list,
        vec![
            Effect::SetMemberRole {
                group_id: "g".to_string(),
                user_id: "cat".to_string(),
                role: GroupRole::Admin,
            },
            Effect::RecordAttestedRich { user_id: "cat".to_string(), versions: vec![1] },
            Effect::Notify(Notice::MemberAdded {
                group_id: "g".to_string(),
                user_id: "cat".to_string(),
                added_by: "bob".to_string(),
                group_name: None,
                authorized: Some(true),
            }),
        ]
    );
    assert_eq!(ann.group_mesh.members.get("g"), Some(&texts(&["cat", "bob", "ann"])));
}

#[test]
fn a_strangers_addition_is_reported_and_its_claims_ignored() {
    let mut ann = node("ann");
    let mut effects = Effects::new();
    let _ = ann.group_mesh.commit_applied(
        &commit(GroupCommitType::Add, Some("cat")),
        "eve",
        &info(&["ann"]),
        &info(&["ann", "dan", "cat"]),
        false,
        1,
        &mut effects,
    );
    let added = |who: &str| {
        Effect::Notify(Notice::MemberAdded {
            group_id: "g".to_string(),
            user_id: who.to_string(),
            added_by: "eve".to_string(),
            group_name: None,
            authorized: Some(false),
        })
    };
    assert_eq!(
        effects.list,
        vec![
            report("eve", &["cat", "dan"], &[], ChangeReason::SenderNotAdmin, false),
            added("cat"),
            added("dan"),
        ]
    );
}

#[test]
fn a_commit_that_misnames_its_member_is_reported() {
    let mut ann = node("ann");
    let mut effects = Effects::new();
    ann.group_mesh.pending_leave_elections.push(PendingLeaveElection {
        group_id: "g".to_string(),
        leaving_member: "cat".to_string(),
        received_at: 0,
        last_attempt_at: None,
    });
    let _ = ann.group_mesh.commit_applied(
        &commit(GroupCommitType::Remove, Some("dan")),
        "bob",
        &info(&["ann", "bob", "cat"]),
        &info(&["ann", "bob"]),
        true,
        1,
        &mut effects,
    );
    assert_eq!(
        effects.list,
        vec![
            report("bob", &[], &["cat"], ChangeReason::AffectedMemberMismatch, false),
            Effect::RemoveMemberRole { group_id: "g".to_string(), user_id: "cat".to_string() },
            Effect::Notify(Notice::MemberRemoved {
                group_id: "g".to_string(),
                user_id: "cat".to_string(),
                removed_by: "bob".to_string(),
                authorized: Some(false),
            }),
            Effect::AutoPromote { group_id: "g".to_string(), members: texts(&["ann", "bob"]) },
        ]
    );
    assert_eq!(ann.group_mesh.pending_leave_elections.len(), 0);
}

#[test]
fn an_unreadable_roster_announces_nothing() {
    let mut ann = node("ann");
    let mut effects = Effects::new();
    let c = commit(GroupCommitType::Add, Some("cat"));
    for (before, after) in [
        (Err(Error::MlsNotInitialized), info(&["ann", "cat"])),
        (info(&["ann"]), Err(Error::MlsNotInitialized)),
        (info(&["ann"]), Ok(None)),
    ] {
        assert_eq!(
            ann.group_mesh.commit_applied(&c, "eve", &before, &after, false, 1, &mut effects),
            CommitOutcome::Success("g".to_string())
        );
    }
    assert_eq!(effects.list, Vec::new());
}

#[test]
fn only_a_key_update_ends_a_fork() {
    let mut ann = node("ann");
    let mut effects = Effects::new();
    let fork = EpochForkState { local_epoch: Some(3), detected_at: 0, resolution_attempted: false };
    let _ = ann.group_mesh.epoch_forks.insert("g".to_string(), fork);
    let same = info(&["ann", "bob"]);
    let _ = ann.group_mesh.commit_applied(
        &commit(GroupCommitType::Add, None),
        "bob",
        &same,
        &same,
        true,
        1,
        &mut effects,
    );
    assert!(ann.group_mesh.epoch_forks.contains_key("g"));
    let _ = ann.group_mesh.commit_applied(
        &commit(GroupCommitType::KeyUpdate, Some("whoever")),
        "bob",
        &same,
        &same,
        true,
        1,
        &mut effects,
    );
    assert!(!ann.group_mesh.epoch_forks.contains_key("g"));
    assert_eq!(effects.list, Vec::new());
}

#[test]
fn a_commit_is_taken_in_once_and_settled_by_its_outcome() {
    let mut ann = node("ann");
    let mut effects = Effects::new();
    assert!(ann.group_mesh.handle_group_mls_commit("m", 1, &mut effects));
    assert!(!ann.group_mesh.handle_group_mls_commit("m", 2, &mut effects));
    ann.group_mesh.commit_processed("m", "bob", "data", &CommitOutcome::Rejected, 1, &mut effects);
    assert_eq!(effects.list, Vec::new());
    let success = CommitOutcome::Success("g".to_string());
    ann.group_mesh.commit_processed("m", "bob", "data", &success, 1, &mut effects);
    assert_eq!(
        effects.list,
        vec![
            Effect::DrainCommits { group_id: "g".to_string() },
            Effect::DrainMessages { group_id: "g".to_string() },
        ]
    );
    let retry = CommitOutcome::Retriable("g".to_string());
    ann.group_mesh.commit_processed("m", "bob", "data", &retry, 7, &mut effects);
    assert_eq!(ann.group_mesh.pending_commits.get("g"), Some(&vec![held("m", 7, 0)]));
}

#[test]
fn a_drain_tries_again_while_commits_get_through() {
    let mut ann = node("ann");
    let mut effects = Effects::new();
    let _ = ann
        .group_mesh
        .pending_commits
        .insert("g".to_string(), vec![held("later", 0, 0), held("sooner", 0, 0)]);
    let mut drain = CommitDrain::new("g");
    let mut tried: Vec<String> = Vec::new();
    let mut advanced = false;
    while let Some(entry) = ann.group_mesh.drain_pending_commits(&mut drain, SECOND, &mut effects) {
        tried.push(entry.message_id.clone());
        let outcome = if entry.message_id == "sooner" {
            advanced = true;
            CommitOutcome::Success("g".to_string())
        } else if advanced {
            CommitOutcome::Success("g".to_string())
        } else {
            CommitOutcome::Retriable("g".to_string())
        };
        drain.commit_retried(entry, &outcome);
    }
    assert_eq!(tried, texts(&["later", "sooner", "later"]));
    assert_eq!(ann.group_mesh.pending_commits.len(), 0);
    assert_eq!(effects.list, Vec::new());
}

#[test]
fn a_commit_that_keeps_failing_keeps_waiting() {
    let mut ann = node("ann");
    let mut effects = Effects::new();
    let _ = ann.group_mesh.pending_commits.insert("g".to_string(), vec![held("m", 0, 0)]);
    let mut drain = CommitDrain::new("g");
    while let Some(entry) = ann.group_mesh.drain_pending_commits(&mut drain, 1, &mut effects) {
        drain.commit_retried(entry, &CommitOutcome::Retriable("g".to_string()));
    }
    assert_eq!(ann.group_mesh.pending_commits.get("g"), Some(&vec![held("m", 0, 1)]));
}

#[test]
fn an_expired_retry_hints_at_a_fork() {
    let mut ann = node("ann");
    let mut effects = Effects::new();
    ann.group_mesh.mark_seen("m", 0);
    let _ = ann.group_mesh.pending_commits.insert("g".to_string(), vec![held("m", 0, 2)]);
    let mut drain = CommitDrain::new("g");
    let next = ann.group_mesh.drain_pending_commits(&mut drain, 301 * SECOND, &mut effects);
    assert_eq!(next, None);
    assert_eq!(
        effects.list,
        vec![
            Effect::UnmarkSeen { message_id: "m".to_string() },
            Effect::InspectFork { group_id: "g".to_string() },
        ]
    );
    assert!(!ann.group_mesh.was_seen("m"));
    let mut told = Effects::new();
    ann.group_mesh.flag_potential_epoch_fork("g", &info(&["ann"]), 5, &mut told);
    ann.group_mesh.flag_potential_epoch_fork("g", &info(&["ann"]), 6, &mut told);
    assert_eq!(
        told.list,
        vec![Effect::Notify(Notice::EpochForkDetected {
            group_id: "g".to_string(),
            local_epoch: Some(4),
        })]
    );
}

fn welcome() -> GroupMlsWelcomePayload {
    GroupMlsWelcomePayload {
        group_id: "g".to_string(),
        group_name: Some("team".to_string()),
        welcome_data: "d2VsY29tZQ==".to_string(),
        member_list: texts(&["bob", "ann"]),
        member_roles: vec![("bob".to_string(), GroupRole::Admin)],
        member_rich: vec![("bob".to_string(), vec![1]), ("eve".to_string(), vec![1])],
        created_by: Some("bob".to_string()),
    }
}

#[test]
fn a_welcome_is_taken_in_once_and_only_for_a_new_group() {
    let mut ann = node("ann");
    let mut effects = Effects::new();
    let w = Some(welcome());
    assert_eq!(ann.group_mesh.handle_group_mls_welcome("m0", &None, 1, &mut effects), None);
    assert!(!ann.group_mesh.was_seen("m0"));
    assert_eq!(
        ann.group_mesh.handle_group_mls_welcome("m1", &w, 1, &mut effects),
        Some(b"welcome".to_vec())
    );
    assert_eq!(ann.group_mesh.handle_group_mls_welcome("m1", &w, 1, &mut effects), None);
    ann.welcome_joined("bob", &welcome(), texts(&["bob", "ann"]), &mut effects);
    assert_eq!(
        effects.list,
        vec![
            Effect::RecordAttestedRich { user_id: "bob".to_string(), versions: vec![1] },
            Effect::SetMemberRole {
                group_id: "g".to_string(),
                user_id: "bob".to_string(),
                role: GroupRole::Admin,
            },
            Effect::SetGroupCreator { group_id: "g".to_string(), creator: "bob".to_string() },
            Effect::SendKeyPackage { user_id: "bob".to_string() },
            Effect::Notify(Notice::MemberAdded {
                group_id: "g".to_string(),
                user_id: "ann".to_string(),
                added_by: "bob".to_string(),
                group_name: Some("team".to_string()),
                authorized: None,
            }),
            Effect::DrainCommits { group_id: "g".to_string() },
            Effect::DrainMessages { group_id: "g".to_string() },
        ]
    );
    assert_eq!(ann.group_mesh.handle_group_mls_welcome("m2", &w, 1, &mut effects), None);
    assert!(ann.group_mesh.was_seen("m2"));
}

#[test]
fn a_forged_leaf_names_whoever_delivered_it() {
    let mut ann = node("ann");
    let mut effects = Effects::new();
    let forged = MlsError::LeafAddressMismatch("somebody".to_string());
    let c = commit(GroupCommitType::Add, Some("mal"));
    assert_eq!(
        ann.commit_failed(&c, "eve", &forged, true, 1, &mut effects),
        CommitOutcome::Rejected
    );
    let warning = Notice::LeafUnproven { peer_id: "eve".to_string() };
    assert_eq!(effects.list, vec![Effect::Notify(warning.clone())]);
    let mut declined = Effects::new();
    welcome_refused("eve", &forged, &mut declined);
    welcome_refused("eve", &MlsError::Storage("x".to_string()), &mut declined);
    assert_eq!(declined.list, vec![Effect::Notify(warning.clone())]);
    match warning.into_event() {
        Event::SecurityWarning { peer_id, reason_code, reason } => {
            assert_eq!(peer_id, "eve");
            assert_eq!(reason_code, SecurityWarningCode::GroupLeafIdentityUnproven);
            assert!(!reason.contains("somebody"));
        }
        _ => panic!("another event"),
    }
}
