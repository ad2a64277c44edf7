use offline_protocol::config::ProtocolConfig;
use offline_protocol::error::Error;
use offline_protocol::group_mesh::commits::open_commit;
use offline_protocol::group_mesh::dated::SECOND;
use offline_protocol::group_mesh::effect::{Effect, Effects, Notice};
use offline_protocol::group_mesh::state::OfflineProtocol;
use offline_protocol::group_mesh::types::{
    EpochForkState, GroupCommitType, GroupInfo, GroupMlsLeavePayload, PendingLeaveElection,
};

fn texts(names: &[&str]) -> Vec<String> {
    names.iter().map(|n| n.to_string()).collect()
}

fn node(me: &str) -> OfflineProtocol {
    OfflineProtocol::new(me, &ProtocolConfig::new("app", me), true)
}

fn info(members: &[&str], epoch: u64) -> Result<Option<GroupInfo>, Error> {
    Ok(Some(GroupInfo { group_id: "g".to_string(), members: texts(members), epoch }))
}

fn leave(who: &str) -> Option<GroupMlsLeavePayload> {
    Some(GroupMlsLeavePayload { group_id: "g".to_string(), leaving_member: who.to_string() })
}

fn election(who: &str, at: u128) -> PendingLeaveElection {
    PendingLeaveElection {
        group_id: "g".to_string(),
        leaving_member: who.to_string(),
        received_at: at,
        last_attempt_at: None,
    }
}

#[test]
fn the_first_remaining_member_removes_the_leaver() {
    let members = info(&["dan", "bob", "ann", "cat"], 4);
    for me in ["ann", "bob", "cat", "dan"] {
        let mut someone = node(me);
        let mut effects = Effects::new();
        someone.handle_group_mls_leave("m", "ann", &leave("ann"), &members, 1, &mut effects);
        if me == "bob" {
            assert_eq!(
                effects.list,
                vec![Effect::RemoveMember { group_id: "g".to_string(), user_id: "ann".to_string() }]
            );
            assert_eq!(someone.group_mesh.pending_leave_elections.len(), 0);
        } else {
            assert_eq!(effects.list, Vec::new());
            assert_eq!(someone.group_mesh.pending_leave_elections, vec![election("ann", 1)]);
        }
    }
}

#[test]
fn a_leave_counts_only_from_the_member_itself() {
    let mut bob = node("bob");
    let mut effects = Effects::new();
    let members = info(&["ann", "bob"], 4);
    bob.handle_group_mls_leave("m1", "eve", &leave("ann"), &members, 1, &mut effects);
    bob.handle_group_mls_leave("m2", "eve", &leave("eve"), &members, 1, &mut effects);
    bob.handle_group_mls_leave("m3", "ann", &None, &members, 1, &mut effects);
    assert_eq!(effects.list, Vec::new());
    assert_eq!(bob.group_mesh.pending_leave_elections.len(), 0);
    bob.handle_group_mls_leave("m4", "ann", &leave("ann"), &members, 1, &mut effects);
    bob.handle_group_mls_leave("m4", "ann", &leave("ann"), &members, 1, &mut effects);
    assert_eq!(effects.list.len(), 1);
}

#[test]
fn elections_stay_within_their_cap() {
    let mut zoe = node("zoe");
    let mut effects = Effects::new();
    for i in 0..70u128 {
        let who = format!("m{:02}", i);
        let members = info(&["aaa", "zoe", &who], 4);
        let note = Some(GroupMlsLeavePayload { group_id: "g".to_string(), leaving_member: who.clone() });
        zoe.handle_group_mls_leave(&who, &who, &note, &members, i, &mut effects);
    }
    assert_eq!(zoe.group_mesh.pending_leave_elections.len(), 64);
    assert_eq!(zoe.group_mesh.pending_leave_elections[0].leaving_member, "m06");
}

fn takes_over(me: &str, seconds: u128) -> bool {
    let mut someone = node(me);
    someone.group_mesh.pending_leave_elections.push(election("ann", 0));
    someone.review_election("g", "ann", &info(&["dan", "bob", "ann", "cat"], 4), seconds * SECOND)
}

#[test]
fn the_next_member_takes_over_with_each_interval() {
    assert!(takes_over("bob", 29));
    assert!(!takes_over("bob", 30));
    assert!(takes_over("cat", 30));
    assert!(takes_over("cat", 59));
    assert!(takes_over("dan", 60));
    assert!(takes_over("dan", 299));
    assert!(!takes_over("cat", 60));
}

#[test]
fn an_attempt_is_not_repeated_at_once() {
    let mut cat = node("cat");
    cat.group_mesh.pending_leave_elections.push(election("ann", 0));
    let members = info(&["dan", "bob", "ann", "cat"], 4);
    assert!(cat.review_election("g", "ann", &members, 31 * SECOND));
    assert!(!cat.review_election("g", "ann", &members, 35 * SECOND));
    assert!(cat.review_election("g", "ann", &members, 36 * SECOND));
    cat.election_settled("g", "ann");
    assert_eq!(cat.group_mesh.pending_leave_elections.len(), 0);
    assert!(!cat.review_election("g", "ann", &members, 60 * SECOND));
}

#[test]
fn an_election_ends_with_the_leavers_departure_or_its_age() {
    let mut cat = node("cat");
    cat.group_mesh.pending_leave_elections.push(election("ann", 0));
    assert!(!cat.review_election("g", "ann", &info(&["bob", "cat"], 4), 31 * SECOND));
    assert_eq!(cat.group_mesh.pending_leave_elections.len(), 0);
    cat.group_mesh.pending_leave_elections.push(election("ann", 0));
    cat.group_mesh.pending_leave_elections.push(election("bob", 280 * SECOND));
    cat.group_mesh.pending_leave_elections.push(election("dan", 100 * SECOND));
    let mut effects = Effects::new();
    cat.check_leave_election_timeouts(301 * SECOND, &mut effects);
    assert_eq!(
        effects.list,
        vec![Effect::ReviewElection { group_id: "g".to_string(), user_id: "dan".to_string() }]
    );
    assert_eq!(cat.group_mesh.pending_leave_elections.len(), 2);
}

fn forked(me: &str) -> OfflineProtocol {
    let mut someone = node(me);
    let fork = EpochForkState { local_epoch: Some(4), detected_at: 0, resolution_attempted: false };
    let _ = someone.group_mesh.epoch_forks.insert("g".to_string(), fork);
    someone
}

#[test]
fn a_fork_is_left_alone_at_first() {
    let mut ann = forked("ann");
    let mut effects = Effects::new();
    ann.check_epoch_forks(30 * SECOND, &mut effects);
    assert_eq!(effects.list, Vec::new());
    ann.check_epoch_forks(31 * SECOND, &mut effects);
    assert_eq!(
        effects.list,
        vec![Effect::ResolveFork { group_id: "g".to_string(), local_epoch: Some(4) }]
    );
    ann.check_epoch_forks(300 * SECOND, &mut effects);
    assert_eq!(ann.group_mesh.epoch_forks.len(), 0);
}

#[test]
fn the_first_member_resolves_a_fork() {
    let mut bob = forked("bob");
    assert_eq!(bob.resolve_fork("g", Some(4), &info(&["bob", "ann"], 4)), None);
    assert!(bob.group_mesh.epoch_forks.get("g").unwrap().resolution_attempted);
    let mut ann = forked("ann");
    assert_eq!(
        ann.resolve_fork("g", Some(4), &info(&["bob", "ann"], 4)),
        Some(texts(&["bob", "ann"]))
    );
    ann.fork_resolution_postponed("g");
    assert!(!ann.group_mesh.epoch_forks.get("g").unwrap().resolution_attempted);
    let sent = ann.fork_commit("g", &texts(&["bob", "ann"]), &b"update".to_vec(), 5);
    assert_eq!(sent.commit.commit_type, GroupCommitType::KeyUpdate);
    assert_eq!(sent.recipients, texts(&["bob"]));
    assert_eq!(open_commit(&Some(sent.commit)), Some(b"update".to_vec()));
    let mut effects = Effects::new();
    ann.fork_resolved("g", 5, &texts(&["bob"]), &vec![false], &mut effects);
    assert_eq!(
        effects.list,
        vec![Effect::Notify(Notice::EpochForkResolved {
            group_id: "g".to_string(),
            resolved_epoch: 5,
            failed_members: texts(&["bob"]),
        })]
    );
    assert_eq!(ann.group_mesh.epoch_forks.len(), 0);
}

#[test]
fn a_fork_that_resolved_itself_is_dropped() {
    let mut ann = forked("ann");
    assert_eq!(ann.resolve_fork("g", Some(4), &info(&["ann"], 5)), None);
    assert_eq!(ann.group_mesh.epoch_forks.len(), 0);
}

#[test]
fn forks_stay_within_their_cap() {
    let mut ann = node("ann");
    let mut effects = Effects::new();
    for i in 0..40u128 {
        ann.group_mesh.flag_potential_epoch_fork(&format!("g{}", i), &Ok(None), i, &mut effects);
    }
    assert_eq!(ann.group_mesh.epoch_forks.len(), 32);
    assert!(!ann.group_mesh.epoch_forks.contains_key("g7"));
    assert!(ann.group_mesh.epoch_forks.contains_key("g8"));
    assert_eq!(effects.list.len(), 40);
}
