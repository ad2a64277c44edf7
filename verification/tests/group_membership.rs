use offline_protocol::config::ProtocolConfig;
use offline_protocol::error::{Error, TransportError};
use offline_protocol::group_mesh::commits::{base64_decode, open_commit};
use offline_protocol::group_mesh::effect::{Effect, Effects, GroupFrame, Notice, SyncReason};
use offline_protocol::group_mesh::membership::{check_group_name, failed_recipients};
use offline_protocol::group_mesh::roles::GroupReads;
use offline_protocol::group_mesh::state::OfflineProtocol;
use offline_protocol::group_mesh::types::{
    GroupCommitType, GroupInfo, GroupMemberRemovedPayload, GroupMetadata, GroupMlsLeavePayload,
    GroupRole, PendingCommit,
};
use offline_protocol::message::MessagePriority;

fn texts(names: &[&str]) -> Vec<String> {
    names.iter().map(|n| n.to_string()).collect()
}

fn node(me: &str) -> OfflineProtocol {
    OfflineProtocol::new(me, &ProtocolConfig::new("app", me), true)
}

fn info(members: &[&str]) -> GroupInfo {
    GroupInfo { group_id: "g".to_string(), members: texts(members), epoch: 4 }
}

fn reads(admins: &[&str], members: &[&str]) -> GroupReads {
    GroupReads {
        metadata: Ok(Some(GroupMetadata {
            roles: admins.iter().map(|a| (a.to_string(), GroupRole::Admin)).collect(),
            created_by: Some("ann".to_string()),
            name: None,
        })),
        info: Ok(Some(info(members))),
    }
}

#[test]
fn a_group_name_is_not_blank() {
    let blank = Err(Error::InvalidArgument("Group name cannot be empty".to_string()));
    assert_eq!(check_group_name(""), blank);
    assert_eq!(check_group_name(" \t\n"), Err(Error::InvalidArgument("Group name cannot be empty".to_string())));
    assert_eq!(check_group_name("  team "), Ok(()));
    assert!(check_group_name("\u{3000}\u{a0}\u{2028}").is_err());
    assert_eq!(check_group_name("\u{200b}"), Ok(()));
}

#[test]
fn a_created_group_is_cached_announced_and_registered() {
    let mut ann = node("ann");
    let mut effects = Effects::new();
    let made = ann.create_group(" team ", Ok(info(&["ann"])), &mut effects);
    assert_eq!(made, Ok(info(&["ann"])));
    assert_eq!(ann.group_mesh.members.get("g"), Some(&texts(&["ann"])));
    assert_eq!(
        effects.list,
        vec![
            Effect::Notify(Notice::Created { group_id: "g".to_string(), name: " team ".to_string() }),
            Effect::RegisterWithRelay {
                group_id: "g".to_string(),
                group_name: Some(" team ".to_string()),
                members: texts(&["ann"]),
            },
        ]
    );
}

#[test]
fn a_group_without_a_name_is_not_created() {
    let mut ann = node("ann");
    let mut effects = Effects::new();
    assert_eq!(
        ann.create_group("  ", Ok(info(&["ann"])), &mut effects),
        Err(Error::InvalidArgument("Group name cannot be empty".to_string()))
    );
    assert_eq!(
        ann.create_group("team", Err(Error::MlsNotInitialized), &mut effects),
        Err(Error::MlsNotInitialized)
    );
    assert_eq!(effects.list, Vec::new());
    assert_eq!(ann.group_mesh.members.len(), 0);
}

fn invite(ann: &OfflineProtocol, r: GroupReads, expiry: Option<u64>, now: u64) -> (Result<(), Error>, Vec<Effect>) {
    let mut effects = Effects::new();
    let result = ann.invite_to_group("g", "bob", Ok(()), r, expiry, now, &mut effects);
    (result, effects.list)
}

#[test]
fn an_invite_is_refused_for_each_reason() {
    let mut ann = node("ann");
    let mut effects = Effects::new();
    assert_eq!(
        ann.invite_to_group(
            "g",
            "bad",
            Err(Error::InvalidArgument("recipient".to_string())),
            reads(&["ann"], &["ann"]),
            Some(10),
            5,
            &mut effects
        ),
        Err(Error::InvalidArgument("recipient".to_string()))
    );
    assert_eq!(
        invite(&ann, reads(&["cat"], &["ann"]), Some(10), 5),
        (Err(Error::PermissionDenied("Only admins can invite members".to_string())), Vec::new())
    );
    assert_eq!(
        invite(&ann, GroupReads { metadata: Ok(None), info: Ok(None) }, Some(10), 5),
        (Err(Error::GroupNotFound("g".to_string())), Vec::new())
    );
    assert_eq!(
        invite(&ann, reads(&["ann"], &["ann"]), None, 5),
        (Err(Error::NoKeyPackage("bob".to_string())), Vec::new())
    );
    assert_eq!(
        invite(&ann, reads(&["ann"], &["ann"]), Some(10), 10),
        (
            Err(Error::InvalidState("Key package for bob has expired".to_string())),
            vec![Effect::ForgetKeyPackage { user_id: "bob".to_string() }]
        )
    );
    assert_eq!(invite(&ann, reads(&["ann"], &["ann"]), Some(10), 9), (Ok(()), Vec::new()));
    ann.settings.max_group_members = 2;
    assert_eq!(
        invite(&ann, reads(&["ann"], &["ann", "cat"]), Some(10), 5),
        (
            Err(Error::InvalidState("Group has 2 members, cannot exceed 2 limit".to_string())),
            Vec::new()
        )
    );
}

#[test]
fn an_added_invitee_uses_up_the_key_package() {
    let mut ann = node("ann");
    let mut effects = Effects::new();
    assert_eq!(
        ann.invitee_added("g", "bob", Ok(Some(info(&["ann", "bob"]))), &mut effects),
        Ok(texts(&["ann", "bob"]))
    );
    assert_eq!(
        effects.list,
        vec![
            Effect::ConsumeKeyPackage { user_id: "bob".to_string() },
            Effect::SendKeyPackage { user_id: "bob".to_string() },
            Effect::SetMemberRole {
                group_id: "g".to_string(),
                user_id: "bob".to_string(),
                role: GroupRole::Member,
            },
        ]
    );
    let mut failed = Effects::new();
    assert_eq!(
        ann.invitee_added("h", "bob", Ok(None), &mut failed),
        Err(Error::GroupNotFound("h".to_string()))
    );
    assert_eq!(failed.list.len(), 2);
}

#[test]
fn the_frames_of_an_invite_carry_what_mls_made() {
    let ann = node("ann");
    let m = Some(GroupMetadata {
        roles: vec![("ann".to_string(), GroupRole::Admin)],
        created_by: Some("ann".to_string()),
        name: None,
    });
    let frames = ann.invite_frames(
        "g",
        "bob",
        &texts(&["ann", "bob", "cat", "dan"]),
        &m,
        &Some("team".to_string()),
        &b"welcome".to_vec(),
        &b"commit".to_vec(),
        5,
        Some(vec![1]),
        &vec![None, Some(vec![9]), None, Some(vec![1, 2])],
    );
    assert_eq!(frames.recipients, texts(&["cat", "dan"]));
    assert_eq!(frames.welcome.welcome_data, "d2VsY29tZQ==");
    assert_eq!(base64_decode(&frames.welcome.welcome_data), Some(b"welcome".to_vec()));
    assert_eq!(frames.welcome.member_list, texts(&["ann", "bob", "cat", "dan"]));
    assert_eq!(frames.welcome.member_roles, vec![("ann".to_string(), GroupRole::Admin)]);
    assert_eq!(
        frames.welcome.member_rich,
        vec![("ann".to_string(), vec![1]), ("dan".to_string(), vec![1, 2])]
    );
    assert_eq!(frames.welcome.created_by, Some("ann".to_string()));
    assert_eq!(frames.welcome.group_name, Some("team".to_string()));
    assert_eq!(frames.commit.commit_type, GroupCommitType::Add);
    assert_eq!(frames.commit.affected_member, Some("bob".to_string()));
    assert_eq!(frames.commit.role, Some(GroupRole::Member));
    assert_eq!(frames.commit.affected_member_rich, Some(vec![1]));
    assert_eq!(frames.commit.epoch, 5);
    assert_eq!(open_commit(&Some(frames.commit)), Some(b"commit".to_vec()));
    let mut effects = Effects::new();
    ann.invite_finished("g", "bob", &texts(&["ann", "bob"]), &mut effects);
    assert_eq!(
        effects.list[0],
        Effect::Notify(Notice::MemberAdded {
            group_id: "g".to_string(),
            user_id: "bob".to_string(),
            added_by: "ann".to_string(),
            group_name: None,
            authorized: Some(true),
        })
    );
    assert_eq!(effects.list.len(), 2);
}

#[test]
fn a_removal_is_checked_against_the_cached_members() {
    let mut ann = node("ann");
    assert_eq!(
        ann.remove_from_group("g", "bob", reads(&["bob"], &["ann"])),
        Err(Error::PermissionDenied("Only admins can remove members".to_string()))
    );
    assert_eq!(ann.remove_from_group("g", "ann", reads(&["ann"], &["ann", "bob", "cat"])), Ok(()));
    let mut effects = Effects::new();
    let _ = ann.create_group("team", Ok(info(&["ann", "bob", "cat"])), &mut effects);
    assert_eq!(
        ann.remove_from_group("g", "ann", reads(&["ann"], &["ann", "bob", "cat"])),
        Err(Error::InvalidState(
            "Cannot remove the last admin while other members remain. Promote another member to admin first."
                .to_string()
        ))
    );
    assert_eq!(ann.remove_from_group("g", "bob", reads(&["ann"], &["ann", "bob", "cat"])), Ok(()));
    assert_eq!(
        ann.remove_from_group("g", "bob", GroupReads { metadata: Ok(None), info: Ok(None) }),
        Err(Error::GroupNotFound("g".to_string()))
    );
}

#[test]
fn a_removed_member_is_told_directly() {
    let mut ann = node("ann");
    let mut effects = Effects::new();
    let frames = ann
        .member_removed("g", "bob", Ok(Some(info(&["ann", "cat"]))), &b"commit".to_vec(), 6, &mut effects)
        .unwrap();
    assert_eq!(frames.members, texts(&["ann", "cat"]));
    assert_eq!(frames.recipients, texts(&["cat"]));
    assert_eq!(frames.commit.commit_type, GroupCommitType::Remove);
    assert_eq!(frames.commit.affected_member, Some("bob".to_string()));
    assert_eq!(frames.commit.role, None);
    assert_eq!(
        effects.list,
        vec![
            Effect::RemoveMemberRole { group_id: "g".to_string(), user_id: "bob".to_string() },
            Effect::AutoPromote { group_id: "g".to_string(), members: texts(&["ann", "cat"]) },
        ]
    );
    let mut rest = Effects::new();
    ann.removal_finished("g", "bob", &frames.members, &mut rest);
    assert_eq!(
        rest.list[0],
        Effect::Send {
            recipients: texts(&["bob"]),
            frame: GroupFrame::MemberRemoved(GroupMemberRemovedPayload {
                group_id: "g".to_string(),
                user_id: "bob".to_string(),
                removed_by: "ann".to_string(),
            }),
            priority: MessagePriority::High,
        }
    );
    assert_eq!(rest.list.len(), 3);
    let mut none = Effects::new();
    assert_eq!(
        ann.member_removed("h", "bob", Err(Error::MlsNotInitialized), &Vec::new(), 0, &mut none),
        Err(Error::MlsNotInitialized)
    );
    assert_eq!(none.list, Vec::new());
}

#[test]
fn the_last_admin_stays_while_others_remain() {
    let mut ann = node("ann");
    assert_eq!(
        ann.leave_group("g", reads(&["ann"], &["ann", "bob"])),
        Err(Error::InvalidState(
            "Cannot leave group as the last admin while other members remain. Promote another member to admin first."
                .to_string()
        ))
    );
    let mut bob = node("bob");
    let frames = bob.leave_group("g", reads(&["ann"], &["ann", "bob"])).unwrap();
    assert_eq!(
        frames.leave,
        GroupMlsLeavePayload { group_id: "g".to_string(), leaving_member: "bob".to_string() }
    );
    assert_eq!(frames.recipients, texts(&["ann"]));
    let mut alone = node("ann");
    assert!(alone.leave_group("g", reads(&["ann"], &["ann"])).is_ok());
    let unread = GroupReads { metadata: Err(Error::MlsNotInitialized), info: Ok(Some(info(&["ann", "bob"]))) };
    let mut cat = node("cat");
    assert_eq!(cat.leave_group("g", unread), Err(Error::MlsNotInitialized));
}

#[test]
fn a_leave_that_nobody_heard_is_an_error() {
    assert_eq!(OfflineProtocol::leave_announced(&Vec::new(), &Vec::new()), Ok(()));
    assert_eq!(OfflineProtocol::leave_announced(&texts(&["a", "b"]), &vec![false, true]), Ok(()));
    assert_eq!(
        OfflineProtocol::leave_announced(&texts(&["a", "b"]), &vec![false, false]),
        Err(Error::Transport(TransportError::SendFailed(
            "All leave notifications failed — local state preserved for retry".to_string()
        )))
    );
}

#[test]
fn a_left_group_leaves_nothing_behind() {
    let mut ann = node("ann");
    let mut effects = Effects::new();
    let _ = ann.create_group("team", Ok(info(&["ann"])), &mut effects);
    let _ = ann.relay_registration_sent("g", true, 0);
    let _ = ann.group_mesh.pending_commits.insert(
        "g".to_string(),
        vec![PendingCommit {
            sender: "bob".to_string(),
            message_id: "m".to_string(),
            data: "d".to_string(),
            buffered_at: 0,
            retry_count: 0,
        }],
    );
    let mut left = Effects::new();
    ann.group_left("g", &mut left);
    assert_eq!(
        left.list,
        vec![Effect::Notify(Notice::RelayUnsynced {
            group_id: "g".to_string(),
            reason: SyncReason::Left,
        })]
    );
    assert_eq!(ann.group_mesh.members.len(), 0);
    assert_eq!(ann.group_mesh.pending_commits.len(), 0);
    assert_eq!(ann.group_mesh.relay_register_pending.len(), 0);
    let mut again = Effects::new();
    ann.group_left("g", &mut again);
    assert_eq!(again.list, Vec::new());
}

#[test]
fn recipients_without_a_confirmed_send_have_failed() {
    assert_eq!(failed_recipients(&texts(&["a", "b", "c"]), &vec![true, false]), texts(&["b", "c"]));
    assert_eq!(failed_recipients(&texts(&["a"]), &vec![true]), Vec::<String>::new());
}

#[test]
fn an_oversized_payload_is_not_decoded() {
    assert_eq!(base64_decode("aGk="), Some(b"hi".to_vec()));
    assert_eq!(base64_decode("not base64!"), None);
    assert_eq!(base64_decode(&"A".repeat(1_048_576)).map(|b| b.len()), Some(786_432));
    assert_eq!(base64_decode(&"A".repeat(1_048_580)), None);
    assert_eq!(open_commit(&None), None);
}
