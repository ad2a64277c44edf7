use offline_protocol::config::ProtocolConfig;
use offline_protocol::error::Error;
use offline_protocol::group_mesh::effect::{Effect, Effects, GroupFrame, Notice};
use offline_protocol::group_mesh::roles::{
    auto_promote_if_no_admin, check_is_admin, check_removal, group_metadata_or_not_found, hint_of,
    is_last_admin, GroupReads,
};
use offline_protocol::group_mesh::state::OfflineProtocol;
use offline_protocol::group_mesh::types::{
    GroupInfo, GroupMetadata, GroupRenamePayload, GroupRole, GroupRoleChangePayload,
};
use offline_protocol::message::MessagePriority;

fn texts(names: &[&str]) -> Vec<String> {
    names.iter().map(|n| n.to_string()).collect()
}

fn node(me: &str) -> OfflineProtocol {
    OfflineProtocol::new(me, &ProtocolConfig::new("app", me), true)
}

fn metadata(roles: &[(&str, GroupRole)], creator: Option<&str>) -> GroupMetadata {
    GroupMetadata {
        roles: roles.iter().map(|(u, r)| (u.to_string(), *r)).collect(),
        created_by: creator.map(|c| c.to_string()),
        name: Some("old name".to_string()),
    }
}

fn info(members: &[&str]) -> GroupInfo {
    GroupInfo { group_id: "g".to_string(), members: texts(members), epoch: 4 }
}

fn reads(m: Option<GroupMetadata>, members: &[&str]) -> GroupReads {
    GroupReads { metadata: Ok(m), info: Ok(Some(info(members))) }
}

fn missing() -> GroupReads {
    GroupReads { metadata: Ok(None), info: Ok(None) }
}

#[test]
fn the_first_role_on_record_counts() {
    let m = metadata(&[("ann", GroupRole::Admin), ("ann", GroupRole::Member)], None);
    assert_eq!(m.get_role("ann"), GroupRole::Admin);
    assert_eq!(m.get_role("bob"), GroupRole::Member);
    assert_eq!(m.admins(), 1);
    assert!(m.has_any_admin());
}

#[test]
fn the_creator_counts_only_without_admins() {
    let alone = metadata(&[("bob", GroupRole::Member)], Some("ann"));
    assert_eq!(check_is_admin(reads(Some(alone.clone()), &["ann"]), "g", "ann"), Ok(true));
    assert_eq!(check_is_admin(reads(Some(alone), &["ann"]), "g", "bob"), Ok(false));
    let ruled = metadata(&[("bob", GroupRole::Admin)], Some("ann"));
    assert_eq!(check_is_admin(reads(Some(ruled.clone()), &["ann"]), "g", "ann"), Ok(false));
    assert_eq!(check_is_admin(reads(Some(ruled), &["ann"]), "g", "bob"), Ok(true));
    let nobody = metadata(&[], None);
    assert_eq!(check_is_admin(reads(Some(nobody), &["ann"]), "g", "ann"), Ok(false));
    assert_eq!(check_is_admin(reads(None, &["ann"]), "g", "ann"), Ok(false));
}

#[test]
fn a_missing_group_is_not_found() {
    let gone = Err(Error::GroupNotFound("g".to_string()));
    assert_eq!(group_metadata_or_not_found(missing(), "g"), gone);
    assert_eq!(check_is_admin(missing(), "g", "ann"), Err(Error::GroupNotFound("g".to_string())));
    let failed = GroupReads { metadata: Err(Error::MlsNotInitialized), info: Ok(None) };
    assert_eq!(check_is_admin(failed, "g", "ann"), Err(Error::MlsNotInitialized));
    let half = GroupReads { metadata: Ok(None), info: Err(Error::Other("lock".to_string())) };
    assert_eq!(check_is_admin(half, "g", "ann"), Err(Error::Other("lock".to_string())));
}

#[test]
fn a_hint_is_given_only_where_it_is_certain() {
    assert_eq!(hint_of(&Some(metadata(&[("ann", GroupRole::Admin)], None)), "ann"), Some(true));
    assert_eq!(hint_of(&Some(metadata(&[("ann", GroupRole::Admin)], None)), "bob"), Some(false));
    assert_eq!(hint_of(&Some(metadata(&[], Some("ann"))), "ann"), Some(true));
    assert_eq!(hint_of(&Some(metadata(&[], None)), "ann"), None);
    assert_eq!(hint_of(&None, "ann"), None);
}

#[test]
fn the_last_admin_is_removed_only_from_a_pair() {
    let m = Some(metadata(&[("ann", GroupRole::Admin), ("bob", GroupRole::Member)], None));
    assert_eq!(
        check_removal(&m, 3, "bob", "ann"),
        Err(Error::PermissionDenied("Only admins can remove members".to_string()))
    );
    assert_eq!(
        check_removal(&m, 3, "ann", "ann"),
        Err(Error::InvalidState(
            "Cannot remove the last admin while other members remain. Promote another member to admin first."
                .to_string()
        ))
    );
    assert_eq!(check_removal(&m, 2, "ann", "ann"), Ok(()));
    assert_eq!(check_removal(&m, 3, "ann", "bob"), Ok(()));
    let two = Some(metadata(&[("ann", GroupRole::Admin), ("bob", GroupRole::Admin)], None));
    assert_eq!(check_removal(&two, 3, "ann", "bob"), Ok(()));
    assert!(is_last_admin(&m, "ann"));
    assert!(!is_last_admin(&two, "ann"));
    assert!(!is_last_admin(&m, "bob"));
}

#[test]
fn the_first_member_in_text_order_is_promoted() {
    let orphaned = Ok(Some(metadata(&[("ann", GroupRole::Member)], Some("zoe"))));
    assert_eq!(
        auto_promote_if_no_admin(&orphaned, &texts(&["zoe", "bob", "Cat", "ann"])),
        Some("Cat".to_string())
    );
    assert_eq!(auto_promote_if_no_admin(&orphaned, &Vec::new()), None);
    let ruled = Ok(Some(metadata(&[("bob", GroupRole::Admin)], None)));
    assert_eq!(auto_promote_if_no_admin(&ruled, &texts(&["ann"])), None);
    assert_eq!(auto_promote_if_no_admin(&Ok(None), &texts(&["ann"])), None);
    assert_eq!(
        auto_promote_if_no_admin(&Err(Error::MlsNotInitialized), &texts(&["ann"])),
        None
    );
}

#[test]
fn setting_a_role_takes_an_admin_and_a_member() {
    let mut ann = node("ann");
    let admin = metadata(&[("ann", GroupRole::Admin)], None);
    let members = &["ann", "bob"];
    assert_eq!(
        ann.set_member_role("g", "bob", GroupRole::Admin, reads(Some(metadata(&[], None)), members)),
        Err(Error::PermissionDenied("Only admins can change roles".to_string()))
    );
    assert_eq!(
        ann.set_member_role("g", "eve", GroupRole::Admin, reads(Some(admin.clone()), members)),
        Err(Error::InvalidState("User eve is not a member of group g".to_string()))
    );
    assert_eq!(
        ann.set_member_role("g", "ann", GroupRole::Member, reads(Some(admin.clone()), members)),
        Err(Error::InvalidState("Cannot demote the last admin".to_string()))
    );
    assert_eq!(
        ann.set_member_role("g", "bob", GroupRole::Admin, missing()),
        Err(Error::GroupNotFound("g".to_string()))
    );
    assert_eq!(
        ann.set_member_role("g", "bob", GroupRole::Admin, reads(Some(admin), members)),
        Ok(texts(members))
    );
    assert_eq!(ann.group_mesh.members.get("g"), Some(&texts(members)));
}

#[test]
fn a_stored_role_is_told_to_the_others() {
    let ann = node("ann");
    let mut effects = Effects::new();
    ann.member_role_set("g", "bob", GroupRole::Admin, &texts(&["ann", "bob", "cat"]), &mut effects);
    assert_eq!(
        effects.list,
        vec![
            Effect::Send {
                recipients: texts(&["bob", "cat"]),
                frame: GroupFrame::RoleChange(GroupRoleChangePayload {
                    group_id: "g".to_string(),
                    target_user_id: "bob".to_string(),
                    new_role: GroupRole::Admin,
                    changed_by: "ann".to_string(),
                }),
                priority: MessagePriority::High,
            },
            Effect::Notify(Notice::RoleChanged {
                group_id: "g".to_string(),
                user_id: "bob".to_string(),
                new_role: GroupRole::Admin,
                changed_by: "ann".to_string(),
            }),
        ]
    );
}

#[test]
fn roles_are_read_from_the_overlay() {
    let ann = node("ann");
    let m = metadata(&[("ann", GroupRole::Admin)], None);
    assert_eq!(ann.get_member_role("g", "ann", reads(Some(m.clone()), &[])), Ok(GroupRole::Admin));
    assert_eq!(ann.get_member_role("g", "ann", reads(None, &[])), Ok(GroupRole::Member));
    assert_eq!(
        ann.get_member_role("g", "ann", missing()),
        Err(Error::GroupNotFound("g".to_string()))
    );
    assert_eq!(
        ann.get_group_roles("g", reads(Some(m), &[])),
        Ok(vec![("ann".to_string(), GroupRole::Admin)])
    );
    assert_eq!(ann.get_group_roles("g", reads(None, &[])), Ok(Vec::new()));
    assert_eq!(
        ann.get_group_roles("g", missing()),
        Err(Error::GroupNotFound("g".to_string()))
    );
}

#[test]
fn renaming_takes_a_name_and_an_admin() {
    let ann = node("ann");
    let m = metadata(&[("ann", GroupRole::Admin)], None);
    assert_eq!(
        ann.rename_group("g", " \t ", reads(Some(m.clone()), &[])),
        Err(Error::InvalidArgument("Group name cannot be empty".to_string()))
    );
    assert_eq!(
        ann.rename_group("g", "new", reads(Some(metadata(&[], None)), &[])),
        Err(Error::PermissionDenied("Only admins can rename groups".to_string()))
    );
    assert_eq!(
        ann.rename_group("g", "new", missing()),
        Err(Error::GroupNotFound("g".to_string()))
    );
    assert_eq!(
        ann.rename_group("g", " new ", reads(Some(m), &[])),
        Ok(Some("old name".to_string()))
    );
}

#[test]
fn a_stored_name_is_told_to_the_others_and_the_relay() {
    let mut ann = node("ann");
    let mut effects = Effects::new();
    ann.group_name_set(
        "g",
        "new",
        Some("old".to_string()),
        &Ok(Some(info(&["bob", "ann"]))),
        &mut effects,
    );
    assert_eq!(
        effects.list,
        vec![
            Effect::Send {
                recipients: texts(&["bob"]),
                frame: GroupFrame::Rename(GroupRenamePayload {
                    group_id: "g".to_string(),
                    new_name: "new".to_string(),
                    renamed_by: "ann".to_string(),
                }),
                priority: MessagePriority::High,
            },
            Effect::Notify(Notice::Renamed {
                group_id: "g".to_string(),
                new_name: "new".to_string(),
                old_name: Some("old".to_string()),
                renamed_by: "ann".to_string(),
            }),
            Effect::RegisterWithRelay {
                group_id: "g".to_string(),
                group_name: Some("new".to_string()),
                members: texts(&["bob", "ann"]),
            },
        ]
    );
}

#[test]
fn a_role_change_counts_only_from_an_admin_and_once() {
    let mut ann = node("ann");
    let payload = Some(GroupRoleChangePayload {
        group_id: "g".to_string(),
        target_user_id: "cat".to_string(),
        new_role: GroupRole::Admin,
        changed_by: "somebody".to_string(),
    });
    let m = reads(Some(metadata(&[("bob", GroupRole::Admin)], None)), &[]);
    let mut effects = Effects::new();
    ann.group_mesh.handle_group_role_change("m0", "eve", &payload, &m, 1, &mut effects);
    assert_eq!(effects.list, Vec::new());
    ann.group_mesh.handle_group_role_change("m1", "bob", &payload, &m, 1, &mut effects);
    ann.group_mesh.handle_group_role_change("m1", "bob", &payload, &m, 1, &mut effects);
    ann.group_mesh.handle_group_role_change("m2", "bob", &None, &m, 1, &mut effects);
    assert_eq!(
        effects.list,
        vec![
            Effect::SetMemberRole {
                group_id: "g".to_string(),
                user_id: "cat".to_string(),
                role: GroupRole::Admin,
            },
            Effect::Notify(Notice::RoleChanged {
                group_id: "g".to_string(),
                user_id: "cat".to_string(),
                new_role: GroupRole::Admin,
                changed_by: "bob".to_string(),
            }),
        ]
    );
    assert!(ann.group_mesh.was_seen("m0"));
    assert!(!ann.group_mesh.was_seen("m2"));
}

#[test]
fn a_rename_from_another_counts_only_from_an_admin() {
    let mut ann = node("ann");
    let payload = Some(GroupRenamePayload {
        group_id: "g".to_string(),
        new_name: "new".to_string(),
        renamed_by: "somebody".to_string(),
    });
    let m = reads(Some(metadata(&[("bob", GroupRole::Admin)], None)), &[]);
    let mut effects = Effects::new();
    ann.group_mesh.handle_group_rename("m0", "eve", &payload, &m, 1, &mut effects);
    assert_eq!(effects.list, Vec::new());
    ann.group_mesh.handle_group_rename("m1", "bob", &payload, &m, 1, &mut effects);
    assert_eq!(
        effects.list,
        vec![
            Effect::SetGroupName { group_id: "g".to_string(), name: "new".to_string() },
            Effect::Notify(Notice::Renamed {
                group_id: "g".to_string(),
                new_name: "new".to_string(),
                old_name: Some("old name".to_string()),
                renamed_by: "bob".to_string(),
            }),
        ]
    );
}

#[test]
fn groups_and_their_info_are_passed_on() {
    let ann = node("ann");
    assert_eq!(ann.list_groups(Ok(texts(&["g"]))), Ok(texts(&["g"])));
    assert_eq!(ann.list_groups(Err(Error::MlsNotInitialized)), Err(Error::MlsNotInitialized));
    assert_eq!(ann.get_group_info(Ok(Some(info(&["ann"])))), Ok(Some(info(&["ann"]))));
}
