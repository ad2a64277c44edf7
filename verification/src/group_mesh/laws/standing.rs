//! Who is in charge of a group, and what is granted and refused to whom: every
//! refusal with its reason, and everything else let through.

use vstd::prelude::*;

use crate::assoc;
use crate::error::ErrorView;
use crate::group_mesh::administration::{
    no_member_text, rename_fault, rename_stored, role_fault, role_stored, RENAME_NOT_ADMIN,
    ROLE_NOT_ADMIN,
};
use crate::group_mesh::effect::{EffectView, GroupFrameView, NoticeView};
use crate::group_mesh::inbound::{rename_asked, role_change_asked};
use crate::group_mesh::membership::{
    full_text, invite_fault, leave_fault, refresh_result, stale_package_text, BLANK_NAME,
    INVITE_NOT_ADMIN,
};
use crate::group_mesh::relay::registration_hint;
use crate::group_mesh::roles::{
    admin_count, is_admin, name_in, overlay, promotion, removal_fault, role_of, GroupReadsView,
    DEMOTE_LAST_ADMIN, LEAVE_LAST_ADMIN, REMOVE_LAST_ADMIN, REMOVE_NOT_ADMIN,
};
use crate::group_mesh::state::{GroupSettings, MeshView};
use crate::group_mesh::trusted::white_space;
use crate::group_mesh::types::{
    GroupInfoView, GroupMetadataView, GroupRenamePayloadView, GroupRole, GroupRoleChangePayloadView,
};
use crate::message::MessagePriority;
use crate::rosters::{lemma_sorted_exists, lemma_without, without};
use crate::text::{lemma_text_order_total, sorted, text_at_most};

verus! {

/// The first entry for the user makes an admin of them.
pub open spec fn recorded_admin(roles: Seq<(Seq<char>, GroupRole)>, user: Seq<char>) -> bool {
    exists|i: int|
        0 <= i < roles.len() && #[trigger] roles[i] == (user, GroupRole::Admin) && (forall|j: int|
            0 <= j < i ==> (#[trigger] roles[j]).0 != user)
}

/// Some entry makes somebody an admin.
pub open spec fn any_admin(roles: Seq<(Seq<char>, GroupRole)>) -> bool {
    exists|i: int| 0 <= i < roles.len() && (#[trigger] roles[i]).1 == GroupRole::Admin
}

/// At least two entries make somebody an admin.
pub open spec fn two_admins(roles: Seq<(Seq<char>, GroupRole)>) -> bool {
    exists|i: int, j: int|
        0 <= i < j < roles.len() && (#[trigger] roles[i]).1 == GroupRole::Admin && (
        #[trigger] roles[j]).1 == GroupRole::Admin
}

/// The user may administer the group: they are on record as an admin, or nobody
/// is and they made the group.
pub open spec fn in_charge(metadata: GroupMetadataView, user: Seq<char>) -> bool {
    if any_admin(metadata.roles) {
        recorded_admin(metadata.roles, user)
    } else {
        metadata.created_by == Some(user)
    }
}

/// The user is the one admin on record.
pub open spec fn only_admin(metadata: GroupMetadataView, user: Seq<char>) -> bool {
    recorded_admin(metadata.roles, user) && !two_admins(metadata.roles)
}

/// A role is what the first entry for the user says.
pub proof fn a_role_is_the_first_recorded(roles: Seq<(Seq<char>, GroupRole)>, user: Seq<char>)
    ensures
        role_of(roles, user) == GroupRole::Admin <==> recorded_admin(roles, user),
    decreases roles.len(),
{
    if roles.len() > 0 {
        let rest = roles.drop_first();
        a_role_is_the_first_recorded(rest, user);
        if roles[0] == (user, GroupRole::Admin) {
            assert(recorded_admin(roles, user));
        } else if roles[0].0 != user {
            if recorded_admin(rest, user) {
                let i = choose|i: int|
                    0 <= i < rest.len() && #[trigger] rest[i] == (user, GroupRole::Admin) && (forall|
                        j: int,
                    |
                        0 <= j < i ==> (#[trigger] rest[j]).0 != user);
                assert(roles[i + 1] == (user, GroupRole::Admin));
                assert forall|j: int| 0 <= j < i + 1 implies (#[trigger] roles[j]).0 != user by {
                    if j > 0 {
                        assert(rest[j - 1].0 != user);
                    }
                }
            }
            if recorded_admin(roles, user) {
                let i = choose|i: int|
                    0 <= i < roles.len() && #[trigger] roles[i] == (user, GroupRole::Admin) && (
                    forall|j: int| 0 <= j < i ==> (#[trigger] roles[j]).0 != user);
                assert(rest[i - 1] == (user, GroupRole::Admin));
                assert forall|j: int| 0 <= j < i - 1 implies (#[trigger] rest[j]).0 != user by {
                    assert(roles[j + 1].0 != user);
                }
            }
        }
    }
}

/// The count of admins tells whether there is one, and whether there are two.
pub proof fn admins_are_counted(roles: Seq<(Seq<char>, GroupRole)>)
    ensures
        admin_count(roles) >= 1 <==> any_admin(roles),
        admin_count(roles) >= 2 <==> two_admins(roles),
    decreases roles.len(),
{
    if roles.len() > 0 {
        let init = roles.drop_last();
        let last = roles.len() - 1;
        admins_are_counted(init);
        if any_admin(init) {
            let i = choose|i: int|
                0 <= i < init.len() && (#[trigger] init[i]).1 == GroupRole::Admin;
            assert(roles[i].1 == GroupRole::Admin);
            if roles[last].1 == GroupRole::Admin {
                assert(two_admins(roles));
            }
        }
        if two_admins(init) {
            let (i, j) = choose|i: int, j: int|
                0 <= i < j < init.len() && (#[trigger] init[i]).1 == GroupRole::Admin && (
                #[trigger] init[j]).1 == GroupRole::Admin;
            assert(roles[i].1 == GroupRole::Admin && roles[j].1 == GroupRole::Admin);
        }
        if roles[last].1 == GroupRole::Admin {
            assert(any_admin(roles));
        }
        if any_admin(roles) {
            let i = choose|i: int|
                0 <= i < roles.len() && (#[trigger] roles[i]).1 == GroupRole::Admin;
            if i < last {
                assert(init[i].1 == GroupRole::Admin);
            }
        }
        if two_admins(roles) {
            let (i, j) = choose|i: int, j: int|
                0 <= i < j < roles.len() && (#[trigger] roles[i]).1 == GroupRole::Admin && (
                #[trigger] roles[j]).1 == GroupRole::Admin;
            assert(init[i].1 == GroupRole::Admin);
            if j < last {
                assert(init[j].1 == GroupRole::Admin);
            }
        }
    }
}

/// Whether somebody is an admin is what the group's record says; a group without
/// a record has no admin, a group that is not there is missing, and a failed read
/// is no answer.
pub proof fn the_record_says_who_is_an_admin(
    reads: GroupReadsView,
    group: Seq<char>,
    user: Seq<char>,
)
    ensures
        is_admin(reads, group, user) == (match (reads.metadata, reads.info) {
            (Err(e), _) => Err::<bool, ErrorView>(e),
            (Ok(Some(m)), _) => Ok(in_charge(m, user)),
            (Ok(None), Err(e)) => Err(e),
            (Ok(None), Ok(Some(_))) => Ok(false),
            (Ok(None), Ok(None)) => Err(ErrorView::GroupNotFound(group)),
        }),
{
    if let Ok(Some(m)) = reads.metadata {
        admins_are_counted(m.roles);
        a_role_is_the_first_recorded(m.roles, user);
    }
}

/// An admin sets the role of any member, but for demoting the only admin on
/// record; a stranger to the group gets no role, and nobody else sets one.
pub proof fn an_admin_sets_roles(
    me: Seq<char>,
    group: Seq<char>,
    target: Seq<char>,
    role: GroupRole,
    members: Seq<Seq<char>>,
    reads: GroupReadsView,
    metadata: GroupMetadataView,
)
    requires
        reads.metadata == Ok::<Option<GroupMetadataView>, ErrorView>(Some(metadata)),
    ensures
        role_fault(me, group, target, role, members, reads) == (if !in_charge(metadata, me) {
            Some(ErrorView::PermissionDenied(ROLE_NOT_ADMIN@))
        } else if !members.contains(target) {
            Some(ErrorView::InvalidState(no_member_text(target, group)))
        } else if role == GroupRole::Member && only_admin(metadata, target) {
            Some(ErrorView::InvalidState(DEMOTE_LAST_ADMIN@))
        } else {
            None
        }),
        in_charge(metadata, me) && members.contains(target) && (role == GroupRole::Admin
            || !recorded_admin(metadata.roles, target) || two_admins(metadata.roles))
            ==> role_fault(me, group, target, role, members, reads) is None,
{
    the_record_says_who_is_an_admin(reads, group, me);
    admins_are_counted(metadata.roles);
    a_role_is_the_first_recorded(metadata.roles, target);
}

/// An admin renames a group to anything but whitespace, and nobody else does.
pub proof fn an_admin_renames(
    me: Seq<char>,
    group: Seq<char>,
    name: Seq<char>,
    reads: GroupReadsView,
    metadata: GroupMetadataView,
)
    requires
        reads.metadata == Ok::<Option<GroupMetadataView>, ErrorView>(Some(metadata)),
    ensures
        rename_fault(me, group, name, reads) == (if forall|i: int|
            0 <= i < name.len() ==> white_space(#[trigger] name[i]) {
            Some(ErrorView::InvalidArgument(BLANK_NAME@))
        } else if !in_charge(metadata, me) {
            Some(ErrorView::PermissionDenied(RENAME_NOT_ADMIN@))
        } else {
            None
        }),
{
    the_record_says_who_is_an_admin(reads, group, me);
}

/// An admin removes anybody, but for the only admin on record of a group of more
/// than two; nobody else removes, and a group without a record has nobody who
/// does.
pub proof fn an_admin_removes(
    metadata: Option<GroupMetadataView>,
    members: nat,
    remover: Seq<char>,
    member: Seq<char>,
)
    ensures
        removal_fault(metadata, members, remover, member) == (match metadata {
            None => Some(ErrorView::PermissionDenied(REMOVE_NOT_ADMIN@)),
            Some(m) => if !in_charge(m, remover) {
                Some(ErrorView::PermissionDenied(REMOVE_NOT_ADMIN@))
            } else if only_admin(m, member) && members > 2 {
                Some(ErrorView::InvalidState(REMOVE_LAST_ADMIN@))
            } else {
                None
            },
        }),
{
    if let Some(m) = metadata {
        admins_are_counted(m.roles);
        a_role_is_the_first_recorded(m.roles, remover);
        a_role_is_the_first_recorded(m.roles, member);
    }
}

/// Whoever is alone in a group leaves it, whatever the record says. With others
/// in it everybody leaves but the only admin on record.
pub proof fn everybody_but_the_only_admin_leaves(
    me: Seq<char>,
    members: Seq<Seq<char>>,
    metadata: Result<Option<GroupMetadataView>, ErrorView>,
)
    ensures
        leave_fault(me, members, metadata) == (if forall|n: Seq<char>| #[trigger]
            members.contains(n) ==> n == me {
            None
        } else {
            match metadata {
                Err(e) => Some(e),
                Ok(Some(m)) => if only_admin(m, me) {
                    Some(ErrorView::InvalidState(LEAVE_LAST_ADMIN@))
                } else {
                    None
                },
                Ok(None) => None,
            }
        }),
{
    let others = without(members, me);
    if others.len() > 0 {
        assert(others.contains(others[0]));
        lemma_without(members, me, others[0]);
    } else {
        assert forall|n: Seq<char>| #[trigger] members.contains(n) implies n == me by {
            lemma_without(members, me, n);
        }
    }
    if let Ok(Some(m)) = metadata {
        admins_are_counted(m.roles);
        a_role_is_the_first_recorded(m.roles, me);
    }
}

/// The roster that is cached counts; where none is, the one that MLS reads; and
/// where neither is there, nobody is known.
pub proof fn the_cached_roster_comes_first(
    mesh: MeshView,
    group: Seq<char>,
    info: Result<Option<GroupInfoView>, ErrorView>,
)
    ensures
        assoc::known(mesh.members, group) ==> mesh.cached_first(group, info) == assoc::at(
            mesh.members,
            group,
        ),
        !assoc::known(mesh.members, group) ==> mesh.cached_first(group, info) == match info {
            Ok(Some(i)) => i.members,
            _ => Seq::<Seq<char>>::empty(),
        },
        !assoc::known(mesh.members, group) ==> mesh.cached(group).len() == 0,
        assoc::known(mesh.members, group) ==> mesh.cached(group) == assoc::at(mesh.members, group),
{
}

/// An admin invites whoever can be reached into a group that has room for one
/// more, with a key package that has not expired. Each of these that fails is
/// named, the first of them where several do.
pub proof fn an_admin_invites(
    mesh: MeshView,
    settings: GroupSettings,
    me: Seq<char>,
    group: Seq<char>,
    invitee: Seq<char>,
    recipient: Option<ErrorView>,
    reads: GroupReadsView,
    package_expires_at_ms: Option<u64>,
    now_ms: u64,
    metadata: GroupMetadataView,
    members: Seq<Seq<char>>,
)
    requires
        reads.metadata == Ok::<Option<GroupMetadataView>, ErrorView>(Some(metadata)),
        members == (if assoc::known(mesh.members, group) {
            assoc::at(mesh.members, group)
        } else {
            match reads.info {
                Ok(Some(i)) => i.members,
                _ => Seq::empty(),
            }
        }),
    ensures
        invite_fault(
            mesh,
            settings,
            me,
            group,
            invitee,
            recipient,
            reads,
            package_expires_at_ms,
            now_ms,
        ) == (if recipient is Some {
            recipient
        } else if !in_charge(metadata, me) {
            Some(ErrorView::PermissionDenied(INVITE_NOT_ADMIN@))
        } else if members.len() + 1 > settings.max_group_members {
            Some(
                ErrorView::InvalidState(
                    full_text(members.len(), settings.max_group_members as nat),
                ),
            )
        } else if package_expires_at_ms is None {
            Some(ErrorView::NoKeyPackage(invitee))
        } else if package_expires_at_ms->0 <= now_ms {
            Some(ErrorView::InvalidState(stale_package_text(invitee)))
        } else {
            None
        }),
{
    the_record_says_who_is_an_admin(reads, group, me);
}

/// Where nobody is on record as an admin, the member who comes first in text
/// order is promoted; where somebody is, or the record cannot be read, nobody is.
pub proof fn the_first_member_is_promoted(
    metadata: Result<Option<GroupMetadataView>, ErrorView>,
    members: Seq<Seq<char>>,
    who: Seq<char>,
)
    ensures
        promotion(metadata, members) == Some(who) <==> {
            &&& metadata matches Ok(Some(m)) && !any_admin(m.roles)
            &&& members.contains(who)
            &&& forall|n: Seq<char>| #[trigger] members.contains(n) ==> text_at_most(who, n)
        },
{
    lemma_sorted_exists(members);
    let all = sorted(members);
    if let Ok(Some(m)) = metadata {
        admins_are_counted(m.roles);
    }
    if members.len() > 0 {
        assert(all.contains(all[0]));
        assert forall|n: Seq<char>| #[trigger] members.contains(n) implies text_at_most(
            all[0],
            n,
        ) by {
            assert(all.contains(n));
            let i = choose|i: int| 0 <= i < all.len() && all[i] == n;
            if i == 0 {
                lemma_text_order_total(n, n);
            } else {
                assert(text_at_most(all[0], all[i]));
            }
        }
        lemma_text_order_total(all[0], who);
    }
}

/// A role change or a new name that an admin sent is stored and announced as that
/// admin's; one that anybody else sent, or whose sender's standing cannot be read,
/// comes to nothing.
pub proof fn what_an_admin_sends_is_stored(
    sender: Seq<char>,
    role_change: GroupRoleChangePayloadView,
    rename: GroupRenamePayloadView,
    reads: GroupReadsView,
)
    ensures
        role_change_asked(sender, role_change, reads) == (if reads.metadata matches Ok(Some(m))
            && in_charge(m, sender) {
            seq![
                EffectView::SetMemberRole {
                    group_id: role_change.group_id,
                    user_id: role_change.target_user_id,
                    role: role_change.new_role,
                },
                EffectView::Notify(
                    NoticeView::RoleChanged {
                        group_id: role_change.group_id,
                        user_id: role_change.target_user_id,
                        new_role: role_change.new_role,
                        changed_by: sender,
                    },
                ),
            ]
        } else {
            Seq::empty()
        }),
        rename_asked(sender, rename, reads) == (if reads.metadata matches Ok(Some(m)) && in_charge(
            m,
            sender,
        ) {
            seq![
                EffectView::SetGroupName { group_id: rename.group_id, name: rename.new_name },
                EffectView::Notify(
                    NoticeView::Renamed {
                        group_id: rename.group_id,
                        new_name: rename.new_name,
                        old_name: reads.metadata->Ok_0->0.name,
                        renamed_by: sender,
                    },
                ),
            ]
        } else {
            Seq::empty()
        }),
{
    the_record_says_who_is_an_admin(reads, role_change.group_id, sender);
    the_record_says_who_is_an_admin(reads, rename.group_id, sender);
}

/// A registration tells the relay whether this node is an admin where the record
/// says so, and nothing where the record is missing, unreadable, or names neither
/// an admin nor a creator.
pub proof fn the_relay_is_told_what_the_record_says(
    reads: GroupReadsView,
    group: Seq<char>,
    me: Seq<char>,
)
    ensures
        registration_hint(reads, group, me) == (match reads.metadata {
            Ok(Some(m)) => if any_admin(m.roles) || m.created_by is Some {
                Some(in_charge(m, me))
            } else {
                None
            },
            _ => None,
        }),
{
    if let Ok(Some(m)) = reads.metadata {
        admins_are_counted(m.roles);
        a_role_is_the_first_recorded(m.roles, me);
    }
}

/// A record that is read is the group's; a group that MLS holds may have none; a
/// group that neither knows is missing, and a failed read is no record.
pub proof fn a_record_is_read_or_missing(reads: GroupReadsView, group: Seq<char>)
    ensures
        overlay(reads, group) == (match (reads.metadata, reads.info) {
            (Ok(Some(m)), _) => Ok::<Option<GroupMetadataView>, ErrorView>(Some(m)),
            (Ok(None), Ok(Some(_))) => Ok(None),
            (Ok(None), Ok(None)) => Err(ErrorView::GroupNotFound(group)),
            (Ok(None), Err(e)) => Err(e),
            (Err(e), _) => Err(e),
        }),
        name_in(reads) == (match reads.metadata {
            Ok(Some(m)) => m.name,
            _ => None,
        }),
{
}

/// A roster that MLS reads takes the place of the cached one, or is cached only
/// where none was, as the caller asks; a read that fails or finds nothing leaves
/// every roster as it was, and no other group's roster changes.
pub proof fn a_read_roster_is_cached(
    mesh: MeshView,
    group: Seq<char>,
    info: Result<Option<GroupInfoView>, ErrorView>,
    other: Seq<char>,
)
    requires
        mesh.wf(),
    ensures
        ({
            let next = mesh.refreshed(group, info);
            &&& assoc::lookup(next.members, other) == (match info {
                Ok(Some(i)) if other == group => Some(i.members),
                _ => assoc::lookup(mesh.members, other),
            })
            &&& next == (MeshView { members: next.members, ..mesh })
        }),
        ({
            let next = mesh.filled(group, info);
            &&& assoc::lookup(next.members, other) == (match info {
                Ok(Some(i)) if other == group && !assoc::known(mesh.members, group) => Some(
                    i.members,
                ),
                _ => assoc::lookup(mesh.members, other),
            })
            &&& next == (MeshView { members: next.members, ..mesh })
        }),
        refresh_result(group, info) == (match info {
            Ok(Some(i)) => Ok::<Seq<Seq<char>>, ErrorView>(i.members),
            Ok(None) => Err(ErrorView::GroupNotFound(group)),
            Err(e) => Err(e),
        }),
{
    if let Ok(Some(i)) = info {
        assoc::lemma_put(mesh.members, group, i.members);
    }
}

/// Everybody in a group but this node hears of a role that was set or a name that
/// was given, as this node's doing, and so does the application; a new name goes
/// to the relay too.
pub proof fn the_others_hear_of_a_change(
    me: Seq<char>,
    group: Seq<char>,
    target: Seq<char>,
    role: GroupRole,
    name: Seq<char>,
    old_name: Option<Seq<char>>,
    members: Seq<Seq<char>>,
    member: Seq<char>,
)
    ensures
        ({
            let all = role_stored(me, group, target, role, members);
            &&& all.len() == 2
            &&& all[0] matches EffectView::Send { recipients, frame, priority } && (
            recipients.contains(member) <==> members.contains(member) && member != me) && frame
                == GroupFrameView::RoleChange(
                GroupRoleChangePayloadView {
                    group_id: group,
                    target_user_id: target,
                    new_role: role,
                    changed_by: me,
                },
            ) && priority == MessagePriority::High
            &&& all[1] == EffectView::Notify(
                NoticeView::RoleChanged {
                    group_id: group,
                    user_id: target,
                    new_role: role,
                    changed_by: me,
                },
            )
        }),
        ({
            let all = rename_stored(me, group, name, old_name, members);
            &&& all.len() == 3
            &&& all[0] matches EffectView::Send { recipients, frame, priority } && (
            recipients.contains(member) <==> members.contains(member) && member != me) && frame
                == GroupFrameView::Rename(
                GroupRenamePayloadView { group_id: group, new_name: name, renamed_by: me },
            ) && priority == MessagePriority::High
            &&& all[1] == EffectView::Notify(
                NoticeView::Renamed { group_id: group, new_name: name, old_name, renamed_by: me },
            )
            &&& all[2] == EffectView::RegisterWithRelay {
                group_id: group,
                group_name: Some(name),
                members,
            }
        }),
{
    lemma_without(members, me, member);
}

/// Without a record nobody is granted anything: whoever invites, sets a role or
/// renames in a group that has none is refused as no admin, and a read that failed
/// is passed on.
pub proof fn without_a_record_nothing_is_granted(
    mesh: MeshView,
    settings: GroupSettings,
    me: Seq<char>,
    group: Seq<char>,
    other: Seq<char>,
    role: GroupRole,
    name: Seq<char>,
    members: Seq<Seq<char>>,
    package_expires_at_ms: Option<u64>,
    now_ms: u64,
    reads: GroupReadsView,
)
    requires
        !(reads.metadata matches Ok(Some(_))),
    ensures
        ({
            let asked = |denied: Seq<char>|
                match (reads.metadata, reads.info) {
                    (Err(e), _) => Some(e),
                    (_, Err(e)) => Some(e),
                    (_, Ok(None)) => Some(ErrorView::GroupNotFound(group)),
                    _ => Some(ErrorView::PermissionDenied(denied)),
                };
            &&& role_fault(me, group, other, role, members, reads) == asked(ROLE_NOT_ADMIN@)
            &&& invite_fault(
                mesh,
                settings,
                me,
                group,
                other,
                None,
                reads,
                package_expires_at_ms,
                now_ms,
            ) == asked(INVITE_NOT_ADMIN@)
            &&& !(forall|i: int| 0 <= i < name.len() ==> white_space(#[trigger] name[i]))
                ==> rename_fault(me, group, name, reads) == asked(RENAME_NOT_ADMIN@)
        }),
{
}

} // verus!
