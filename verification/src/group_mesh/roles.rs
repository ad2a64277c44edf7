//! Who may do what in a group: roles on record, the creator as a fallback, and
//! the rules that keep a group from losing its last admin.

use vstd::prelude::*;

use crate::error::{told, Error, ErrorView};
use crate::group_mesh::types::{
    GroupInfo, GroupInfoView, GroupMetadata, GroupMetadataView, GroupRole,
};
use crate::rosters::{in_order, lemma_sorted_exists};
use crate::text;
use crate::text::str_eq;

verus! {

/// Refusal of a removal by somebody who is no admin.
pub const REMOVE_NOT_ADMIN: &'static str = "Only admins can remove members";

/// Refusal of a removal that would leave the others without an admin.
pub const REMOVE_LAST_ADMIN: &'static str = "Cannot remove the last admin while other members remain. Promote another member to admin first.";

/// Refusal of the last admin's departure.
pub const LEAVE_LAST_ADMIN: &'static str = "Cannot leave group as the last admin while other members remain. Promote another member to admin first.";

/// Refusal of the last admin's demotion.
pub const DEMOTE_LAST_ADMIN: &'static str = "Cannot demote the last admin";

/// The role on record for `user`: the first entry counts, and whoever has none
/// is a plain member.
pub open spec fn role_of(roles: Seq<(Seq<char>, GroupRole)>, user: Seq<char>) -> GroupRole
    decreases roles.len(),
{
    if roles.len() == 0 {
        GroupRole::Member
    } else if roles[0].0 == user {
        roles[0].1
    } else {
        role_of(roles.drop_first(), user)
    }
}

/// How many admin roles are on record.
pub open spec fn admin_count(roles: Seq<(Seq<char>, GroupRole)>) -> nat
    decreases roles.len(),
{
    if roles.len() == 0 {
        0
    } else {
        admin_count(roles.drop_last()) + if roles.last().1 == GroupRole::Admin {
            1nat
        } else {
            0nat
        }
    }
}

/// Whether `user` counts as an admin: by role where any admin is on record,
/// otherwise as the creator. A group without either denies everybody.
pub open spec fn standing(metadata: Option<GroupMetadataView>, user: Seq<char>) -> bool {
    match metadata {
        Some(m) => if admin_count(m.roles) > 0 {
            role_of(m.roles, user) == GroupRole::Admin
        } else {
            m.created_by == Some(user)
        },
        None => false,
    }
}

/// Whether `user` is an admin, where that is known for certain.
pub open spec fn admin_hint(metadata: Option<GroupMetadataView>, user: Seq<char>) -> Option<bool> {
    match metadata {
        Some(m) => if admin_count(m.roles) > 0 {
            Some(role_of(m.roles, user) == GroupRole::Admin)
        } else {
            match m.created_by {
                Some(creator) => Some(creator == user),
                None => None,
            }
        },
        None => None,
    }
}

impl GroupMetadata {
    /// The role on record for `user`.
    pub fn get_role(&self, user: &str) -> (r: GroupRole)
        ensures
            r == role_of(self.deep_view().roles, user@),
    {
        let mut i: usize = 0;
        let ghost all = self.deep_view().roles;
        assert(all.skip(0) =~= all);
        while i < self.roles.len()
            invariant
                i <= self.roles@.len(),
                all == self.roles.deep_view(),
                role_of(all, user@) == role_of(all.skip(i as int), user@),
            decreases self.roles@.len() - i,
        {
            assert(all.skip(i as int)[0] == self.roles@[i as int].deep_view());
            if str_eq(self.roles[i].0.as_str(), user) {
                return self.roles[i].1;
            }
            assert(all.skip(i as int).drop_first() =~= all.skip(i + 1));
            i = i + 1;
        }
        GroupRole::Member
    }

    /// How many admin roles are on record.
    pub fn admins(&self) -> (n: usize)
        ensures
            n == admin_count(self.deep_view().roles),
    {
        let mut n: usize = 0;
        let mut i: usize = 0;
        let ghost all = self.deep_view().roles;
        assert(all.take(0) =~= Seq::empty());
        while i < self.roles.len()
            invariant
                i <= self.roles@.len(),
                n <= i,
                all == self.roles.deep_view(),
                n == admin_count(all.take(i as int)),
            decreases self.roles@.len() - i,
        {
            proof {
                assert(all.take(i + 1).drop_last() =~= all.take(i as int));
                assert(all.take(i + 1).last() == self.roles@[i as int].deep_view());
            }
            if self.roles[i].1 == GroupRole::Admin {
                n = n + 1;
            }
            i = i + 1;
        }
        assert(all.take(i as int) =~= all);
        n
    }

    /// Whether any admin role is on record.
    pub fn has_any_admin(&self) -> (r: bool)
        ensures
            r == (admin_count(self.deep_view().roles) > 0),
    {
        self.admins() > 0
    }
}

/// Whether `user` counts as an admin.
pub fn has_standing(metadata: &Option<GroupMetadata>, user: &str) -> (r: bool)
    ensures
        r == standing(metadata.deep_view(), user@),
{
    match metadata {
        Some(m) => {
            if m.has_any_admin() {
                m.get_role(user) == GroupRole::Admin
            } else {
                match &m.created_by {
                    Some(creator) => str_eq(creator.as_str(), user),
                    None => false,
                }
            }
        },
        None => false,
    }
}

/// Whether `user` is an admin, where that is known for certain.
pub fn hint_of(metadata: &Option<GroupMetadata>, user: &str) -> (r: Option<bool>)
    ensures
        r == admin_hint(metadata.deep_view(), user@),
{
    match metadata {
        Some(m) => {
            if m.has_any_admin() {
                Some(m.get_role(user) == GroupRole::Admin)
            } else {
                match &m.created_by {
                    Some(creator) => Some(str_eq(creator.as_str(), user)),
                    None => None,
                }
            }
        },
        None => None,
    }
}

/// What the MLS layer currently answers about one group: its role overlay and
/// its info, each a failure where the layer could not be asked.
#[derive(Debug, PartialEq, Eq)]
pub struct GroupReads {
    pub metadata: Result<Option<GroupMetadata>, Error>,
    pub info: Result<Option<GroupInfo>, Error>,
}

/// What [`GroupReads`] say.
pub struct GroupReadsView {
    pub metadata: Result<Option<GroupMetadataView>, ErrorView>,
    pub info: Result<Option<GroupInfoView>, ErrorView>,
}

impl DeepView for GroupReads {
    type V = GroupReadsView;

    open spec fn deep_view(&self) -> GroupReadsView {
        GroupReadsView { metadata: told(self.metadata), info: told(self.info) }
    }
}

/// The role overlay of a group. A group with neither overlay nor MLS state is
/// reported as missing, so that it is not misreported as a permissions failure.
pub open spec fn overlay(reads: GroupReadsView, group: Seq<char>) -> Result<
    Option<GroupMetadataView>,
    ErrorView,
> {
    match reads.metadata {
        Err(e) => Err(e),
        Ok(Some(m)) => Ok(Some(m)),
        Ok(None) => match reads.info {
            Err(e) => Err(e),
            Ok(Some(_)) => Ok(None),
            Ok(None) => Err(ErrorView::GroupNotFound(group)),
        },
    }
}

/// Whether `user` is an admin of the group, or why that cannot be told.
pub open spec fn is_admin(reads: GroupReadsView, group: Seq<char>, user: Seq<char>) -> Result<
    bool,
    ErrorView,
> {
    match overlay(reads, group) {
        Err(e) => Err(e),
        Ok(m) => Ok(standing(m, user)),
    }
}

/// Loads a group's role overlay.
pub fn group_metadata_or_not_found(reads: GroupReads, group_id: &str) -> (r: Result<
    Option<GroupMetadata>,
    Error,
>)
    ensures
        told(r) == overlay(reads.deep_view(), group_id@),
{
    match reads.metadata {
        Err(e) => Err(e),
        Ok(Some(m)) => Ok(Some(m)),
        Ok(None) => match reads.info {
            Err(e) => Err(e),
            Ok(Some(_)) => Ok(None),
            Ok(None) => Err(Error::GroupNotFound(group_id.to_owned())),
        },
    }
}

/// Checks whether a user is an admin of the group.
pub fn check_is_admin(reads: GroupReads, group_id: &str, user_id: &str) -> (r: Result<bool, Error>)
    ensures
        told(r) == is_admin(reads.deep_view(), group_id@, user_id@),
{
    match group_metadata_or_not_found(reads, group_id) {
        Err(e) => Err(e),
        Ok(m) => Ok(has_standing(&m, user_id)),
    }
}

/// Whether a removal is refused. The count of members is taken before the
/// removal: with two, the one who stays is promoted, so the removal goes ahead.
pub open spec fn removal_fault(
    metadata: Option<GroupMetadataView>,
    members: nat,
    remover: Seq<char>,
    member: Seq<char>,
) -> Option<ErrorView> {
    if !standing(metadata, remover) {
        Some(ErrorView::PermissionDenied(REMOVE_NOT_ADMIN@))
    } else if (metadata matches Some(m) && role_of(m.roles, member) == GroupRole::Admin
        && admin_count(m.roles) <= 1) && members > 2 {
        Some(ErrorView::InvalidState(REMOVE_LAST_ADMIN@))
    } else {
        None
    }
}

/// Whether a removal is refused.
pub fn check_removal(
    metadata: &Option<GroupMetadata>,
    members: usize,
    remover: &str,
    member: &str,
) -> (r: Result<(), Error>)
    ensures
        match r {
            Ok(()) => removal_fault(metadata.deep_view(), members as nat, remover@, member@) is None,
            Err(e) => removal_fault(metadata.deep_view(), members as nat, remover@, member@)
                == Some(e.deep_view()),
        },
{
    if !has_standing(metadata, remover) {
        return Err(Error::PermissionDenied(REMOVE_NOT_ADMIN.to_owned()));
    }
    if let Some(m) = metadata {
        if m.get_role(member) == GroupRole::Admin && m.admins() <= 1 && members > 2 {
            return Err(Error::InvalidState(REMOVE_LAST_ADMIN.to_owned()));
        }
    }
    Ok(())
}

/// Whether `user` is the last admin by role.
pub open spec fn last_admin(metadata: Option<GroupMetadataView>, user: Seq<char>) -> bool {
    metadata matches Some(m) && role_of(m.roles, user) == GroupRole::Admin && admin_count(m.roles)
        <= 1
}

/// Whether `user` is the last admin by role.
pub fn is_last_admin(metadata: &Option<GroupMetadata>, user: &str) -> (r: bool)
    ensures
        r == last_admin(metadata.deep_view(), user@),
{
    match metadata {
        Some(m) => m.get_role(user) == GroupRole::Admin && m.admins() <= 1,
        None => false,
    }
}

/// Who is promoted where no admin is left: the first member in text order, so
/// that every node promotes the same one.
pub open spec fn promotion(
    metadata: Result<Option<GroupMetadataView>, ErrorView>,
    members: Seq<Seq<char>>,
) -> Option<Seq<char>> {
    if members.len() == 0 {
        None
    } else {
        match metadata {
            Ok(Some(m)) => if admin_count(m.roles) > 0 {
                None
            } else {
                Some(text::sorted(members)[0])
            },
            _ => None,
        }
    }
}

/// Deterministically picks the member to promote where no admin role remains.
pub fn auto_promote_if_no_admin(
    metadata: &Result<Option<GroupMetadata>, Error>,
    members: &Vec<String>,
) -> (r: Option<String>)
    ensures
        r.deep_view() == promotion(told(*metadata), members.deep_view()),
{
    assert(members.deep_view().len() == members@.len());
    if members.len() == 0 {
        return None;
    }
    match metadata {
        Ok(Some(m)) => {
            if m.has_any_admin() {
                None
            } else {
                let sorted = in_order(members);
                proof {
                    lemma_sorted_exists(members.deep_view());
                }
                assert(sorted.deep_view()[0] == sorted@[0]@);
                Some(sorted[0].clone())
            }
        },
        _ => None,
    }
}

/// Whether `user` is certainly an admin of the group.
pub fn known_admin(reads: &GroupReads, group_id: &str, user_id: &str) -> (r: bool)
    ensures
        r == (is_admin(reads.deep_view(), group_id@, user_id@) == Ok::<bool, ErrorView>(true)),
{
    match &reads.metadata {
        Ok(m) => has_standing(m, user_id),
        Err(_) => false,
    }
}

/// The name on record for a group.
pub open spec fn name_in(reads: GroupReadsView) -> Option<Seq<char>> {
    match reads.metadata {
        Ok(Some(m)) => m.name,
        _ => None,
    }
}

} // verus!
