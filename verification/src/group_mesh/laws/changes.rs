//! What a commit does to a group: who is announced, what is stored of them, which
//! changes stand as authorized, and what becomes of a commit that MLS refused.

use vstd::prelude::*;

use crate::assoc;
use crate::error::{ErrorView, MlsError};
use crate::group_mesh::commits::{
    arrival, arrivals, claim_fits, delta, departures, elections_settled, elections_without,
    refused_outcome, CommitOutcomeView,
};
use crate::group_mesh::dated::SECOND;
use crate::group_mesh::effect::{ChangeReason, EffectView, NoticeView, SyncReason};
use crate::group_mesh::limits::UNAUTHORIZED_REPORT_SUPPRESS_SECS;
use crate::group_mesh::reports::{concerns, recent, suppressed};
use crate::group_mesh::state::MeshView;
use crate::group_mesh::types::{
    GroupCommitType, GroupInfoView, GroupMlsCommitPayloadView, PendingLeaveElectionView,
    UnauthorizedReportView,
};
use crate::rosters::{difference, lemma_once, lemma_sorted_exists, lemma_unlisted, once, unlisted};
use crate::text::ascending;

verus! {

/// A list names whoever is in one roster and not in another: nobody else, nobody
/// twice, and in text order.
pub open spec fn names_the_rest(
    list: Seq<Seq<char>>,
    of: Seq<Seq<char>>,
    but: Seq<Seq<char>>,
) -> bool {
    &&& forall|n: Seq<char>| #[trigger] list.contains(n) <==> of.contains(n) && !but.contains(n)
    &&& list.no_duplicates()
    &&& ascending(list)
}

/// Somebody is in one of the rosters and not in the other.
pub open spec fn rosters_differ(was: Seq<Seq<char>>, are: Seq<Seq<char>>) -> bool {
    exists|n: Seq<char>| #[trigger] was.contains(n) != are.contains(n)
}

/// Whoever sent the commit may have made the change, and the change is the one
/// that the commit claims to make: a commit that says it adds a member added that
/// member, and one that says it removes a member removed that member.
pub open spec fn change_stands(
    payload: GroupMlsCommitPayloadView,
    was: Seq<Seq<char>>,
    are: Seq<Seq<char>>,
    sender_is_admin: bool,
) -> bool {
    &&& sender_is_admin
    &&& payload.affected_member matches Some(m) ==> match payload.commit_type {
        GroupCommitType::Add => are.contains(m) && !was.contains(m),
        GroupCommitType::Remove => was.contains(m) && !are.contains(m),
        GroupCommitType::KeyUpdate => true,
    }
}

/// A report of this committer's applied changes to this group went out within the
/// window that suppresses another.
pub open spec fn told_lately(
    reports: Seq<UnauthorizedReportView>,
    group: Seq<char>,
    committer: Seq<char>,
    enforced: bool,
    now: u128,
) -> bool {
    exists|i: int|
        0 <= i < reports.len() && (#[trigger] reports[i]).group_id == group && reports[i].committer
            == committer && reports[i].enforced == enforced && now < reports[i].reported_at
            + UNAUTHORIZED_REPORT_SUPPRESS_SECS * SECOND
}

/// The rosters that two reads show: a group that was not there had no members.
pub open spec fn rosters_read(
    before: Result<Option<GroupInfoView>, ErrorView>,
    after: Result<Option<GroupInfoView>, ErrorView>,
    was: Seq<Seq<char>>,
    are: Seq<Seq<char>>,
) -> bool {
    &&& match before {
        Ok(Some(info)) => was == info.members,
        Ok(None) => was.len() == 0,
        Err(_) => false,
    }
    &&& after matches Ok(Some(info)) && are == info.members
}

/// A merged commit is to have this effect, given the rosters before and after it.
pub open spec fn commit_asks(
    reports: Seq<UnauthorizedReportView>,
    payload: GroupMlsCommitPayloadView,
    sender: Seq<char>,
    was: Seq<Seq<char>>,
    are: Seq<Seq<char>>,
    sender_is_admin: bool,
    now: u128,
    effect: EffectView,
) -> bool {
    match effect {
        EffectView::Notify(
            NoticeView::MemberAdded { group_id, user_id, added_by, group_name, authorized },
        ) => {
            &&& are.contains(user_id) && !was.contains(user_id)
            &&& group_id == payload.group_id && added_by == sender && group_name is None
            &&& authorized == Some(change_stands(payload, was, are, sender_is_admin))
        },
        EffectView::Notify(
            NoticeView::MemberRemoved { group_id, user_id, removed_by, authorized },
        ) => {
            &&& was.contains(user_id) && !are.contains(user_id)
            &&& group_id == payload.group_id && removed_by == sender
            &&& authorized == Some(change_stands(payload, was, are, sender_is_admin))
        },
        EffectView::Notify(
            NoticeView::UnauthorizedChange { group_id, committer, added, removed, reason, enforced },
        ) => {
            &&& rosters_differ(was, are) && !change_stands(payload, was, are, sender_is_admin)
            &&& !told_lately(reports, payload.group_id, sender, false, now)
            &&& group_id == payload.group_id && committer == sender && !enforced
            &&& names_the_rest(added, are, was) && names_the_rest(removed, was, are)
            &&& reason == (if sender_is_admin {
                ChangeReason::AffectedMemberMismatch
            } else {
                ChangeReason::SenderNotAdmin
            })
        },
        EffectView::SetMemberRole { group_id, user_id, role } => {
            &&& sender_is_admin && are.contains(user_id) && !was.contains(user_id)
            &&& group_id == payload.group_id && payload.affected_member == Some(user_id)
            &&& payload.role == Some(role)
        },
        EffectView::RecordAttestedRich { user_id, versions } => {
            &&& sender_is_admin && are.contains(user_id) && !was.contains(user_id)
            &&& payload.affected_member == Some(user_id)
            &&& payload.affected_member_rich == Some(versions)
        },
        EffectView::RemoveMemberRole { group_id, user_id } => {
            group_id == payload.group_id && was.contains(user_id) && !are.contains(user_id)
        },
        EffectView::AutoPromote { group_id, members } => {
            &&& exists|n: Seq<char>| #[trigger] was.contains(n) && !are.contains(n)
            &&& group_id == payload.group_id && members == are
        },
        _ => false,
    }
}

/// The difference of two rosters names whoever is in the first and not in the
/// second.
pub proof fn a_difference_names_the_rest(of: Seq<Seq<char>>, but: Seq<Seq<char>>)
    ensures
        names_the_rest(difference(of, but), of, but),
{
    let left = unlisted(of, but);
    let one = once(left);
    lemma_once(left);
    lemma_sorted_exists(one);
    let all = difference(of, but);
    one.lemma_multiset_has_no_duplicates();
    all.lemma_multiset_has_no_duplicates_conv();
    assert forall|n: Seq<char>| #[trigger] all.contains(n) <==> of.contains(n) && !but.contains(
        n,
    ) by {
        lemma_unlisted(of, but, n);
        assert(one.contains(n) <==> left.contains(n));
    }
}

proof fn lemma_arrival(
    payload: GroupMlsCommitPayloadView,
    sender: Seq<char>,
    trusted: bool,
    authorized: bool,
    member: Seq<char>,
    effect: EffectView,
)
    ensures
        arrival(payload, sender, trusted, authorized, member).contains(effect) <==> match effect {
            EffectView::Notify(n) => n == (NoticeView::MemberAdded {
                group_id: payload.group_id,
                user_id: member,
                added_by: sender,
                group_name: None,
                authorized: Some(authorized),
            }),
            EffectView::SetMemberRole { group_id, user_id, role } => trusted && group_id
                == payload.group_id && user_id == member && payload.affected_member == Some(member)
                && payload.role == Some(role),
            EffectView::RecordAttestedRich { user_id, versions } => trusted && user_id == member
                && payload.affected_member == Some(member) && payload.affected_member_rich == Some(
                versions,
            ),
            _ => false,
        },
{
    let all = arrival(payload, sender, trusted, authorized, member);
    let last = all.len() - 1;
    assert(all[last] is Notify);
    if trusted && payload.affected_member == Some(member) {
        if payload.role is Some {
            assert(all[0] is SetMemberRole);
            if payload.affected_member_rich is Some {
                assert(all[1] is RecordAttestedRich);
            }
        } else if payload.affected_member_rich is Some {
            assert(all[0] is RecordAttestedRich);
        }
    }
}

proof fn lemma_all_arrivals(
    payload: GroupMlsCommitPayloadView,
    sender: Seq<char>,
    trusted: bool,
    authorized: bool,
    added: Seq<Seq<char>>,
    effect: EffectView,
)
    ensures
        arrivals(payload, sender, trusted, authorized, added).contains(effect) <==> match effect {
            EffectView::Notify(
                NoticeView::MemberAdded { group_id, user_id, added_by, group_name, authorized: a },
            ) => added.contains(user_id) && group_id == payload.group_id && added_by == sender
                && group_name is None && a == Some(authorized),
            EffectView::SetMemberRole { group_id, user_id, role } => trusted && group_id
                == payload.group_id && added.contains(user_id) && payload.affected_member == Some(
                user_id,
            ) && payload.role == Some(role),
            EffectView::RecordAttestedRich { user_id, versions } => trusted && added.contains(
                user_id,
            ) && payload.affected_member == Some(user_id) && payload.affected_member_rich == Some(
                versions,
            ),
            _ => false,
        },
    decreases added.len(),
{
    broadcast use vstd::seq_lib::group_seq_properties;

    if added.len() > 0 {
        let init = added.drop_last();
        lemma_all_arrivals(payload, sender, trusted, authorized, init, effect);
        lemma_arrival(payload, sender, trusted, authorized, added.last(), effect);
        assert(added =~= init.push(added.last()));
        assert(forall|n: Seq<char>|
            added.contains(n) <==> #[trigger] init.contains(n) || n == added.last());
    }
}

proof fn lemma_all_departures(
    group: Seq<char>,
    sender: Seq<char>,
    authorized: bool,
    removed: Seq<Seq<char>>,
    effect: EffectView,
)
    ensures
        departures(group, sender, authorized, removed).contains(effect) <==> match effect {
            EffectView::Notify(
                NoticeView::MemberRemoved { group_id, user_id, removed_by, authorized: a },
            ) => removed.contains(user_id) && group_id == group && removed_by == sender && a
                == Some(authorized),
            EffectView::RemoveMemberRole { group_id, user_id } => group_id == group
                && removed.contains(user_id),
            _ => false,
        },
    decreases removed.len(),
{
    broadcast use vstd::seq_lib::group_seq_properties;

    if removed.len() > 0 {
        let init = removed.drop_last();
        lemma_all_departures(group, sender, authorized, init, effect);
        assert(removed =~= init.push(removed.last()));
        assert(forall|n: Seq<char>|
            removed.contains(n) <==> #[trigger] init.contains(n) || n == removed.last());
    }
}

proof fn lemma_differ(was: Seq<Seq<char>>, are: Seq<Seq<char>>)
    ensures
        rosters_differ(was, are) <==> difference(are, was).len() > 0 || difference(was, are).len()
            > 0,
{
    let added = difference(are, was);
    let removed = difference(was, are);
    a_difference_names_the_rest(are, was);
    a_difference_names_the_rest(was, are);
    if added.len() > 0 {
        assert(added.contains(added[0]));
        assert(was.contains(added[0]) != are.contains(added[0]));
    }
    if removed.len() > 0 {
        assert(removed.contains(removed[0]));
        assert(was.contains(removed[0]) != are.contains(removed[0]));
    }
    if rosters_differ(was, are) {
        let n = choose|n: Seq<char>| #[trigger] was.contains(n) != are.contains(n);
        assert(added.contains(n) || removed.contains(n));
    }
}

/// A report suppresses another of its kind exactly while its window lasts.
pub proof fn lemma_told_lately(
    reports: Seq<UnauthorizedReportView>,
    group: Seq<char>,
    committer: Seq<char>,
    enforced: bool,
    now: u128,
)
    ensures
        told_lately(reports, group, committer, enforced, now) <==> suppressed(
            reports,
            group,
            committer,
            enforced,
            now,
        ),
{
    if told_lately(reports, group, committer, enforced, now) {
        let i = choose|i: int|
            0 <= i < reports.len() && (#[trigger] reports[i]).group_id == group
                && reports[i].committer == committer && reports[i].enforced == enforced && now
                < reports[i].reported_at + UNAUTHORIZED_REPORT_SUPPRESS_SECS * SECOND;
        assert(concerns(reports[i], group, committer, enforced) && recent(reports[i], now));
    }
}

/// A merged commit asks for what the two rosters and its own claims call for:
/// each arrival is announced, with the role and the capabilities that an admin
/// vouched for; each departure is announced and its role dropped; a change is
/// marked as authorized exactly where an admin made it and it is the one claimed;
/// any other change is reported first, unless it was lately; and a group that
/// lost a member is looked over for an admin. Nothing else happens.
#[verifier::rlimit(30)]
pub proof fn a_merged_commit_is_told_as_it_is(
    mesh: MeshView,
    payload: GroupMlsCommitPayloadView,
    sender: Seq<char>,
    before: Result<Option<GroupInfoView>, ErrorView>,
    after: Result<Option<GroupInfoView>, ErrorView>,
    was: Seq<Seq<char>>,
    are: Seq<Seq<char>>,
    sender_is_admin: bool,
    now: u128,
    effect: EffectView,
)
    requires
        rosters_read(before, after, was, are),
    ensures
        ({
            let all = mesh.merging_commit(payload, sender, before, after, sender_is_admin, now);
            let due = rosters_differ(was, are) && !change_stands(payload, was, are, sender_is_admin)
                && !told_lately(mesh.reports, payload.group_id, sender, false, now);
            let asked = commit_asks(
                mesh.reports,
                payload,
                sender,
                was,
                are,
                sender_is_admin,
                now,
                effect,
            );
            &&& all.contains(effect) ==> asked
            &&& asked && !(effect matches EffectView::Notify(
                NoticeView::UnauthorizedChange { .. },
            )) ==> all.contains(effect)
            &&& due ==> all.len() > 0 && (all[0] matches EffectView::Notify(
                NoticeView::UnauthorizedChange { .. },
            ))
        }),
{
    broadcast use vstd::seq_lib::group_seq_properties;

    let d = delta(before, after)->0;
    assert(was =~= match before {
        Ok(Some(info)) => info.members,
        _ => Seq::empty(),
    });
    a_difference_names_the_rest(are, was);
    a_difference_names_the_rest(was, are);
    assert(d.added == difference(are, was) && d.removed == difference(was, are));
    lemma_differ(was, are);
    let authorized = (d.added.len() == 0 && d.removed.len() == 0) || change_stands(
        payload,
        was,
        are,
        sender_is_admin,
    );
    let report = mesh.judging(payload.group_id, sender, d, sender_is_admin, authorized, now);
    lemma_told_lately(mesh.reports, payload.group_id, sender, false, now);
    lemma_all_arrivals(payload, sender, sender_is_admin, authorized, d.added, effect);
    lemma_all_departures(payload.group_id, sender, authorized, d.removed, effect);
    let all = mesh.merging_commit(payload, sender, before, after, sender_is_admin, now);
    let came = arrivals(payload, sender, sender_is_admin, authorized, d.added);
    let went = departures(payload.group_id, sender, authorized, d.removed);
    let rest: Seq<EffectView> = if d.removed.len() > 0 {
        seq![EffectView::AutoPromote { group_id: payload.group_id, members: are }]
    } else {
        Seq::empty()
    };
    assert(all == report + came + went + rest);
    assert(all.contains(effect) <==> report.contains(effect) || came.contains(effect)
        || went.contains(effect) || rest.contains(effect));
    assert(d.removed.len() > 0 ==> d.removed.contains(d.removed[0]));
    assert(d.added.len() > 0 ==> d.added.contains(d.added[0]));
    assert(d.removed.len() > 0 ==> rest[0] == EffectView::AutoPromote {
        group_id: payload.group_id,
        members: are,
    });
    if report.len() > 0 {
        assert(all[0] == report[0]);
    }
    if report.contains(effect) {
        assert(report[0] == effect);
    }
    if rest.contains(effect) {
        assert(rest[0] == effect);
        assert(was.contains(d.removed[0]));
    }
    if effect is AutoPromote && exists|n: Seq<char>| #[trigger] was.contains(n) && !are.contains(n) {
        let n = choose|n: Seq<char>| #[trigger] was.contains(n) && !are.contains(n);
        assert(d.removed.contains(n));
    }
}

/// An admin's commit that did what it says is no unauthorized change: where it
/// removed the member that it names, added that member, or names nobody, no
/// report of it goes out, and whoever came or went by it is announced as
/// authorized.
pub proof fn an_admins_change_stands(
    mesh: MeshView,
    payload: GroupMlsCommitPayloadView,
    sender: Seq<char>,
    before: GroupInfoView,
    after: GroupInfoView,
    now: u128,
)
    requires
        payload.affected_member matches Some(m) ==> {
            ||| payload.commit_type == GroupCommitType::KeyUpdate
            ||| payload.commit_type == GroupCommitType::Remove && before.members.contains(m)
                && !after.members.contains(m)
            ||| payload.commit_type == GroupCommitType::Add && after.members.contains(m)
                && !before.members.contains(m)
        },
    ensures
        forall|i: int|
            #![trigger mesh.merging_commit(
                payload,
                sender,
                Ok(Some(before)),
                Ok(Some(after)),
                true,
                now,
            )[i]]
            {
                let all = mesh.merging_commit(
                    payload,
                    sender,
                    Ok(Some(before)),
                    Ok(Some(after)),
                    true,
                    now,
                );
                0 <= i < all.len() ==> match all[i] {
                    EffectView::Notify(NoticeView::UnauthorizedChange { .. }) => false,
                    EffectView::Notify(NoticeView::MemberAdded { authorized, .. }) => authorized
                        == Some(true),
                    EffectView::Notify(NoticeView::MemberRemoved { authorized, .. }) => authorized
                        == Some(true),
                    _ => true,
                }
            },
        mesh.commit_merged(
            payload,
            sender,
            Ok(Some(before)),
            Ok(Some(after)),
            true,
            now,
        ).reports == mesh.reports,
{
    let all = mesh.merging_commit(payload, sender, Ok(Some(before)), Ok(Some(after)), true, now);
    let was = before.members;
    let are = after.members;
    a_difference_names_the_rest(are, was);
    a_difference_names_the_rest(was, are);
    assert forall|i: int| 0 <= i < all.len() implies match #[trigger] all[i] {
        EffectView::Notify(NoticeView::UnauthorizedChange { .. }) => false,
        EffectView::Notify(NoticeView::MemberAdded { authorized, .. }) => authorized == Some(true),
        EffectView::Notify(NoticeView::MemberRemoved { authorized, .. }) => authorized == Some(
            true,
        ),
        _ => true,
    } by {
        assert(all.contains(all[i]));
        a_merged_commit_is_told_as_it_is(
            mesh,
            payload,
            sender,
            Ok(Some(before)),
            Ok(Some(after)),
            was,
            are,
            true,
            now,
            all[i],
        );
    }
}

proof fn lemma_elections_settled(
    elections: Seq<PendingLeaveElectionView>,
    group: Seq<char>,
    removed: Seq<Seq<char>>,
    e: PendingLeaveElectionView,
)
    ensures
        elections_settled(elections, group, removed).contains(e) <==> elections.contains(e) && !(
        e.group_id == group && removed.contains(e.leaving_member)),
    decreases removed.len(),
{
    broadcast use vstd::seq_lib::group_seq_properties;

    if removed.len() > 0 {
        let init = removed.drop_last();
        lemma_elections_settled(elections, group, init, e);
        let earlier = elections_settled(elections, group, init);
        let last = removed.last();
        assert(removed =~= init.push(last));
        assert(removed.contains(e.leaving_member) <==> init.contains(e.leaving_member)
            || e.leaving_member == last);
        lemma_elections_without(earlier, group, last, e);
    }
}

/// Leaving out the election over a member's leave leaves out that one alone.
pub proof fn lemma_elections_without(
    elections: Seq<PendingLeaveElectionView>,
    group: Seq<char>,
    member: Seq<char>,
    e: PendingLeaveElectionView,
)
    ensures
        elections_without(elections, group, member).contains(e) <==> elections.contains(e) && !(
        e.group_id == group && e.leaving_member == member),
{
    let keep = |e: PendingLeaveElectionView| !(e.group_id == group && e.leaving_member == member);
    let rest = elections.filter(keep);
    if rest.contains(e) {
        elections.lemma_filter_contains_rev(keep, e);
        let i = choose|i: int| 0 <= i < rest.len() && rest[i] == e;
        elections.lemma_filter_pred(keep, i);
    }
    if elections.contains(e) && keep(e) {
        let i = choose|i: int| 0 <= i < elections.len() && elections[i] == e;
        elections.lemma_filter_contains(keep, i);
    }
}

/// What a merged commit leaves behind: the roster that MLS holds now is the
/// cached one, an election ends where the one who was leaving is gone, a change
/// that does not stand is on record as reported, and a key update clears the
/// suspicion of a fork. Nothing else of the state changes.
pub proof fn a_merged_commit_leaves_what_it_changed(
    mesh: MeshView,
    payload: GroupMlsCommitPayloadView,
    sender: Seq<char>,
    before: Result<Option<GroupInfoView>, ErrorView>,
    after: Result<Option<GroupInfoView>, ErrorView>,
    was: Seq<Seq<char>>,
    are: Seq<Seq<char>>,
    sender_is_admin: bool,
    now: u128,
    other: Seq<char>,
    e: PendingLeaveElectionView,
)
    requires
        mesh.wf(),
        rosters_read(before, after, was, are),
    ensures
        ({
            let next = mesh.commit_merged(payload, sender, before, after, sender_is_admin, now);
            let group = payload.group_id;
            let faulty = rosters_differ(was, are) && !change_stands(
                payload,
                was,
                are,
                sender_is_admin,
            );
            &&& assoc::known(next.members, group) && assoc::at(next.members, group) == are
            &&& other != group ==> assoc::lookup(next.members, other) == assoc::lookup(
                mesh.members,
                other,
            )
            &&& next.elections.contains(e) <==> mesh.elections.contains(e) && !(e.group_id == group
                && was.contains(e.leaving_member) && !are.contains(e.leaving_member))
            &&& faulty ==> told_lately(next.reports, group, sender, false, now)
            &&& !faulty ==> next.reports == mesh.reports
            &&& assoc::known(next.forks, other) <==> assoc::known(mesh.forks, other) && !(other
                == group && payload.commit_type == GroupCommitType::KeyUpdate)
            &&& next == (MeshView {
                members: next.members,
                elections: next.elections,
                reports: next.reports,
                forks: next.forks,
                ..mesh
            })
        }),
{
    let group = payload.group_id;
    assert(was =~= match before {
        Ok(Some(info)) => info.members,
        _ => Seq::empty(),
    });
    a_difference_names_the_rest(are, was);
    a_difference_names_the_rest(was, are);
    lemma_differ(was, are);
    assoc::lemma_put(mesh.members, group, are);
    assoc::lemma_del(mesh.forks, group);
    lemma_elections_settled(mesh.elections, group, difference(was, are), e);
    lemma_told_lately(mesh.reports, group, sender, false, now);
    let next = mesh.commit_merged(payload, sender, before, after, sender_is_admin, now);
    lemma_told_lately(next.reports, group, sender, false, now);
    if rosters_differ(was, are) && !change_stands(payload, was, are, sender_is_admin)
        && !suppressed(mesh.reports, group, sender, false, now) {
        let last = next.reports.len() - 1;
        assert(next.reports[last] == (UnauthorizedReportView {
            group_id: group,
            committer: sender,
            enforced: false,
            reported_at: now,
        }));
    }
}

/// A commit whose new roster cannot be read changes no roster, and one whose old
/// roster cannot be read still refreshes the cached one.
pub proof fn a_roster_is_cached_as_read(
    mesh: MeshView,
    payload: GroupMlsCommitPayloadView,
    sender: Seq<char>,
    before: Result<Option<GroupInfoView>, ErrorView>,
    after: Result<Option<GroupInfoView>, ErrorView>,
    sender_is_admin: bool,
    now: u128,
)
    requires
        mesh.wf(),
    ensures
        assoc::lookup(
            mesh.commit_merged(payload, sender, before, after, sender_is_admin, now).members,
            payload.group_id,
        ) == match after {
            Ok(Some(info)) => Some(info.members),
            _ => assoc::lookup(mesh.members, payload.group_id),
        },
{
    if let Ok(Some(info)) = after {
        assoc::lemma_put(mesh.members, payload.group_id, info.members);
    }
}

/// The commit says that it removes this node, and an admin sent it.
pub open spec fn evicts(
    payload: GroupMlsCommitPayloadView,
    me: Seq<char>,
    sender_is_admin: bool,
) -> bool {
    payload.commit_type == GroupCommitType::Remove && payload.affected_member == Some(me)
        && sender_is_admin
}

/// Nothing that happens later lets MLS take the commit after this failure.
pub open spec fn past_mending(error: MlsError) -> bool {
    match error {
        MlsError::Deserialization(_) => true,
        MlsError::InvalidMessage(_) => true,
        MlsError::Storage(_) => true,
        MlsError::SenderIdentityMismatch { .. } => true,
        MlsError::LeafAddressMismatch(_) => true,
        MlsError::CommitNotAuthorized { .. } => true,
        _ => false,
    }
}

/// A commit that MLS refused is tried again for its group exactly where a later
/// commit may mend the failure and it does not evict this node; it is rejected
/// otherwise.
pub proof fn a_refused_commit_is_retried_where_it_may_yet_apply(
    me: Seq<char>,
    payload: GroupMlsCommitPayloadView,
    error: MlsError,
    sender_is_admin: bool,
)
    ensures
        refused_outcome(me, payload, error, sender_is_admin) == (if evicts(
            payload,
            me,
            sender_is_admin,
        ) || past_mending(error) {
            CommitOutcomeView::Rejected
        } else {
            CommitOutcomeView::Retriable(payload.group_id)
        }),
{
}

/// An admin's commit that removes this node takes it out of the group though MLS
/// cannot read the commit: MLS is told to leave, the departure is announced as
/// the admin's and as authorized, the relay's loss is told where the relay had
/// the group or was getting it, and the roster, the registration and the buffers
/// of the group, and of no other group, are gone.
pub proof fn an_eviction_takes_effect(
    mesh: MeshView,
    me: Seq<char>,
    payload: GroupMlsCommitPayloadView,
    sender: Seq<char>,
    error: MlsError,
    now: u128,
    other: Seq<char>,
    effect: EffectView,
)
    requires
        mesh.wf(),
        evicts(payload, me, true),
    ensures
        mesh.refusing_commit(me, payload, sender, error, true, now).contains(effect)
            <==> match effect {
            EffectView::LeaveMlsGroup { group_id } => group_id == payload.group_id,
            EffectView::Notify(
                NoticeView::MemberRemoved { group_id, user_id, removed_by, authorized },
            ) => group_id == payload.group_id && user_id == me && removed_by == sender
                && authorized == Some(true),
            EffectView::Notify(NoticeView::RelayUnsynced { group_id, reason }) => group_id
                == payload.group_id && reason == SyncReason::Removed && (assoc::known(
                mesh.synced,
                group_id,
            ) || assoc::known(mesh.registering, group_id)),
            _ => false,
        },
        ({
            let next = mesh.commit_refused(me, payload, error, true, now);
            let gone = |k: Seq<char>| k == payload.group_id;
            &&& assoc::lookup(next.members, other) == if gone(other) {
                None
            } else {
                assoc::lookup(mesh.members, other)
            }
            &&& assoc::lookup(next.synced, other) == if gone(other) {
                None
            } else {
                assoc::lookup(mesh.synced, other)
            }
            &&& assoc::lookup(next.registering, other) == if gone(other) {
                None
            } else {
                assoc::lookup(mesh.registering, other)
            }
            &&& assoc::lookup(next.messages, other) == if gone(other) {
                None
            } else {
                assoc::lookup(mesh.messages, other)
            }
            &&& assoc::lookup(next.commits, other) == if gone(other) {
                None
            } else {
                assoc::lookup(mesh.commits, other)
            }
            &&& next == (MeshView {
                members: next.members,
                synced: next.synced,
                registering: next.registering,
                messages: next.messages,
                commits: next.commits,
                ..mesh
            })
        }),
{
    let group = payload.group_id;
    assoc::lemma_del(mesh.members, group);
    assoc::lemma_del(mesh.synced, group);
    assoc::lemma_del(mesh.registering, group);
    assoc::lemma_del(mesh.messages, group);
    assoc::lemma_del(mesh.commits, group);
    let all = mesh.refusing_commit(me, payload, sender, error, true, now);
    assert(all[0] is LeaveMlsGroup);
    let last = all.len() - 1;
    assert(all[last] is Notify);
    if assoc::known(mesh.synced, group) || assoc::known(mesh.registering, group) {
        assert(all.len() == 3);
        assert(all[1] is Notify);
    } else {
        assert(all.len() == 2);
    }
}

/// A commit that policy refused is reported as refused, with the committer and
/// the members that it would have added and removed, unless it was lately; from
/// then on it is on record. Any other refusal that evicts nobody reports nothing.
pub proof fn a_policy_refusal_is_reported(
    mesh: MeshView,
    me: Seq<char>,
    payload: GroupMlsCommitPayloadView,
    sender: Seq<char>,
    error: MlsError,
    sender_is_admin: bool,
    now: u128,
)
    requires
        !evicts(payload, me, sender_is_admin),
    ensures
        ({
            let all = mesh.refusing_commit(me, payload, sender, error, sender_is_admin, now);
            let next = mesh.commit_refused(me, payload, error, sender_is_admin, now);
            match error {
                MlsError::CommitNotAuthorized { committer, added, removed } => {
                    &&& told_lately(next.reports, payload.group_id, committer@, true, now)
                    &&& all == (if told_lately(
                        mesh.reports,
                        payload.group_id,
                        committer@,
                        true,
                        now,
                    ) {
                        Seq::empty()
                    } else {
                        seq![
                            EffectView::Notify(
                                NoticeView::UnauthorizedChange {
                                    group_id: payload.group_id,
                                    committer: committer@,
                                    added: added.deep_view(),
                                    removed: removed.deep_view(),
                                    reason: ChangeReason::SenderNotAdmin,
                                    enforced: true,
                                },
                            ),
                        ]
                    })
                    &&& next == (MeshView { reports: next.reports, ..mesh })
                },
                MlsError::LeafAddressMismatch(_) => all == seq![
                    EffectView::Notify(NoticeView::LeafUnproven { peer_id: sender }),
                ] && next == mesh,
                _ => all.len() == 0 && next == mesh,
            }
        }),
{
    if let MlsError::CommitNotAuthorized { committer, .. } = error {
        let group = payload.group_id;
        lemma_told_lately(mesh.reports, group, committer@, true, now);
        let next = mesh.commit_refused(me, payload, error, sender_is_admin, now);
        lemma_told_lately(next.reports, group, committer@, true, now);
        if !suppressed(mesh.reports, group, committer@, true, now) {
            let last = next.reports.len() - 1;
            assert(next.reports[last].reported_at == now);
        }
    }
}

/// Where an effect of a merged commit stands: the report first, then who came,
/// then who went, and last the promotion.
pub open spec fn commit_rank(effect: EffectView) -> int {
    match effect {
        EffectView::Notify(NoticeView::UnauthorizedChange { .. }) => 0,
        EffectView::SetMemberRole { .. } => 1,
        EffectView::RecordAttestedRich { .. } => 1,
        EffectView::Notify(NoticeView::MemberAdded { .. }) => 1,
        EffectView::RemoveMemberRole { .. } => 2,
        EffectView::Notify(NoticeView::MemberRemoved { .. }) => 2,
        _ => 3,
    }
}

/// A merged commit is told in order: its report, arrivals, departures and the
/// promotion.
pub proof fn a_merged_commit_is_told_in_order(
    mesh: MeshView,
    payload: GroupMlsCommitPayloadView,
    sender: Seq<char>,
    before: Result<Option<GroupInfoView>, ErrorView>,
    after: Result<Option<GroupInfoView>, ErrorView>,
    sender_is_admin: bool,
    now: u128,
    i: int,
    j: int,
)
    requires
        0 <= i < j < mesh.merging_commit(
            payload,
            sender,
            before,
            after,
            sender_is_admin,
            now,
        ).len(),
    ensures
        commit_rank(
            mesh.merging_commit(payload, sender, before, after, sender_is_admin, now)[i],
        ) <= commit_rank(
            mesh.merging_commit(payload, sender, before, after, sender_is_admin, now)[j],
        ),
{
    let all = mesh.merging_commit(payload, sender, before, after, sender_is_admin, now);
    let d = delta(before, after)->0;
    let authorized = (d.added.len() == 0 && d.removed.len() == 0) || (sender_is_admin && claim_fits(
        payload,
        d.added,
        d.removed,
    ));
    let report = mesh.judging(payload.group_id, sender, d, sender_is_admin, authorized, now);
    let came = arrivals(payload, sender, sender_is_admin, authorized, d.added);
    let went = departures(payload.group_id, sender, authorized, d.removed);
    assert forall|k: int| 0 <= k < all.len() implies commit_rank(#[trigger] all[k]) == (if k
        < report.len() {
        0int
    } else if k < report.len() + came.len() {
        1
    } else if k < report.len() + came.len() + went.len() {
        2
    } else {
        3
    }) by {
        if k < report.len() {
            assert(all[k] == report[k]);
        } else if k < report.len() + came.len() {
            assert(all[k] == came[k - report.len()]);
            assert(came.contains(all[k]));
            lemma_all_arrivals(payload, sender, sender_is_admin, authorized, d.added, all[k]);
        } else if k < report.len() + came.len() + went.len() {
            assert(all[k] == went[k - report.len() - came.len()]);
            assert(went.contains(all[k]));
            lemma_all_departures(payload.group_id, sender, authorized, d.removed, all[k]);
        }
    }
}

} // verus!
