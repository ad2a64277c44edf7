//! Who may change a group: what takes an admin, what protects the last one, and
//! what a commit may and may not bring about.

use vstd::prelude::*;

use crate::assoc;
use crate::error::{ErrorView, MlsError};
use crate::group_mesh::administration::{rename_fault, role_fault};
use crate::group_mesh::commits::{
    arrival, arrivals, claim_fits, delta, departures, refused_outcome, removes, CommitOutcomeView,
    MembershipDelta,
};
use crate::group_mesh::dated::{earliest, less_oldest, lemma_earliest, times_in, times_of};
use crate::group_mesh::effect::{ChangeReason, EffectView, NoticeView};
use crate::group_mesh::inbound::{attestations, rename_asked, role_change_asked};
use crate::group_mesh::limits::{
    nanos, MAX_EPOCH_FORK_ENTRIES, MAX_UNAUTHORIZED_REPORT_ENTRIES,
    UNAUTHORIZED_REPORT_SUPPRESS_SECS,
};
use crate::group_mesh::membership::{invite_fault, leave_fault, name_fault};
use crate::group_mesh::reports::{concerns, recent, suppressed, with_place};
use crate::group_mesh::roles::{
    admin_count, is_admin, last_admin, removal_fault, role_of, standing, GroupReadsView,
};
use crate::group_mesh::state::{GroupSettings, MeshView};
use crate::group_mesh::types::{
    EpochForkState, GroupCommitType, GroupInfoView, GroupMetadataView, GroupMlsCommitPayloadView,
    GroupMlsLeavePayloadView, GroupRenamePayloadView, GroupRole, GroupRoleChangePayloadView,
    UnauthorizedReport, UnauthorizedReportView,
};
use crate::rosters::{
    difference, lemma_once, lemma_sorted_exists, lemma_unlisted, lemma_without, once, unlisted,
};

verus! {

/// Only an admin removes, and the last admin is removed only where at most one
/// other member stays.
pub proof fn a_removal_leaves_an_admin(
    metadata: Option<GroupMetadataView>,
    members: nat,
    remover: Seq<char>,
    member: Seq<char>,
)
    requires
        removal_fault(metadata, members, remover, member) is None,
    ensures
        standing(metadata, remover),
        last_admin(metadata, member) ==> members <= 2,
{
}

/// Nobody who is the last admin leaves others behind.
pub proof fn the_last_admin_does_not_leave_others_behind(
    me: Seq<char>,
    other: Seq<char>,
    members: Seq<Seq<char>>,
    metadata: Result<Option<GroupMetadataView>, ErrorView>,
)
    requires
        leave_fault(me, members, metadata) is None,
        members.contains(other),
        other != me,
    ensures
        metadata matches Ok(m) && !last_admin(m, me),
{
    lemma_without(members, me, other);
}

/// Whoever is demoted from admin leaves another admin on record.
pub proof fn a_demotion_leaves_an_admin(
    me: Seq<char>,
    group: Seq<char>,
    target: Seq<char>,
    members: Seq<Seq<char>>,
    reads: GroupReadsView,
    metadata: GroupMetadataView,
)
    requires
        reads.metadata == Ok::<Option<GroupMetadataView>, ErrorView>(Some(metadata)),
        role_fault(me, group, target, GroupRole::Member, members, reads) is None,
        role_of(metadata.roles, target) == GroupRole::Admin,
    ensures
        standing(Some(metadata), me),
        admin_count(metadata.roles) >= 2,
{
}

/// A group that is not there is reported as missing to whoever invites, sets a
/// role or renames, never as a lack of permissions.
pub proof fn a_missing_group_is_no_lack_of_permissions(
    mesh: MeshView,
    settings: GroupSettings,
    me: Seq<char>,
    group: Seq<char>,
    other: Seq<char>,
    role: GroupRole,
    name: Seq<char>,
    members: Seq<Seq<char>>,
    package_expires_at_ms: Option<u64>,
    now_ms: u64,
    reads: GroupReadsView,
)
    requires
        reads.metadata == Ok::<Option<GroupMetadataView>, ErrorView>(None),
        reads.info == Ok::<Option<GroupInfoView>, ErrorView>(None),
        name_fault(name) is None,
    ensures
        is_admin(reads, group, me) == Err::<bool, ErrorView>(ErrorView::GroupNotFound(group)),
        invite_fault(
            mesh,
            settings,
            me,
            group,
            other,
            None,
            reads,
            package_expires_at_ms,
            now_ms,
        ) == Some(ErrorView::GroupNotFound(group)),
        role_fault(me, group, other, role, members, reads) == Some(ErrorView::GroupNotFound(group)),
        rename_fault(me, group, name, reads) == Some(ErrorView::GroupNotFound(group)),
{
}

/// Only what an admin sent changes a role or a name.
pub proof fn only_admins_change_roles_and_names(
    sender: Seq<char>,
    role_change: GroupRoleChangePayloadView,
    rename: GroupRenamePayloadView,
    reads: GroupReadsView,
)
    ensures
        role_change_asked(sender, role_change, reads).len() > 0 ==> is_admin(
            reads,
            role_change.group_id,
            sender,
        ) == Ok::<bool, ErrorView>(true),
        rename_asked(sender, rename, reads).len() > 0 ==> is_admin(reads, rename.group_id, sender)
            == Ok::<bool, ErrorView>(true),
{
}

/// The effect is the report of a change that was refused, or a warning of who
/// delivered a forged one.
pub open spec fn tells_of_refusal(effect: EffectView) -> bool {
    match effect {
        EffectView::Notify(NoticeView::UnauthorizedChange { enforced, .. }) => enforced,
        EffectView::Notify(NoticeView::LeafUnproven { .. }) => true,
        _ => false,
    }
}

/// Nobody but an admin makes this node leave a group: a commit that MLS refused
/// takes no group from it, whatever the commit says about itself.
pub proof fn only_an_admin_evicts(
    mesh: MeshView,
    me: Seq<char>,
    payload: GroupMlsCommitPayloadView,
    sender: Seq<char>,
    error: MlsError,
    now: u128,
)
    ensures
        mesh.commit_refused(me, payload, error, false, now) == (MeshView {
            reports: mesh.commit_refused(me, payload, error, false, now).reports,
            ..mesh
        }),
        forall|i: int|
            0 <= i < mesh.refusing_commit(me, payload, sender, error, false, now).len()
                ==> tells_of_refusal(
                #[trigger] mesh.refusing_commit(me, payload, sender, error, false, now)[i],
            ),
{
}

/// A forged identity is refused for good: the commit that would seat it is never
/// tried again, whoever delivered it is named, and nothing else happens.
pub proof fn a_forged_identity_is_refused_for_good(
    mesh: MeshView,
    me: Seq<char>,
    payload: GroupMlsCommitPayloadView,
    sender: Seq<char>,
    error: MlsError,
    sender_is_admin: bool,
    now: u128,
)
    requires
        error is LeafAddressMismatch,
        !(removes(payload, me) && sender_is_admin),
    ensures
        refused_outcome(me, payload, error, sender_is_admin) == CommitOutcomeView::Rejected,
        mesh.commit_refused(me, payload, error, sender_is_admin, now) == mesh,
        mesh.refusing_commit(me, payload, sender, error, sender_is_admin, now) == seq![
            EffectView::Notify(NoticeView::LeafUnproven { peer_id: sender }),
        ],
{
}

/// A leave that somebody else announced is not acted upon.
pub proof fn nobody_leaves_for_another(
    mesh: MeshView,
    me: Seq<char>,
    message_id: Seq<char>,
    sender: Seq<char>,
    payload: GroupMlsLeavePayloadView,
    info: Result<Option<GroupInfoView>, ErrorView>,
    now: u128,
)
    requires
        payload.leaving_member != sender,
    ensures
        mesh.leave_noted(me, message_id, sender, Some(payload), info, now).elections
            == mesh.elections,
        mesh.leave_noted(me, message_id, sender, Some(payload), info, now).members == mesh.members,
        mesh.noting_leave(me, message_id, sender, Some(payload), info, now) == (if assoc::known(
            mesh.seen,
            message_id,
        ) {
            Seq::empty()
        } else {
            mesh.letting_in(message_id, now)
        }),
{
}

/// What an effect vouches for: a role or capabilities of a member.
pub open spec fn vouches_for(effect: EffectView, member: Seq<char>) -> bool {
    match effect {
        EffectView::SetMemberRole { user_id, .. } => user_id == member,
        EffectView::RecordAttestedRich { user_id, .. } => user_id == member,
        _ => false,
    }
}

proof fn lemma_arrivals(
    payload: GroupMlsCommitPayloadView,
    sender: Seq<char>,
    trusted: bool,
    authorized: bool,
    added: Seq<Seq<char>>,
    i: int,
    member: Seq<char>,
)
    requires
        0 <= i < arrivals(payload, sender, trusted, authorized, added).len(),
        vouches_for(arrivals(payload, sender, trusted, authorized, added)[i], member),
    ensures
        trusted,
        payload.affected_member == Some(member),
        added.contains(member),
    decreases added.len(),
{
    let init = added.drop_last();
    let early = arrivals(payload, sender, trusted, authorized, init);
    if i < early.len() {
        lemma_arrivals(payload, sender, trusted, authorized, init, i, member);
        let j = choose|j: int| 0 <= j < init.len() && init[j] == member;
        assert(added[j] == member);
    } else {
        let late = arrival(payload, sender, trusted, authorized, added.last());
        assert(arrivals(payload, sender, trusted, authorized, added)[i] == late[i - early.len()]);
        assert(added[added.len() - 1] == member);
    }
}

proof fn lemma_departures(
    group: Seq<char>,
    sender: Seq<char>,
    authorized: bool,
    removed: Seq<Seq<char>>,
    i: int,
    member: Seq<char>,
)
    requires
        0 <= i < departures(group, sender, authorized, removed).len(),
    ensures
        !vouches_for(departures(group, sender, authorized, removed)[i], member),
    decreases removed.len(),
{
    let early = departures(group, sender, authorized, removed.drop_last());
    if i < early.len() {
        lemma_departures(group, sender, authorized, removed.drop_last(), i, member);
        assert(departures(group, sender, authorized, removed)[i] == early[i]);
    }
}

/// What a commit says of a member is stored only where an admin sent it, the
/// commit names that member, and the member was actually added.
pub proof fn a_commit_vouches_only_for_whom_it_added(
    mesh: MeshView,
    payload: GroupMlsCommitPayloadView,
    sender: Seq<char>,
    before: Result<Option<GroupInfoView>, ErrorView>,
    after: Result<Option<GroupInfoView>, ErrorView>,
    sender_is_admin: bool,
    now: u128,
    i: int,
    member: Seq<char>,
)
    requires
        0 <= i < mesh.merging_commit(payload, sender, before, after, sender_is_admin, now).len(),
        vouches_for(
            mesh.merging_commit(payload, sender, before, after, sender_is_admin, now)[i],
            member,
        ),
    ensures
        sender_is_admin,
        payload.affected_member == Some(member),
        delta(before, after) matches Some(d) && d.added.contains(member),
{
    let all = mesh.merging_commit(payload, sender, before, after, sender_is_admin, now);
    let d = delta(before, after)->0;
    let authorized = (d.added.len() == 0 && d.removed.len() == 0) || (sender_is_admin && claim_fits(
        payload,
        d.added,
        d.removed,
    ));
    let report = mesh.judging(payload.group_id, sender, d, sender_is_admin, authorized, now);
    let came = arrivals(payload, sender, sender_is_admin, authorized, d.added);
    let went = departures(payload.group_id, sender, authorized, d.removed);
    if i < report.len() {
        assert(all[i] == report[i]);
    } else if i < report.len() + came.len() {
        assert(all[i] == came[i - report.len()]);
        lemma_arrivals(
            payload,
            sender,
            sender_is_admin,
            authorized,
            d.added,
            i - report.len(),
            member,
        );
    } else if i < report.len() + came.len() + went.len() {
        assert(all[i] == went[i - report.len() - came.len()]);
        lemma_departures(
            payload.group_id,
            sender,
            authorized,
            d.removed,
            i - report.len() - came.len(),
            member,
        );
    }
}

proof fn lemma_no_difference(a: Seq<Seq<char>>, b: Seq<Seq<char>>)
    requires
        forall|n: Seq<char>| #[trigger] a.contains(n) ==> b.contains(n),
    ensures
        difference(a, b).len() == 0,
{
    let rest = once(unlisted(a, b));
    lemma_once(unlisted(a, b));
    lemma_sorted_exists(rest);
    if rest.len() > 0 {
        assert(rest.contains(rest[0]));
        lemma_unlisted(a, b, rest[0]);
    }
}

/// A commit after which the group has the members it had before is announced as
/// no change and reported by nobody.
pub proof fn an_unchanged_roster_is_no_change(
    mesh: MeshView,
    payload: GroupMlsCommitPayloadView,
    sender: Seq<char>,
    before: GroupInfoView,
    after: GroupInfoView,
    sender_is_admin: bool,
    now: u128,
)
    requires
        forall|n: Seq<char>| before.members.contains(n) <==> #[trigger] after.members.contains(n),
    ensures
        mesh.merging_commit(
            payload,
            sender,
            Ok(Some(before)),
            Ok(Some(after)),
            sender_is_admin,
            now,
        ) == Seq::<EffectView>::empty(),
        mesh.commit_merged(
            payload,
            sender,
            Ok(Some(before)),
            Ok(Some(after)),
            sender_is_admin,
            now,
        ).reports == mesh.reports,
{
    assert forall|n: Seq<char>| #[trigger] before.members.contains(n) implies after.members.contains(
        n,
    ) by {
        assert(after.members.contains(n) || !after.members.contains(n));
    }
    lemma_no_difference(after.members, before.members);
    lemma_no_difference(before.members, after.members);
    assert(mesh.merging_commit(
        payload,
        sender,
        Ok(Some(before)),
        Ok(Some(after)),
        sender_is_admin,
        now,
    ) =~= Seq::empty());
}

/// A commit whose effect on the membership could not be read fabricates none:
/// nothing is announced, reported or settled.
pub proof fn an_unreadable_roster_fabricates_no_change(
    mesh: MeshView,
    payload: GroupMlsCommitPayloadView,
    sender: Seq<char>,
    before: Result<Option<GroupInfoView>, ErrorView>,
    after: Result<Option<GroupInfoView>, ErrorView>,
    sender_is_admin: bool,
    now: u128,
)
    requires
        before is Err || !(after matches Ok(Some(_))),
    ensures
        mesh.merging_commit(payload, sender, before, after, sender_is_admin, now) == Seq::<
            EffectView,
        >::empty(),
        mesh.commit_merged(payload, sender, before, after, sender_is_admin, now).reports
            == mesh.reports,
        mesh.commit_merged(payload, sender, before, after, sender_is_admin, now).elections
            == mesh.elections,
{
}

/// A key update settles a suspected fork of its group, and no other commit does.
pub proof fn only_a_key_update_settles_a_fork(
    mesh: MeshView,
    payload: GroupMlsCommitPayloadView,
    sender: Seq<char>,
    before: Result<Option<GroupInfoView>, ErrorView>,
    after: Result<Option<GroupInfoView>, ErrorView>,
    sender_is_admin: bool,
    now: u128,
)
    requires
        mesh.wf(),
    ensures
        mesh.commit_merged(payload, sender, before, after, sender_is_admin, now).forks == (
        if payload.commit_type == GroupCommitType::KeyUpdate {
            assoc::del(mesh.forks, payload.group_id)
        } else {
            mesh.forks
        }),
        payload.commit_type == GroupCommitType::KeyUpdate ==> !assoc::known(
            mesh.commit_merged(payload, sender, before, after, sender_is_admin, now).forks,
            payload.group_id,
        ),
{
    assoc::lemma_del(mesh.forks, payload.group_id);
}

/// A membership change by somebody who is no admin is reported, unless it was
/// reported moments ago.
pub proof fn an_unauthorized_change_is_reported(
    mesh: MeshView,
    payload: GroupMlsCommitPayloadView,
    sender: Seq<char>,
    before: Result<Option<GroupInfoView>, ErrorView>,
    after: Result<Option<GroupInfoView>, ErrorView>,
    change: MembershipDelta,
    now: u128,
)
    requires
        delta(before, after) == Some(change),
        change.added.len() > 0 || change.removed.len() > 0,
        !suppressed(mesh.reports, payload.group_id, sender, false, now),
    ensures
        mesh.merging_commit(payload, sender, before, after, false, now).len() > 0,
        mesh.merging_commit(payload, sender, before, after, false, now)[0] == EffectView::Notify(
            NoticeView::UnauthorizedChange {
                group_id: payload.group_id,
                committer: sender,
                added: change.added,
                removed: change.removed,
                reason: ChangeReason::SenderNotAdmin,
                enforced: false,
            },
        ),
        suppressed(
            mesh.commit_merged(payload, sender, before, after, false, now).reports,
            payload.group_id,
            sender,
            false,
            now,
        ),
{
    a_report_is_not_repeated(mesh, payload.group_id, sender, false, now, now);
}

/// A report suppresses its repetition for as long as the window lasts, and not
/// longer.
pub proof fn a_report_is_not_repeated(
    mesh: MeshView,
    group: Seq<char>,
    committer: Seq<char>,
    enforced: bool,
    now: u128,
    later: u128,
)
    requires
        now <= later,
        !suppressed(mesh.reports, group, committer, enforced, now),
    ensures
        suppressed(
            mesh.reported(group, committer, enforced, now).reports,
            group,
            committer,
            enforced,
            later,
        ) <==> later - now < nanos(UNAUTHORIZED_REPORT_SUPPRESS_SECS),
{
    let kept = with_place(mesh.reports, now).filter(
        |r: UnauthorizedReportView| !concerns(r, group, committer, enforced),
    );
    let after = mesh.reported(group, committer, enforced, now).reports;
    let last = after.len() - 1;
    assert(after[last].reported_at == now);
    if later - now < nanos(UNAUTHORIZED_REPORT_SUPPRESS_SECS) {
        assert(concerns(after[last], group, committer, enforced) && recent(after[last], later));
    }
    if suppressed(after, group, committer, enforced, later) {
        let i = choose|i: int|
            0 <= i < after.len() && concerns(#[trigger] after[i], group, committer, enforced)
                && recent(after[i], later);
        if i < last {
            assert(after[i] == kept[i]);
        }
    }
}

proof fn lemma_place(reports: Seq<UnauthorizedReportView>, now: u128, i: int)
    requires
        0 <= i < with_place(reports, now).len(),
    ensures
        reports.contains(with_place(reports, now)[i]),
{
    if reports.len() >= MAX_UNAUTHORIZED_REPORT_ENTRIES {
        let keep = |r: UnauthorizedReportView| recent(r, now);
        let live = reports.filter(keep);
        lemma_earliest(times_of::<UnauthorizedReport>(live));
        let e = with_place(reports, now)[i];
        assert(live.contains(e)) by {
            if live.len() < MAX_UNAUTHORIZED_REPORT_ENTRIES {
                assert(live[i] == e);
            } else {
                let at = earliest(times_of::<UnauthorizedReport>(live));
                if i < at {
                    assert(live[i] == e);
                } else {
                    assert(live[i + 1] == e);
                }
            }
        }
        reports.lemma_filter_contains_rev(keep, e);
    } else {
        assert(with_place(reports, now)[i] == reports[i]);
    }
}

/// A report of one group, committer and outcome suppresses no other: an applied
/// change never hides a refused one, nor one committer another.
pub proof fn a_report_suppresses_no_other(
    mesh: MeshView,
    group: Seq<char>,
    committer: Seq<char>,
    enforced: bool,
    other_group: Seq<char>,
    other_committer: Seq<char>,
    other_enforced: bool,
    now: u128,
    later: u128,
)
    requires
        other_group != group || other_committer != committer || other_enforced != enforced,
        suppressed(
            mesh.reported(group, committer, enforced, now).reports,
            other_group,
            other_committer,
            other_enforced,
            later,
        ),
    ensures
        suppressed(mesh.reports, other_group, other_committer, other_enforced, later),
{
    if !suppressed(mesh.reports, group, committer, enforced, now) {
        let placed = with_place(mesh.reports, now);
        let keep = |r: UnauthorizedReportView| !concerns(r, group, committer, enforced);
        let kept = placed.filter(keep);
        let after = mesh.reported(group, committer, enforced, now).reports;
        let i = choose|i: int|
            0 <= i < after.len() && concerns(
                #[trigger] after[i],
                other_group,
                other_committer,
                other_enforced,
            ) && recent(after[i], later);
        assert(i < kept.len());
        assert(kept[i] == after[i]);
        assert(kept.contains(after[i]));
        placed.lemma_filter_contains_rev(keep, after[i]);
        let j = choose|j: int| 0 <= j < placed.len() && placed[j] == after[i];
        lemma_place(mesh.reports, now, j);
        let k = choose|k: int| 0 <= k < mesh.reports.len() && mesh.reports[k] == after[i];
        assert(concerns(mesh.reports[k], other_group, other_committer, other_enforced));
    }
}

/// Reports stay within their cap.
pub proof fn reports_are_bounded(
    mesh: MeshView,
    group: Seq<char>,
    committer: Seq<char>,
    enforced: bool,
    now: u128,
)
    requires
        mesh.reports.len() <= MAX_UNAUTHORIZED_REPORT_ENTRIES,
    ensures
        mesh.reported(group, committer, enforced, now).reports.len()
            <= MAX_UNAUTHORIZED_REPORT_ENTRIES,
{
    let live = mesh.reports.filter(|r: UnauthorizedReportView| recent(r, now));
    if live.len() > 0 {
        lemma_earliest(times_of::<UnauthorizedReport>(live));
    }
    assert(with_place(mesh.reports, now).len() < MAX_UNAUTHORIZED_REPORT_ENTRIES);
}

/// Suspected forks stay within their cap, and a fork that is known is not
/// detected again.
pub proof fn forks_are_bounded(
    mesh: MeshView,
    group: Seq<char>,
    info: Result<Option<GroupInfoView>, ErrorView>,
    now: u128,
)
    requires
        mesh.wf(),
        mesh.forks.len() <= MAX_EPOCH_FORK_ENTRIES,
    ensures
        mesh.fork_flagged(group, info, now).forks.len() <= MAX_EPOCH_FORK_ENTRIES,
        assoc::known(mesh.fork_flagged(group, info, now).forks, group),
        assoc::known(mesh.forks, group) ==> mesh.fork_flagged(group, info, now) == mesh,
{
    if !assoc::known(mesh.forks, group) {
        if mesh.forks.len() >= MAX_EPOCH_FORK_ENTRIES {
            lemma_earliest(times_in::<EpochForkState>(mesh.forks));
            assert(less_oldest::<EpochForkState>(mesh.forks).len() == mesh.forks.len() - 1);
        }
        let placed = mesh.forks_with_place();
        assert(assoc::distinct(placed));
        assoc::lemma_put(placed, group, mesh.fork_flagged(group, info, now).forks.last().1);
        assert(!assoc::known(placed, group)) by {
            if assoc::known(placed, group) {
                let i = choose|i: int| 0 <= i < placed.len() && #[trigger] placed[i].0 == group;
                if mesh.forks.len() >= MAX_EPOCH_FORK_ENTRIES && i >= earliest(
                    times_in::<EpochForkState>(mesh.forks),
                ) {
                    assert(mesh.forks[i + 1].0 == group);
                } else {
                    assert(mesh.forks[i].0 == group);
                }
            }
        }
    }
}

/// A welcome vouches only for members of the group that was joined.
pub proof fn a_welcome_vouches_only_for_members(
    rich: Seq<(Seq<char>, Seq<u8>)>,
    members: Seq<Seq<char>>,
    i: int,
)
    requires
        0 <= i < attestations(rich, members).len(),
    ensures
        attestations(rich, members)[i] matches EffectView::RecordAttestedRich { user_id, versions }
            && members.contains(user_id) && rich.contains((user_id, versions)),
    decreases rich.len(),
{
    let init = rich.drop_last();
    let early = attestations(init, members);
    if i < early.len() {
        a_welcome_vouches_only_for_members(init, members, i);
        assert(attestations(rich, members)[i] == early[i]);
        let e = (early[i]->RecordAttestedRich_user_id, early[i]->RecordAttestedRich_versions);
        let j = choose|j: int| 0 <= j < init.len() && init[j] == e;
        assert(rich[j] == e);
    } else {
        assert(rich[rich.len() - 1] == rich.last());
    }
}

} // verus!
