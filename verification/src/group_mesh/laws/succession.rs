//! Joining and leaving: what a welcome brings, who sees to somebody's leave and
//! when, and who mends a fork.

use vstd::prelude::*;
use vstd::utf8::encode_utf8;

use crate::assoc;
use crate::base64_codec::base64_bytes;
use crate::error::{ErrorView, MlsError};
use crate::group_mesh::commits::elections_without;
use crate::group_mesh::dated::{age, earliest, lemma_earliest, times_in, times_of, younger, Dated, SECOND};
use crate::group_mesh::effect::{EffectView, GroupFrameView, NoticeView, SyncReason};
use crate::group_mesh::elections::{
    candidate, due_elections, election_abandoned, election_over, leads, moved_on, ready_forks,
    takes_over,
};
use crate::group_mesh::inbound::{
    assignments, attestations, declining, elected, joining, welcome_bytes, with_election,
};
use crate::group_mesh::laws::changes::lemma_elections_without;
use crate::group_mesh::limits::{
    nanos, EPOCH_FORK_RESOLUTION_DELAY_SECS, EPOCH_FORK_STALE_SECS,
    LEAVE_ELECTION_ATTEMPT_COOLDOWN_SECS, LEAVE_ELECTION_MAX_LIFETIME_SECS,
    LEAVE_ELECTION_TIMEOUT_SECS, MAX_BASE64_PAYLOAD_SIZE, MAX_EPOCH_FORK_ENTRIES,
    MAX_GROUP_MESSAGE_DEDUP_ENTRIES, MAX_PENDING_LEAVE_ELECTIONS,
};
use crate::group_mesh::membership::{admitted, admitting, creating, expelled, expelling};
use crate::group_mesh::state::MeshView;
use crate::group_mesh::types::{
    EpochForkState, EpochForkStateView, GroupInfoView, GroupMlsLeavePayloadView,
    GroupMlsWelcomePayloadView, GroupRole, PendingLeaveElection, PendingLeaveElectionView,
};
use crate::message::MessagePriority;
use crate::rosters::{lemma_sorted_exists, lemma_without, without};
use crate::text::{lemma_text_order_total, sorted, text_at_most};

verus! {

/// The name is on the list, and none on the list comes before it in text order.
pub open spec fn comes_first(who: Seq<char>, names: Seq<Seq<char>>) -> bool {
    names.contains(who) && forall|n: Seq<char>| #[trigger]
        names.contains(n) ==> text_at_most(who, n)
}

proof fn lemma_comes_first(who: Seq<char>, names: Seq<Seq<char>>)
    ensures
        comes_first(who, names) <==> names.len() > 0 && sorted(names)[0] == who,
{
    lemma_sorted_exists(names);
    let all = sorted(names);
    if names.len() > 0 {
        assert(all.contains(all[0]));
        assert forall|n: Seq<char>| #[trigger] names.contains(n) implies text_at_most(
            all[0],
            n,
        ) by {
            assert(all.contains(n));
            let i = choose|i: int| 0 <= i < all.len() && all[i] == n;
            if i == 0 {
                lemma_text_order_total(n, n);
            } else {
                assert(text_at_most(all[0], all[i]));
            }
        }
        if comes_first(who, names) {
            lemma_text_order_total(all[0], who);
        }
    }
}

/// The member who comes first in text order mends a fork, and nobody else.
pub proof fn the_first_member_mends_a_fork(me: Seq<char>, members: Seq<Seq<char>>)
    ensures
        leads(me, members) <==> comes_first(me, members),
{
    lemma_comes_first(me, members);
}

/// Of those who stay, the member who comes first in text order removes a leaver,
/// and nobody else.
pub proof fn the_first_who_stays_removes_a_leaver(
    me: Seq<char>,
    members: Seq<Seq<char>>,
    leaver: Seq<char>,
)
    ensures
        elected(me, members, leaver) <==> members.contains(me) && me != leaver && (forall|
            n: Seq<char>,
        | #[trigger]
            members.contains(n) && n != leaver ==> text_at_most(me, n)),
{
    let rest = without(members, leaver);
    lemma_comes_first(me, rest);
    lemma_sorted_exists(rest);
    assert forall|n: Seq<char>| #[trigger] rest.contains(n) <==> members.contains(n) && n
        != leaver by {
        lemma_without(members, leaver, n);
    }
    if elected(me, members, leaver) {
        assert forall|n: Seq<char>| #[trigger]
            members.contains(n) && n != leaver implies text_at_most(me, n) by {
            assert(rest.contains(n));
        }
    }
}

/// The roster that MLS reads, and the cached one where it reads none.
pub open spec fn roster_now(
    mesh: MeshView,
    group: Seq<char>,
    info: Result<Option<GroupInfoView>, ErrorView>,
) -> Seq<Seq<char>> {
    match info {
        Ok(Some(i)) => i.members,
        _ => if assoc::known(mesh.members, group) {
            assoc::at(mesh.members, group)
        } else {
            Seq::empty()
        },
    }
}

/// The members that are known of a group are those that MLS reads, and the cached
/// ones where it reads none.
pub proof fn the_known_members_are_the_read_ones(
    mesh: MeshView,
    group: Seq<char>,
    info: Result<Option<GroupInfoView>, ErrorView>,
)
    ensures
        mesh.known_members(group, info) == roster_now(mesh, group, info),
{
}

/// A leave that a member announces for themself has this node remove them where
/// the node comes first of those who stay, and otherwise has it wait for whoever
/// does. A leave of a stranger or for somebody else asks for nothing.
pub proof fn a_leave_is_seen_to(
    mesh: MeshView,
    me: Seq<char>,
    message_id: Seq<char>,
    sender: Seq<char>,
    payload: GroupMlsLeavePayloadView,
    info: Result<Option<GroupInfoView>, ErrorView>,
    now: u128,
)
    requires
        mesh.wf(),
        !assoc::known(mesh.seen, message_id),
        mesh.seen.len() < MAX_GROUP_MESSAGE_DEDUP_ENTRIES,
        mesh.elections.len() < MAX_PENDING_LEAVE_ELECTIONS,
    ensures
        ({
            let members = roster_now(mesh, payload.group_id, info);
            let counts = payload.leaving_member == sender && members.contains(sender);
            let mine = members.contains(me) && me != sender && (forall|n: Seq<char>| #[trigger]
                members.contains(n) && n != sender ==> text_at_most(me, n));
            let all = mesh.noting_leave(me, message_id, sender, Some(payload), info, now);
            let next = mesh.leave_noted(me, message_id, sender, Some(payload), info, now);
            &&& all == (if counts && mine {
                seq![EffectView::RemoveMember { group_id: payload.group_id, user_id: sender }]
            } else {
                Seq::empty()
            })
            &&& assoc::known(next.seen, message_id)
            &&& counts && !mine ==> next.elections.len() > 0 && next.elections.last() == (
            PendingLeaveElectionView {
                group_id: payload.group_id,
                leaving_member: sender,
                received_at: now,
                last_attempt_at: None,
            })
            &&& counts && mine ==> (forall|e: PendingLeaveElectionView| #[trigger]
                next.elections.contains(e) ==> !(e.group_id == payload.group_id && e.leaving_member
                    == sender))
            &&& !counts ==> next.elections == mesh.elections
            &&& forall|e: PendingLeaveElectionView|
                #![trigger mesh.elections.contains(e)]
                mesh.elections.contains(e) && !(e.group_id == payload.group_id && e.leaving_member
                    == sender) ==> next.elections.contains(e)
        }),
{
    let group = payload.group_id;
    let members = roster_now(mesh, group, info);
    the_first_who_stays_removes_a_leaver(me, members, sender);
    assoc::lemma_put(mesh.seen, message_id, now);
    let kept = elections_without(mesh.elections, group, sender);
    assert forall|e: PendingLeaveElectionView| #[trigger] kept.contains(e) <==> (
    mesh.elections.contains(e) && !(e.group_id == group && e.leaving_member == sender)) by {
        lemma_elections_without(mesh.elections, group, sender, e);
    }
    let one = PendingLeaveElectionView {
        group_id: group,
        leaving_member: sender,
        received_at: now,
        last_attempt_at: None,
    };
    let next = mesh.leave_noted(me, message_id, sender, Some(payload), info, now);
    assert forall|e: PendingLeaveElectionView|
        #![trigger mesh.elections.contains(e)]
        mesh.elections.contains(e) && !(e.group_id == group && e.leaving_member
            == sender) implies next.elections.contains(e) by {
        assert(kept.contains(e));
        let i = choose|i: int| 0 <= i < kept.len() && kept[i] == e;
        assert(kept.push(one)[i] == e);
    }
}

/// Where every place for an election is taken, the one that has waited longest
/// makes way for a new one.
pub proof fn the_longest_waiting_election_makes_way(
    elections: Seq<PendingLeaveElectionView>,
    group: Seq<char>,
    leaver: Seq<char>,
    now: u128,
    e: PendingLeaveElectionView,
)
    requires
        elections.len() >= MAX_PENDING_LEAVE_ELECTIONS,
        elections.contains(e),
        !(e.group_id == group && e.leaving_member == leaver),
        exists|o: PendingLeaveElectionView| #[trigger]
            elections.contains(o) && o.received_at < e.received_at,
    ensures
        with_election(elections, group, leaver, now).contains(e),
{
    let times = times_of::<PendingLeaveElection>(elections);
    lemma_earliest(times);
    let at = earliest(times);
    let o = choose|o: PendingLeaveElectionView| #[trigger]
        elections.contains(o) && o.received_at < e.received_at;
    let k = choose|k: int| 0 <= k < elections.len() && elections[k] == o;
    assert(times[at] <= times[k]);
    let i = choose|i: int| 0 <= i < elections.len() && elections[i] == e;
    assert(i != at);
    let room = elections.remove(at);
    if i < at {
        assert(room[i] == e);
    } else {
        assert(room[i - 1] == e);
    }
    lemma_elections_without(room, group, leaver, e);
    let kept = elections_without(room, group, leaver);
    let j = choose|j: int| 0 <= j < kept.len() && kept[j] == e;
    assert(with_election(elections, group, leaver, now)[j] == e);
}

/// Those who stay take turns at removing a leaver, in text order, each for the
/// time-out; the last of them keeps the turn. One takes over only at their turn,
/// while the leaver is still there, and not again until the pause since their
/// last attempt is over.
pub proof fn those_who_stay_take_turns(
    me: Seq<char>,
    members: Seq<Seq<char>>,
    election: PendingLeaveElectionView,
    now: u128,
)
    requires
        election.received_at <= now,
    ensures
        ({
            let others = sorted(without(members, election.leaving_member));
            let turn = (now - election.received_at) / (LEAVE_ELECTION_TIMEOUT_SECS * SECOND);
            let place = if turn < others.len() {
                turn
            } else {
                others.len() - 1
            };
            &&& candidate(members, election.leaving_member, election.received_at, now) == (
            if others.len() == 0 {
                None
            } else {
                Some(others[place])
            })
            &&& takes_over(me, members, election, now) <==> {
                &&& members.contains(election.leaving_member)
                &&& others.len() > 0 && others[place] == me
                &&& election.last_attempt_at matches Some(last) ==> now >= last
                    + LEAVE_ELECTION_ATTEMPT_COOLDOWN_SECS * SECOND
            }
        }),
{
}

/// An election is looked at once its time-out is over and until its lifetime is;
/// past its lifetime it is given up.
pub proof fn an_overdue_election_is_reviewed(
    elections: Seq<PendingLeaveElectionView>,
    now: u128,
    effect: EffectView,
)
    ensures
        due_elections(elections, now).contains(effect) <==> exists|i: int|
            0 <= i < elections.len() && effect == (EffectView::ReviewElection {
                group_id: (#[trigger] elections[i]).group_id,
                user_id: elections[i].leaving_member,
            }) && now > elections[i].received_at + LEAVE_ELECTION_TIMEOUT_SECS * SECOND && now
                <= elections[i].received_at + LEAVE_ELECTION_MAX_LIFETIME_SECS * SECOND,
        forall|i: int|
            0 <= i < elections.len() ==> (election_abandoned(#[trigger] elections[i], now) <==> now
                > elections[i].received_at + LEAVE_ELECTION_MAX_LIFETIME_SECS * SECOND),
    decreases elections.len(),
{
    broadcast use vstd::seq_lib::group_seq_properties;

    if elections.len() > 0 {
        let init = elections.drop_last();
        let last = elections.len() - 1;
        an_overdue_election_is_reviewed(init, now, effect);
        if due_elections(init, now).contains(effect) {
            let i = choose|i: int|
                0 <= i < init.len() && effect == (EffectView::ReviewElection {
                    group_id: (#[trigger] init[i]).group_id,
                    user_id: init[i].leaving_member,
                }) && now > init[i].received_at + LEAVE_ELECTION_TIMEOUT_SECS * SECOND && now
                    <= init[i].received_at + LEAVE_ELECTION_MAX_LIFETIME_SECS * SECOND;
            assert(elections[i] == init[i]);
        }
        assert forall|i: int|
            0 <= i < elections.len() && effect == (EffectView::ReviewElection {
                group_id: (#[trigger] elections[i]).group_id,
                user_id: elections[i].leaving_member,
            }) && now > elections[i].received_at + LEAVE_ELECTION_TIMEOUT_SECS * SECOND && now
                <= elections[i].received_at + LEAVE_ELECTION_MAX_LIFETIME_SECS
                * SECOND implies due_elections(elections, now).contains(effect) by {
            if i < last {
                assert(init[i] == elections[i]);
            }
        }
        assert(elections[last] == elections.last());
    }
}

/// A review ends the election over somebody who is gone, notes the attempt where
/// this node takes over, and otherwise leaves the elections as they are.
pub proof fn a_review_ends_or_notes_an_election(
    mesh: MeshView,
    me: Seq<char>,
    group: Seq<char>,
    leaver: Seq<char>,
    info: Result<Option<GroupInfoView>, ErrorView>,
    now: u128,
    election: PendingLeaveElectionView,
    e: PendingLeaveElectionView,
)
    requires
        election_over(mesh.elections, group, leaver) == Some(election),
    ensures
        ({
            let members = roster_now(mesh, group, info);
            let next = mesh.election_reviewed(me, group, leaver, info, now);
            let about = e.group_id == group && e.leaving_member == leaver;
            &&& !members.contains(leaver) ==> (next.elections.contains(e)
                <==> mesh.elections.contains(e) && !about)
            &&& members.contains(leaver) && !takes_over(me, members, election, now)
                ==> next.elections == mesh.elections
            &&& members.contains(leaver) && takes_over(me, members, election, now)
                ==> next.elections.len() == mesh.elections.len() && (forall|i: int|
                0 <= i < mesh.elections.len() ==> (#[trigger] next.elections[i]) == (
                PendingLeaveElectionView {
                    last_attempt_at: if mesh.elections[i].group_id == group
                        && mesh.elections[i].leaving_member == leaver {
                        Some(now)
                    } else {
                        mesh.elections[i].last_attempt_at
                    },
                    ..mesh.elections[i]
                }))
        }),
{
    lemma_elections_without(mesh.elections, group, leaver, e);
}

/// The election over a leave is the one about that member of that group, where
/// there is one.
pub proof fn an_election_is_found(
    elections: Seq<PendingLeaveElectionView>,
    group: Seq<char>,
    leaver: Seq<char>,
)
    ensures
        election_over(elections, group, leaver) is Some <==> exists|i: int|
            0 <= i < elections.len() && (#[trigger] elections[i]).group_id == group
                && elections[i].leaving_member == leaver,
        election_over(elections, group, leaver) matches Some(e) ==> elections.contains(e)
            && e.group_id == group && e.leaving_member == leaver,
    decreases elections.len(),
{
    if elections.len() > 0 {
        let rest = elections.drop_first();
        an_election_is_found(rest, group, leaver);
        if elections[0].group_id == group && elections[0].leaving_member == leaver {
            assert(elections.contains(elections[0]));
        } else {
            if let Some(e) = election_over(rest, group, leaver) {
                let i = choose|i: int| 0 <= i < rest.len() && rest[i] == e;
                assert(elections[i + 1] == e);
            }
            assert forall|i: int|
                0 <= i < elections.len() && (#[trigger] elections[i]).group_id == group
                    && elections[i].leaving_member == leaver implies election_over(
                rest,
                group,
                leaver,
            ) is Some by {
                assert(rest[i - 1] == elections[i]);
            }
        }
    }
}

/// A suspected fork is taken up once, after the delay: exactly the forks that have
/// waited longer and were not tried yet.
pub proof fn a_ripe_fork_is_taken_up(
    forks: Seq<(Seq<char>, EpochForkStateView)>,
    now: u128,
    effect: EffectView,
)
    ensures
        ready_forks(forks, now).contains(effect) <==> exists|i: int|
            0 <= i < forks.len() && effect == (EffectView::ResolveFork {
                group_id: (#[trigger] forks[i]).0,
                local_epoch: forks[i].1.local_epoch,
            }) && !forks[i].1.resolution_attempted && now > forks[i].1.detected_at
                + EPOCH_FORK_RESOLUTION_DELAY_SECS * SECOND,
    decreases forks.len(),
{
    broadcast use vstd::seq_lib::group_seq_properties;

    if forks.len() > 0 {
        let init = forks.drop_last();
        let last = forks.len() - 1;
        a_ripe_fork_is_taken_up(init, now, effect);
        if ready_forks(init, now).contains(effect) {
            let i = choose|i: int|
                0 <= i < init.len() && effect == (EffectView::ResolveFork {
                    group_id: (#[trigger] init[i]).0,
                    local_epoch: init[i].1.local_epoch,
                }) && !init[i].1.resolution_attempted && now > init[i].1.detected_at
                    + EPOCH_FORK_RESOLUTION_DELAY_SECS * SECOND;
            assert(forks[i] == init[i]);
        }
        assert forall|i: int|
            0 <= i < forks.len() && effect == (EffectView::ResolveFork {
                group_id: (#[trigger] forks[i]).0,
                local_epoch: forks[i].1.local_epoch,
            }) && !forks[i].1.resolution_attempted && now > forks[i].1.detected_at
                + EPOCH_FORK_RESOLUTION_DELAY_SECS * SECOND implies ready_forks(
            forks,
            now,
        ).contains(effect) by {
            if i < last {
                assert(init[i] == forks[i]);
            }
        }
        assert(forks[last] == forks.last());
    }
}

/// A fork is over where the group has moved to a later epoch since it was
/// detected: it is forgotten. Otherwise it is marked as tried, once.
pub proof fn a_fork_ends_with_the_epoch(
    mesh: MeshView,
    group: Seq<char>,
    local_epoch: Option<u64>,
    info: Result<Option<GroupInfoView>, ErrorView>,
    other: Seq<char>,
)
    requires
        mesh.wf(),
    ensures
        ({
            let later = local_epoch is Some && (info matches Ok(Some(i)) && i.epoch
                > local_epoch->0);
            let next = mesh.fork_reviewed(group, local_epoch, info);
            &&& moved_on(local_epoch, info) <==> later
            &&& later ==> !assoc::known(next.forks, group)
            &&& !later && assoc::known(mesh.forks, group) ==> assoc::known(next.forks, group)
                && assoc::at(next.forks, group) == (EpochForkStateView {
                resolution_attempted: true,
                ..assoc::at(mesh.forks, group)
            })
            &&& other != group ==> assoc::lookup(next.forks, other) == assoc::lookup(
                mesh.forks,
                other,
            )
        }),
{
    assoc::lemma_del(mesh.forks, group);
    if assoc::known(mesh.forks, group) {
        assoc::lemma_put(
            mesh.forks,
            group,
            EpochForkStateView { resolution_attempted: true, ..assoc::at(mesh.forks, group) },
        );
    }
}

/// A fork that is suspected for the first time is on record with the epoch that
/// the group is at and the time, and has not been tried.
pub proof fn a_new_fork_is_on_record(
    mesh: MeshView,
    group: Seq<char>,
    info: Result<Option<GroupInfoView>, ErrorView>,
    now: u128,
)
    requires
        mesh.wf(),
        !assoc::known(mesh.forks, group),
        mesh.forks.len() < MAX_EPOCH_FORK_ENTRIES,
    ensures
        ({
            let next = mesh.fork_flagged(group, info, now);
            &&& assoc::known(next.forks, group)
            &&& assoc::at(next.forks, group) == (EpochForkStateView {
                local_epoch: match info {
                    Ok(Some(i)) => Some(i.epoch),
                    _ => None,
                },
                detected_at: now,
                resolution_attempted: false,
            })
        }),
{
    assoc::lemma_put(
        mesh.forks,
        group,
        EpochForkStateView {
            local_epoch: match info {
                Ok(Some(i)) => Some(i.epoch),
                _ => None,
            },
            detected_at: now,
            resolution_attempted: false,
        },
    );
}

/// Whoever joins by a welcome records what it says: what it vouches for of those
/// who are members, every role and the creator; answers the inviter with a key
/// package, announces that they were added by the inviter, and tries what was
/// buffered for the group. Nothing else happens.
pub proof fn a_welcome_is_taken_at_its_word(
    me: Seq<char>,
    sender: Seq<char>,
    payload: GroupMlsWelcomePayloadView,
    members: Seq<Seq<char>>,
    effect: EffectView,
)
    ensures
        joining(me, sender, payload, members).contains(effect) <==> match effect {
            EffectView::RecordAttestedRich { user_id, versions } => members.contains(user_id)
                && payload.member_rich.contains((user_id, versions)),
            EffectView::SetMemberRole { group_id, user_id, role } => group_id == payload.group_id
                && payload.member_roles.contains((user_id, role)),
            EffectView::SetGroupCreator { group_id, creator } => group_id == payload.group_id
                && payload.created_by == Some(creator),
            EffectView::SendKeyPackage { user_id } => user_id == sender,
            EffectView::Notify(notice) => notice == (NoticeView::MemberAdded {
                group_id: payload.group_id,
                user_id: me,
                added_by: sender,
                group_name: payload.group_name,
                authorized: None,
            }),
            EffectView::DrainCommits { group_id } => group_id == payload.group_id,
            EffectView::DrainMessages { group_id } => group_id == payload.group_id,
            _ => false,
        },
{
    broadcast use vstd::seq_lib::group_seq_properties;

    let group = payload.group_id;
    let rich = attestations(payload.member_rich, members);
    let roles = assignments(group, payload.member_roles);
    let creator: Seq<EffectView> = match payload.created_by {
        Some(creator) => seq![EffectView::SetGroupCreator { group_id: group, creator }],
        None => Seq::empty(),
    };
    let told: Seq<EffectView> = seq![
        EffectView::SendKeyPackage { user_id: sender },
        EffectView::Notify(
            NoticeView::MemberAdded {
                group_id: group,
                user_id: me,
                added_by: sender,
                group_name: payload.group_name,
                authorized: None,
            },
        ),
    ];
    let drain: Seq<EffectView> = seq![
        EffectView::DrainCommits { group_id: group },
        EffectView::DrainMessages { group_id: group },
    ];
    assert(joining(me, sender, payload, members) == rich + roles + creator + told + drain);
    lemma_attested(payload.member_rich, members, effect);
    lemma_assigned(group, payload.member_roles, effect);
    assert(told[0] is SendKeyPackage && told[1] is Notify);
    assert(drain[0] is DrainCommits && drain[1] is DrainMessages);
    if payload.created_by is Some {
        assert(creator[0] is SetGroupCreator);
    }
}

proof fn lemma_attested(
    rich: Seq<(Seq<char>, Seq<u8>)>,
    members: Seq<Seq<char>>,
    effect: EffectView,
)
    ensures
        attestations(rich, members).contains(effect) <==> (effect matches
            EffectView::RecordAttestedRich { user_id, versions } && members.contains(user_id)
            && rich.contains((user_id, versions))),
    decreases rich.len(),
{
    broadcast use vstd::seq_lib::group_seq_properties;

    if rich.len() > 0 {
        let init = rich.drop_last();
        lemma_attested(init, members, effect);
        assert(rich =~= init.push(rich.last()));
        assert(forall|e: (Seq<char>, Seq<u8>)|
            rich.contains(e) <==> #[trigger] init.contains(e) || e == rich.last());
    }
}

proof fn lemma_assigned(
    group: Seq<char>,
    roles: Seq<(Seq<char>, GroupRole)>,
    effect: EffectView,
)
    ensures
        assignments(group, roles).contains(effect) <==> (effect matches EffectView::SetMemberRole {
            group_id,
            user_id,
            role,
        } && group_id == group && roles.contains((user_id, role))),
{
    let all = assignments(group, roles);
    if all.contains(effect) {
        let i = choose|i: int| 0 <= i < all.len() && all[i] == effect;
        assert(roles.contains(roles[i]));
    }
    if let EffectView::SetMemberRole { group_id, user_id, role } = effect {
        if group_id == group && roles.contains((user_id, role)) {
            let i = choose|i: int| 0 <= i < roles.len() && roles[i] == (user_id, role);
            assert(all[i] == effect);
        }
    }
}

/// A welcome that MLS refuses is told of only where it would seat a forged
/// identity, and then with who delivered it.
pub proof fn a_forged_welcome_is_told(sender: Seq<char>, error: MlsError)
    ensures
        declining(sender, error) == (if error is LeafAddressMismatch {
            seq![EffectView::Notify(NoticeView::LeafUnproven { peer_id: sender })]
        } else {
            Seq::empty()
        }),
{
}

/// A group that was made is announced under its name and goes to the relay with
/// its roster.
pub proof fn a_new_group_is_announced(info: GroupInfoView, name: Seq<char>)
    ensures
        creating(info, name) == seq![
            EffectView::Notify(NoticeView::Created { group_id: info.group_id, name }),
            EffectView::RegisterWithRelay {
                group_id: info.group_id,
                group_name: Some(name),
                members: info.members,
            },
        ],
{
}

/// Marking a fork as tried, or as to be tried again, changes that and nothing else
/// of it, and no other fork.
pub proof fn a_fork_is_marked(
    mesh: MeshView,
    group: Seq<char>,
    attempted: bool,
    other: Seq<char>,
)
    requires
        mesh.wf(),
    ensures
        ({
            let next = mesh.fork_attempted(group, attempted);
            &&& assoc::known(next.forks, other) == assoc::known(mesh.forks, other)
            &&& assoc::known(mesh.forks, group) ==> assoc::at(next.forks, group) == (
            EpochForkStateView {
                local_epoch: assoc::at(mesh.forks, group).local_epoch,
                detected_at: assoc::at(mesh.forks, group).detected_at,
                resolution_attempted: attempted,
            })
            &&& other != group && assoc::known(mesh.forks, other) ==> assoc::at(next.forks, other)
                == assoc::at(mesh.forks, other)
            &&& next == (MeshView { forks: next.forks, ..mesh })
        }),
{
    if assoc::known(mesh.forks, group) {
        assoc::lemma_put(
            mesh.forks,
            group,
            EpochForkStateView { resolution_attempted: attempted, ..assoc::at(mesh.forks, group) },
        );
    }
}

/// A welcome is handed to MLS where it parsed, was not seen before, is for a group
/// that this node is not in, and carries base64 of a size that is taken.
pub proof fn a_new_welcome_is_handed_to_mls(
    mesh: MeshView,
    message_id: Seq<char>,
    payload: GroupMlsWelcomePayloadView,
)
    ensures
        welcome_bytes(mesh, message_id, None) is None,
        welcome_bytes(mesh, message_id, Some(payload)) == (if !assoc::known(mesh.seen, message_id)
            && !assoc::known(mesh.members, payload.group_id) && encode_utf8(
            payload.welcome_data,
        ).len() <= MAX_BASE64_PAYLOAD_SIZE {
            base64_bytes(payload.welcome_data)
        } else {
            None
        }),
{
}

/// A suspected fork is forgotten once it is stale.
pub proof fn a_stale_fork_is_forgotten(
    forks: Seq<(Seq<char>, EpochForkStateView)>,
    now: u128,
    fork: (Seq<char>, EpochForkStateView),
)
    ensures
        younger::<EpochForkState>(forks, now, nanos(EPOCH_FORK_STALE_SECS)).contains(fork)
            <==> forks.contains(fork) && now < fork.1.detected_at + EPOCH_FORK_STALE_SECS * SECOND,
{
    lemma_younger_kept::<EpochForkState>(forks, now, nanos(EPOCH_FORK_STALE_SECS), fork);
}

proof fn lemma_younger_kept<V: Dated>(
    table: Seq<(Seq<char>, V::V)>,
    now: u128,
    limit: u128,
    e: (Seq<char>, V::V),
)
    ensures
        younger::<V>(table, now, limit).contains(e) <==> table.contains(e) && age(
            now,
            V::dated(e.1),
        ) < limit,
{
    let keep = |e: (Seq<char>, V::V)| age(now, V::dated(e.1)) < limit;
    let kept = table.filter(keep);
    if kept.contains(e) {
        let i = choose|i: int| 0 <= i < kept.len() && kept[i] == e;
        table.lemma_filter_pred(keep, i);
        table.lemma_filter_contains_rev(keep, e);
    }
    if table.contains(e) && keep(e) {
        let i = choose|i: int| 0 <= i < table.len() && table[i] == e;
        table.lemma_filter_contains(keep, i);
    }
}

/// Leaving the relay is told of a group that the relay had or was getting, with
/// the reason, and of no other.
pub proof fn a_group_is_told_to_leave_the_relay(
    mesh: MeshView,
    group: Seq<char>,
    reason: SyncReason,
)
    ensures
        mesh.unsyncing(group, reason) == (if assoc::known(mesh.synced, group) || assoc::known(
            mesh.registering,
            group,
        ) {
            seq![EffectView::Notify(NoticeView::RelayUnsynced { group_id: group, reason })]
        } else {
            Seq::empty()
        }),
{
}

/// Whoever is invited spends their key package and gets one of this node, and is a
/// plain member on record where the group could be read; once the frames are out
/// they are announced as added by this node, with authority, and the relay gets
/// the roster.
pub proof fn an_invitee_is_admitted(
    me: Seq<char>,
    group: Seq<char>,
    invitee: Seq<char>,
    members: Seq<Seq<char>>,
    read: bool,
    effect: EffectView,
)
    ensures
        admitting(group, invitee, read).contains(effect) <==> match effect {
            EffectView::ConsumeKeyPackage { user_id } => user_id == invitee,
            EffectView::SendKeyPackage { user_id } => user_id == invitee,
            EffectView::SetMemberRole { group_id, user_id, role } => read && group_id == group
                && user_id == invitee && role == GroupRole::Member,
            _ => false,
        },
        admitted(me, group, invitee, members).contains(effect) <==> match effect {
            EffectView::Notify(
                NoticeView::MemberAdded { group_id, user_id, added_by, group_name, authorized },
            ) => group_id == group && user_id == invitee && added_by == me && group_name is None
                && authorized == Some(true),
            EffectView::RegisterWithRelay { group_id, group_name, members: roster } => group_id
                == group && group_name is None && roster == members,
            _ => false,
        },
{
    let first = admitting(group, invitee, read);
    assert(first[0] is ConsumeKeyPackage && first[1] is SendKeyPackage);
    if read {
        assert(first[2] is SetMemberRole);
    }
    let then = admitted(me, group, invitee, members);
    assert(then[0] is Notify && then[1] is RegisterWithRelay);
}

/// Whoever is removed loses their role, and the group is looked over for an admin;
/// once the commit is out they alone are told of it directly, the removal is
/// announced as this node's, with authority, and the relay gets the roster.
pub proof fn a_removed_member_is_told(
    me: Seq<char>,
    group: Seq<char>,
    member: Seq<char>,
    members: Seq<Seq<char>>,
    effect: EffectView,
)
    ensures
        expelling(group, member, members).contains(effect) <==> match effect {
            EffectView::RemoveMemberRole { group_id, user_id } => group_id == group && user_id
                == member,
            EffectView::AutoPromote { group_id, members: roster } => group_id == group && roster
                == members,
            _ => false,
        },
        expelled(me, group, member, members).contains(effect) <==> match effect {
            EffectView::Send { recipients, frame, priority } => {
                &&& recipients == seq![member] && priority == MessagePriority::High
                &&& frame matches GroupFrameView::MemberRemoved(told) && told.group_id == group
                    && told.user_id == member && told.removed_by == me
            },
            EffectView::Notify(
                NoticeView::MemberRemoved { group_id, user_id, removed_by, authorized },
            ) => group_id == group && user_id == member && removed_by == me && authorized == Some(
                true,
            ),
            EffectView::RegisterWithRelay { group_id, group_name, members: roster } => group_id
                == group && group_name is None && roster == members,
            _ => false,
        },
{
    let first = expelling(group, member, members);
    assert(first[0] is RemoveMemberRole && first[1] is AutoPromote);
    let then = expelled(me, group, member, members);
    assert(then[0] is Send && then[1] is Notify && then[2] is RegisterWithRelay);
}

/// Where every place for a suspected fork is taken, the one that was detected
/// first makes way for a new one: any that was detected after another stays.
pub proof fn the_first_detected_fork_makes_way(
    mesh: MeshView,
    group: Seq<char>,
    info: Result<Option<GroupInfoView>, ErrorView>,
    now: u128,
    fork: (Seq<char>, EpochForkStateView),
    earlier: (Seq<char>, EpochForkStateView),
)
    requires
        mesh.wf(),
        !assoc::known(mesh.forks, group),
        mesh.forks.len() >= MAX_EPOCH_FORK_ENTRIES,
        mesh.forks.contains(fork),
        mesh.forks.contains(earlier),
        earlier.1.detected_at < fork.1.detected_at,
    ensures
        mesh.fork_flagged(group, info, now).forks.contains(fork),
{
    let times = times_in::<EpochForkState>(mesh.forks);
    lemma_earliest(times);
    let at = earliest(times);
    let k = choose|k: int| 0 <= k < mesh.forks.len() && mesh.forks[k] == earlier;
    let i = choose|i: int| 0 <= i < mesh.forks.len() && mesh.forks[i] == fork;
    assert(times[at] <= times[k] && times[k] == earlier.1.detected_at && times[i]
        == fork.1.detected_at);
    let room = mesh.forks.remove(at);
    let j = if i < at {
        i
    } else {
        i - 1
    };
    assert(room[j] == fork);
    assert(!assoc::known(room, group)) by {
        if assoc::known(room, group) {
            let q = choose|q: int| 0 <= q < room.len() && #[trigger] room[q].0 == group;
            let r = if q < at {
                q
            } else {
                q + 1
            };
            assert(mesh.forks[r].0 == group);
        }
    }
    assert(mesh.fork_flagged(group, info, now).forks[j] == fork);
}

} // verus!
