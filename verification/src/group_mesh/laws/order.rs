//! All nodes decide alike: the order of members depends on who is in the group
//! and on nothing else.

use vstd::prelude::*;

use crate::error::ErrorView;
use crate::group_mesh::dated::{age, earliest, lemma_earliest, times_of};
use crate::group_mesh::elections::{candidate, leads, takes_over};
use crate::group_mesh::inbound::{elected, with_election};
use crate::group_mesh::limits::{nanos, LEAVE_ELECTION_TIMEOUT_SECS, MAX_PENDING_LEAVE_ELECTIONS};
use crate::group_mesh::roles::promotion;
use crate::group_mesh::types::{
    GroupMetadataView, PendingLeaveElection, PendingLeaveElectionView,
};
use crate::rosters::{lemma_sorted_exists, lemma_without, without};
use crate::text;

verus! {

/// Two rosters with the same members have the same order.
pub proof fn rosters_agree_on_the_order(a: Seq<Seq<char>>, b: Seq<Seq<char>>)
    requires
        a.to_multiset() == b.to_multiset(),
    ensures
        text::sorted(a) == text::sorted(b),
{
    lemma_sorted_exists(a);
    lemma_sorted_exists(b);
    text::lemma_ascending_unique(text::sorted(a), text::sorted(b));
}

proof fn lemma_same_len(a: Seq<Seq<char>>, b: Seq<Seq<char>>)
    requires
        a.to_multiset() == b.to_multiset(),
    ensures
        a.len() == b.len(),
{
    broadcast use vstd::seq_lib::group_to_multiset_ensures;

    assert(a.len() == a.to_multiset().len());
    assert(b.len() == b.to_multiset().len());
}

/// Excluding a name keeps two lists alike.
proof fn lemma_without_multiset(a: Seq<Seq<char>>, who: Seq<char>)
    ensures
        forall|n: Seq<char>| #[trigger]
            without(a, who).to_multiset().count(n) == (if n == who {
                0
            } else {
                a.to_multiset().count(n)
            }),
    decreases a.len(),
{
    broadcast use vstd::seq_lib::group_to_multiset_ensures;

    reveal(Seq::filter);
    let keep = |n: Seq<char>| n != who;
    if a.len() == 0 {
        assert(without(a, who) =~= Seq::empty());
    } else {
        let init = a.drop_last();
        lemma_without_multiset(init, who);
        assert(a =~= init.push(a.last()));
        assert(a.to_multiset() =~= init.to_multiset().insert(a.last()));
        if keep(a.last()) {
            assert(without(a, who) =~= without(init, who).push(a.last()));
            assert(without(a, who).to_multiset() =~= without(init, who).to_multiset().insert(
                a.last(),
            ));
        } else {
            assert(without(a, who) =~= without(init, who));
        }
    }
}

/// Every node elects the same member to resolve a fork, to be promoted, and to
/// remove somebody who leaves, in whatever order it lists the members.
pub proof fn every_node_elects_the_same_member(
    a: Seq<Seq<char>>,
    b: Seq<Seq<char>>,
    me: Seq<char>,
    leaver: Seq<char>,
    metadata: Result<Option<GroupMetadataView>, ErrorView>,
    received_at: u128,
    now: u128,
)
    requires
        a.to_multiset() == b.to_multiset(),
    ensures
        leads(me, a) == leads(me, b),
        promotion(metadata, a) == promotion(metadata, b),
        elected(me, a, leaver) == elected(me, b, leaver),
        candidate(a, leaver, received_at, now) == candidate(b, leaver, received_at, now),
{
    rosters_agree_on_the_order(a, b);
    lemma_same_len(a, b);
    lemma_without_multiset(a, leaver);
    lemma_without_multiset(b, leaver);
    assert(without(a, leaver).to_multiset() =~= without(b, leaver).to_multiset());
    rosters_agree_on_the_order(without(a, leaver), without(b, leaver));
}

/// One member leads, and it is a member.
pub proof fn one_member_leads(a: Seq<char>, b: Seq<char>, members: Seq<Seq<char>>)
    requires
        leads(a, members),
    ensures
        members.contains(a),
        leads(b, members) ==> a == b,
{
    lemma_sorted_exists(members);
    assert(text::sorted(members)[0] == a);
    assert(text::sorted(members).contains(a));
}

/// Nobody comes before the leader in text order.
pub proof fn the_leader_comes_first(a: Seq<char>, members: Seq<Seq<char>>, other: Seq<char>)
    requires
        leads(a, members),
        members.contains(other),
    ensures
        text::text_at_most(a, other),
{
    lemma_sorted_exists(members);
    let sorted = text::sorted(members);
    assert(sorted.contains(other));
    let i = choose|i: int| 0 <= i < sorted.len() && sorted[i] == other;
    if i == 0 {
        text::lemma_text_order_total(a, other);
    } else {
        assert(text::text_at_most(sorted[0], sorted[i]));
    }
}

/// One of the remaining members removes somebody who leaves, and the leaver is
/// not the one.
pub proof fn one_member_removes_the_leaver(
    a: Seq<char>,
    b: Seq<char>,
    members: Seq<Seq<char>>,
    leaver: Seq<char>,
)
    requires
        elected(a, members, leaver),
    ensures
        a != leaver,
        members.contains(a),
        elected(b, members, leaver) ==> a == b,
{
    let rest = without(members, leaver);
    lemma_sorted_exists(rest);
    assert(text::sorted(rest)[0] == a);
    assert(text::sorted(rest).contains(a));
    lemma_without(members, leaver, a);
}

/// At any moment at most one member takes over an election, and it is neither the
/// leaver nor a stranger.
pub proof fn one_member_takes_over(
    a: Seq<char>,
    b: Seq<char>,
    members: Seq<Seq<char>>,
    election: PendingLeaveElectionView,
    now: u128,
)
    requires
        takes_over(a, members, election, now),
    ensures
        takes_over(b, members, election, now) ==> a == b,
        a != election.leaving_member,
        members.contains(a),
{
    let rest = without(members, election.leaving_member);
    let sorted = text::sorted(rest);
    lemma_sorted_exists(rest);
    let turn = age(now, election.received_at) / (nanos(LEAVE_ELECTION_TIMEOUT_SECS) as int);
    assert(turn >= 0) by (nonlinear_arith)
        requires
            turn == age(now, election.received_at) / (nanos(LEAVE_ELECTION_TIMEOUT_SECS) as int),
            age(now, election.received_at) >= 0,
            nanos(LEAVE_ELECTION_TIMEOUT_SECS) as int > 0,
    ;
    if turn < sorted.len() {
        assert(sorted[turn] == a);
    } else {
        assert(sorted[sorted.len() - 1] == a);
    }
    assert(sorted.contains(a));
    lemma_without(members, election.leaving_member, a);
}

/// The tracked elections stay within their bound.
pub proof fn elections_are_bounded(
    elections: Seq<PendingLeaveElectionView>,
    group: Seq<char>,
    leaver: Seq<char>,
    now: u128,
)
    requires
        elections.len() <= MAX_PENDING_LEAVE_ELECTIONS,
    ensures
        with_election(elections, group, leaver, now).len() <= MAX_PENDING_LEAVE_ELECTIONS,
{
    if elections.len() >= MAX_PENDING_LEAVE_ELECTIONS {
        lemma_earliest(times_of::<PendingLeaveElection>(elections));
    }
    let room = if elections.len() >= MAX_PENDING_LEAVE_ELECTIONS {
        elections.remove(earliest(times_of::<PendingLeaveElection>(elections)))
    } else {
        elections
    };
    room.lemma_filter_len(
        |e: PendingLeaveElectionView| !(e.group_id == group && e.leaving_member == leaver),
    );
}

} // verus!
