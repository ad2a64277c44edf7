//! Tables whose entries carry a time: finding the oldest entry, and dropping
//! those that have aged.

use vstd::prelude::*;

use crate::assoc;
use crate::assoc::StrMap;

verus! {

/// Nanoseconds in a second.
pub const SECOND: u128 = 1_000_000_000;

/// How long before `now` the time `then` was; nothing where it lies ahead.
pub open spec fn age(now: u128, then: u128) -> int {
    if now >= then {
        now - then
    } else {
        0
    }
}

/// How long before `now` the time `then` was.
pub fn age_of(now: u128, then: u128) -> (r: u128)
    ensures
        r == age(now, then),
{
    if now >= then {
        now - then
    } else {
        0
    }
}

/// Something with a monotonic time.
pub trait Dated: DeepView {
    /// The time that a value carries.
    spec fn dated(value: Self::V) -> u128;

    /// The time that this value carries.
    fn date(&self) -> (t: u128)
        ensures
            t == Self::dated(self.deep_view()),
    ;
}

impl Dated for u128 {
    open spec fn dated(value: u128) -> u128 {
        value
    }

    fn date(&self) -> (t: u128) {
        *self
    }
}

/// The place of the earliest time, the first of equal ones.
pub open spec fn earliest(times: Seq<int>) -> int
    decreases times.len(),
{
    if times.len() <= 1 {
        0
    } else {
        let best = earliest(times.drop_last());
        if times.last() < times[best] {
            times.len() - 1
        } else {
            best
        }
    }
}

/// No time is before the earliest one.
pub proof fn lemma_earliest(times: Seq<int>)
    requires
        times.len() > 0,
    ensures
        0 <= earliest(times) < times.len(),
        forall|i: int| 0 <= i < times.len() ==> times[earliest(times)] <= #[trigger] times[i],
    decreases times.len(),
{
    if times.len() > 1 {
        lemma_earliest(times.drop_last());
        let init = times.drop_last();
        assert forall|i: int| 0 <= i < times.len() implies times[earliest(times)]
            <= #[trigger] times[i] by {
            if i < init.len() {
                assert(init[earliest(init)] <= init[i]);
            }
        }
    }
}

/// The times in a table, in order.
pub open spec fn times_in<V: Dated>(table: Seq<(Seq<char>, V::V)>) -> Seq<int> {
    table.map_values(|e: (Seq<char>, V::V)| V::dated(e.1) as int)
}

/// The times in a list, in order.
pub open spec fn times_of<E: Dated>(list: Seq<E::V>) -> Seq<int> {
    list.map_values(|e: E::V| E::dated(e) as int)
}

/// The table without its oldest entry.
pub open spec fn less_oldest<V: Dated>(table: Seq<(Seq<char>, V::V)>) -> Seq<(Seq<char>, V::V)> {
    table.remove(earliest(times_in::<V>(table)))
}

/// The table cut to `max` entries, the oldest leaving first.
pub open spec fn newest<V: Dated>(table: Seq<(Seq<char>, V::V)>, max: nat) -> Seq<
    (Seq<char>, V::V),
>
    decreases table.len(),
{
    if table.len() <= max {
        table
    } else {
        proof {
            lemma_earliest(times_in::<V>(table));
        }
        newest::<V>(less_oldest::<V>(table), max)
    }
}

/// The entries younger than `limit`.
pub open spec fn younger<V: Dated>(
    table: Seq<(Seq<char>, V::V)>,
    now: u128,
    limit: u128,
) -> Seq<(Seq<char>, V::V)> {
    table.filter(|e: (Seq<char>, V::V)| age(now, V::dated(e.1)) < limit)
}

/// The place of the oldest entry.
pub fn oldest_at<V: Dated>(table: &StrMap<V>) -> (r: usize)
    requires
        table@.len() > 0,
    ensures
        r < table@.len(),
        r == earliest(times_in::<V>(table@)),
{
    let ghost times = times_in::<V>(table@);
    let mut best: usize = 0;
    let mut i: usize = 1;
    assert(times.take(1) =~= seq![times[0]]);
    while i < table.len()
        invariant
            1 <= i <= table@.len(),
            best < i,
            times == times_in::<V>(table@),
            best == earliest(times.take(i as int)),
        decreases table@.len() - i,
    {
        proof {
            assert(times.take(i + 1).drop_last() =~= times.take(i as int));
            assert(times.take(i + 1).last() == times[i as int]);
            assert(times.take(i + 1)[best as int] == times[best as int]);
            assert(times[i as int] == V::dated(table@[i as int].1));
            assert(times[best as int] == V::dated(table@[best as int].1));
        }
        if table.value_at(i).date() < table.value_at(best).date() {
            best = i;
        }
        i = i + 1;
    }
    assert(times.take(i as int) =~= times);
    best
}

/// Removes the oldest entry.
pub fn drop_oldest<V: Dated>(table: &mut StrMap<V>)
    requires
        old(table).wf(),
        old(table)@.len() > 0,
    ensures
        final(table).wf(),
        final(table)@ == less_oldest::<V>(old(table)@),
        final(table)@.len() == old(table)@.len() - 1,
{
    let i = oldest_at(table);
    proof {
        assoc::lemma_position(table@, i as int);
        assoc::lemma_del(table@, table@[i as int].0);
    }
    let _ = table.remove_at(i);
}

/// Cuts the table to `max` entries, the oldest leaving first.
pub fn keep_newest<V: Dated>(table: &mut StrMap<V>, max: usize)
    requires
        old(table).wf(),
    ensures
        final(table).wf(),
        final(table)@ == newest::<V>(old(table)@, max as nat),
{
    while table.len() > max
        invariant
            table.wf(),
            newest::<V>(table@, max as nat) == newest::<V>(old(table)@, max as nat),
        decreases table@.len(),
    {
        drop_oldest(table);
    }
}

/// Filtering with one more entry in front.
pub proof fn lemma_filter_front<A>(first: A, rest: Seq<A>, keep: spec_fn(A) -> bool)
    ensures
        (seq![first] + rest).filter(keep) == (if keep(first) {
            seq![first] + rest.filter(keep)
        } else {
            rest.filter(keep)
        }),
{
    Seq::filter_distributes_over_add(seq![first], rest, keep);
    reveal(Seq::filter);
    assert(seq![first].drop_last() =~= Seq::empty());
    assert(Seq::<A>::empty().filter(keep) =~= Seq::empty());
    if keep(first) {
        assert(seq![first].filter(keep) =~= seq![first]);
    } else {
        assert(seq![first].filter(keep) =~= Seq::empty());
        assert(Seq::<A>::empty() + rest.filter(keep) =~= rest.filter(keep));
    }
}

/// Keeps the elements that pass `test`, in order. `keep` is what it tests.
pub(crate) fn keep_if<T: DeepView, F: Fn(&T) -> bool>(
    list: &mut Vec<T>,
    test: F,
    Ghost(keep): Ghost<spec_fn(T::V) -> bool>,
)
    requires
        forall|e: &T| call_requires(test, (e,)),
        forall|e: &T, b: bool| call_ensures(test, (e,), b) ==> b == keep(e.deep_view()),
    ensures
        final(list).deep_view() == old(list).deep_view().filter(keep),
{
    let ghost all = list.deep_view();
    let mut i: usize = list.len();
    proof {
        reveal(Seq::filter);
        assert(all.skip(i as int) =~= Seq::empty());
        assert(all.take(i as int) + all.skip(i as int).filter(keep) =~= all);
    }
    while i > 0
        invariant
            i <= all.len(),
            forall|e: &T| call_requires(test, (e,)),
            forall|e: &T, b: bool| call_ensures(test, (e,), b) ==> b == keep(e.deep_view()),
            list.deep_view() == all.take(i as int) + all.skip(i as int).filter(keep),
        decreases i,
    {
        i = i - 1;
        let ghost before = list.deep_view();
        assert(before[i as int] == all[i as int]);
        assert(before.len() == list@.len());
        proof {
            assert(all.skip(i as int) =~= seq![all[i as int]] + all.skip(i + 1));
            lemma_filter_front(all[i as int], all.skip(i + 1), keep);
        }
        if !test(&list[i]) {
            let _ = list.remove(i);
            assert(list.deep_view() =~= before.remove(i as int));
        }
        assert(list.deep_view() =~= all.take(i as int) + all.skip(i as int).filter(keep));
    }
    assert(all.skip(0) =~= all);
    assert(list.deep_view() =~= all.filter(keep));
}

/// Keeps the entries younger than `limit`.
pub fn keep_younger<V: Dated>(table: &mut StrMap<V>, now: u128, limit: u128)
    requires
        old(table).wf(),
    ensures
        final(table).wf(),
        final(table)@ == younger::<V>(old(table)@, now, limit),
{
    let ghost all = table@;
    let ghost keep = |e: (Seq<char>, V::V)| age(now, V::dated(e.1)) < limit;
    let mut i: usize = table.len();
    proof {
        reveal(Seq::filter);
        assert(all.skip(i as int) =~= Seq::empty());
        assert(all.take(i as int) + all.skip(i as int).filter(keep) =~= all);
    }
    while i > 0
        invariant
            i <= all.len(),
            keep == (|e: (Seq<char>, V::V)| age(now, V::dated(e.1)) < limit),
            table@ == all.take(i as int) + all.skip(i as int).filter(keep),
        decreases i,
    {
        i = i - 1;
        assert(table@[i as int] == all[i as int]);
        proof {
            assert(all.skip(i as int) =~= seq![all[i as int]] + all.skip(i + 1));
            lemma_filter_front(all[i as int], all.skip(i + 1), keep);
        }
        let t = table.value_at(i).date();
        if age_of(now, t) >= limit {
            let _ = table.remove_at(i);
            assert(table@ =~= all.take(i as int) + all.skip(i as int).filter(keep));
        } else {
            assert(table@ =~= all.take(i as int) + all.skip(i as int).filter(keep));
        }
    }
    proof {
        assert(all.skip(0) =~= all);
        assert(table@ =~= all.filter(keep));
        assoc::lemma_filter_distinct(all, keep);
    }
}

/// The place of the oldest entry of a list.
pub fn oldest_of<E: Dated>(list: &Vec<E>) -> (r: usize)
    requires
        list@.len() > 0,
    ensures
        r < list@.len(),
        r == earliest(times_of::<E>(list.deep_view())),
{
    let ghost times = times_of::<E>(list.deep_view());
    let mut best: usize = 0;
    let mut i: usize = 1;
    assert(times.take(1) =~= seq![times[0]]);
    while i < list.len()
        invariant
            1 <= i <= list@.len(),
            best < i,
            times == times_of::<E>(list.deep_view()),
            best == earliest(times.take(i as int)),
        decreases list@.len() - i,
    {
        proof {
            assert(times.take(i + 1).drop_last() =~= times.take(i as int));
            assert(times.take(i + 1).last() == times[i as int]);
            assert(times.take(i + 1)[best as int] == times[best as int]);
            assert(times[i as int] == E::dated(list.deep_view()[i as int]));
            assert(times[best as int] == E::dated(list.deep_view()[best as int]));
        }
        if list[i].date() < list[best].date() {
            best = i;
        }
        i = i + 1;
    }
    assert(times.take(i as int) =~= times);
    best
}

} // verus!
