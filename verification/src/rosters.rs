//! Lists of names: membership, exclusion, difference and deterministic order.

use vstd::prelude::*;

use crate::text;
use crate::text::{str_eq, str_less};

verus! {

/// Everybody but `who`.
pub open spec fn except(who: Seq<char>) -> spec_fn(Seq<char>) -> bool {
    |n: Seq<char>| n != who
}

/// The names other than `who`, in order.
pub open spec fn without(names: Seq<Seq<char>>, who: Seq<char>) -> Seq<Seq<char>> {
    names.filter(except(who))
}

/// The names that are in none of the given lists, in order.
pub open spec fn unlisted(names: Seq<Seq<char>>, listed: Seq<Seq<char>>) -> Seq<Seq<char>> {
    names.filter(|n: Seq<char>| !listed.contains(n))
}

/// Each name once, at its first place.
pub open spec fn once(names: Seq<Seq<char>>) -> Seq<Seq<char>>
    decreases names.len(),
{
    if names.len() == 0 {
        Seq::empty()
    } else {
        let rest = once(names.drop_last());
        if rest.contains(names.last()) {
            rest
        } else {
            rest.push(names.last())
        }
    }
}

/// What `names` has and `other` has not: each name once, in ascending order.
pub open spec fn difference(names: Seq<Seq<char>>, other: Seq<Seq<char>>) -> Seq<Seq<char>> {
    text::sorted(once(unlisted(names, other)))
}

/// Keeping each name once loses none and adds none.
pub proof fn lemma_once(names: Seq<Seq<char>>)
    ensures
        forall|n: Seq<char>| #[trigger] once(names).contains(n) <==> names.contains(n),
        once(names).no_duplicates(),
        once(names).len() <= names.len(),
    decreases names.len(),
{
    if names.len() > 0 {
        let init = names.drop_last();
        let last = names.last();
        let rest = once(init);
        lemma_once(init);
        assert forall|n: Seq<char>| #[trigger] once(names).contains(n) <==> names.contains(n) by {
            if names.contains(n) {
                let i = choose|i: int| 0 <= i < names.len() && names[i] == n;
                if i < init.len() {
                    assert(init[i] == n);
                    assert(rest.contains(n));
                    let j = choose|j: int| 0 <= j < rest.len() && rest[j] == n;
                    assert(once(names)[j] == n);
                } else if !rest.contains(last) {
                    assert(once(names)[rest.len() as int] == n);
                }
            }
            if once(names).contains(n) {
                let j = choose|j: int| 0 <= j < once(names).len() && once(names)[j] == n;
                if j < rest.len() {
                    assert(rest[j] == n);
                    assert(rest.contains(n));
                    assert(init.contains(n));
                    let i = choose|i: int| 0 <= i < init.len() && init[i] == n;
                    assert(names[i] == n);
                } else {
                    assert(names[names.len() - 1] == n);
                }
            }
        }
    }
}

/// Membership in a filtered list.
pub proof fn lemma_filter_contains(
    names: Seq<Seq<char>>,
    keep: spec_fn(Seq<char>) -> bool,
    n: Seq<char>,
)
    ensures
        names.filter(keep).contains(n) <==> names.contains(n) && keep(n),
    decreases names.len(),
{
    reveal(Seq::filter);
    if names.len() > 0 {
        let init = names.drop_last();
        let kept = init.filter(keep);
        lemma_filter_contains(init, keep, n);
        if kept.contains(n) {
            let i = choose|i: int| 0 <= i < kept.len() && kept[i] == n;
            assert(names.filter(keep)[i] == n);
        }
        if init.contains(n) {
            let i = choose|i: int| 0 <= i < init.len() && init[i] == n;
            assert(names[i] == n);
        }
        if names.contains(n) && keep(n) {
            let i = choose|i: int| 0 <= i < names.len() && names[i] == n;
            if i < init.len() {
                assert(init[i] == n);
            } else {
                assert(names.filter(keep)[kept.len() as int] == n);
            }
        }
        if names.filter(keep).contains(n) {
            let i = choose|i: int| 0 <= i < names.filter(keep).len() && names.filter(keep)[i] == n;
            if i < kept.len() {
                assert(kept[i] == n);
                assert(kept.contains(n));
            } else {
                assert(names[names.len() - 1] == n);
            }
        }
    }
}

/// Who is left once a name is excluded.
pub proof fn lemma_without(names: Seq<Seq<char>>, who: Seq<char>, n: Seq<char>)
    ensures
        without(names, who).contains(n) <==> names.contains(n) && n != who,
{
    lemma_filter_contains(names, except(who), n);
}

/// Who is left once the listed names are excluded.
pub proof fn lemma_unlisted(names: Seq<Seq<char>>, listed: Seq<Seq<char>>, n: Seq<char>)
    ensures
        unlisted(names, listed).contains(n) <==> names.contains(n) && !listed.contains(n),
{
    lemma_filter_contains(names, |n: Seq<char>| !listed.contains(n), n);
}

/// There is a way to put names in ascending order: `sorted` gives it.
pub proof fn lemma_sorted(names: Seq<Seq<char>>, arranged: Seq<Seq<char>>)
    requires
        text::ascending(arranged),
        arranged.to_multiset() == names.to_multiset(),
    ensures
        text::sorted(names) == arranged,
{
    assert(text::ascending(arranged) && arranged.to_multiset() == names.to_multiset());
    text::lemma_ascending_unique(text::sorted(names), arranged);
}

/// Where `name` belongs in a list in ascending order.
spec fn slot(names: Seq<Seq<char>>, name: Seq<char>) -> int
    decreases names.len(),
{
    if names.len() == 0 || text::text_at_most(names.last(), name) {
        names.len() as int
    } else {
        slot(names.drop_last(), name)
    }
}

proof fn lemma_slot(names: Seq<Seq<char>>, name: Seq<char>)
    requires
        text::ascending(names),
    ensures
        0 <= slot(names, name) <= names.len(),
        text::ascending(names.insert(slot(names, name), name)),
    decreases names.len(),
{
    let at = slot(names, name);
    let after = names.insert(at, name);
    if names.len() == 0 {
    } else if text::text_at_most(names.last(), name) {
        assert forall|x: int, y: int|
            #![trigger after[x], after[y]]
            0 <= x < y < after.len() implies text::text_at_most(after[x], after[y]) by {
            if y < names.len() {
                assert(text::text_at_most(names[x], names[y]));
            } else if x < names.len() - 1 {
                assert(text::text_at_most(names[x], names[names.len() - 1]));
                text::lemma_text_order_transitive(names[x], names.last(), name);
            }
        }
    } else {
        let init = names.drop_last();
        assert(text::ascending(init)) by {
            assert forall|x: int, y: int|
                #![trigger init[x], init[y]]
                0 <= x < y < init.len() implies text::text_at_most(init[x], init[y]) by {
                assert(text::text_at_most(names[x], names[y]));
            }
        }
        lemma_slot(init, name);
        let shorter = init.insert(at, name);
        assert(after =~= shorter.push(names.last()));
        text::lemma_text_order_total(names.last(), name);
        assert forall|x: int, y: int|
            #![trigger after[x], after[y]]
            0 <= x < y < after.len() implies text::text_at_most(after[x], after[y]) by {
            if y < shorter.len() {
                assert(text::text_at_most(shorter[x], shorter[y]));
            } else if x != at {
                let b = if x < at { x } else { x - 1 };
                assert(after[x] == names[b]);
                assert(text::text_at_most(names[b], names[names.len() - 1]));
            }
        }
    }
}

/// `sorted` is in ascending order and holds the same names.
pub proof fn lemma_sorted_exists(names: Seq<Seq<char>>)
    ensures
        text::ascending(text::sorted(names)),
        text::sorted(names).to_multiset() == names.to_multiset(),
        text::sorted(names).len() == names.len(),
        forall|n: Seq<char>| #[trigger] text::sorted(names).contains(n) <==> names.contains(n),
    decreases names.len(),
{
    broadcast use vstd::seq_lib::group_to_multiset_ensures;

    if names.len() == 0 {
        assert(text::ascending(names));
        assert(text::ascending(names) && names.to_multiset() == names.to_multiset());
    } else {
        let init = names.drop_last();
        lemma_sorted_exists(init);
        let t = text::sorted(init);
        let at = slot(t, names.last());
        lemma_slot(t, names.last());
        let after = t.insert(at, names.last());
        assert(after.to_multiset() =~= t.to_multiset().insert(names.last()));
        assert(names =~= init.push(names.last()));
        assert(text::ascending(after) && after.to_multiset() == names.to_multiset());
    }
    let r = text::sorted(names);
    assert(r.to_multiset() == names.to_multiset());
    assert(r.len() == r.to_multiset().len());
    assert(names.len() == names.to_multiset().len());
    assert forall|n: Seq<char>| #[trigger] r.contains(n) <==> names.contains(n) by {
        assert(r.contains(n) <==> r.to_multiset().count(n) > 0);
        assert(names.contains(n) <==> names.to_multiset().count(n) > 0);
    }
}

/// Whether `who` is on the list.
pub fn lists(names: &Vec<String>, who: &str) -> (r: bool)
    ensures
        r == names.deep_view().contains(who@),
{
    let mut i: usize = 0;
    while i < names.len()
        invariant
            i <= names@.len(),
            forall|j: int| 0 <= j < i ==> #[trigger] names.deep_view()[j] != who@,
        decreases names@.len() - i,
    {
        if str_eq(names[i].as_str(), who) {
            assert(names.deep_view()[i as int] == who@);
            return true;
        }
        i = i + 1;
    }
    false
}

/// The names other than `who`.
pub fn others(names: &Vec<String>, who: &str) -> (r: Vec<String>)
    ensures
        r.deep_view() == without(names.deep_view(), who@),
{
    let ghost keep = except(who@);
    let mut r: Vec<String> = Vec::new();
    let mut i: usize = 0;
    proof {
        reveal(Seq::filter);
        assert(names.deep_view().take(0).filter(keep) =~= Seq::empty());
        assert(r.deep_view() =~= Seq::empty());
    }
    while i < names.len()
        invariant
            i <= names@.len(),
            keep == except(who@),
            r.deep_view() == names.deep_view().take(i as int).filter(keep),
        decreases names@.len() - i,
    {
        let ghost before = r.deep_view();
        proof {
            reveal(Seq::filter);
            assert(names.deep_view().take(i + 1).drop_last() =~= names.deep_view().take(i as int));
            assert(names.deep_view().take(i + 1).last() == names[i as int]@);
        }
        if !str_eq(names[i].as_str(), who) {
            r.push(names[i].clone());
            assert(r.deep_view() =~= before.push(names[i as int]@));
        }
        i = i + 1;
    }
    assert(names.deep_view().take(i as int) =~= names.deep_view());
    r
}

/// The names that `listed` does not hold.
pub fn unlisted_in(names: &Vec<String>, listed: &Vec<String>) -> (r: Vec<String>)
    ensures
        r.deep_view() == unlisted(names.deep_view(), listed.deep_view()),
{
    let ghost keep = |n: Seq<char>| !listed.deep_view().contains(n);
    let mut r: Vec<String> = Vec::new();
    let mut i: usize = 0;
    proof {
        reveal(Seq::filter);
        assert(names.deep_view().take(0).filter(keep) =~= Seq::empty());
        assert(r.deep_view() =~= Seq::empty());
    }
    while i < names.len()
        invariant
            i <= names@.len(),
            keep == (|n: Seq<char>| !listed.deep_view().contains(n)),
            r.deep_view() == names.deep_view().take(i as int).filter(keep),
        decreases names@.len() - i,
    {
        let ghost before = r.deep_view();
        proof {
            reveal(Seq::filter);
            assert(names.deep_view().take(i + 1).drop_last() =~= names.deep_view().take(i as int));
            assert(names.deep_view().take(i + 1).last() == names[i as int]@);
        }
        if !lists(listed, names[i].as_str()) {
            r.push(names[i].clone());
            assert(r.deep_view() =~= before.push(names[i as int]@));
        }
        i = i + 1;
    }
    assert(names.deep_view().take(i as int) =~= names.deep_view());
    r
}

/// Each name once.
pub fn each_once(names: &Vec<String>) -> (r: Vec<String>)
    ensures
        r.deep_view() == once(names.deep_view()),
{
    let mut r: Vec<String> = Vec::new();
    let mut i: usize = 0;
    assert(names.deep_view().take(0) =~= Seq::<Seq<char>>::empty());
    assert(r.deep_view() =~= Seq::<Seq<char>>::empty());
    while i < names.len()
        invariant
            i <= names@.len(),
            r.deep_view() == once(names.deep_view().take(i as int)),
        decreases names@.len() - i,
    {
        let ghost before = r.deep_view();
        proof {
            assert(names.deep_view().take(i + 1).drop_last() =~= names.deep_view().take(i as int));
            assert(names.deep_view().take(i + 1).last() == names[i as int]@);
        }
        if !lists(&r, names[i].as_str()) {
            r.push(names[i].clone());
            assert(r.deep_view() =~= before.push(names[i as int]@));
        }
        i = i + 1;
    }
    assert(names.deep_view().take(i as int) =~= names.deep_view());
    r
}

/// Where `name` belongs in a list in ascending order: behind every name that is
/// not after it.
fn place(names: &Vec<String>, name: &str) -> (at: usize)
    requires
        text::ascending(names.deep_view()),
    ensures
        at <= names@.len(),
        forall|j: int| 0 <= j < at ==> text::text_at_most(#[trigger] names.deep_view()[j], name@),
        forall|j: int|
            at <= j < names@.len() ==> text::text_at_most(name@, #[trigger] names.deep_view()[j]),
{
    let mut i: usize = 0;
    while i < names.len()
        invariant
            i <= names@.len(),
            text::ascending(names.deep_view()),
            forall|j: int|
                0 <= j < i ==> text::text_at_most(#[trigger] names.deep_view()[j], name@),
        decreases names@.len() - i,
    {
        if str_less(name, names[i].as_str()) {
            proof {
                assert(names.deep_view()[i as int] == names[i as int]@);
                text::lemma_text_order_total(name@, names[i as int]@);
                assert forall|j: int| i <= j < names@.len() implies text::text_at_most(
                    name@,
                    #[trigger] names.deep_view()[j],
                ) by {
                    if j > i {
                        assert(text::text_at_most(names.deep_view()[i as int], names.deep_view()[j]));
                        text::lemma_text_order_transitive(
                            name@,
                            names.deep_view()[i as int],
                            names.deep_view()[j],
                        );
                    }
                }
            }
            return i;
        }
        assert(names.deep_view()[i as int] == names[i as int]@);
        i = i + 1;
    }
    i
}

/// The same names in ascending order.
pub fn in_order(names: &Vec<String>) -> (r: Vec<String>)
    ensures
        r.deep_view() == text::sorted(names.deep_view()),
{
    let mut r: Vec<String> = Vec::new();
    let mut i: usize = 0;
    assert(names.deep_view().take(0) =~= Seq::<Seq<char>>::empty());
    assert(r.deep_view() =~= Seq::<Seq<char>>::empty());
    while i < names.len()
        invariant
            i <= names@.len(),
            r@.len() == i,
            text::ascending(r.deep_view()),
            r.deep_view().to_multiset() == names.deep_view().take(i as int).to_multiset(),
        decreases names@.len() - i,
    {
        let ghost before = r.deep_view();
        let ghost name = names[i as int]@;
        let at = place(&r, names[i].as_str());
        r.insert(at, names[i].clone());
        proof {
            broadcast use vstd::seq_lib::group_to_multiset_ensures;

            let after = r.deep_view();
            assert(after =~= before.insert(at as int, name));
            assert(after.to_multiset() =~= before.to_multiset().insert(name));
            assert(names.deep_view().take(i + 1) =~= names.deep_view().take(i as int).push(name));
            assert forall|x: int, y: int|
                #![trigger after[x], after[y]]
                0 <= x < y < after.len() implies text::text_at_most(after[x], after[y]) by {
                let bx = if x < at { x } else { x - 1 };
                let by_ = if y < at { y } else { y - 1 };
                if x != at && y != at {
                    assert(after[x] == before[bx]);
                    assert(after[y] == before[by_]);
                    assert(text::text_at_most(before[bx], before[by_]));
                } else if x == at {
                    assert(after[y] == before[by_]);
                } else {
                    assert(after[x] == before[bx]);
                }
            }
        }
        i = i + 1;
    }
    proof {
        assert(names.deep_view().take(i as int) =~= names.deep_view());
        lemma_sorted(names.deep_view(), r.deep_view());
    }
    r
}

/// What `names` has and `other` has not, each once, in ascending order.
pub fn differing(names: &Vec<String>, other: &Vec<String>) -> (r: Vec<String>)
    ensures
        r.deep_view() == difference(names.deep_view(), other.deep_view()),
{
    let fresh = unlisted_in(names, other);
    let single = each_once(&fresh);
    in_order(&single)
}

} // verus!
