//! Stable ordering of a sequence by a "comes before" relation.
//!
//! The relation is a strict weak order: items may tie, and items that tie
//! keep the order in which they were given.

use vstd::prelude::*;

verus! {

/// `before` never holds both ways, and "does not come before" is
/// transitive, so that ties form classes.
pub open spec fn strict_weak_order<A>(before: spec_fn(A, A) -> bool) -> bool {
    &&& forall|x: A, y: A| #![trigger before(x, y)] before(x, y) ==> !before(y, x)
    &&& forall|x: A, y: A, z: A|
        #![trigger before(x, y), before(y, z)]
        !before(x, y) && !before(y, z) ==> !before(x, z)
}

/// No item of `s` comes before an item that stands earlier in `s`.
pub open spec fn ordered_by<A>(s: Seq<A>, before: spec_fn(A, A) -> bool) -> bool {
    forall|i: int, j: int| 0 <= i < j < s.len() ==> !before(#[trigger] s[j], #[trigger] s[i])
}

/// Where `x` goes in `s`: behind the last item that it does not come
/// before.
pub open spec fn insertion_point<A>(s: Seq<A>, x: A, before: spec_fn(A, A) -> bool) -> int
    decreases s.len(),
{
    if s.len() > 0 && before(x, s.last()) {
        insertion_point(s.drop_last(), x, before)
    } else {
        s.len() as int
    }
}

/// `s` with `x` put in at its insertion point.
pub open spec fn insert_by<A>(s: Seq<A>, x: A, before: spec_fn(A, A) -> bool) -> Seq<A> {
    s.insert(insertion_point(s, x, before), x)
}

/// The items of `s` in order, tying items as they were given: each item
/// of `s` in turn is put in at its insertion point. This is the only
/// ordered sequence that keeps the ties of `s`, as
/// `lemma_sort_by_is_the_stable_order` shows.
pub open spec fn sort_by<A>(s: Seq<A>, before: spec_fn(A, A) -> bool) -> Seq<A>
    decreases s.len(),
{
    if s.len() == 0 {
        s
    } else {
        insert_by(sort_by(s.drop_last(), before), s.last(), before)
    }
}

/// The insertion point lies in `s`; `x` comes before everything behind
/// it and not before the item just ahead of it.
pub proof fn lemma_insertion_point<A>(s: Seq<A>, x: A, before: spec_fn(A, A) -> bool)
    ensures
        0 <= insertion_point(s, x, before) <= s.len(),
        forall|i: int| insertion_point(s, x, before) <= i < s.len() ==> before(x, #[trigger] s[i]),
        insertion_point(s, x, before) > 0 ==> !before(x, s[insertion_point(s, x, before) - 1]),
    decreases s.len(),
{
    if s.len() > 0 && before(x, s.last()) {
        let head = s.drop_last();
        lemma_insertion_point(head, x, before);
        assert forall|i: int| insertion_point(s, x, before) <= i < s.len() implies before(
            x,
            #[trigger] s[i],
        ) by {
            if i < head.len() {
                assert(s[i] == head[i]);
            }
        }
    }
}

/// Scanning from the back: once the items from `i` on are known to come
/// after `x`, the insertion point is that of the first `i` items.
pub proof fn lemma_insertion_point_step<A>(s: Seq<A>, x: A, before: spec_fn(A, A) -> bool, i: int)
    requires
        0 < i <= s.len(),
        before(x, s[i - 1]),
    ensures
        insertion_point(s.take(i), x, before) == insertion_point(s.take(i - 1), x, before),
{
    assert(s.take(i).drop_last() =~= s.take(i - 1));
}

/// The scan stops at the insertion point.
pub proof fn lemma_insertion_point_stop<A>(s: Seq<A>, x: A, before: spec_fn(A, A) -> bool, i: int)
    requires
        0 <= i <= s.len(),
        i > 0 ==> !before(x, s[i - 1]),
    ensures
        insertion_point(s.take(i), x, before) == i,
{
}

/// Putting an item into an ordered sequence leaves it ordered.
pub proof fn lemma_insert_by_ordered<A>(s: Seq<A>, x: A, before: spec_fn(A, A) -> bool)
    requires
        strict_weak_order(before),
        ordered_by(s, before),
    ensures
        ordered_by(insert_by(s, x, before), before),
{
    lemma_insertion_point(s, x, before);
    let p = insertion_point(s, x, before);
    let r = insert_by(s, x, before);
    assert forall|i: int, j: int| 0 <= i < j < r.len() implies !before(
        #[trigger] r[j],
        #[trigger] r[i],
    ) by {
        if j < p {
            assert(r[i] == s[i] && r[j] == s[j]);
        } else if j == p {
            assert(r[j] == x && r[i] == s[i]);
            if i < p - 1 {
                assert(!before(s[p - 1], s[i]));
            }
        } else if i == p {
            assert(r[i] == x && r[j] == s[j - 1]);
            assert(before(x, s[j - 1]));
        } else if i < p {
            assert(r[i] == s[i] && r[j] == s[j - 1]);
        } else {
            assert(r[i] == s[i - 1] && r[j] == s[j - 1]);
        }
    }
}

/// A sorted sequence is ordered: no item comes before one that stands
/// ahead of it.
pub proof fn lemma_sort_by_ordered<A>(s: Seq<A>, before: spec_fn(A, A) -> bool)
    requires
        strict_weak_order(before),
    ensures
        ordered_by(sort_by(s, before), before),
    decreases s.len(),
{
    if s.len() > 0 {
        lemma_sort_by_ordered(s.drop_last(), before);
        lemma_insert_by_ordered(sort_by(s.drop_last(), before), s.last(), before);
    }
}

/// Sorting keeps every item, as often as it was given.
pub proof fn lemma_sort_by_permutes<A>(s: Seq<A>, before: spec_fn(A, A) -> bool)
    ensures
        sort_by(s, before).len() == s.len(),
        sort_by(s, before).to_multiset() == s.to_multiset(),
    decreases s.len(),
{
    broadcast use vstd::seq_lib::group_to_multiset_ensures;

    if s.len() > 0 {
        let head = s.drop_last();
        let t = sort_by(head, before);
        lemma_sort_by_permutes(head, before);
        lemma_insertion_point(t, s.last(), before);
        let p = insertion_point(t, s.last(), before);
        assert(s =~= head.push(s.last()));
        assert(t =~= t.take(p) + t.skip(p));
        assert(t.insert(p, s.last()) =~= t.take(p).push(s.last()) + t.skip(p));
        vstd::seq_lib::lemma_multiset_commutative(t.take(p), t.skip(p));
        vstd::seq_lib::lemma_multiset_commutative(t.take(p).push(s.last()), t.skip(p));
        assert(sort_by(s, before).to_multiset() =~= s.to_multiset());
    }
}

/// Putting `x` in does not disturb the items that `keep` selects, when
/// no selected item comes before another.
pub proof fn lemma_insert_by_filter<A>(
    s: Seq<A>,
    x: A,
    before: spec_fn(A, A) -> bool,
    keep: spec_fn(A) -> bool,
)
    requires
        forall|a: A, b: A| keep(a) && keep(b) ==> !#[trigger] before(a, b),
    ensures
        insert_by(s, x, before).filter(keep) == if keep(x) {
            s.filter(keep).push(x)
        } else {
            s.filter(keep)
        },
{
    lemma_insertion_point(s, x, before);
    let p = insertion_point(s, x, before);
    let front = s.take(p);
    let back = s.skip(p);
    assert(s =~= front + back);
    assert(s.insert(p, x) =~= front.push(x) + back);
    Seq::filter_distributes_over_add(front, back, keep);
    Seq::filter_distributes_over_add(front.push(x), back, keep);
    front.lemma_filter_push(x, keep);
    if keep(x) {
        assert forall|i: int| 0 <= i < back.len() implies !keep(#[trigger] back[i]) by {
            assert(before(x, s[p + i]));
        }
        lemma_filter_none(back, keep);
        assert(front.filter(keep).push(x) + Seq::<A>::empty() =~= front.filter(keep).push(x));
        assert(front.filter(keep) + Seq::<A>::empty() =~= front.filter(keep));
    }
}

/// A sequence none of whose items is selected filters to nothing.
pub proof fn lemma_filter_none<A>(s: Seq<A>, keep: spec_fn(A) -> bool)
    requires
        forall|i: int| 0 <= i < s.len() ==> !keep(#[trigger] s[i]),
    ensures
        s.filter(keep) == Seq::<A>::empty(),
    decreases s.len(),
{
    reveal(Seq::filter);
    if s.len() > 0 {
        lemma_filter_none(s.drop_last(), keep);
    } else {
        assert(s =~= Seq::<A>::empty());
    }
}

/// Sorting is stable: items that tie stay in the order in which they
/// were given. Stated for any selection `keep` of items none of which
/// comes before another, the selected items form the same sequence
/// before and after sorting.
pub proof fn lemma_sort_by_stable<A>(
    s: Seq<A>,
    before: spec_fn(A, A) -> bool,
    keep: spec_fn(A) -> bool,
)
    requires
        forall|a: A, b: A| keep(a) && keep(b) ==> !#[trigger] before(a, b),
    ensures
        sort_by(s, before).filter(keep) == s.filter(keep),
    decreases s.len(),
{
    if s.len() > 0 {
        let head = s.drop_last();
        lemma_sort_by_stable(head, before, keep);
        lemma_insert_by_filter(sort_by(head, before), s.last(), before, keep);
        head.lemma_filter_push(s.last(), keep);
        assert(s =~= head.push(s.last()));
    }
}

/// Sorting a sequence extended by one item puts that item into the
/// sorted sequence.
pub proof fn lemma_sort_by_push<A>(s: Seq<A>, x: A, before: spec_fn(A, A) -> bool)
    ensures
        sort_by(s.push(x), before) == insert_by(sort_by(s, before), x, before),
{
    assert(s.push(x).drop_last() =~= s);
}

/// Sorting neither adds nor drops an item.
pub proof fn lemma_sort_by_contains<A>(s: Seq<A>, before: spec_fn(A, A) -> bool, x: A)
    ensures
        sort_by(s, before).contains(x) <==> s.contains(x),
{
    lemma_sort_by_permutes(s, before);
    s.to_multiset_ensures();
    sort_by(s, before).to_multiset_ensures();
    assert(s.contains(x) <==> s.to_multiset().count(x) > 0);
    assert(sort_by(s, before).contains(x) <==> sort_by(s, before).to_multiset().count(x) > 0);
}

/// Selects the items that tie with `x`: those that neither come before
/// `x` nor have `x` come before them.
pub open spec fn tied_with<A>(before: spec_fn(A, A) -> bool, x: A) -> spec_fn(A) -> bool {
    |e: A| !before(e, x) && !before(x, e)
}

/// Whether `t` holds the items of `s` with every group of tying items in
/// the order that it has in `s`.
pub open spec fn keeps_ties_of<A>(t: Seq<A>, s: Seq<A>, before: spec_fn(A, A) -> bool) -> bool {
    forall|x: A| #[trigger] t.filter(tied_with(before, x)) == s.filter(tied_with(before, x))
}

proof fn lemma_last_is_kept<A>(s: Seq<A>, keep: spec_fn(A) -> bool)
    requires
        s.len() > 0,
    ensures
        s.filter(keep) == if keep(s.last()) {
            s.drop_last().filter(keep).push(s.last())
        } else {
            s.drop_last().filter(keep)
        },
{
    s.drop_last().lemma_filter_push(s.last(), keep);
    assert(s =~= s.drop_last().push(s.last()));
}

proof fn lemma_ordered_and_tied_alike<A>(t: Seq<A>, u: Seq<A>, before: spec_fn(A, A) -> bool)
    requires
        strict_weak_order(before),
        ordered_by(t, before),
        ordered_by(u, before),
        keeps_ties_of(t, u, before),
    ensures
        t == u,
    decreases t.len(),
{
    if t.len() == 0 {
        if u.len() > 0 {
            let keep = tied_with(before, u.last());
            lemma_last_is_kept(u, keep);
            assert(t.filter(keep) == u.filter(keep));
            t.lemma_filter_len(keep);
            assert(false);
        }
        assert(t =~= u);
    } else {
        let x = t.last();
        let mine = tied_with(before, x);
        lemma_last_is_kept(t, mine);
        assert(t.filter(mine) == u.filter(mine));
        if u.len() == 0 {
            u.lemma_filter_len(mine);
            assert(false);
        }
        let y = u.last();
        let theirs = tied_with(before, y);
        lemma_last_is_kept(u, theirs);
        assert(t.filter(theirs) == u.filter(theirs));
        assert(!before(x, y)) by {
            assert(u.filter(theirs).last() == y);
            assert(t.filter(theirs).contains(y));
            t.lemma_filter_contains_rev(theirs, y);
            let i = t.index_of(y);
            if i < t.len() - 1 {
                assert(!before(t[t.len() - 1], t[i]));
            }
        }
        assert(!before(y, x)) by {
            assert(t.filter(mine).last() == x);
            assert(u.filter(mine).contains(x));
            u.lemma_filter_contains_rev(mine, x);
            let i = u.index_of(x);
            if i < u.len() - 1 {
                assert(!before(u[u.len() - 1], u[i]));
            }
        }
        lemma_last_is_kept(u, mine);
        assert(x == y) by {
            assert(t.filter(mine).last() == x);
            assert(u.filter(mine).last() == y);
        }
        let head = t.drop_last();
        let other = u.drop_last();
        assert forall|z: A| #[trigger]
            head.filter(tied_with(before, z)) == other.filter(tied_with(before, z)) by {
            let keep = tied_with(before, z);
            lemma_last_is_kept(t, keep);
            lemma_last_is_kept(u, keep);
            assert(t.filter(keep) == u.filter(keep));
            if keep(x) {
                assert(head.filter(keep) =~= t.filter(keep).drop_last());
                assert(other.filter(keep) =~= u.filter(keep).drop_last());
            }
        }
        assert(ordered_by(head, before)) by {
            assert forall|i: int, j: int| 0 <= i < j < head.len() implies !before(
                #[trigger] head[j],
                #[trigger] head[i],
            ) by {
                assert(head[i] == t[i] && head[j] == t[j]);
            }
        }
        assert(ordered_by(other, before)) by {
            assert forall|i: int, j: int| 0 <= i < j < other.len() implies !before(
                #[trigger] other[j],
                #[trigger] other[i],
            ) by {
                assert(other[i] == u[i] && other[j] == u[j]);
            }
        }
        lemma_ordered_and_tied_alike(head, other, before);
        assert(t =~= head.push(x));
        assert(u =~= other.push(y));
    }
}

/// What sorting is: the sorted sequence is the one and only sequence
/// that is ordered and holds the items given with every group of tying
/// items in the order given.
pub proof fn lemma_sort_by_is_the_stable_order<A>(
    s: Seq<A>,
    t: Seq<A>,
    before: spec_fn(A, A) -> bool,
)
    requires
        strict_weak_order(before),
    ensures
        ordered_by(sort_by(s, before), before),
        keeps_ties_of(sort_by(s, before), s, before),
        ordered_by(t, before) && keeps_ties_of(t, s, before) ==> t == sort_by(s, before),
{
    lemma_sort_by_ordered(s, before);
    assert forall|x: A| #[trigger]
        sort_by(s, before).filter(tied_with(before, x)) == s.filter(tied_with(before, x)) by {
        let keep = tied_with(before, x);
        assert forall|a: A, b: A| keep(a) && keep(b) implies !#[trigger] before(a, b) by {
            assert(!before(a, x) && !before(x, b));
        }
        lemma_sort_by_stable(s, before, keep);
    }
    if ordered_by(t, before) && keeps_ties_of(t, s, before) {
        assert forall|x: A| #[trigger]
            t.filter(tied_with(before, x)) == sort_by(s, before).filter(tied_with(before, x)) by {
            assert(t.filter(tied_with(before, x)) == s.filter(tied_with(before, x)));
        }
        lemma_ordered_and_tied_alike(t, sort_by(s, before), before);
    }
}

} // verus!
