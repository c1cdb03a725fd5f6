//! Facts about sequences.
use vstd::prelude::*;

verus! {

/// Filtering one more element keeps it exactly when it satisfies the predicate.
pub proof fn lemma_filter_take<A>(s: Seq<A>, p: spec_fn(A) -> bool, i: int)
    requires
        0 <= i < s.len(),
    ensures
        s.take(i + 1).filter(p) == (if p(s[i]) {
            s.take(i).filter(p).push(s[i])
        } else {
            s.take(i).filter(p)
        }),
{
    reveal(Seq::filter);
    assert(s.take(i + 1).drop_last() =~= s.take(i));
    assert(s.take(i + 1).last() == s[i]);
}

/// Filtering nothing leaves nothing.
pub proof fn lemma_filter_none<A>(s: Seq<A>, p: spec_fn(A) -> bool)
    ensures
        s.take(0).filter(p) == Seq::<A>::empty(),
{
    reveal(Seq::filter);
    assert(s.take(0) =~= Seq::<A>::empty());
}

/// What is left of a sequence by a filter is what satisfies its predicate.
pub proof fn lemma_filter_members<A>(s: Seq<A>, p: spec_fn(A) -> bool, a: A)
    ensures
        s.filter(p).contains(a) <==> s.contains(a) && p(a),
{
    if s.filter(p).contains(a) {
        s.lemma_filter_contains_rev(p, a);
        let i = choose|i: int| 0 <= i < s.filter(p).len() && s.filter(p)[i] == a;
        s.lemma_filter_pred(p, i);
    }
    if s.contains(a) && p(a) {
        let i = choose|i: int| 0 <= i < s.len() && s[i] == a;
        s.lemma_filter_contains(p, i);
    }
}

/// Nothing is left by a filter where nothing satisfies its predicate.
pub proof fn lemma_filter_nothing<A>(s: Seq<A>, p: spec_fn(A) -> bool)
    requires
        forall|i: int| 0 <= i < s.len() ==> !p(#[trigger] s[i]),
    ensures
        s.filter(p) == Seq::<A>::empty(),
{
    if s.filter(p).len() > 0 {
        let a = s.filter(p)[0];
        s.lemma_filter_pred(p, 0);
        assert(s.filter(p).contains(a));
        s.lemma_filter_contains_rev(p, a);
    }
}

/// An element that satisfies the predicate stands behind what is left of those before it, and before
/// what is left of those behind it.
pub proof fn lemma_filter_around<A>(s: Seq<A>, p: spec_fn(A) -> bool, at: int)
    requires
        0 <= at < s.len(),
        p(s[at]),
    ensures
        s.filter(p) == s.take(at).filter(p) + seq![s[at]] + s.skip(at + 1).filter(p),
{
    let head = s.take(at + 1);
    assert(s =~= head + s.skip(at + 1));
    Seq::filter_distributes_over_add(head, s.skip(at + 1), p);
    lemma_filter_take(s, p, at);
    assert(head.filter(p) =~= s.take(at).filter(p) + seq![s[at]]);
}

/// What is left by a filter, from the front.
pub proof fn lemma_filter_first<A>(s: Seq<A>, p: spec_fn(A) -> bool)
    requires
        s.len() > 0,
    ensures
        s.filter(p) == (if p(s[0]) {
            seq![s[0]] + s.skip(1).filter(p)
        } else {
            s.skip(1).filter(p)
        }),
{
    let first = s.take(1);
    assert(s =~= first + s.skip(1));
    Seq::filter_distributes_over_add(first, s.skip(1), p);
    lemma_filter_take(s, p, 0);
    lemma_filter_none(s, p);
    assert(first.filter(p) =~= (if p(s[0]) {
        seq![s[0]]
    } else {
        Seq::empty()
    }));
    assert(s.filter(p) =~= (if p(s[0]) {
        seq![s[0]] + s.skip(1).filter(p)
    } else {
        s.skip(1).filter(p)
    }));
}

/// Some element satisfies the predicate.
pub open spec fn any_in<A>(s: Seq<A>, p: spec_fn(A) -> bool) -> bool {
    exists|i: int| 0 <= i < s.len() && p(#[trigger] s[i])
}

/// The first element that satisfies the predicate.
pub open spec fn first_in<A>(s: Seq<A>, p: spec_fn(A) -> bool) -> Option<A>
    decreases s.len(),
{
    if s.len() == 0 {
        None
    } else if p(s[0]) {
        Some(s[0])
    } else {
        first_in(s.skip(1), p)
    }
}

/// The first element that satisfies the predicate is the one before which none does.
pub proof fn lemma_first_at<A>(s: Seq<A>, p: spec_fn(A) -> bool, at: int)
    requires
        0 <= at < s.len(),
        p(s[at]),
        forall|i: int| 0 <= i < at ==> !p(#[trigger] s[i]),
    ensures
        first_in(s, p) == Some(s[at]),
    decreases s.len(),
{
    if at > 0 {
        assert(!p(s[0]));
        assert forall|i: int| 0 <= i < at - 1 implies !p(#[trigger] s.skip(1)[i]) by {
            assert(!p(s[i + 1]));
        }
        lemma_first_at(s.skip(1), p, at - 1);
    }
}

/// There is no first element that satisfies the predicate where none does.
pub proof fn lemma_first_none<A>(s: Seq<A>, p: spec_fn(A) -> bool)
    requires
        forall|i: int| 0 <= i < s.len() ==> !p(#[trigger] s[i]),
    ensures
        first_in(s, p) == None::<A>,
    decreases s.len(),
{
    if s.len() > 0 {
        assert(!p(s[0]));
        assert forall|i: int| 0 <= i < s.len() - 1 implies !p(#[trigger] s.skip(1)[i]) by {
            assert(!p(s[i + 1]));
        }
        lemma_first_none(s.skip(1), p);
    }
}

/// Where an element first occurs.
pub open spec fn position_in<A>(s: Seq<A>, a: A) -> Option<int>
    decreases s.len(),
{
    if s.len() == 0 {
        None
    } else if s[0] == a {
        Some(0)
    } else {
        match position_in(s.skip(1), a) {
            Some(i) => Some(i + 1),
            None => None,
        }
    }
}

/// An element first occurs where it stands and before which it does not stand.
pub proof fn lemma_position_at<A>(s: Seq<A>, a: A, at: int)
    requires
        0 <= at < s.len(),
        s[at] == a,
        forall|i: int| 0 <= i < at ==> (#[trigger] s[i]) != a,
    ensures
        position_in(s, a) == Some(at),
    decreases s.len(),
{
    if at > 0 {
        assert(s[0] != a);
        assert forall|i: int| 0 <= i < at - 1 implies (#[trigger] s.skip(1)[i]) != a by {
            assert(s[i + 1] != a);
        }
        lemma_position_at(s.skip(1), a, at - 1);
    }
}

/// An element that occurs nowhere has no position.
pub proof fn lemma_position_none<A>(s: Seq<A>, a: A)
    requires
        !s.contains(a),
    ensures
        position_in(s, a) == None::<int>,
    decreases s.len(),
{
    if s.len() > 0 {
        assert(s.contains(s[0]));
        assert(!s.skip(1).contains(a)) by {
            if s.skip(1).contains(a) {
                let i = choose|i: int| 0 <= i < s.skip(1).len() && s.skip(1)[i] == a;
                assert(s[i + 1] == a);
            }
        }
        lemma_position_none(s.skip(1), a);
    }
}

/// Where an element is said to occur first, it stands.
pub proof fn lemma_position_found<A>(s: Seq<A>, a: A)
    ensures
        position_in(s, a) matches Some(i) ==> 0 <= i < s.len() && s[i] == a,
    decreases s.len(),
{
    if s.len() > 0 {
        lemma_position_found(s.skip(1), a);
    }
}

/// Where the first element stands that satisfies the predicate.
pub open spec fn index_in<A>(s: Seq<A>, p: spec_fn(A) -> bool) -> Option<int>
    decreases s.len(),
{
    if s.len() == 0 {
        None
    } else if p(s[0]) {
        Some(0)
    } else {
        match index_in(s.skip(1), p) {
            Some(i) => Some(i + 1),
            None => None,
        }
    }
}

/// The first element that satisfies the predicate stands where before it none does.
pub proof fn lemma_index_at<A>(s: Seq<A>, p: spec_fn(A) -> bool, at: int)
    requires
        0 <= at < s.len(),
        p(s[at]),
        forall|i: int| 0 <= i < at ==> !p(#[trigger] s[i]),
    ensures
        index_in(s, p) == Some(at),
    decreases s.len(),
{
    if at > 0 {
        assert(!p(s[0]));
        assert forall|i: int| 0 <= i < at - 1 implies !p(#[trigger] s.skip(1)[i]) by {
            assert(!p(s[i + 1]));
        }
        lemma_index_at(s.skip(1), p, at - 1);
    }
}

/// Where no element satisfies the predicate, there is no first one.
pub proof fn lemma_index_none<A>(s: Seq<A>, p: spec_fn(A) -> bool)
    requires
        forall|i: int| 0 <= i < s.len() ==> !p(#[trigger] s[i]),
    ensures
        index_in(s, p) == None::<int>,
    decreases s.len(),
{
    if s.len() > 0 {
        assert(!p(s[0]));
        assert forall|i: int| 0 <= i < s.len() - 1 implies !p(#[trigger] s.skip(1)[i]) by {
            assert(!p(s[i + 1]));
        }
        lemma_index_none(s.skip(1), p);
    }
}

/// What the first element that satisfies the predicate stands for: it does, and none before it.
pub proof fn lemma_index_props<A>(s: Seq<A>, p: spec_fn(A) -> bool)
    ensures
        match index_in(s, p) {
            Some(at) => 0 <= at < s.len() && p(s[at]) && forall|i: int|
                0 <= i < at ==> !p(#[trigger] s[i]),
            None => forall|i: int| 0 <= i < s.len() ==> !p(#[trigger] s[i]),
        },
    decreases s.len(),
{
    if s.len() > 0 && !p(s[0]) {
        lemma_index_props(s.skip(1), p);
        match index_in(s.skip(1), p) {
            Some(at) => {
                assert forall|i: int| 0 <= i < at + 1 implies !p(#[trigger] s[i]) by {
                    if i > 0 {
                        assert(!p(s.skip(1)[i - 1]));
                    }
                }
            },
            None => {
                assert forall|i: int| 0 <= i < s.len() implies !p(#[trigger] s[i]) by {
                    if i > 0 {
                        assert(!p(s.skip(1)[i - 1]));
                    }
                }
            },
        }
    }
}

/// Filtering splits a sequence in two.
pub proof fn lemma_filter_split<A>(s: Seq<A>, p: spec_fn(A) -> bool)
    ensures
        s.filter(p).len() + s.filter(|a: A| !p(a)).len() == s.len(),
    decreases s.len(),
{
    reveal(Seq::filter);
    if s.len() > 0 {
        lemma_filter_split(s.drop_last(), p);
    }
}

/// A sequence with one more element, put behind all those at its start that do not come after it.
pub open spec fn inserted<A>(s: Seq<A>, a: A, le: spec_fn(A, A) -> bool) -> Seq<A> {
    match index_in(s, |b: A| !le(b, a)) {
        Some(i) => s.insert(i, a),
        None => s.push(a),
    }
}

/// A sequence in order; elements of which neither comes after the other stay as they stood.
pub open spec fn stable_sorted<A>(s: Seq<A>, le: spec_fn(A, A) -> bool) -> Seq<A>
    decreases s.len(),
{
    if s.len() == 0 {
        s
    } else {
        inserted(stable_sorted(s.drop_last(), le), s.last(), le)
    }
}

/// Any two elements can be put in order, and the order is transitive.
pub open spec fn is_total_order<A>(le: spec_fn(A, A) -> bool) -> bool {
    &&& forall|a: A, b: A| #[trigger] le(a, b) || le(b, a)
    &&& forall|a: A, b: A, c: A| #[trigger] le(a, b) && #[trigger] le(b, c) ==> le(a, c)
}

/// No element comes after a later one.
pub open spec fn is_ordered<A>(s: Seq<A>, le: spec_fn(A, A) -> bool) -> bool {
    forall|i: int, j: int| 0 <= i < j < s.len() ==> le(#[trigger] s[i], #[trigger] s[j])
}

proof fn lemma_inserted_ordered<A>(s: Seq<A>, a: A, le: spec_fn(A, A) -> bool)
    requires
        is_total_order(le),
        is_ordered(s, le),
    ensures
        is_ordered(inserted(s, a, le), le),
{
    let p = |b: A| !le(b, a);
    lemma_index_props(s, p);
    let r = inserted(s, a, le);
    let at = match index_in(s, p) {
        Some(i) => i,
        None => s.len() as int,
    };
    assert(r =~= s.insert(at, a));
    assert forall|i: int, j: int| 0 <= i < j < r.len() implies le(
        #[trigger] r[i],
        #[trigger] r[j],
    ) by {
        if j == at {
            assert(!p(s[i]));
        } else if i == at {
            assert(p(s[at]));
            assert(le(a, s[at]));
            if j > at + 1 {
                assert(le(s[at], s[j - 1]));
            }
        } else {
            let i0 = if i < at { i } else { i - 1 };
            let j0 = if j < at { j } else { j - 1 };
            assert(le(s[i0], s[j0]));
        }
    }
}

/// A sequence that has been put in order is in order.
pub proof fn lemma_sorted_ordered<A>(s: Seq<A>, le: spec_fn(A, A) -> bool)
    requires
        is_total_order(le),
    ensures
        is_ordered(stable_sorted(s, le), le),
    decreases s.len(),
{
    if s.len() > 0 {
        lemma_sorted_ordered(s.drop_last(), le);
        lemma_inserted_ordered(stable_sorted(s.drop_last(), le), s.last(), le);
    }
}

/// A sequence that has been put in order holds what it held before.
pub proof fn lemma_sorted_multiset<A>(s: Seq<A>, le: spec_fn(A, A) -> bool)
    ensures
        stable_sorted(s, le).to_multiset() == s.to_multiset(),
        stable_sorted(s, le).len() == s.len(),
    decreases s.len(),
{
    broadcast use vstd::seq_lib::group_to_multiset_ensures;

    if s.len() > 0 {
        let before = stable_sorted(s.drop_last(), le);
        lemma_sorted_multiset(s.drop_last(), le);
        lemma_index_props(before, |b: A| !le(b, s.last()));
        assert(s =~= s.drop_last().push(s.last()));
        match index_in(before, |b: A| !le(b, s.last())) {
            Some(i) => {
                assert(before.insert(i, s.last()) =~= before.take(i).push(s.last()) + before.skip(
                    i,
                ));
                assert(before =~= before.take(i) + before.skip(i));
                vstd::seq_lib::lemma_multiset_commutative(
                    before.take(i).push(s.last()),
                    before.skip(i),
                );
                vstd::seq_lib::lemma_multiset_commutative(before.take(i), before.skip(i));
            },
            None => {},
        }
        assert(stable_sorted(s, le).to_multiset() =~= s.to_multiset());
    }
}

/// What two sequences in order hold alike stands in them alike, where no two elements of theirs are as
/// good as each other.
pub proof fn lemma_ordered_unique<A>(a: Seq<A>, b: Seq<A>, le: spec_fn(A, A) -> bool)
    requires
        is_ordered(a, le),
        is_ordered(b, le),
        a.to_multiset() == b.to_multiset(),
        forall|x: A, y: A|
            a.contains(x) && a.contains(y) && #[trigger] le(x, y) && #[trigger] le(y, x) ==> x == y,
    ensures
        a == b,
    decreases a.len(),
{
    broadcast use vstd::multiset::group_multiset_axioms;
    broadcast use vstd::seq_lib::group_to_multiset_ensures;

    assert(a.to_multiset().len() == a.len());
    assert(b.to_multiset().len() == b.len());
    if a.len() > 0 {
        assert(a.to_multiset().contains(a[0]));
        assert(b.to_multiset().contains(b[0]));
        assert(a.contains(a[0]) && a.contains(b[0]) && b.contains(a[0]));
        let i = choose|i: int| 0 <= i < a.len() && a[i] == b[0];
        let j = choose|j: int| 0 <= j < b.len() && b[j] == a[0];
        if i > 0 && j > 0 {
            assert(le(a[0], a[i]));
            assert(le(b[0], b[j]));
            assert(le(a[0], b[0]) && le(b[0], a[0]));
        }
        assert(a[0] == b[0]);
        let (x, y) = (a.drop_first(), b.drop_first());
        assert(a =~= seq![a[0]] + x);
        assert(b =~= seq![b[0]] + y);
        assert(x =~= a.remove(0));
        assert(y =~= b.remove(0));
        assert(x.to_multiset() =~= a.to_multiset().remove(a[0]));
        assert(y.to_multiset() =~= b.to_multiset().remove(b[0]));
        assert forall|c: A| #[trigger] x.contains(c) implies a.contains(c) by {
            let k = choose|k: int| 0 <= k < x.len() && x[k] == c;
            assert(a[k + 1] == c);
        }
        assert(is_ordered(x, le));
        assert(is_ordered(y, le));
        lemma_ordered_unique(x, y, le);
    }
    assert(a =~= b);
}

proof fn lemma_filter_concat<A>(a: Seq<A>, b: Seq<A>, p: spec_fn(A) -> bool)
    ensures
        (a + b).filter(p) == a.filter(p) + b.filter(p),
{
    Seq::filter_distributes_over_add(a, b, p);
}

/// Of the elements that are as good as a given one in the order, those of an ordered sequence
/// keep their places among each other.
pub proof fn lemma_sorted_stable<A>(s: Seq<A>, le: spec_fn(A, A) -> bool, a: A)
    requires
        is_total_order(le),
    ensures
        stable_sorted(s, le).filter(|b: A| le(a, b) && le(b, a)) == s.filter(
            |b: A| le(a, b) && le(b, a),
        ),
    decreases s.len(),
{
    let p = |b: A| le(a, b) && le(b, a);
    if s.len() > 0 {
        let before = stable_sorted(s.drop_last(), le);
        let x = s.last();
        lemma_sorted_stable(s.drop_last(), le, a);
        lemma_sorted_ordered(s.drop_last(), le);
        lemma_index_props(before, |b: A| !le(b, x));
        assert(s =~= s.drop_last() + seq![x]);
        lemma_filter_concat(s.drop_last(), seq![x], p);
        match index_in(before, |b: A| !le(b, x)) {
            Some(i) => {
                assert(before.insert(i, x) =~= before.take(i) + (seq![x] + before.skip(i)));
                assert(before =~= before.take(i) + before.skip(i));
                lemma_filter_concat(before.take(i), seq![x] + before.skip(i), p);
                lemma_filter_concat(seq![x], before.skip(i), p);
                lemma_filter_concat(before.take(i), before.skip(i), p);
                if p(x) {
                    // Everything from `i` on comes after `x`.
                    assert forall|j: int| 0 <= j < before.skip(i).len() implies !p(
                        #[trigger] before.skip(i)[j],
                    ) by {
                        let e = before[i + j];
                        assert(!le(before[i], x));
                        if j > 0 {
                            assert(le(before[i], e));
                        }
                        if le(e, a) {
                            assert(le(e, a) && le(a, x));
                            assert(le(e, x));
                            if j > 0 {
                                assert(le(before[i], e) && le(e, x));
                            }
                        }
                    }
                    lemma_filter_nothing(before.skip(i), p);
                    assert(before.take(i).filter(p) + seq![x].filter(p) =~= before.take(i).filter(
                        p,
                    ) + (seq![x].filter(p) + before.skip(i).filter(p)));
                    assert(before.take(i).filter(p) + before.skip(i).filter(p) =~= before.take(
                        i,
                    ).filter(p));
                } else {
                    lemma_filter_single(x, p);
                    assert(seq![x].filter(p) + before.skip(i).filter(p) =~= before.skip(i).filter(
                        p,
                    ));
                    assert(s.drop_last().filter(p) + seq![x].filter(p) =~= s.drop_last().filter(p));
                }
            },
            None => {
                assert(before.push(x) =~= before + seq![x]);
                lemma_filter_concat(before, seq![x], p);
            },
        }
    }
}

proof fn lemma_filter_single<A>(a: A, p: spec_fn(A) -> bool)
    ensures
        seq![a].filter(p) == (if p(a) {
            seq![a]
        } else {
            Seq::empty()
        }),
{
    reveal(Seq::filter);
    assert(seq![a].drop_last() =~= Seq::<A>::empty());
    assert(seq![a].drop_last().filter(p) =~= Seq::<A>::empty());
    assert(Seq::<A>::empty().push(a) =~= seq![a]);
}

/// A sequence that has been put in order has the members that it had before.
pub proof fn lemma_sorted_members<A>(s: Seq<A>, le: spec_fn(A, A) -> bool, a: A)
    ensures
        stable_sorted(s, le).contains(a) <==> s.contains(a),
{
    lemma_sorted_multiset(s, le);
    s.to_multiset_ensures();
    stable_sorted(s, le).to_multiset_ensures();
    assert(s.contains(a) <==> s.to_multiset().count(a) > 0);
    assert(stable_sorted(s, le).contains(a) <==> stable_sorted(s, le).to_multiset().count(a) > 0);
}

} // verus!
