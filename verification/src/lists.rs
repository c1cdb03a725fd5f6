//! Walks over vectors, in terms of the models of their elements.
use vstd::prelude::*;

use crate::seqs;
use crate::value::Value;

verus! {

/// Whether some element satisfies a test.
pub(crate) fn any<T: DeepView, F: Fn(&T) -> bool>(
    items: &Vec<T>,
    test: F,
    Ghost(p): Ghost<spec_fn(T::V) -> bool>,
) -> (r: bool)
    requires
        forall|t: &T| #[trigger] call_requires(test, (t,)),
        forall|t: &T, b: bool| #[trigger] call_ensures(test, (t,), b) ==> b == p(t.deep_view()),
    ensures
        r == seqs::any_in(items.deep_view(), p),
{
    let mut i: usize = 0;
    while i < items.len()
        invariant
            i <= items.len(),
            forall|j: int| 0 <= j < i ==> !p(#[trigger] items.deep_view()[j]),
            forall|t: &T| #[trigger] call_requires(test, (t,)),
            forall|t: &T, b: bool| #[trigger]
                call_ensures(test, (t,), b) ==> b == p(t.deep_view()),
        decreases items.len() - i,
    {
        if test(&items[i]) {
            assert(p(items.deep_view()[i as int]));
            return true;
        }
        i += 1;
    }
    false
}

/// The first element that satisfies a test.
pub(crate) fn first<T: DeepView, F: Fn(&T) -> bool>(
    items: &Vec<T>,
    test: F,
    Ghost(p): Ghost<spec_fn(T::V) -> bool>,
) -> (r: Option<&T>)
    requires
        forall|t: &T| #[trigger] call_requires(test, (t,)),
        forall|t: &T, b: bool| #[trigger] call_ensures(test, (t,), b) ==> b == p(t.deep_view()),
    ensures
        r.deep_view() == seqs::first_in(items.deep_view(), p),
{
    let mut i: usize = 0;
    while i < items.len()
        invariant
            i <= items.len(),
            forall|j: int| 0 <= j < i ==> !p(#[trigger] items.deep_view()[j]),
            forall|t: &T| #[trigger] call_requires(test, (t,)),
            forall|t: &T, b: bool| #[trigger]
                call_ensures(test, (t,), b) ==> b == p(t.deep_view()),
        decreases items.len() - i,
    {
        if test(&items[i]) {
            proof {
                seqs::lemma_first_at(items.deep_view(), p, i as int);
            }
            return Some(&items[i]);
        }
        i += 1;
    }
    proof {
        seqs::lemma_first_none(items.deep_view(), p);
    }
    None
}

/// Whether a value occurs.
pub(crate) fn contains<T: Value>(items: &Vec<T>, value: &T) -> (r: bool)
    ensures
        r == items.deep_view().contains(value.deep_view()),
{
    let mut i: usize = 0;
    while i < items.len()
        invariant
            i <= items.len(),
            forall|j: int|
                0 <= j < i ==> (#[trigger] items.deep_view()[j]) != value.deep_view(),
        decreases items.len() - i,
    {
        if items[i].same(value) {
            assert(items.deep_view()[i as int] == value.deep_view());
            return true;
        }
        i += 1;
    }
    false
}

/// Where a value first occurs.
pub(crate) fn position<T: Value>(items: &Vec<T>, value: &T) -> (r: Option<usize>)
    ensures
        match r {
            Some(i) => i < items.len() && items.deep_view()[i as int] == value.deep_view()
                && seqs::position_in(items.deep_view(), value.deep_view()) == Some(i as int),
            None => seqs::position_in(items.deep_view(), value.deep_view()) == None::<int>
                && !items.deep_view().contains(value.deep_view()),
        },
{
    let mut i: usize = 0;
    while i < items.len()
        invariant
            i <= items.len(),
            forall|j: int|
                0 <= j < i ==> (#[trigger] items.deep_view()[j]) != value.deep_view(),
        decreases items.len() - i,
    {
        if items[i].same(value) {
            proof {
                seqs::lemma_position_at(items.deep_view(), value.deep_view(), i as int);
            }
            return Some(i);
        }
        i += 1;
    }
    proof {
        seqs::lemma_position_none(items.deep_view(), value.deep_view());
    }
    None
}

/// Where the first element stands that satisfies a test.
pub(crate) fn index<T: DeepView, F: Fn(&T) -> bool>(
    items: &Vec<T>,
    test: F,
    Ghost(p): Ghost<spec_fn(T::V) -> bool>,
) -> (r: Option<usize>)
    requires
        forall|t: &T| #[trigger] call_requires(test, (t,)),
        forall|t: &T, b: bool| #[trigger] call_ensures(test, (t,), b) ==> b == p(t.deep_view()),
    ensures
        match r {
            Some(i) => i < items.len() && seqs::index_in(items.deep_view(), p) == Some(i as int),
            None => seqs::index_in(items.deep_view(), p) == None::<int>,
        },
{
    let mut i: usize = 0;
    while i < items.len()
        invariant
            i <= items.len(),
            forall|j: int| 0 <= j < i ==> !p(#[trigger] items.deep_view()[j]),
            forall|t: &T| #[trigger] call_requires(test, (t,)),
            forall|t: &T, b: bool| #[trigger]
                call_ensures(test, (t,), b) ==> b == p(t.deep_view()),
        decreases items.len() - i,
    {
        if test(&items[i]) {
            proof {
                seqs::lemma_index_at(items.deep_view(), p, i as int);
            }
            return Some(i);
        }
        i += 1;
    }
    proof {
        seqs::lemma_index_none(items.deep_view(), p);
    }
    None
}

/// Keeps the elements that satisfy a test, in order.
pub(crate) fn retain<T: DeepView, F: Fn(&T) -> bool>(
    items: &mut Vec<T>,
    test: F,
    Ghost(p): Ghost<spec_fn(T::V) -> bool>,
)
    requires
        forall|t: &T| #[trigger] call_requires(test, (t,)),
        forall|t: &T, b: bool| #[trigger] call_ensures(test, (t,), b) ==> b == p(t.deep_view()),
    ensures
        final(items).deep_view() == old(items).deep_view().filter(p),
{
    let ghost before = items.deep_view();
    let ghost mut seen: int = 0;
    proof {
        seqs::lemma_filter_none(before, p);
    }
    assert(items.deep_view() =~= before.take(0).filter(p) + before.skip(0));
    let mut i: usize = 0;
    while i < items.len()
        invariant
            0 <= seen <= before.len(),
            i == before.take(seen).filter(p).len(),
            items.deep_view() == before.take(seen).filter(p) + before.skip(seen),
            forall|t: &T| #[trigger] call_requires(test, (t,)),
            forall|t: &T, b: bool| #[trigger]
                call_ensures(test, (t,), b) ==> b == p(t.deep_view()),
        decreases items.len() - i,
    {
        let ghost now = items.deep_view();
        assert(now[i as int] == before[seen]);
        proof {
            seqs::lemma_filter_take(before, p, seen);
        }
        if test(&items[i]) {
            assert(now =~= before.take(seen + 1).filter(p) + before.skip(seen + 1));
            i += 1;
        } else {
            items.remove(i);
            assert(items.deep_view() =~= now.remove(i as int));
            assert(now.remove(i as int) =~= before.take(seen + 1).filter(p) + before.skip(
                seen + 1,
            ));
        }
        proof {
            seen = seen + 1;
        }
    }
    assert(before.take(seen) =~= before);
    assert(items.deep_view() =~= before.filter(p));
}

/// The elements that satisfy a test, in order.
pub(crate) fn select<T: Value, F: Fn(&T) -> bool>(
    items: &Vec<T>,
    test: F,
    Ghost(p): Ghost<spec_fn(T::V) -> bool>,
) -> (r: Vec<T>)
    requires
        forall|t: &T| #[trigger] call_requires(test, (t,)),
        forall|t: &T, b: bool| #[trigger] call_ensures(test, (t,), b) ==> b == p(t.deep_view()),
    ensures
        r.deep_view() == items.deep_view().filter(p),
{
    let mut kept = items.dup();
    retain(&mut kept, test, Ghost(p));
    kept
}

/// One vector after the other.
pub(crate) fn join<T: Value>(a: &Vec<T>, b: &Vec<T>) -> (r: Vec<T>)
    ensures
        r.deep_view() == a.deep_view() + b.deep_view(),
{
    let mut all = a.dup();
    let mut rest = b.dup();
    let ghost x = all.deep_view();
    let ghost y = rest.deep_view();
    all.append(&mut rest);
    assert(all.deep_view() =~= x + y);
    all
}

/// Removes the element at a position.
pub(crate) fn remove<T: DeepView>(items: &mut Vec<T>, at: usize)
    requires
        at < old(items).len(),
    ensures
        final(items).deep_view() == old(items).deep_view().remove(at as int),
{
    let ghost before = items.deep_view();
    items.remove(at);
    assert(items.deep_view() =~= before.remove(at as int));
}

/// Replaces the element at a position.
pub(crate) fn replace<T: DeepView>(items: &mut Vec<T>, at: usize, item: T)
    requires
        at < old(items).len(),
    ensures
        final(items).deep_view() == old(items).deep_view().update(at as int, item.deep_view()),
{
    let ghost before = items.deep_view();
    items[at] = item;
    assert(items.deep_view() =~= before.update(at as int, item.deep_view()));
}

/// Appends an element.
pub(crate) fn push<T: DeepView>(items: &mut Vec<T>, item: T)
    ensures
        final(items).deep_view() == old(items).deep_view().push(item.deep_view()),
{
    let ghost before = items.deep_view();
    items.push(item);
    assert(items.deep_view() =~= before.push(item.deep_view()));
}

/// Puts a vector in order; elements of which neither comes after the other stay as they stood.
pub(crate) fn sort<T: DeepView, F: Fn(&T, &T) -> bool>(
    items: Vec<T>,
    not_after: F,
    Ghost(le): Ghost<spec_fn(T::V, T::V) -> bool>,
) -> (r: Vec<T>)
    requires
        forall|a: &T, b: &T| #[trigger] call_requires(not_after, (a, b)),
        forall|a: &T, b: &T, c: bool| #[trigger]
            call_ensures(not_after, (a, b), c) ==> c == le(a.deep_view(), b.deep_view()),
    ensures
        r.deep_view() == seqs::stable_sorted(items.deep_view(), le),
{
    let ghost all = items.deep_view();
    let ghost mut seen: int = 0;
    let mut rest = items;
    let mut sorted: Vec<T> = Vec::new();
    assert(all.take(0) =~= Seq::<T::V>::empty());
    assert(all.skip(0) =~= all);
    assert(sorted.deep_view() =~= Seq::<T::V>::empty());
    while rest.len() > 0
        invariant
            0 <= seen <= all.len(),
            rest.deep_view() == all.skip(seen),
            sorted.deep_view() == seqs::stable_sorted(all.take(seen), le),
            forall|a: &T, b: &T| #[trigger] call_requires(not_after, (a, b)),
            forall|a: &T, b: &T, c: bool| #[trigger]
                call_ensures(not_after, (a, b), c) ==> c == le(a.deep_view(), b.deep_view()),
        decreases rest.len(),
    {
        let ghost before = rest.deep_view();
        let item = rest.remove(0);
        assert(rest.deep_view() =~= before.remove(0));
        assert(before[0] == item.deep_view());
        assert(before.remove(0) =~= all.skip(seen + 1));
        assert(all.take(seen + 1).drop_last() =~= all.take(seen));
        assert(all.take(seen + 1).last() == item.deep_view());
        let ghost p = |b: T::V| !le(b, item.deep_view());
        let ghost so_far = sorted.deep_view();
        let mut at: usize = 0;
        while at < sorted.len() && not_after(&sorted[at], &item)
            invariant
                at <= sorted.len(),
                so_far == sorted.deep_view(),
                p == (|b: T::V| !le(b, item.deep_view())),
                forall|j: int| 0 <= j < at ==> !p(#[trigger] so_far[j]),
                forall|a: &T, b: &T| #[trigger] call_requires(not_after, (a, b)),
                forall|a: &T, b: &T, c: bool| #[trigger]
                    call_ensures(not_after, (a, b), c) ==> c == le(a.deep_view(), b.deep_view()),
            ensures
                at <= sorted.len(),
                so_far == sorted.deep_view(),
                forall|j: int| 0 <= j < at ==> !p(#[trigger] so_far[j]),
                at < sorted.len() ==> p(so_far[at as int]),
            decreases sorted.len() - at,
        {
            at += 1;
        }
        proof {
            if at < sorted.len() {
                seqs::lemma_index_at(so_far, p, at as int);
            } else {
                seqs::lemma_index_none(so_far, p);
                assert(so_far.insert(at as int, item.deep_view()) =~= so_far.push(
                    item.deep_view(),
                ));
            }
        }
        sorted.insert(at, item);
        assert(sorted.deep_view() =~= so_far.insert(at as int, item.deep_view()));
        proof {
            seen = seen + 1;
        }
    }
    assert(all.take(seen) =~= all);
    sorted
}

} // verus!
