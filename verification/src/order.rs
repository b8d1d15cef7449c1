//! A stable sort by an order of one's own.
use vstd::prelude::*;

verus! {

/// Values that come one before the other.
pub trait Ranked: Sized {
    /// Whether this value comes before another.
    spec fn ranks(self, other: Self) -> bool;

    /// Of two values at most one comes before the other, and a value between two that are ranked
    /// is ranked against one of them.
    proof fn weak_order(a: Self, b: Self, c: Self)
        ensures
            a.ranks(b) ==> !b.ranks(a),
            a.ranks(c) ==> a.ranks(b) || b.ranks(c),
    ;

    fn goes_before(&self, other: &Self) -> (r: bool)
        ensures
            r == self.ranks(*other),
    ;
}

/// No value comes before one that stands before it.
pub open spec fn ordered<T: Ranked>(v: Seq<T>) -> bool {
    forall|i: int, j: int| 0 <= i < j < v.len() ==> !(#[trigger] v[j]).ranks(#[trigger] v[i])
}

/// A list with one more value, behind all those that it does not come before.
pub open spec fn inserted<T: Ranked>(v: Seq<T>, x: T) -> Seq<T>
    decreases v.len(),
{
    if v.len() > 0 && x.ranks(v.last()) {
        inserted(v.drop_last(), x).push(v.last())
    } else {
        v.push(x)
    }
}

/// A list in order; values that are not ranked against each other keep their order.
pub open spec fn sorted<T: Ranked>(v: Seq<T>) -> Seq<T>
    decreases v.len(),
{
    if v.len() == 0 {
        v
    } else {
        inserted(sorted(v.drop_last()), v.last())
    }
}

fn insert_in_order<T: Ranked>(v: &mut Vec<T>, x: T)
    ensures
        final(v)@ == inserted(old(v)@, x),
{
    let ghost all = v@;
    let mut p: usize = v.len();
    let ghost mut tail: Seq<T> = seq![];
    assert(all.take(p as int) =~= all);
    assert(inserted(all.take(p as int), x) + tail =~= inserted(all, x));
    while p > 0 && x.goes_before(&v[p - 1])
        invariant
            p <= v@.len(),
            v@ == all,
            tail == all.skip(p as int),
            inserted(all.take(p as int), x) + tail == inserted(all, x),
        decreases p,
    {
        proof {
            let head = all.take(p as int);
            assert(head.last() == all[p - 1]);
            assert(head.drop_last() =~= all.take(p - 1));
            let longer = all.skip(p - 1);
            assert(inserted(all.take(p - 1), x) + longer =~= inserted(all.take(p - 1), x).push(
                head.last(),
            ) + tail);
            tail = longer;
        }
        p -= 1;
    }
    assert(inserted(all.take(p as int), x) == all.take(p as int).push(x)) by {
        if p > 0 {
            assert(all.take(p as int).last() == all[p - 1]);
        }
    }
    v.insert(p, x);
    assert(v@ =~= all.take(p as int).push(x) + tail);
}

/// Sorts a list.
pub fn sort<T: Ranked>(v: Vec<T>) -> (r: Vec<T>)
    ensures
        r@ == sorted(v@),
{
    let mut left = v;
    let ghost all = v@;
    let mut r: Vec<T> = Vec::new();
    let ghost mut done: int = 0;
    assert(all.take(0) =~= seq![]);
    assert(all.skip(0) =~= all);
    while left.len() > 0
        invariant
            0 <= done <= all.len(),
            left@ == all.skip(done),
            r@ == sorted(all.take(done)),
        decreases left@.len(),
    {
        let x = left.remove(0);
        insert_in_order(&mut r, x);
        proof {
            assert(x == all[done]);
            assert(all.take(done + 1).drop_last() =~= all.take(done));
            assert(all.skip(done).remove(0) =~= all.skip(done + 1));
            done = done + 1;
        }
    }
    assert(all.take(done) =~= all);
    r
}

proof fn lemma_inserted<T: Ranked>(v: Seq<T>, x: T)
    requires
        ordered(v),
    ensures
        ordered(inserted(v, x)),
        inserted(v, x).to_multiset() =~= v.to_multiset().insert(x),
        forall|y: T| #[trigger] inserted(v, x).contains(y) ==> y == x || v.contains(y),
    decreases v.len(),
{
    broadcast use vstd::seq_lib::group_to_multiset_ensures;

    let r = inserted(v, x);
    if v.len() > 0 && x.ranks(v.last()) {
        let head = v.drop_last();
        let h = inserted(head, x);
        assert forall|i: int, j: int| 0 <= i < j < head.len() implies !(#[trigger] head[j]).ranks(
            #[trigger] head[i],
        ) by {
            assert(!v[j].ranks(v[i]));
        }
        lemma_inserted(head, x);
        assert(head.push(v.last()) =~= v);
        assert forall|i: int, j: int| 0 <= i < j < r.len() implies !(#[trigger] r[j]).ranks(
            #[trigger] r[i],
        ) by {
            if j == r.len() - 1 {
                assert(r[i] == h[i]);
                assert(h.contains(h[i]));
                if h[i] == x {
                    T::weak_order(x, v.last(), x);
                } else {
                    let k = choose|k: int| 0 <= k < head.len() && head[k] == h[i];
                    assert(v[k] == h[i]);
                    assert(!v[v.len() - 1].ranks(v[k]));
                }
            } else {
                assert(r[i] == h[i] && r[j] == h[j]);
            }
        }
        assert forall|y: T| #[trigger] r.contains(y) implies y == x || v.contains(y) by {
            let k = choose|k: int| 0 <= k < r.len() && r[k] == y;
            if k == r.len() - 1 {
                assert(v[v.len() - 1] == y);
            } else {
                assert(h.contains(h[k]));
                if y != x {
                    let m = choose|m: int| 0 <= m < head.len() && head[m] == y;
                    assert(v[m] == y);
                }
            }
        }
    } else {
        assert forall|i: int, j: int| 0 <= i < j < r.len() implies !(#[trigger] r[j]).ranks(
            #[trigger] r[i],
        ) by {
            if j == v.len() {
                assert(r[j] == x);
                if i < v.len() - 1 {
                    assert(!v[v.len() - 1].ranks(v[i]));
                    T::weak_order(x, v.last(), v[i]);
                }
            } else {
                assert(!v[j].ranks(v[i]));
            }
        }
        assert forall|y: T| #[trigger] r.contains(y) implies y == x || v.contains(y) by {
            let k = choose|k: int| 0 <= k < r.len() && r[k] == y;
            if k < v.len() {
                assert(v[k] == y);
            }
        }
    }
}

/// Sorting puts the values in order, and neither adds nor loses one.
pub proof fn law_sorted<T: Ranked>(v: Seq<T>)
    ensures
        ordered(sorted(v)),
        sorted(v).to_multiset() =~= v.to_multiset(),
    decreases v.len(),
{
    broadcast use vstd::seq_lib::group_to_multiset_ensures;

    if v.len() > 0 {
        law_sorted(v.drop_last());
        lemma_inserted(sorted(v.drop_last()), v.last());
        assert(v.drop_last().push(v.last()) =~= v);
    }
}

/// Whether neither of two values comes before the other.
pub open spec fn peers<T: Ranked>(a: T, b: T) -> bool {
    !a.ranks(b) && !b.ranks(a)
}

proof fn lemma_filter_push<T>(v: Seq<T>, x: T, p: spec_fn(T) -> bool)
    ensures
        v.push(x).filter(p) == if p(x) {
            v.filter(p).push(x)
        } else {
            v.filter(p)
        },
{
    reveal(Seq::filter);
    assert(v.push(x).drop_last() =~= v);
}

proof fn lemma_inserted_behind_its_peers<T: Ranked>(
    v: Seq<T>,
    x: T,
    y: T,
    p: spec_fn(T) -> bool,
)
    requires
        forall|z: T| #[trigger] p(z) == peers(y, z),
    ensures
        inserted(v, x).filter(p) == v.push(x).filter(p),
    decreases v.len(),
{
    if v.len() > 0 && x.ranks(v.last()) {
        let head = v.drop_last();
        lemma_inserted_behind_its_peers(head, x, y, p);
        T::weak_order(x, y, v.last());
        assert(!(p(x) && p(v.last())));
        assert(head.push(v.last()) =~= v);
        lemma_filter_push(inserted(head, x), v.last(), p);
        lemma_filter_push(head, x, p);
        lemma_filter_push(head, v.last(), p);
        lemma_filter_push(v, x, p);
    }
}

/// Sorting is stable: values that are not ranked against each other come out in the order in which
/// they came.
pub proof fn law_sorting_is_stable<T: Ranked>(v: Seq<T>, y: T)
    ensures
        sorted(v).filter(|z: T| peers(y, z)) == v.filter(|z: T| peers(y, z)),
    decreases v.len(),
{
    let p = |z: T| peers(y, z);
    if v.len() > 0 {
        let w = sorted(v.drop_last());
        law_sorting_is_stable(v.drop_last(), y);
        lemma_inserted_behind_its_peers(w, v.last(), y, p);
        assert(v.drop_last().push(v.last()) =~= v);
        lemma_filter_push(w, v.last(), p);
        lemma_filter_push(v.drop_last(), v.last(), p);
    }
}

} // verus!
