//! A stable sort over items that carry their own strict order.
use vstd::prelude::*;
use vstd::seq_lib::*;

verus! {

/// A strict weak order: some values come before others, the rest are tied.
pub trait Order: Sized {
    /// Whether `self` has to come before `other`.
    spec fn before(self, other: Self) -> bool;

    proof fn before_asymmetric(a: Self, b: Self)
        requires
            a.before(b),
        ensures
            !b.before(a),
    ;

    /// Not coming before is transitive.
    proof fn not_before_transitive(a: Self, b: Self, c: Self)
        requires
            !b.before(a),
            !c.before(b),
        ensures
            !c.before(a),
    ;
}

/// An item whose view is ordered.
pub trait Ranked: View + Sized where Self::V: Order {
    /// Whether `self` has to come before `other`.
    fn is_before(&self, other: &Self) -> (r: bool)
        ensures
            r == self@.before(other@),
    ;
}

/// `s` with `x` put behind every item that `x` does not come before, counted
/// from the end.
pub open spec fn inserted<T: Order>(s: Seq<T>, x: T) -> Seq<T>
    decreases s.len(),
{
    if s.len() == 0 || !x.before(s.last()) {
        s.push(x)
    } else {
        inserted(s.drop_last(), x).push(s.last())
    }
}

/// The items of `s` in order; tied items keep the order they had.
pub open spec fn stable_sorted<T: Order>(s: Seq<T>) -> Seq<T>
    decreases s.len(),
{
    if s.len() == 0 {
        seq![]
    } else {
        inserted(stable_sorted(s.drop_last()), s.last())
    }
}

/// Whether no item of `s` has to come before an earlier one.
pub open spec fn in_order<T: Order>(s: Seq<T>) -> bool {
    forall|i: int, j: int| 0 <= i < j < s.len() ==> !(#[trigger] s[j]).before(#[trigger] s[i])
}

/// The items of `s` that are tied with `k`.
pub open spec fn tied_with<T: Order>(s: Seq<T>, k: T) -> Seq<T> {
    s.filter(|x: T| !x.before(k) && !k.before(x))
}

proof fn lemma_inserted<T: Order>(s: Seq<T>, x: T)
    requires
        in_order(s),
    ensures
        in_order(inserted(s, x)),
        inserted(s, x).to_multiset() == s.to_multiset().insert(x),
        inserted(s, x).len() == s.len() + 1,
        s.len() > 0 ==> (inserted(s, x).last() == x || inserted(s, x).last() == s.last()),
    decreases s.len(),
{
    broadcast use group_to_multiset_ensures;

    if s.len() == 0 {
    } else if !x.before(s.last()) {
        let r = s.push(x);
        assert forall|i: int, j: int| 0 <= i < j < r.len() implies !(#[trigger] r[j]).before(
            #[trigger] r[i],
        ) by {
            if j == s.len() && i < s.len() - 1 {
                T::not_before_transitive(s[i], s.last(), x);
            }
        }
    } else {
        let t = s.drop_last();
        lemma_inserted(t, x);
        let u = inserted(t, x);
        let r = u.push(s.last());
        assert(s =~= t.push(s.last()));
        assert(s.to_multiset() =~= t.to_multiset().insert(s.last()));
        assert(r.to_multiset() =~= s.to_multiset().insert(x));
        assert forall|i: int, j: int| 0 <= i < j < r.len() implies !(#[trigger] r[j]).before(
            #[trigger] r[i],
        ) by {
            if j == u.len() {
                assert(u.to_multiset().contains(u[i]));
                if u[i] == x {
                    T::before_asymmetric(x, s.last());
                } else {
                    assert(t.to_multiset().contains(u[i]));
                    let k = choose|k: int| 0 <= k < t.len() && t[k] == u[i];
                    assert(s[k] == u[i]);
                }
            }
        }
    }
}

/// A sort orders the items, keeps each of them, and keeps the order of tied ones.
pub proof fn lemma_stable_sorted<T: Order>(s: Seq<T>)
    ensures
        in_order(stable_sorted(s)),
        stable_sorted(s).to_multiset() == s.to_multiset(),
        stable_sorted(s).len() == s.len(),
        forall|k: T| #[trigger] tied_with(stable_sorted(s), k) == tied_with(s, k),
    decreases s.len(),
{
    broadcast use group_to_multiset_ensures;

    reveal(Seq::filter);
    if s.len() == 0 {
        assert(s =~= seq![]);
        assert(stable_sorted(s) =~= s);
    } else {
        let t = s.drop_last();
        lemma_stable_sorted(t);
        lemma_inserted(stable_sorted(t), s.last());
        assert(s =~= t.push(s.last()));
        assert(s.to_multiset() =~= t.to_multiset().insert(s.last()));
        assert forall|k: T| #[trigger] tied_with(stable_sorted(s), k) == tied_with(s, k) by {
            lemma_inserted_ties(stable_sorted(t), s.last(), k);
            assert(tied_with(stable_sorted(t), k) == tied_with(t, k));
            lemma_filter_push(t, s.last(), |x: T| !x.before(k) && !k.before(x));
        }
    }
}

proof fn lemma_filter_push<T>(s: Seq<T>, x: T, p: spec_fn(T) -> bool)
    ensures
        s.push(x).filter(p) == if p(x) {
            s.filter(p).push(x)
        } else {
            s.filter(p)
        },
{
    reveal(Seq::filter);
    assert(s.push(x).drop_last() =~= s);
}

proof fn lemma_inserted_ties<T: Order>(s: Seq<T>, x: T, k: T)
    ensures
        tied_with(inserted(s, x), k) == if !x.before(k) && !k.before(x) {
            tied_with(s, k).push(x)
        } else {
            tied_with(s, k)
        },
    decreases s.len(),
{
    let p = |y: T| !y.before(k) && !k.before(y);
    if s.len() == 0 || !x.before(s.last()) {
        lemma_filter_push(s, x, p);
    } else {
        let t = s.drop_last();
        lemma_inserted_ties(t, x, k);
        lemma_filter_push(t, s.last(), p);
        lemma_filter_push(inserted(t, x), s.last(), p);
        assert(s =~= t.push(s.last()));
        if p(x) && p(s.last()) {
            // x, k and the last item would be tied, but x comes before the last item
            T::not_before_transitive(s.last(), k, x);
            assert(false);
        }
    }
}

/// The views of a sequence of items.
pub open spec fn views<E: View>(s: Seq<E>) -> Seq<E::V> {
    s.map_values(|e: E| e@)
}

/// The position in `s` at which `x` belongs.
fn insertion_point<E: Ranked>(s: &Vec<E>, x: &E) -> (r: usize) where E::V: Order
    ensures
        r <= s@.len(),
        inserted(views(s@), x@) == views(s@).insert(r as int, x@),
{
    let mut i: usize = s.len();
    let ghost all = views(s@);
    assert(all.take(i as int) =~= all);
    assert(all.skip(i as int) =~= seq![]);
    assert(inserted(all, x@) =~= inserted(all.take(i as int), x@) + all.skip(i as int));
    while i > 0 && x.is_before(&s[i - 1])
        invariant
            i <= s@.len(),
            all == views(s@),
            inserted(all, x@) == inserted(all.take(i as int), x@) + all.skip(i as int),
        decreases i,
    {
        let ghost t = all.take(i as int);
        assert(t.drop_last() =~= all.take(i - 1));
        assert(inserted(t.drop_last(), x@).push(t.last()) + all.skip(i as int) =~= inserted(
            all.take(i - 1),
            x@,
        ) + all.skip(i - 1));
        i -= 1;
    }
    assert(all.take(i as int).push(x@) + all.skip(i as int) =~= all.insert(i as int, x@));
    i
}

/// The items of `v` in order; tied items keep the order they had.
pub fn stable_sort<E: Ranked>(v: Vec<E>) -> (r: Vec<E>) where E::V: Order
    ensures
        views(r@) == stable_sorted(views(v@)),
        r@.len() == v@.len(),
{
    let mut out: Vec<E> = Vec::new();
    let ghost input = v@;
    assert(views(out@) =~= stable_sorted(views(input.take(0))));
    for x in it: v
        invariant
            it.seq() == input,
            views(out@) == stable_sorted(views(input.take(it.index() as int))),
            out@.len() == it.index(),
    {
        let ghost n = it.index() as int;
        assert(views(input.take(n + 1)).drop_last() =~= views(input.take(n)));
        assert(views(input.take(n + 1)).last() == x@);
        let at: usize = insertion_point(&out, &x);
        let ghost before = views(out@);
        out.insert(at, x);
        assert(views(out@) =~= before.insert(at as int, x@));
    }
    assert(input.take(input.len() as int) =~= input);
    out
}

/// A sort keeps the items: what is in one sequence is in the other.
pub proof fn lemma_sorted_members<T: Order>(s: Seq<T>)
    ensures
        stable_sorted(s).len() == s.len(),
        forall|x: T| #[trigger] stable_sorted(s).contains(x) <==> s.contains(x),
        forall|k: int|
            0 <= k < s.len() ==> s.contains(#[trigger] stable_sorted(s)[k]),
{
    broadcast use group_to_multiset_ensures;

    lemma_stable_sorted(s);
    let t = stable_sorted(s);
    assert forall|x: T| #[trigger] t.contains(x) <==> s.contains(x) by {
        assert(t.to_multiset().count(x) == s.to_multiset().count(x));
    }
    assert forall|k: int| 0 <= k < s.len() implies s.contains(#[trigger] t[k]) by {
        assert(t.contains(t[k]));
    }
}

} // verus!
