//! Sorting records by an order on their contents: a total preorder, such as "newest first,
//! then by name, then by id".
use vstd::prelude::*;
use vstd::relations::sorted_by;
use vstd::seq_lib::*;
use crate::store::keyed::seq_views;

verus! {

/// A total preorder on the contents of a record type.
pub trait Ranked: View + Sized {
    spec fn rank_le(a: Self::V, b: Self::V) -> bool;

    proof fn lemma_rank_total(a: Self::V, b: Self::V)
        ensures
            Self::rank_le(a, b) || Self::rank_le(b, a);

    proof fn lemma_rank_transitive(a: Self::V, b: Self::V, c: Self::V)
        requires
            Self::rank_le(a, b),
            Self::rank_le(b, c),
        ensures
            Self::rank_le(a, c);

    fn rank_le_exec(&self, other: &Self) -> (r: bool)
        ensures
            r == Self::rank_le(self@, other@);
}

/// The order of a record type, as a relation.
pub open spec fn rank_leq<T: Ranked>() -> spec_fn(T::V, T::V) -> bool {
    |a: T::V, b: T::V| T::rank_le(a, b)
}

/// `r` holds the records of `v`, each as often, in the record type's order.
pub open spec fn is_ranked_permutation<T: Ranked>(v: Seq<T::V>, r: Seq<T::V>) -> bool {
    &&& r.to_multiset() == v.to_multiset()
    &&& sorted_by(r, rank_leq::<T>())
}

/// The records that rank the same as `x`.
pub open spec fn same_rank<T: Ranked>(x: T::V) -> spec_fn(T::V) -> bool {
    |y: T::V| T::rank_le(x, y) && T::rank_le(y, x)
}

/// Records that rank the same keep the order they had in `v`.
pub open spec fn keeps_ties<T: Ranked>(v: Seq<T::V>, r: Seq<T::V>) -> bool {
    forall|x: T::V| #[trigger] r.filter(same_rank::<T>(x)) == v.filter(same_rank::<T>(x))
}

pub proof fn lemma_filter_none<A>(s: Seq<A>, pred: spec_fn(A) -> bool)
    requires
        forall|i: int| 0 <= i < s.len() ==> !pred(#[trigger] s[i]),
    ensures
        s.filter(pred) == Seq::<A>::empty(),
    decreases s.len(),
{
    reveal(Seq::filter);
    if s.len() > 0 {
        lemma_filter_none(s.drop_last(), pred);
    }
}

pub proof fn lemma_filter_single<A>(a: A, pred: spec_fn(A) -> bool)
    ensures
        seq![a].filter(pred) == (if pred(a) { seq![a] } else { Seq::<A>::empty() }),
{
    reveal(Seq::filter);
    assert(seq![a].drop_last() =~= Seq::<A>::empty());
    lemma_filter_none(Seq::<A>::empty(), pred);
    assert(seq![a].last() == a);
    if pred(a) {
        assert(Seq::<A>::empty().push(a) =~= seq![a]);
    }
}

/// Inserting `y` before every record it does not rank below: the records that rank the same
/// as `x` gain `y` in front, if it ranks the same, and keep their order.
proof fn lemma_insert_keeps_ties<T: Ranked>(before: Seq<T::V>, p: int, y: T::V, x: T::V)
    requires
        0 <= p <= before.len(),
        forall|j: int| 0 <= j < p ==> !T::rank_le(y, #[trigger] before[j]),
    ensures
        before.insert(p, y).filter(same_rank::<T>(x)) == (if same_rank::<T>(x)(y) {
            seq![y] + before.filter(same_rank::<T>(x))
        } else {
            before.filter(same_rank::<T>(x))
        }),
{
    let pred = same_rank::<T>(x);
    let head = before.take(p);
    let tail = before.skip(p);
    assert(before.insert(p, y) =~= head + seq![y] + tail);
    assert(before =~= head + tail);
    Seq::filter_distributes_over_add(head + seq![y], tail, pred);
    Seq::filter_distributes_over_add(head, seq![y], pred);
    Seq::filter_distributes_over_add(head, tail, pred);
    lemma_filter_single(y, pred);
    if pred(y) {
        assert forall|i: int| 0 <= i < head.len() implies !pred(#[trigger] head[i]) by {
            assert(head[i] == before[i]);
            if pred(head[i]) {
                T::lemma_rank_transitive(y, x, head[i]);
            }
        }
        lemma_filter_none(head, pred);
        assert(head.filter(pred) + seq![y] + tail.filter(pred) =~= seq![y] + (head.filter(pred) + tail.filter(pred)));
    } else {
        assert(head.filter(pred) + Seq::<T::V>::empty() =~= head.filter(pred));
    }
}

/// Sorts records into the record type's order; records that rank the same keep their order.
pub fn sort_ranked<T: Ranked>(v: Vec<T>) -> (r: Vec<T>)
    ensures
        is_ranked_permutation::<T>(seq_views(v@), seq_views(r@)),
        keeps_ties::<T>(seq_views(v@), seq_views(r@)),
{
    let ghost orig = seq_views(v@);
    let ghost mut done: Seq<T::V> = Seq::empty();
    let mut rest = v;
    let mut out: Vec<T> = Vec::new();
    proof {
        assert(seq_views(out@) =~= Seq::<T::V>::empty());
        assert(seq_views(rest@) =~= orig);
        assert(orig =~= seq_views(rest@) + done);
        assert forall|x: T::V| #[trigger] seq_views(out@).filter(same_rank::<T>(x)) == done.filter(same_rank::<T>(x)) by {
            lemma_filter_none(done, same_rank::<T>(x));
            lemma_filter_none(seq_views(out@), same_rank::<T>(x));
        }
        assert(Seq::<T::V>::empty().to_multiset() =~= vstd::multiset::Multiset::empty()) by {
            broadcast use group_to_multiset_ensures;
        }
    }
    while rest.len() > 0
        invariant
            sorted_by(seq_views(out@), rank_leq::<T>()),
            seq_views(out@).to_multiset().add(seq_views(rest@).to_multiset()) == orig.to_multiset(),
            orig == seq_views(rest@) + done,
            forall|x: T::V| #[trigger] seq_views(out@).filter(same_rank::<T>(x)) == done.filter(same_rank::<T>(x)),
        decreases rest@.len(),
    {
        let ghost rest_before = seq_views(rest@);
        let x = rest.pop().unwrap();
        proof {
            assert(rest_before =~= seq_views(rest@).push(x@));
            to_multiset_build(seq_views(rest@), x@);
        }
        let mut p: usize = 0;
        while p < out.len() && !x.rank_le_exec(&out[p])
            invariant
                p <= out@.len(),
                forall|j: int| 0 <= j < p ==> !T::rank_le(x@, #[trigger] seq_views(out@)[j]),
            decreases out@.len() - p,
        {
            assert(seq_views(out@)[p as int] == out@[p as int]@);
            p += 1;
        }
        let ghost before = seq_views(out@);
        proof {
            if p < out@.len() {
                assert(before[p as int] == out@[p as int]@);
                assert(T::rank_le(x@, before[p as int]));
            }
        }
        out.insert(p, x);
        proof {
            assert(seq_views(out@) =~= before.insert(p as int, x@));
            assert forall|a: int, b: int| 0 <= a < b < seq_views(out@).len() implies #[trigger] rank_leq::<T>()(
                seq_views(out@)[a],
                seq_views(out@)[b],
            ) by {
                let s = seq_views(out@);
                if b < p {
                    assert(s[a] == before[a] && s[b] == before[b]);
                    assert(rank_leq::<T>()(before[a], before[b]));
                } else if a > p {
                    assert(s[a] == before[a - 1] && s[b] == before[b - 1]);
                    assert(rank_leq::<T>()(before[a - 1], before[b - 1]));
                } else if a == p {
                    assert(s[b] == before[b - 1]);
                    if b - 1 > p {
                        assert(rank_leq::<T>()(before[p as int], before[b - 1]));
                        T::lemma_rank_transitive(x@, before[p as int], before[b - 1]);
                    }
                } else if b == p {
                    assert(s[a] == before[a]);
                    T::lemma_rank_total(before[a], x@);
                } else {
                    assert(s[a] == before[a] && s[b] == before[b - 1]);
                    assert(rank_leq::<T>()(before[a], before[b - 1]));
                }
            }
            to_multiset_insert(before, p as int, x@);
            broadcast use vstd::multiset::group_multiset_axioms;
            assert(seq_views(out@).to_multiset().add(seq_views(rest@).to_multiset()) =~= orig.to_multiset());
            let ghost done_before = done;
            done = seq![x@] + done;
            assert(orig =~= seq_views(rest@) + done);
            assert forall|y: T::V| #[trigger] seq_views(out@).filter(same_rank::<T>(y)) == done.filter(same_rank::<T>(y)) by {
                lemma_insert_keeps_ties::<T>(before, p as int, x@, y);
                Seq::filter_distributes_over_add(seq![x@], done_before, same_rank::<T>(y));
                lemma_filter_single(x@, same_rank::<T>(y));
                if !same_rank::<T>(y)(x@) {
                    assert(Seq::<T::V>::empty() + done_before.filter(same_rank::<T>(y)) =~= done_before.filter(same_rank::<T>(y)));
                }
            }
        }
    }
    proof {
        assert(seq_views(rest@) =~= Seq::<T::V>::empty());
        assert(done =~= orig);
        broadcast use vstd::multiset::group_multiset_axioms;
        broadcast use group_to_multiset_ensures;
        assert(seq_views(out@).to_multiset() =~= orig.to_multiset());
    }
    out
}

/// Filtering a sequence and filtering one with the same records, each as often, keep the
/// same records, each as often.
pub proof fn lemma_filter_perm<A>(s: Seq<A>, t: Seq<A>, p: spec_fn(A) -> bool)
    requires
        s.to_multiset() == t.to_multiset(),
    ensures
        s.filter(p).to_multiset() == t.filter(p).to_multiset(),
    decreases s.len(),
{
    broadcast use vstd::multiset::group_multiset_axioms;
    broadcast use group_to_multiset_ensures;
    assert(s.len() == s.to_multiset().len() && t.len() == t.to_multiset().len());
    if s.len() == 0 {
        assert(t =~= s);
    } else {
        let x = s.last();
        let d = s.drop_last();
        assert(d.push(x) =~= s);
        assert(t.to_multiset().count(x) > 0);
        assert(t.contains(x));
        let k = choose|k: int| 0 <= k < t.len() && t[k] == x;
        let u = t.remove(k);
        assert(u.to_multiset() =~= d.to_multiset());
        lemma_filter_perm(d, u, p);
        d.lemma_filter_push(x, p);
        let head = t.take(k);
        let tail = t.skip(k + 1);
        assert(t =~= head + seq![x] + tail);
        assert(u =~= head + tail);
        Seq::filter_distributes_over_add(head + seq![x], tail, p);
        Seq::filter_distributes_over_add(head, seq![x], p);
        Seq::filter_distributes_over_add(head, tail, p);
        lemma_filter_single(x, p);
        lemma_multiset_commutative(head.filter(p) + seq![x].filter(p), tail.filter(p));
        lemma_multiset_commutative(head.filter(p), seq![x].filter(p));
        lemma_multiset_commutative(head.filter(p), tail.filter(p));
        if p(x) {
            assert(seq![x].to_multiset() =~= Seq::<A>::empty().push(x).to_multiset());
            assert(Seq::<A>::empty().to_multiset() =~= vstd::multiset::Multiset::empty());
            assert(t.filter(p).to_multiset() =~= u.filter(p).to_multiset().insert(x));
        } else {
            assert(Seq::<A>::empty().to_multiset() =~= vstd::multiset::Multiset::empty());
            assert(t.filter(p).to_multiset() =~= u.filter(p).to_multiset());
        }
    }
}

/// A predicate that holds exactly on the first `j` positions keeps the first `j` records.
pub proof fn lemma_filter_prefix<A>(s: Seq<A>, p: spec_fn(A) -> bool, j: int)
    requires
        0 <= j <= s.len(),
        forall|i: int| 0 <= i < s.len() ==> (p(#[trigger] s[i]) <==> i < j),
    ensures
        s.filter(p) == s.take(j),
    decreases s.len(),
{
    reveal(Seq::filter);
    if s.len() > 0 {
        let d = s.drop_last();
        if j == s.len() {
            lemma_filter_prefix(d, p, j - 1);
            assert(d.take(j - 1) =~= d);
            assert(s.take(j) =~= s);
            assert(d.push(s.last()) =~= s);
        } else {
            lemma_filter_prefix(d, p, j);
            assert(d.take(j) =~= s.take(j));
        }
    }
}

/// Two sorted sequences with the same records, each as often, are the same where records that
/// rank the same are equal.
pub proof fn lemma_sorted_unique<T: Ranked>(s: Seq<T::V>, t: Seq<T::V>)
    requires
        s.to_multiset() == t.to_multiset(),
        sorted_by(s, rank_leq::<T>()),
        sorted_by(t, rank_leq::<T>()),
        forall|i: int, j: int| 0 <= i < s.len() && 0 <= j < s.len() && #[trigger] T::rank_le(s[i], s[j])
            && T::rank_le(s[j], s[i]) ==> s[i] == s[j],
    ensures
        s == t,
    decreases s.len(),
{
    broadcast use vstd::multiset::group_multiset_axioms;
    broadcast use group_to_multiset_ensures;
    assert(s.len() == s.to_multiset().len() && t.len() == t.to_multiset().len());
    if s.len() == 0 {
        assert(s =~= t);
    } else {
        let n = s.len() - 1;
        let x = s.last();
        let y = t.last();
        assert(s.to_multiset().count(y) > 0);
        assert(s.contains(y));
        let a = choose|a: int| 0 <= a < s.len() && s[a] == y;
        assert(t.to_multiset().count(x) > 0);
        assert(t.contains(x));
        let b = choose|b: int| 0 <= b < t.len() && t[b] == x;
        if a < n {
            assert(rank_leq::<T>()(s[a], s[n]));
        } else {
            T::lemma_rank_total(s[n], s[n]);
        }
        if b < n {
            assert(rank_leq::<T>()(t[b], t[n]));
        } else {
            T::lemma_rank_total(t[n], t[n]);
        }
        assert(T::rank_le(s[a], s[n]) && T::rank_le(s[n], s[a]));
        assert(x == y);
        let ds = s.drop_last();
        let dt = t.drop_last();
        assert(ds.push(x) =~= s);
        assert(dt.push(x) =~= t);
        assert(ds.to_multiset() =~= s.to_multiset().remove(x));
        assert(dt.to_multiset() =~= t.to_multiset().remove(x));
        assert(sorted_by(ds, rank_leq::<T>())) by {
            assert forall|i: int, j: int| 0 <= i < j < ds.len() implies #[trigger] rank_leq::<T>()(ds[i], ds[j]) by {
                assert(rank_leq::<T>()(s[i], s[j]));
            }
        }
        assert(sorted_by(dt, rank_leq::<T>())) by {
            assert forall|i: int, j: int| 0 <= i < j < dt.len() implies #[trigger] rank_leq::<T>()(dt[i], dt[j]) by {
                assert(rank_leq::<T>()(t[i], t[j]));
            }
        }
        assert forall|i: int, j: int| 0 <= i < ds.len() && 0 <= j < ds.len() && #[trigger] T::rank_le(ds[i], ds[j])
            && T::rank_le(ds[j], ds[i]) implies ds[i] == ds[j] by {
            assert(ds[i] == s[i] && ds[j] == s[j]);
        }
        lemma_sorted_unique::<T>(ds, dt);
    }
}

} // verus!
