//! Operations on one table of records with string ids: lookup by id, selection by a
//! condition, and the ids of the selected records.
use vstd::prelude::*;

use crate::api_http::request_prep::string_views;
use crate::store::keyed::{Duplicate, seq_views};
use crate::text::{chars_of, seq_eq};

verus! {

/// A record with a string id.
pub trait Row: Duplicate {
    spec fn key_of(v: Self::V) -> Seq<char>;

    fn key(&self) -> (r: &str)
        ensures
            r@ == Self::key_of(self@);
}

/// No id occurs twice.
pub open spec fn keys_unique<T: Row>(s: Seq<T::V>) -> bool {
    forall|i: int, j: int| 0 <= i < j < s.len() ==> T::key_of(#[trigger] s[i]) != T::key_of(#[trigger] s[j])
}

/// The ids of the records, in order.
pub open spec fn keys_of<T: Row>(s: Seq<T::V>) -> Seq<Seq<char>> {
    Seq::new(s.len(), |i: int| T::key_of(s[i]))
}

/// Some record has id `k`.
pub open spec fn has_key<T: Row>(s: Seq<T::V>, k: Seq<char>) -> bool {
    exists|i: int| 0 <= i < s.len() && T::key_of(#[trigger] s[i]) == k
}

/// The position of the record with id `k`.
pub open spec fn key_index<T: Row>(s: Seq<T::V>, k: Seq<char>) -> int {
    choose|i: int| 0 <= i < s.len() && T::key_of(#[trigger] s[i]) == k
}

/// The record with id `k`, if any.
pub open spec fn lookup<T: Row>(s: Seq<T::V>, k: Seq<char>) -> Option<T::V> {
    if has_key::<T>(s, k) {
        Some(s[key_index::<T>(s, k)])
    } else {
        None
    }
}

pub proof fn lemma_lookup_at<T: Row>(s: Seq<T::V>, i: int)
    requires
        keys_unique::<T>(s),
        0 <= i < s.len(),
    ensures
        lookup::<T>(s, T::key_of(s[i])) == Some(s[i]),
        key_index::<T>(s, T::key_of(s[i])) == i,
{
    let k = T::key_of(s[i]);
    assert(has_key::<T>(s, k));
    let j = key_index::<T>(s, k);
    if j != i {
        if j < i {
            assert(T::key_of(s[j]) != T::key_of(s[i]));
        } else {
            assert(T::key_of(s[i]) != T::key_of(s[j]));
        }
    }
}

pub proof fn lemma_unique_filter<T: Row>(s: Seq<T::V>, pred: spec_fn(T::V) -> bool)
    requires
        keys_unique::<T>(s),
    ensures
        keys_unique::<T>(s.filter(pred)),
        forall|k: Seq<char>| has_key::<T>(s.filter(pred), k) ==> has_key::<T>(s, k),
    decreases s.len(),
{
    reveal(Seq::filter);
    if s.len() > 0 {
        let d = s.drop_last();
        assert(keys_unique::<T>(d)) by {
            assert forall|i: int, j: int| 0 <= i < j < d.len() implies T::key_of(#[trigger] d[i]) != T::key_of(#[trigger] d[j]) by {
                assert(d[i] == s[i] && d[j] == s[j]);
            }
        }
        lemma_unique_filter::<T>(d, pred);
        let f = d.filter(pred);
        assert forall|k: Seq<char>| has_key::<T>(f, k) implies has_key::<T>(s, k) by {
            assert(has_key::<T>(d, k));
            let i = choose|i: int| 0 <= i < d.len() && T::key_of(#[trigger] d[i]) == k;
            assert(s[i] == d[i]);
        }
        if pred(s.last()) {
            let g = f.push(s.last());
            assert forall|k: Seq<char>| has_key::<T>(g, k) implies has_key::<T>(s, k) by {
                let i = choose|i: int| 0 <= i < g.len() && T::key_of(#[trigger] g[i]) == k;
                if i == f.len() {
                    assert(T::key_of(s[s.len() - 1]) == k);
                } else {
                    assert(g[i] == f[i]);
                    assert(has_key::<T>(f, k));
                }
            }
            assert forall|i: int, j: int| 0 <= i < j < g.len() implies T::key_of(#[trigger] g[i]) != T::key_of(#[trigger] g[j]) by {
                if j == f.len() {
                    assert(g[i] == f[i]);
                    if T::key_of(f[i]) == T::key_of(s.last()) {
                        assert(has_key::<T>(f, T::key_of(f[i])));
                        assert(has_key::<T>(d, T::key_of(f[i])));
                        let m = choose|m: int| 0 <= m < d.len() && T::key_of(#[trigger] d[m]) == T::key_of(f[i]);
                        assert(d[m] == s[m]);
                        assert(T::key_of(s[m]) != T::key_of(s[s.len() - 1]));
                    }
                } else {
                    assert(g[i] == f[i] && g[j] == f[j]);
                }
            }
        }
    }
}

pub proof fn lemma_unique_push<T: Row>(s: Seq<T::V>, x: T::V)
    requires
        keys_unique::<T>(s),
        !has_key::<T>(s, T::key_of(x)),
    ensures
        keys_unique::<T>(s.push(x)),
        forall|k: Seq<char>| has_key::<T>(s.push(x), k) <==> (has_key::<T>(s, k) || k == T::key_of(x)),
{
    let t = s.push(x);
    assert forall|i: int, j: int| 0 <= i < j < t.len() implies T::key_of(#[trigger] t[i]) != T::key_of(#[trigger] t[j]) by {
        if j == s.len() {
            assert(t[i] == s[i]);
        } else {
            assert(t[i] == s[i] && t[j] == s[j]);
        }
    }
    assert forall|k: Seq<char>| has_key::<T>(t, k) <==> (has_key::<T>(s, k) || k == T::key_of(x)) by {
        if has_key::<T>(s, k) {
            let i = choose|i: int| 0 <= i < s.len() && T::key_of(#[trigger] s[i]) == k;
            assert(t[i] == s[i]);
        }
        if k == T::key_of(x) {
            assert(t[s.len() as int] == x);
        }
        if has_key::<T>(t, k) {
            let i = choose|i: int| 0 <= i < t.len() && T::key_of(#[trigger] t[i]) == k;
            if i < s.len() {
                assert(t[i] == s[i]);
            }
        }
    }
}

pub proof fn lemma_unique_update<T: Row>(s: Seq<T::V>, i: int, x: T::V)
    requires
        keys_unique::<T>(s),
        0 <= i < s.len(),
        T::key_of(x) == T::key_of(s[i]),
    ensures
        keys_unique::<T>(s.update(i, x)),
        forall|k: Seq<char>| has_key::<T>(s.update(i, x), k) <==> has_key::<T>(s, k),
{
    let t = s.update(i, x);
    assert forall|a: int, b: int| 0 <= a < b < t.len() implies T::key_of(#[trigger] t[a]) != T::key_of(#[trigger] t[b]) by {
        assert(T::key_of(t[a]) == T::key_of(s[a]));
        assert(T::key_of(t[b]) == T::key_of(s[b]));
    }
    assert forall|k: Seq<char>| has_key::<T>(t, k) <==> has_key::<T>(s, k) by {
        if has_key::<T>(s, k) {
            let j = choose|j: int| 0 <= j < s.len() && T::key_of(#[trigger] s[j]) == k;
            assert(T::key_of(t[j]) == T::key_of(s[j]));
        }
        if has_key::<T>(t, k) {
            let j = choose|j: int| 0 <= j < t.len() && T::key_of(#[trigger] t[j]) == k;
            assert(T::key_of(t[j]) == T::key_of(s[j]));
        }
    }
}

/// The position of the record with id `key`.
pub fn find_row<T: Row>(v: &Vec<T>, key: &str) -> (r: Option<usize>)
    requires
        keys_unique::<T>(seq_views(v@)),
    ensures
        match r {
            Some(i) => i < v@.len() && T::key_of(v@[i as int]@) == key@ && lookup::<T>(seq_views(v@), key@)
                == Some(v@[i as int]@) && key_index::<T>(seq_views(v@), key@) == i,
            None => !has_key::<T>(seq_views(v@), key@) && lookup::<T>(seq_views(v@), key@) is None,
        },
{
    let k = chars_of(key);
    let ghost s = seq_views(v@);
    let mut i: usize = 0;
    while i < v.len()
        invariant
            i <= v@.len(),
            s == seq_views(v@),
            keys_unique::<T>(s),
            k@ == key@,
            forall|j: int| 0 <= j < i ==> T::key_of(#[trigger] s[j]) != key@,
        decreases v@.len() - i,
    {
        let here = chars_of(v[i].key());
        assert(s[i as int] == v@[i as int]@);
        if seq_eq(here.as_slice(), k.as_slice()) {
            proof { lemma_lookup_at::<T>(s, i as int); }
            return Some(i);
        }
        i += 1;
    }
    None
}

/// Copies of the records that `keep` accepts, in order.
pub fn select_rows<T: Row, F: Fn(&T) -> bool>(v: &Vec<T>, keep: F, Ghost(pred): Ghost<spec_fn(T::V) -> bool>) -> (r: Vec<T>)
    requires
        forall|t: &T| #[trigger] keep.requires((t,)),
        forall|t: &T, b: bool| keep.ensures((t,), b) ==> b == pred(t@),
    ensures
        seq_views(r@) == seq_views(v@).filter(pred),
{
    let ghost s = seq_views(v@);
    let mut out: Vec<T> = Vec::new();
    let mut i: usize = 0;
    assert(s.take(0) =~= Seq::<T::V>::empty());
    assert(seq_views(out@) =~= Seq::<T::V>::empty());
    assert(s.take(0).filter(pred) =~= Seq::<T::V>::empty()) by { reveal(Seq::filter); }
    while i < v.len()
        invariant
            i <= v@.len(),
            s == seq_views(v@),
            forall|t: &T| #[trigger] keep.requires((t,)),
            forall|t: &T, b: bool| keep.ensures((t,), b) ==> b == pred(t@),
            seq_views(out@) == s.take(i as int).filter(pred),
        decreases v@.len() - i,
    {
        let ghost before = seq_views(out@);
        let b = keep(&v[i]);
        proof {
            assert(s[i as int] == v@[i as int]@);
            assert(s.take(i + 1).drop_last() =~= s.take(i as int));
            assert(s.take(i + 1).last() == s[i as int]);
            assert(s.take(i as int).push(s[i as int]) =~= s.take(i + 1));
            s.take(i as int).lemma_filter_push(s[i as int], pred);
        }
        if b {
            out.push(v[i].duplicate());
            assert(seq_views(out@) =~= before.push(s[i as int]));
        }
        i += 1;
    }
    assert(s.take(v@.len() as int) =~= s);
    out
}

/// How many records `hit` accepts.
pub fn count_rows<T: Row, F: Fn(&T) -> bool>(v: &Vec<T>, hit: F, Ghost(pred): Ghost<spec_fn(T::V) -> bool>) -> (r: usize)
    requires
        forall|t: &T| #[trigger] hit.requires((t,)),
        forall|t: &T, b: bool| hit.ensures((t,), b) ==> b == pred(t@),
    ensures
        r == seq_views(v@).filter(pred).len(),
{
    let ghost s = seq_views(v@);
    let mut n: usize = 0;
    let mut i: usize = 0;
    assert(s.take(0) =~= Seq::<T::V>::empty());
    assert(s.take(0).filter(pred) =~= Seq::<T::V>::empty()) by { reveal(Seq::filter); }
    while i < v.len()
        invariant
            i <= v@.len(),
            s == seq_views(v@),
            forall|t: &T| #[trigger] hit.requires((t,)),
            forall|t: &T, b: bool| hit.ensures((t,), b) ==> b == pred(t@),
            n == s.take(i as int).filter(pred).len(),
            n <= i,
        decreases v@.len() - i,
    {
        let b = hit(&v[i]);
        proof {
            assert(s[i as int] == v@[i as int]@);
            assert(s.take(i + 1).drop_last() =~= s.take(i as int));
            assert(s.take(i + 1).last() == s[i as int]);
            assert(s.take(i as int).push(s[i as int]) =~= s.take(i + 1));
            s.take(i as int).lemma_filter_push(s[i as int], pred);
        }
        if b {
            n += 1;
        }
        i += 1;
    }
    assert(s.take(v@.len() as int) =~= s);
    n
}

/// The ids of the records, in order.
pub fn row_keys<T: Row>(v: &Vec<T>) -> (r: Vec<String>)
    ensures
        string_views(r@) == keys_of::<T>(seq_views(v@)),
{
    let mut out: Vec<String> = Vec::new();
    for i in 0..v.len()
        invariant
            out@.len() == i,
            forall|j: int| 0 <= j < i ==> #[trigger] out@[j]@ == T::key_of(v@[j]@),
    {
        out.push(v[i].key().to_owned());
    }
    assert(string_views(out@) =~= keys_of::<T>(seq_views(v@)));
    out
}

/// Whether `s` is one of `v`.
pub fn contains_string(v: &Vec<String>, s: &str) -> (r: bool)
    ensures
        r == string_views(v@).contains(s@),
{
    let k = chars_of(s);
    for i in 0..v.len()
        invariant
            k@ == s@,
            forall|j: int| 0 <= j < i ==> #[trigger] v@[j]@ != s@,
    {
        if seq_eq(chars_of(v[i].as_str()).as_slice(), k.as_slice()) {
            assert(string_views(v@)[i as int] == s@);
            return true;
        }
    }
    assert forall|j: int| 0 <= j < string_views(v@).len() implies #[trigger] string_views(v@)[j] != s@ by {
        assert(v@[j]@ != s@);
    }
    false
}


/// A record with a position among its siblings.
pub trait Ordered: Row {
    spec fn sort_of(v: Self::V) -> i64;

    fn sort_value(&self) -> (r: i64)
        ensures
            r == Self::sort_of(self@);
}

/// The largest of the values, if any.
pub open spec fn seq_max(s: Seq<i64>) -> Option<i64>
    decreases s.len(),
{
    if s.len() == 0 {
        None
    } else {
        match seq_max(s.drop_last()) {
            None => Some(s.last()),
            Some(m) => if s.last() > m { Some(s.last()) } else { Some(m) },
        }
    }
}

/// The positions of the records, in order.
pub open spec fn sorts_of<T: Ordered>(s: Seq<T::V>) -> Seq<i64> {
    Seq::new(s.len(), |i: int| T::sort_of(s[i]))
}

/// The position after the last one: one more than the largest, or 0 when there is none.
pub open spec fn next_sort(s: Seq<i64>) -> int {
    match seq_max(s) {
        None => 0,
        Some(m) => m + 1,
    }
}

/// The largest position among the records that `hit` accepts, if any.
pub fn max_sort_where<T: Ordered, F: Fn(&T) -> bool>(v: &Vec<T>, hit: F, Ghost(pred): Ghost<spec_fn(T::V) -> bool>) -> (r: Option<i64>)
    requires
        forall|t: &T| #[trigger] hit.requires((t,)),
        forall|t: &T, b: bool| hit.ensures((t,), b) ==> b == pred(t@),
    ensures
        r == seq_max(sorts_of::<T>(seq_views(v@).filter(pred))),
{
    let ghost s = seq_views(v@);
    let mut best: Option<i64> = None;
    let mut i: usize = 0;
    assert(s.take(0) =~= Seq::<T::V>::empty());
    assert(s.take(0).filter(pred) =~= Seq::<T::V>::empty()) by { reveal(Seq::filter); }
    assert(sorts_of::<T>(Seq::<T::V>::empty()) =~= Seq::<i64>::empty());
    while i < v.len()
        invariant
            i <= v@.len(),
            s == seq_views(v@),
            forall|t: &T| #[trigger] hit.requires((t,)),
            forall|t: &T, b: bool| hit.ensures((t,), b) ==> b == pred(t@),
            best == seq_max(sorts_of::<T>(s.take(i as int).filter(pred))),
        decreases v@.len() - i,
    {
        let b = hit(&v[i]);
        let ghost f = s.take(i as int).filter(pred);
        proof {
            assert(s[i as int] == v@[i as int]@);
            assert(s.take(i as int).push(s[i as int]) =~= s.take(i + 1));
            s.take(i as int).lemma_filter_push(s[i as int], pred);
        }
        if b {
            let x = v[i].sort_value();
            best = match best {
                None => Some(x),
                Some(m) => if x > m { Some(x) } else { Some(m) },
            };
            proof {
                let g = f.push(s[i as int]);
                assert(sorts_of::<T>(g).drop_last() =~= sorts_of::<T>(f));
                assert(sorts_of::<T>(g).last() == x);
            }
        }
        i += 1;
    }
    assert(s.take(v@.len() as int) =~= s);
    best
}

} // verus!

verus! {

/// A copy of every record.
pub fn copy_all<T: Duplicate>(v: &Vec<T>) -> (r: Vec<T>)
    ensures
        seq_views(r@) == seq_views(v@),
{
    let mut out: Vec<T> = Vec::new();
    for i in 0..v.len()
        invariant
            out@.len() == i,
            forall|j: int| 0 <= j < i ==> #[trigger] out@[j]@ == v@[j]@,
    {
        out.push(v[i].duplicate());
    }
    assert(seq_views(out@) =~= seq_views(v@));
    out
}

} // verus!

verus! {

/// Whether no id occurs twice.
pub fn keys_are_unique<T: Row>(v: &Vec<T>) -> (r: bool)
    ensures
        r == keys_unique::<T>(seq_views(v@)),
{
    let ghost s = seq_views(v@);
    for i in 0..v.len()
        invariant
            s == seq_views(v@),
            forall|a: int, b: int| 0 <= a < b < s.len() && a < i ==> T::key_of(#[trigger] s[a]) != T::key_of(#[trigger] s[b]),
    {
        let a = chars_of(v[i].key());
        for j in i + 1..v.len()
            invariant
                s == seq_views(v@),
                a@ == T::key_of(s[i as int]),
                i < v@.len(),
                forall|x: int, y: int| 0 <= x < y < s.len() && x < i ==> T::key_of(#[trigger] s[x]) != T::key_of(#[trigger] s[y]),
                forall|y: int| i < y < j ==> T::key_of(s[i as int]) != T::key_of(#[trigger] s[y]),
        {
            assert(s[j as int] == v@[j as int]@);
            if seq_eq(a.as_slice(), chars_of(v[j].key()).as_slice()) {
                return false;
            }
        }
        assert(s[i as int] == v@[i as int]@);
    }
    true
}

} // verus!
