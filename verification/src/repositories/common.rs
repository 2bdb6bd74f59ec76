//! Field clean-up shared by the repositories: trimming, defaults for blank fields, and
//! lists without blank items.
use vstd::prelude::*;
use crate::api_http::request_prep::string_views;
use crate::text::{trim, trimmed, chars_of, string_of};

verus! {

/// `s` trimmed, as an owned string.
pub fn trimmed_string(s: &str) -> (r: String)
    ensures
        r@ == trim(s@),
{
    let c = chars_of(s);
    let t = trimmed(c.as_slice());
    string_of(t.as_slice())
}

/// The trimmed value, or `fallback` when that is empty.
pub open spec fn or_fallback(value: Seq<char>, fallback: Seq<char>) -> Seq<char> {
    if trim(value).len() == 0 {
        fallback
    } else {
        trim(value)
    }
}

/// Trims `value` and falls back to `fallback` when nothing is left.
pub fn normalize_optional_string(value: &str, fallback: &str) -> (r: String)
    ensures
        r@ == or_fallback(value@, fallback@),
{
    let t = trimmed(chars_of(value).as_slice());
    if t.len() == 0 {
        string_of(chars_of(fallback).as_slice())
    } else {
        string_of(t.as_slice())
    }
}

/// The items trimmed, with the blank ones dropped; order and repeats are kept.
pub open spec fn normalized_list(v: Seq<Seq<char>>) -> Seq<Seq<char>>
    decreases v.len(),
{
    if v.len() == 0 {
        Seq::empty()
    } else {
        let rest = normalized_list(v.drop_last());
        let t = trim(v.last());
        if t.len() == 0 {
            rest
        } else {
            rest.push(t)
        }
    }
}

pub proof fn lemma_or_fallback_idempotent(x: Seq<char>, f: Seq<char>)
    requires
        trim(f) == f,
        f.len() > 0,
    ensures
        or_fallback(or_fallback(x, f), f) == or_fallback(x, f),
{
    crate::text::lemma_trim_idempotent(x);
}

/// The items of a normalized list are trimmed and not empty.
pub proof fn lemma_normalized_list_items(v: Seq<Seq<char>>)
    ensures
        forall|i: int| 0 <= i < normalized_list(v).len() ==> trim(#[trigger] normalized_list(v)[i]) == normalized_list(v)[i]
            && normalized_list(v)[i].len() > 0,
    decreases v.len(),
{
    if v.len() > 0 {
        let rest = normalized_list(v.drop_last());
        lemma_normalized_list_items(v.drop_last());
        crate::text::lemma_trim_idempotent(v.last());
        assert forall|i: int| 0 <= i < normalized_list(v).len() implies trim(#[trigger] normalized_list(v)[i])
            == normalized_list(v)[i] && normalized_list(v)[i].len() > 0 by {
            if i < rest.len() {
                assert(normalized_list(v)[i] == rest[i]);
            }
        }
    }
}

/// A list of trimmed, non-empty items is already normalized.
pub proof fn lemma_normalized_list_fixed(w: Seq<Seq<char>>)
    requires
        forall|i: int| 0 <= i < w.len() ==> trim(#[trigger] w[i]) == w[i] && w[i].len() > 0,
    ensures
        normalized_list(w) == w,
    decreases w.len(),
{
    if w.len() > 0 {
        lemma_normalized_list_fixed(w.drop_last());
        assert(w.drop_last().push(w.last()) =~= w);
    }
}

/// Normalizing a normalized list changes nothing.
pub proof fn lemma_normalized_list_idempotent(v: Seq<Seq<char>>)
    ensures
        normalized_list(normalized_list(v)) == normalized_list(v),
{
    lemma_normalized_list_items(v);
    lemma_normalized_list_fixed(normalized_list(v));
}

/// Trims each item and drops the blank ones.
pub fn normalize_list(values: &[String]) -> (r: Vec<String>)
    ensures
        string_views(r@) == normalized_list(string_views(values@)),
{
    let ghost all = string_views(values@);
    let mut r: Vec<String> = Vec::new();
    let mut i: usize = 0;
    assert(all.take(0) =~= Seq::<Seq<char>>::empty());
    assert(string_views(r@) =~= Seq::<Seq<char>>::empty());
    while i < values.len()
        invariant
            i <= values@.len(),
            all == string_views(values@),
            string_views(r@) == normalized_list(all.take(i as int)),
        decreases values@.len() - i,
    {
        let tc = trimmed(chars_of(values[i].as_str()).as_slice());
        assert(all.take(i + 1).drop_last() =~= all.take(i as int));
        assert(all.take(i + 1).last() == values@[i as int]@);
        if tc.len() > 0 {
            let t = string_of(tc.as_slice());
            let ghost before = r@;
            r.push(t);
            assert(string_views(r@) =~= string_views(before).push(t@));
        }
        i += 1;
    }
    assert(all.take(values@.len() as int) =~= all);
    r
}

/// Copies a list of strings.
pub fn copy_strings(v: &Vec<String>) -> (r: Vec<String>)
    ensures
        string_views(r@) == string_views(v@),
{
    let mut r: Vec<String> = Vec::new();
    let mut i: usize = 0;
    while i < v.len()
        invariant
            i <= v@.len(),
            r@.len() == i,
            forall|j: int| 0 <= j < i ==> #[trigger] r@[j]@ == v@[j]@,
        decreases v@.len() - i,
    {
        r.push(v[i].clone());
        i += 1;
    }
    assert(string_views(r@) =~= string_views(v@));
    r
}

/// `未找到 id 为 {id} 的{what}`.
pub open spec fn not_found_message(id: Seq<char>, what: Seq<char>) -> Seq<char> {
    "未找到 id 为 "@ + id + " 的"@ + what
}

pub fn not_found_text(id: &str, what: &str) -> (r: String)
    ensures
        r@ == not_found_message(id@, what@),
{
    let mut out = chars_of("未找到 id 为 ");
    crate::text::push_str(&mut out, id);
    crate::text::push_str(&mut out, " 的");
    crate::text::push_str(&mut out, what);
    string_of(out.as_slice())
}

} // verus!
