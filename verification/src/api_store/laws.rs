//! Properties of the workbench's tables that span operations: what a deletion leaves, what
//! a reordering touches, and how much history a request keeps.
use vstd::prelude::*;

use crate::api_store::rows::{GroupView, HistoryView, RequestView};
use crate::api_store::table::{Row, has_key, keys_unique};
use crate::api_store::tables::{
    joined_view, kept_after_append, newer_of, of_request, read_request, regrouped, request_other_than, strictly_newer,
};
use crate::models::api_client::{ApiGroup, ApiRequest, ApiRequestHistory, MAX_HISTORY_PER_REQUEST};
use crate::api_store::tables::{in_project, last_position, lemma_last_position};
use crate::order::{lemma_lex_antisymmetric, lemma_lex_total, lemma_lex_transitive};
use crate::store::ranked::{Ranked, is_ranked_permutation};
use vstd::relations::sorted_by;

verus! {

/// Reordering the groups of a project changes no group of another project.
pub proof fn law_reorder_keeps_other_projects(gs: Seq<GroupView>, p: Seq<char>, ids: Seq<Seq<char>>, now: i64, j: int)
    requires
        0 <= j < gs.len(),
        gs[j].project_id != p,
    ensures
        regrouped(gs, p, ids, now)[j] == gs[j],
{
}

/// A deleted request is no longer read back.
pub proof fn law_deleted_request_is_gone(gs: Seq<GroupView>, rs: Seq<RequestView>, id: Seq<char>)
    ensures
        read_request(gs, rs.filter(request_other_than(id)), id) is None,
{
    let f = rs.filter(request_other_than(id));
    if has_key::<ApiRequest>(f, id) {
        let i = choose|i: int| 0 <= i < f.len() && ApiRequest::key_of(#[trigger] f[i]) == id;
        rs.lemma_filter_pred(request_other_than(id), i);
    }
}

/// A request written under a new id, in an existing group and with that group's project, is
/// read back as written.
pub proof fn law_written_request_reads_back(gs: Seq<GroupView>, rs: Seq<RequestView>, q: RequestView)
    requires
        keys_unique::<ApiRequest>(rs),
        !has_key::<ApiRequest>(rs, q.id),
        has_key::<crate::models::api_client::ApiGroup>(gs, q.group_id),
        q.project_id == crate::api_store::table::lookup::<crate::models::api_client::ApiGroup>(gs, q.group_id)->Some_0.project_id,
    ensures
        read_request(gs, rs.push(q), q.id) == Some(q),
{
    crate::api_store::table::lemma_unique_push::<ApiRequest>(rs, q);
    crate::api_store::table::lemma_lookup_at::<ApiRequest>(rs.push(q), rs.len() as int);
    assert(joined_view(gs, q).1 == q);
}

/// Of two records with different ids, one is strictly newer.
proof fn lemma_newer_total(a: HistoryView, b: HistoryView)
    requires
        a.id != b.id,
    ensures
        strictly_newer(a, b) || strictly_newer(b, a),
{
    lemma_lex_total(a.id, b.id);
}

proof fn lemma_newer_transitive(a: HistoryView, b: HistoryView, c: HistoryView)
    requires
        strictly_newer(a, b),
        strictly_newer(b, c),
    ensures
        strictly_newer(a, c),
{
    if a.executed_at == b.executed_at && b.executed_at == c.executed_at {
        lemma_lex_transitive(c.id, b.id, a.id);
        if c.id == a.id {
            lemma_lex_antisymmetric(b.id, a.id);
        }
    }
}

/// The oldest of records with distinct ids: every other one is strictly newer.
proof fn lemma_oldest(k: Seq<HistoryView>) -> (i: int)
    requires
        k.len() > 0,
        keys_unique::<ApiRequestHistory>(k),
    ensures
        0 <= i < k.len(),
        forall|j: int| 0 <= j < k.len() && j != i ==> strictly_newer(#[trigger] k[j], k[i]),
    decreases k.len(),
{
    if k.len() == 1 {
        0
    } else {
        let d = k.drop_last();
        assert(keys_unique::<ApiRequestHistory>(d)) by {
            assert forall|a: int, b: int| 0 <= a < b < d.len() implies ApiRequestHistory::key_of(#[trigger] d[a])
                != ApiRequestHistory::key_of(#[trigger] d[b]) by {
                assert(d[a] == k[a] && d[b] == k[b]);
            }
        }
        let i0 = lemma_oldest(d);
        let last = k.len() - 1;
        assert(k[i0] == d[i0]);
        assert(ApiRequestHistory::key_of(k[i0]) != ApiRequestHistory::key_of(k[last]));
        lemma_newer_total(k[i0], k[last]);
        if strictly_newer(k[i0], k[last]) {
            assert forall|j: int| 0 <= j < k.len() && j != last implies strictly_newer(#[trigger] k[j], k[last]) by {
                if j != i0 {
                    assert(k[j] == d[j]);
                    lemma_newer_transitive(k[j], k[i0], k[last]);
                }
            }
            last
        } else {
            assert forall|j: int| 0 <= j < k.len() && j != i0 implies strictly_newer(#[trigger] k[j], k[i0]) by {
                if j != last {
                    assert(k[j] == d[j]);
                }
            }
            i0
        }
    }
}

/// After a write, a request keeps at most the history limit of entries.
pub proof fn law_history_is_capped(all: Seq<HistoryView>, rid: Seq<char>)
    requires
        keys_unique::<ApiRequestHistory>(all),
    ensures
        all.filter(kept_after_append(all, rid)).filter(of_request(rid)).len() <= MAX_HISTORY_PER_REQUEST,
{
    let kept = all.filter(kept_after_append(all, rid));
    let k = kept.filter(of_request(rid));
    crate::api_store::table::lemma_unique_filter::<ApiRequestHistory>(all, kept_after_append(all, rid));
    crate::api_store::table::lemma_unique_filter::<ApiRequestHistory>(kept, of_request(rid));
    if k.len() > MAX_HISTORY_PER_REQUEST {
        let i = lemma_oldest(k);
        let h0 = k[i];
        let n = all.filter(newer_of(rid, h0));
        kept.lemma_filter_pred(of_request(rid), i);
        assert(k.contains(h0));
        kept.lemma_filter_contains_rev(of_request(rid), h0);
        let m = choose|m: int| 0 <= m < kept.len() && kept[m] == h0;
        all.lemma_filter_pred(kept_after_append(all, rid), m);
        assert(n.len() < MAX_HISTORY_PER_REQUEST);
        let rest = k.remove(i);
        assert(rest.no_duplicates()) by {
            assert forall|a: int, b: int| 0 <= a < rest.len() && 0 <= b < rest.len() && a != b implies rest[a] != rest[b] by {
                let a2 = if a < i { a } else { a + 1 };
                let b2 = if b < i { b } else { b + 1 };
                assert(rest[a] == k[a2] && rest[b] == k[b2]);
                if a2 < b2 {
                    assert(ApiRequestHistory::key_of(k[a2]) != ApiRequestHistory::key_of(k[b2]));
                } else {
                    assert(ApiRequestHistory::key_of(k[b2]) != ApiRequestHistory::key_of(k[a2]));
                }
            }
        }
        assert(rest.to_set().subset_of(n.to_set())) by {
            assert forall|x: HistoryView| rest.to_set().contains(x) implies n.to_set().contains(x) by {
                assert(rest.contains(x));
                let a = choose|a: int| 0 <= a < rest.len() && rest[a] == x;
                let a2 = if a < i { a } else { a + 1 };
                assert(rest[a] == k[a2]);
                assert(strictly_newer(x, h0));
                kept.lemma_filter_pred(of_request(rid), a2);
                assert(k.contains(x));
                kept.lemma_filter_contains_rev(of_request(rid), x);
                assert(kept.contains(x));
                all.lemma_filter_contains_rev(kept_after_append(all, rid), x);
                let b = choose|b: int| 0 <= b < all.len() && all[b] == x;
                all.lemma_filter_contains(newer_of(rid, h0), b);
            }
        }
        rest.unique_seq_to_set();
        n.lemma_cardinality_of_set();
        vstd::set_lib::lemma_len_subset(rest.to_set(), n.to_set());
        assert(false);
    }
}

} // verus!

verus! {

/// A strictly increasing run of `k` positions, each below `k`, is `0, 1, ..., k - 1`.
proof fn lemma_increasing_positions(s: Seq<i64>)
    requires
        forall|a: int, b: int| 0 <= a < b < s.len() ==> s[a] < s[b],
        forall|j: int| 0 <= j < s.len() ==> 0 <= #[trigger] s[j] < s.len(),
    ensures
        forall|j: int| 0 <= j < s.len() ==> #[trigger] s[j] == j,
{
    assert forall|j: int| 0 <= j < s.len() implies #[trigger] s[j] >= j by {
        lemma_at_least_index(s, j);
    }
    assert forall|j: int| 0 <= j < s.len() implies #[trigger] s[j] <= j by {
        lemma_at_most_index(s, j);
    }
}

proof fn lemma_at_least_index(s: Seq<i64>, j: int)
    requires
        forall|a: int, b: int| 0 <= a < b < s.len() ==> s[a] < s[b],
        forall|i: int| 0 <= i < s.len() ==> 0 <= #[trigger] s[i],
        0 <= j < s.len(),
    ensures
        s[j] >= j,
    decreases j,
{
    if j > 0 {
        lemma_at_least_index(s, j - 1);
    }
}

proof fn lemma_at_most_index(s: Seq<i64>, j: int)
    requires
        forall|a: int, b: int| 0 <= a < b < s.len() ==> s[a] < s[b],
        forall|i: int| 0 <= i < s.len() ==> #[trigger] s[i] < s.len(),
        0 <= j < s.len(),
    ensures
        s[j] <= j,
    decreases s.len() - j,
{
    if j < s.len() - 1 {
        lemma_at_most_index(s, j + 1);
    }
}

/// Reordering a project's groups by a list that names each of them once lists them in the
/// order of that list.
pub proof fn law_reorder_lists_in_given_order(
    gs: Seq<GroupView>,
    p: Seq<char>,
    ids: Seq<Seq<char>>,
    now: i64,
    listed: Seq<GroupView>,
)
    requires
        keys_unique::<crate::models::api_client::ApiGroup>(gs),
        ids.no_duplicates(),
        ids.len() <= i64::MAX,
        forall|i: int| 0 <= i < ids.len() ==> crate::api_store::tables::belongs(gs, p, #[trigger] ids[i]),
        forall|j: int| 0 <= j < gs.len() && gs[j].project_id == p ==> ids.contains(#[trigger] gs[j].id),
        crate::store::ranked::is_ranked_permutation::<crate::models::api_client::ApiGroup>(
            regrouped(gs, p, ids, now).filter(crate::api_store::tables::in_project(p)),
            listed,
        ),
    ensures
        listed.len() == ids.len(),
        forall|j: int| 0 <= j < listed.len() ==> #[trigger] listed[j].id == ids[j],
{
    broadcast use vstd::seq_lib::group_to_multiset_ensures;
    let g2 = regrouped(gs, p, ids, now);
    let pred = in_project(p);
    let f = g2.filter(pred);
    // The reordered table keeps the ids, so they stay unique, and so do the project's groups.
    assert(keys_unique::<ApiGroup>(g2)) by {
        assert forall|a: int, b: int| 0 <= a < b < g2.len() implies ApiGroup::key_of(#[trigger] g2[a]) != ApiGroup::key_of(#[trigger] g2[b]) by {
            assert(ApiGroup::key_of(gs[a]) != ApiGroup::key_of(gs[b]));
        }
    }
    crate::api_store::table::lemma_unique_filter::<ApiGroup>(g2, pred);
    // Each group of the project, after reordering, sits at the position of its id in the list.
    assert forall|x: GroupView| f.contains(x) implies x.project_id == p && ids.contains(x.id) && ids[last_position(ids, x.id)] == x.id
        && 0 <= last_position(ids, x.id) < ids.len() && x.sort == last_position(ids, x.id) by {
        let i = choose|i: int| 0 <= i < f.len() && f[i] == x;
        g2.lemma_filter_pred(pred, i);
        g2.lemma_filter_contains_rev(pred, x);
        let m = choose|m: int| 0 <= m < g2.len() && g2[m] == x;
        assert(gs[m].project_id == p);
        assert(ids.contains(gs[m].id));
        lemma_last_position(ids, x.id);
    }
    // No group is listed twice.
    assert(f.no_duplicates()) by {
        assert forall|a: int, b: int| 0 <= a < f.len() && 0 <= b < f.len() && a != b implies f[a] != f[b] by {
            if a < b {
                assert(ApiGroup::key_of(f[a]) != ApiGroup::key_of(f[b]));
            } else {
                assert(ApiGroup::key_of(f[b]) != ApiGroup::key_of(f[a]));
            }
        }
    }
    f.lemma_multiset_has_no_duplicates();
    assert(listed.to_multiset() == f.to_multiset());
    listed.lemma_multiset_has_no_duplicates_conv();
    assert forall|x: GroupView| listed.contains(x) implies f.contains(x) by {
        assert(listed.to_multiset().count(x) > 0);
    }
    // The project's groups are exactly the listed ids, so there are as many of them.
    let keys = crate::api_store::table::keys_of::<ApiGroup>(f);
    assert(keys.no_duplicates()) by {
        assert forall|a: int, b: int| 0 <= a < keys.len() && 0 <= b < keys.len() && a != b implies keys[a] != keys[b] by {
            if a < b {
                assert(ApiGroup::key_of(f[a]) != ApiGroup::key_of(f[b]));
            } else {
                assert(ApiGroup::key_of(f[b]) != ApiGroup::key_of(f[a]));
            }
        }
    }
    assert(keys.to_set() =~= ids.to_set()) by {
        assert forall|x: Seq<char>| keys.to_set().contains(x) implies ids.to_set().contains(x) by {
            let a = choose|a: int| 0 <= a < keys.len() && keys[a] == x;
            assert(f.contains(f[a]));
        }
        assert forall|x: Seq<char>| ids.to_set().contains(x) implies keys.to_set().contains(x) by {
            let i = choose|i: int| 0 <= i < ids.len() && ids[i] == x;
            assert(crate::api_store::tables::belongs(gs, p, ids[i]));
            let k = crate::api_store::table::key_index::<ApiGroup>(gs, x);
            assert(0 <= k < gs.len() && gs[k].id == x);
            crate::api_store::table::lemma_lookup_at::<ApiGroup>(gs, k);
            assert(g2[k].project_id == p && g2[k].id == x);
            g2.lemma_filter_contains(pred, k);
            let a = choose|a: int| 0 <= a < f.len() && f[a] == g2[k];
            assert(keys[a] == x);
        }
    }
    keys.unique_seq_to_set();
    ids.unique_seq_to_set();
    assert(listed.to_multiset().len() == listed.len());
    assert(f.to_multiset().len() == f.len());
    assert(listed.len() == f.len());
    assert(listed.len() == ids.len());
    // Each listed group sits at the position of its id in the list.
    let sorts = Seq::new(listed.len(), |j: int| listed[j].sort);
    assert forall|j: int| 0 <= j < listed.len() implies 0 <= #[trigger] sorts[j] < listed.len() && ids[sorts[j] as int] == listed[j].id by {
        assert(listed.contains(listed[j]));
        assert(f.contains(listed[j]));
    }
    // Listed groups have distinct ids, hence distinct positions, and come in increasing order.
    assert forall|a: int, b: int| 0 <= a < b < sorts.len() implies sorts[a] < sorts[b] by {
        assert(listed[a] != listed[b]);
        assert(listed.contains(listed[a]) && listed.contains(listed[b]));
        assert(f.contains(listed[a]) && f.contains(listed[b]));
        let ia = choose|i: int| 0 <= i < f.len() && f[i] == listed[a];
        let ib = choose|i: int| 0 <= i < f.len() && f[i] == listed[b];
        if ia < ib {
            assert(ApiGroup::key_of(f[ia]) != ApiGroup::key_of(f[ib]));
        } else {
            assert(ApiGroup::key_of(f[ib]) != ApiGroup::key_of(f[ia]));
        }
        assert(sorts[a] != sorts[b]);
        assert(crate::store::ranked::rank_leq::<ApiGroup>()(listed[a], listed[b]));
    }
    lemma_increasing_positions(sorts);
    assert forall|j: int| 0 <= j < listed.len() implies #[trigger] listed[j].id == ids[j] by {
        assert(sorts[j] == j);
    }
}

} // verus!

verus! {

/// The parent of group `x`, when `x` is a group and has one.
pub open spec fn parent_of(gs: Seq<GroupView>, x: Seq<char>) -> Option<Seq<char>> {
    match crate::api_store::table::lookup::<ApiGroup>(gs, x) {
        Some(g) => g.parent_group_id,
        None => None,
    }
}

/// The group `i` steps up the parent chain from `x`, while there is one.
pub open spec fn walk(gs: Seq<GroupView>, x: Seq<char>, i: nat) -> Option<Seq<char>>
    decreases i,
{
    if i == 0 {
        Some(x)
    } else {
        match walk(gs, x, (i - 1) as nat) {
            Some(y) => parent_of(gs, y),
            None => None,
        }
    }
}

/// The parent chain from `x` never comes back to a group it passed.
pub open spec fn no_revisit(gs: Seq<GroupView>, x: Seq<char>) -> bool {
    forall|i: nat, j: nat|
        i < j && (#[trigger] walk(gs, x, i)) is Some && (#[trigger] walk(gs, x, j)) is Some ==> walk(gs, x, i) != walk(gs, x, j)
}

/// No parent chain has a cycle: the groups form a forest.
pub open spec fn forest(gs: Seq<GroupView>) -> bool {
    forall|x: Seq<char>| #[trigger] no_revisit(gs, x)
}

/// One step, then the rest of the walk from the parent.
proof fn lemma_walk_step(gs: Seq<GroupView>, x: Seq<char>, d: nat)
    ensures
        walk(gs, x, d + 1) == match parent_of(gs, x) {
            Some(p) => walk(gs, p, d),
            None => None::<Seq<char>>,
        },
    decreases d,
{
    if d > 0 {
        lemma_walk_step(gs, x, (d - 1) as nat);
        assert(walk(gs, x, d + 1) == match walk(gs, x, d) {
            Some(y) => parent_of(gs, y),
            None => None::<Seq<char>>,
        });
        match parent_of(gs, x) {
            Some(p) => {
                assert(walk(gs, p, d) == match walk(gs, p, (d - 1) as nat) {
                    Some(y) => parent_of(gs, y),
                    None => None::<Seq<char>>,
                });
            },
            None => {},
        }
    } else {
        assert(walk(gs, x, 1) == parent_of(gs, x));
    }
}

/// Walking `i + t` steps is walking `i`, then `t` more.
proof fn lemma_walk_split(gs: Seq<GroupView>, x: Seq<char>, i: nat, t: nat)
    ensures
        walk(gs, x, i + t) == match walk(gs, x, i) {
            Some(y) => walk(gs, y, t),
            None => None::<Seq<char>>,
        },
    decreases t,
{
    if t > 0 {
        lemma_walk_split(gs, x, i, (t - 1) as nat);
        match walk(gs, x, i) {
            Some(y) => {
                assert(walk(gs, y, t) == match walk(gs, y, (t - 1) as nat) {
                    Some(z) => parent_of(gs, z),
                    None => None::<Seq<char>>,
                });
            },
            None => {},
        }
    }
}

/// Once the walk stops it stays stopped.
proof fn lemma_walk_stops(gs: Seq<GroupView>, x: Seq<char>, i: nat, j: nat)
    requires
        i <= j,
        walk(gs, x, i) is None,
    ensures
        walk(gs, x, j) is None,
    decreases j - i,
{
    if i < j {
        lemma_walk_stops(gs, x, i, (j - 1) as nat);
    }
}

/// Reaching `target` within `fuel` steps is the walk meeting it within `fuel` steps.
proof fn lemma_reaches_walk(gs: Seq<GroupView>, from: Seq<char>, target: Seq<char>, fuel: nat)
    ensures
        crate::api_store::tables::chain_reaches(gs, from, target, fuel) <==> exists|d: nat| d <= fuel && #[trigger] walk(gs, from, d) == Some(target),
    decreases fuel,
{
    if from == target {
        assert(walk(gs, from, 0) == Some(target));
    } else if fuel == 0 {
        assert forall|d: nat| d <= fuel implies #[trigger] walk(gs, from, d) != Some(target) by {}
    } else {
        match parent_of(gs, from) {
            Some(p) => {
                lemma_reaches_walk(gs, p, target, (fuel - 1) as nat);
                if crate::api_store::tables::chain_reaches(gs, p, target, (fuel - 1) as nat) {
                    let d = choose|d: nat| d <= fuel - 1 && #[trigger] walk(gs, p, d) == Some(target);
                    lemma_walk_step(gs, from, d);
                    assert(walk(gs, from, d + 1) == Some(target));
                } else {
                    assert forall|d: nat| d <= fuel implies #[trigger] walk(gs, from, d) != Some(target) by {
                        if d > 0 {
                            lemma_walk_step(gs, from, (d - 1) as nat);
                        }
                    }
                }
            },
            None => {
                assert forall|d: nat| d <= fuel implies #[trigger] walk(gs, from, d) != Some(target) by {
                    if d > 0 {
                        lemma_walk_step(gs, from, (d - 1) as nat);
                    }
                }
            },
        }
    }
}

} // verus!

verus! {

/// The walk is still going at every step before one where it is.
proof fn lemma_walk_goes(gs: Seq<GroupView>, x: Seq<char>, i: nat, d: nat)
    requires
        i <= d,
        walk(gs, x, d) is Some,
    ensures
        walk(gs, x, i) is Some,
{
    if walk(gs, x, i) is None {
        lemma_walk_stops(gs, x, i, d);
    }
}

/// A walk that never comes back has no more steps than there are groups.
proof fn lemma_walk_bounded(gs: Seq<GroupView>, x: Seq<char>, d: nat)
    requires
        keys_unique::<ApiGroup>(gs),
        no_revisit(gs, x),
        walk(gs, x, d) is Some,
    ensures
        d <= gs.len(),
{
    if d > gs.len() {
        let nodes = Seq::new(d, |i: int| walk(gs, x, i as nat)->Some_0);
        let keys = crate::api_store::table::keys_of::<ApiGroup>(gs);
        assert forall|i: int| 0 <= i < d implies walk(gs, x, i as nat) is Some && has_key::<ApiGroup>(gs, #[trigger] nodes[i]) by {
            lemma_walk_goes(gs, x, (i + 1) as nat, d);
            lemma_walk_goes(gs, x, i as nat, d);
            assert(walk(gs, x, (i + 1) as nat) == match walk(gs, x, i as nat) {
                Some(y) => parent_of(gs, y),
                None => None::<Seq<char>>,
            });
        }
        assert(nodes.no_duplicates()) by {
            assert forall|a: int, b: int| 0 <= a < nodes.len() && 0 <= b < nodes.len() && a != b implies nodes[a] != nodes[b] by {
                assert(walk(gs, x, a as nat) is Some && walk(gs, x, b as nat) is Some) by {
                    assert(has_key::<ApiGroup>(gs, nodes[a]));
                    assert(has_key::<ApiGroup>(gs, nodes[b]));
                }
                if a < b {
                    assert(walk(gs, x, a as nat) != walk(gs, x, b as nat));
                } else {
                    assert(walk(gs, x, b as nat) != walk(gs, x, a as nat));
                }
            }
        }
        assert(nodes.to_set().subset_of(keys.to_set())) by {
            assert forall|y: Seq<char>| nodes.to_set().contains(y) implies keys.to_set().contains(y) by {
                let a = choose|a: int| 0 <= a < nodes.len() && nodes[a] == y;
                assert(has_key::<ApiGroup>(gs, nodes[a]));
                let m = choose|m: int| 0 <= m < gs.len() && ApiGroup::key_of(#[trigger] gs[m]) == y;
                assert(keys[m] == y);
            }
        }
        nodes.unique_seq_to_set();
        keys.lemma_cardinality_of_set();
        vstd::set_lib::lemma_len_subset(nodes.to_set(), keys.to_set());
    }
}

/// In a forest, a walk from `q` that does not meet `g` within as many steps as there are
/// groups never meets it.
proof fn lemma_never_meets(gs: Seq<GroupView>, q: Seq<char>, g: Seq<char>, s: nat)
    requires
        keys_unique::<ApiGroup>(gs),
        forest(gs),
        !crate::api_store::tables::chain_reaches(gs, q, g, gs.len()),
    ensures
        walk(gs, q, s) != Some(g),
{
    assert(no_revisit(gs, q));
    lemma_reaches_walk(gs, q, g, gs.len());
    if walk(gs, q, s) == Some(g) {
        lemma_walk_bounded(gs, q, s);
    }
}

/// The table after group `k` is replaced by `ng`, which keeps its id.
pub open spec fn replaced(gs: Seq<GroupView>, k: int, ng: GroupView) -> Seq<GroupView> {
    gs.update(k, ng)
}

/// Replacing a group changes only that group's parent.
proof fn lemma_replaced_parent(gs: Seq<GroupView>, k: int, ng: GroupView, y: Seq<char>)
    requires
        keys_unique::<ApiGroup>(gs),
        0 <= k < gs.len(),
        ng.id == gs[k].id,
    ensures
        parent_of(replaced(gs, k, ng), y) == if y == gs[k].id { ng.parent_group_id } else { parent_of(gs, y) },
{
    let g2 = replaced(gs, k, ng);
    crate::api_store::table::lemma_unique_update::<ApiGroup>(gs, k, ng);
    if has_key::<ApiGroup>(gs, y) {
        let m = crate::api_store::table::key_index::<ApiGroup>(gs, y);
        assert(0 <= m < gs.len() && ApiGroup::key_of(gs[m]) == y);
        crate::api_store::table::lemma_lookup_at::<ApiGroup>(gs, m);
        assert(ApiGroup::key_of(g2[m]) == y);
        crate::api_store::table::lemma_lookup_at::<ApiGroup>(g2, m);
    }
}

/// Before the walk meets the replaced group, it is the same in both tables.
proof fn lemma_walk_before_meeting(gs: Seq<GroupView>, k: int, ng: GroupView, x: Seq<char>, i: nat)
    requires
        keys_unique::<ApiGroup>(gs),
        0 <= k < gs.len(),
        ng.id == gs[k].id,
        forall|j: nat| j < i ==> #[trigger] walk(gs, x, j) != Some(gs[k].id),
    ensures
        walk(replaced(gs, k, ng), x, i) == walk(gs, x, i),
    decreases i,
{
    if i > 0 {
        lemma_walk_before_meeting(gs, k, ng, x, (i - 1) as nat);
        let prev = walk(gs, x, (i - 1) as nat);
        assert(prev != Some(gs[k].id));
        match prev {
            Some(y) => {
                lemma_replaced_parent(gs, k, ng, y);
            },
            None => {},
        }
    }
}

/// The first step, up to `j`, at which the walk meets `g`.
proof fn lemma_first_meeting(gs: Seq<GroupView>, x: Seq<char>, g: Seq<char>, j: nat) -> (a: Option<nat>)
    ensures
        match a {
            Some(a) => a <= j && walk(gs, x, a) == Some(g) && forall|t: nat| t < a ==> #[trigger] walk(gs, x, t) != Some(g),
            None => forall|t: nat| t <= j ==> #[trigger] walk(gs, x, t) != Some(g),
        },
    decreases j,
{
    if j == 0 {
        if walk(gs, x, 0) == Some(g) {
            Some(0)
        } else {
            None
        }
    } else {
        match lemma_first_meeting(gs, x, g, (j - 1) as nat) {
            Some(a) => Some(a),
            None => if walk(gs, x, j) == Some(g) {
                Some(j)
            } else {
                None
            },
        }
    }
}

} // verus!

verus! {

/// Moving a group to the top level, or under a group whose parent chain does not reach it,
/// keeps the groups a forest: no group becomes its own ancestor.
pub proof fn law_move_keeps_forest(gs: Seq<GroupView>, k: int, ng: GroupView)
    requires
        keys_unique::<ApiGroup>(gs),
        forest(gs),
        0 <= k < gs.len(),
        ng.id == gs[k].id,
        ng.parent_group_id is Some ==> ng.parent_group_id->Some_0 != gs[k].id
            && !crate::api_store::tables::chain_reaches(gs, ng.parent_group_id->Some_0, gs[k].id, gs.len()),
    ensures
        forest(replaced(gs, k, ng)),
{
    let g2 = replaced(gs, k, ng);
    let gid = gs[k].id;
    assert forall|x: Seq<char>| #[trigger] no_revisit(g2, x) by {
        assert forall|i: nat, j: nat|
            i < j && (#[trigger] walk(g2, x, i)) is Some && (#[trigger] walk(g2, x, j)) is Some implies walk(g2, x, i) != walk(g2, x, j) by {
            assert(no_revisit(gs, x));
            match lemma_first_meeting(gs, x, gid, j) {
                None => {
                    lemma_walk_before_meeting(gs, k, ng, x, i);
                    lemma_walk_before_meeting(gs, k, ng, x, j);
                },
                Some(a) => {
                    lemma_walk_before_meeting(gs, k, ng, x, a);
                    if j <= a {
                        lemma_walk_before_meeting(gs, k, ng, x, i);
                        lemma_walk_before_meeting(gs, k, ng, x, j);
                    } else {
                        lemma_replaced_parent(gs, k, ng, gid);
                        let s2 = (j - a - 1) as nat;
                        lemma_walk_split(g2, x, a, (1 + s2) as nat);
                        lemma_walk_step(g2, gid, s2);
                        match ng.parent_group_id {
                            None => {},
                            Some(q) => {
                                assert forall|t: nat| t < s2 + 1 implies #[trigger] walk(gs, q, t) != Some(gid) by {
                                    lemma_never_meets(gs, q, gid, t);
                                }
                                lemma_walk_before_meeting(gs, k, ng, q, s2);
                                assert(walk(g2, x, j) == walk(gs, q, s2));
                                lemma_never_meets(gs, q, gid, s2);
                                if i < a {
                                    lemma_walk_before_meeting(gs, k, ng, x, i);
                                    let y = walk(gs, x, i)->Some_0;
                                    if walk(gs, q, s2) == Some(y) {
                                        lemma_walk_split(gs, x, i, (a - i) as nat);
                                        lemma_walk_split(gs, q, s2, (a - i) as nat);
                                        lemma_never_meets(gs, q, gid, (s2 + (a - i)) as nat);
                                    }
                                } else if i > a {
                                    let s1 = (i - a - 1) as nat;
                                    lemma_walk_split(g2, x, a, (1 + s1) as nat);
                                    lemma_walk_step(g2, gid, s1);
                                    assert forall|t: nat| t < s1 + 1 implies #[trigger] walk(gs, q, t) != Some(gid) by {
                                        lemma_never_meets(gs, q, gid, t);
                                    }
                                    lemma_walk_before_meeting(gs, k, ng, q, s1);
                                    assert(no_revisit(gs, q));
                                    assert(walk(gs, q, s1) != walk(gs, q, s2));
                                }
                            },
                        }
                    }
                },
            }
        }
    }
}

/// Filtering twice keeps what both predicates keep.
proof fn lemma_filter_twice<A>(s: Seq<A>, p: spec_fn(A) -> bool, q: spec_fn(A) -> bool)
    ensures
        s.filter(p).filter(q) == s.filter(|x: A| p(x) && q(x)),
    decreases s.len(),
{
    reveal(Seq::filter);
    if s.len() > 0 {
        let d = s.drop_last();
        let x = s.last();
        lemma_filter_twice(d, p, q);
        assert(d.push(x) =~= s);
        if p(x) {
            d.filter(p).lemma_filter_push(x, q);
        }
    }
}

/// Neither of two records is strictly newer than the other both ways.
proof fn lemma_newer_asymmetric(a: HistoryView, b: HistoryView)
    ensures
        !(strictly_newer(a, b) && strictly_newer(b, a)),
        !strictly_newer(a, a),
{
    if strictly_newer(a, b) && strictly_newer(b, a) {
        lemma_lex_antisymmetric(a.id, b.id);
    }
}

/// The records strictly newer than `h`.
spec fn newer_than(h: HistoryView) -> spec_fn(HistoryView) -> bool {
    |x: HistoryView| strictly_newer(x, h)
}

/// A listing of records with distinct ids, sorted newest first: each record is strictly newer
/// than every later one, and a record's position counts the records newer than it.
proof fn lemma_listing_strict(a: Seq<HistoryView>, la: Seq<HistoryView>)
    requires
        keys_unique::<ApiRequestHistory>(a),
        is_ranked_permutation::<ApiRequestHistory>(a, la),
    ensures
        forall|i: int, j: int| 0 <= i < j < la.len() ==> strictly_newer(#[trigger] la[i], #[trigger] la[j]),
        forall|i: int| 0 <= i < la.len() ==> a.contains(#[trigger] la[i]),
        forall|j: int| 0 <= j < la.len() ==> #[trigger] a.filter(newer_than(la[j])).len() == j,
{
    broadcast use vstd::multiset::group_multiset_axioms;
    broadcast use vstd::seq_lib::group_to_multiset_ensures;
    assert forall|i: int| 0 <= i < la.len() implies a.contains(#[trigger] la[i]) by {
        assert(la.to_multiset().count(la[i]) > 0);
    }
    assert(a.no_duplicates()) by {
        assert forall|i: int, j: int| 0 <= i < a.len() && 0 <= j < a.len() && i != j implies a[i] != a[j] by {
            if i < j {
                assert(ApiRequestHistory::key_of(a[i]) != ApiRequestHistory::key_of(a[j]));
            } else {
                assert(ApiRequestHistory::key_of(a[j]) != ApiRequestHistory::key_of(a[i]));
            }
        }
    }
    a.lemma_multiset_has_no_duplicates();
    la.lemma_multiset_has_no_duplicates_conv();
    assert forall|i: int, j: int| 0 <= i < j < la.len() implies strictly_newer(#[trigger] la[i], #[trigger] la[j]) by {
        assert(crate::store::ranked::rank_leq::<ApiRequestHistory>()(la[i], la[j]));
        assert(a.contains(la[i]) && a.contains(la[j]));
        let x = choose|x: int| 0 <= x < a.len() && a[x] == la[i];
        let y = choose|y: int| 0 <= y < a.len() && a[y] == la[j];
        assert(la[i] != la[j]);
        if x < y {
            assert(ApiRequestHistory::key_of(a[x]) != ApiRequestHistory::key_of(a[y]));
        } else if y < x {
            assert(ApiRequestHistory::key_of(a[y]) != ApiRequestHistory::key_of(a[x]));
        }
    }
    assert forall|j: int| 0 <= j < la.len() implies #[trigger] a.filter(newer_than(la[j])).len() == j by {
        let p = newer_than(la[j]);
        crate::store::ranked::lemma_filter_perm(a, la, p);
        assert forall|i: int| 0 <= i < la.len() implies (p(#[trigger] la[i]) <==> i < j) by {
            lemma_newer_asymmetric(la[i], la[j]);
        }
        crate::store::ranked::lemma_filter_prefix(la, p, j);
        assert(a.filter(p).len() == a.filter(p).to_multiset().len());
        assert(la.filter(p).len() == la.filter(p).to_multiset().len());
    }
}

/// After an entry of a request is written, the request's history lists the newest entries of
/// what it had with the new one, up to the limit: the first ones of that listing, in its order.
pub proof fn law_history_keeps_newest(
    all: Seq<HistoryView>,
    rid: Seq<char>,
    listed_all: Seq<HistoryView>,
    listed_kept: Seq<HistoryView>,
)
    requires
        keys_unique::<ApiRequestHistory>(all),
        is_ranked_permutation::<ApiRequestHistory>(all.filter(of_request(rid)), listed_all),
        is_ranked_permutation::<ApiRequestHistory>(
            all.filter(kept_after_append(all, rid)).filter(of_request(rid)),
            listed_kept,
        ),
    ensures
        listed_kept == listed_all.take(
            if listed_all.len() < MAX_HISTORY_PER_REQUEST { listed_all.len() as int } else { MAX_HISTORY_PER_REQUEST as int },
        ),
{
    broadcast use vstd::multiset::group_multiset_axioms;
    broadcast use vstd::seq_lib::group_to_multiset_ensures;
    let ofr = of_request(rid);
    let kept = kept_after_append(all, rid);
    let a = all.filter(ofr);
    let la = listed_all;
    let m: int = if la.len() < MAX_HISTORY_PER_REQUEST { la.len() as int } else { MAX_HISTORY_PER_REQUEST as int };
    crate::api_store::table::lemma_unique_filter::<ApiRequestHistory>(all, ofr);
    lemma_listing_strict(a, la);
    assert forall|i: int| 0 <= i < la.len() implies (kept(#[trigger] la[i]) <==> i < m) by {
        let h = la[i];
        assert(a.contains(h));
        let x = choose|x: int| 0 <= x < a.len() && a[x] == h;
        all.lemma_filter_pred(ofr, x);
        lemma_filter_twice(all, ofr, newer_than(h));
        assert(newer_of(rid, h) =~= (|y: HistoryView| ofr(y) && newer_than(h)(y)));
        assert(a.filter(newer_than(h)).len() == i);
    }
    crate::store::ranked::lemma_filter_prefix(la, kept, m);
    crate::store::ranked::lemma_filter_perm(a, la, kept);
    lemma_filter_twice(all, kept, ofr);
    lemma_filter_twice(all, ofr, kept);
    assert((|y: HistoryView| kept(y) && ofr(y)) =~= (|y: HistoryView| ofr(y) && kept(y)));
    let t = la.take(m);
    assert(sorted_by(t, crate::store::ranked::rank_leq::<ApiRequestHistory>())) by {
        assert forall|i: int, j: int| 0 <= i < j < t.len() implies #[trigger] crate::store::ranked::rank_leq::<ApiRequestHistory>()(
            t[i],
            t[j],
        ) by {
            assert(crate::store::ranked::rank_leq::<ApiRequestHistory>()(la[i], la[j]));
        }
    }
    assert forall|i: int, j: int| 0 <= i < t.len() && 0 <= j < t.len() && #[trigger] ApiRequestHistory::rank_le(t[i], t[j])
        && ApiRequestHistory::rank_le(t[j], t[i]) implies t[i] == t[j] by {
        if i < j {
            assert(strictly_newer(la[i], la[j]));
            lemma_newer_asymmetric(la[i], la[j]);
            lemma_lex_antisymmetric(la[i].id, la[j].id);
        } else if j < i {
            assert(strictly_newer(la[j], la[i]));
            lemma_newer_asymmetric(la[j], la[i]);
            lemma_lex_antisymmetric(la[i].id, la[j].id);
        }
    }
    crate::store::ranked::lemma_sorted_unique::<ApiRequestHistory>(t, listed_kept);
}

} // verus!
