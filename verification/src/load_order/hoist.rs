//! Masters load before the masters that depend on them: "hoisting".
use vstd::prelude::*;

use super::{plugins_view, plugins_wf, LoadOrder};
use crate::plugin::{spec_is_blueprint_master, spec_name_matches, Plugin, PluginView};
use crate::seqs::{first_index, lemma_first_index_is, lemma_first_index_none};
use crate::text::strings_view;

verus! {

/// A plugin that the master name `m` of `p` names, and that `p` can hoist:
/// a blueprint master only hoists blueprint masters' masters.
pub open spec fn pred_hoist_target(p: PluginView, m: Seq<char>) -> spec_fn(PluginView) -> bool {
    |q: PluginView| spec_name_matches(q, m) && (spec_is_blueprint_master(p) || !spec_is_blueprint_master(q))
}

/// Where the master `m` of the `i`th plugin is (0 where it is not found).
pub open spec fn spec_hoist_from(ps: Seq<PluginView>, i: int, m: Seq<char>) -> int {
    match first_index(ps, pred_hoist_target(ps[i], m)) {
        Some(p) => p,
        None => 0,
    }
}

/// The pairs are sorted by strictly increasing first element.
pub open spec fn sorted_pairs(pairs: Seq<(int, int)>) -> bool {
    forall|a: int, b: int| 0 <= a < b < pairs.len() ==> (#[trigger] pairs[a]).0 < (#[trigger] pairs[b]).0
}

pub open spec fn pred_key_above(k: int) -> spec_fn((int, int)) -> bool {
    |e: (int, int)| e.0 > k
}

/// The sorted pairs with `(k, v)` added, unless a pair for `k` is present
/// (as `BTreeMap::entry(k).or_insert(v)` does).
pub open spec fn sorted_insert(pairs: Seq<(int, int)>, k: int, v: int) -> Seq<(int, int)> {
    if exists|j: int| 0 <= j < pairs.len() && (#[trigger] pairs[j]).0 == k {
        pairs
    } else {
        let at = match first_index(pairs, pred_key_above(k)) {
            Some(i) => i,
            None => pairs.len() as int,
        };
        pairs.insert(at, (k, v))
    }
}

/// The moves recorded for the first `k` masters of the `i`th plugin, after
/// `pairs`: a master that loads after the plugin moves to its position.
pub open spec fn spec_add_master_moves(ps: Seq<PluginView>, i: int, k: int, pairs: Seq<(int, int)>) -> Seq<(int, int)>
    decreases k,
{
    if k <= 0 || !ps[i].is_master {
        pairs
    } else {
        let before = spec_add_master_moves(ps, i, k - 1, pairs);
        let from = spec_hoist_from(ps, i, ps[i].masters[k - 1]);
        if from > i {
            sorted_insert(before, from, i)
        } else {
            before
        }
    }
}

/// The moves recorded for the first `n` plugins.
pub open spec fn spec_hoist_moves(ps: Seq<PluginView>, n: int) -> Seq<(int, int)>
    decreases n,
{
    if n <= 0 {
        Seq::empty()
    } else {
        spec_add_master_moves(ps, n - 1, ps[n - 1].masters.len() as int, spec_hoist_moves(ps, n - 1))
    }
}

/// The remaining moves once an element has moved from `from` to `to`: a
/// destination between them shifts up by one.
pub open spec fn adjust_moves(pairs: Seq<(int, int)>, from: int, to: int) -> Seq<(int, int)> {
    pairs.map_values(|e: (int, int)| (e.0, if e.1 < from && e.1 > to { e.1 + 1 } else { e.1 }))
}

/// The sequence with the moves made in order: each removes the element at
/// its first position and inserts it at its second.
pub open spec fn spec_move_elements<A>(s: Seq<A>, pairs: Seq<(int, int)>) -> Seq<A>
    decreases pairs.len(),
{
    if pairs.len() == 0 {
        s
    } else {
        let (from, to) = pairs[0];
        let s2 = if 0 <= from < s.len() && 0 <= to < s.len() {
            s.remove(from).insert(to, s[from])
        } else {
            s
        };
        spec_move_elements(s2, adjust_moves(pairs.drop_first(), from, to))
    }
}

/// Each move takes an element to an earlier position within the sequence.
pub open spec fn moves_ok(pairs: Seq<(int, int)>, len: int) -> bool {
    &&& sorted_pairs(pairs)
    &&& forall|j: int| 0 <= j < pairs.len() ==> 0 <= (#[trigger] pairs[j]).1 < pairs[j].0 < len
}

fn insert_move(pairs: &mut Vec<(usize, usize)>, from: usize, to: usize, len: Ghost<int>)
    requires
        moves_ok(pairs_view(old(pairs)@), len@),
        to < from < len@,
    ensures
        pairs_view(final(pairs)@) == sorted_insert(pairs_view(old(pairs)@), from as int, to as int),
        moves_ok(pairs_view(final(pairs)@), len@),
{
    let ghost pv = pairs_view(pairs@);
    let mut j: usize = 0;
    while j < pairs.len() && pairs[j].0 < from
        invariant
            j <= pairs.len(),
            pv == pairs_view(pairs@),
            forall|q: int| 0 <= q < j ==> (#[trigger] pv[q]).0 < from,
        decreases pairs.len() - j,
    {
        j = j + 1;
    }
    if j < pairs.len() && pairs[j].0 == from {
        assert(pv[j as int].0 == from);
        return;
    }
    proof {
        assert forall|q: int| 0 <= q < pv.len() implies (#[trigger] pv[q]).0 != from by {
            if q >= j {
                assert(pv[j as int].0 > from);
                if q > j {
                    assert(pv[j as int].0 < pv[q].0);
                }
            }
        }
        if j < pv.len() {
            assert(pv[j as int].0 > from);
            lemma_first_index_is(pv, pred_key_above(from as int), j as int);
        } else {
            lemma_first_index_none(pv, pred_key_above(from as int));
        }
    }
    pairs.insert(j, (from, to));
    let ghost nv = pv.insert(j as int, (from as int, to as int));
    assert(pairs_view(pairs@) =~= nv);
    assert forall|a: int, b: int| 0 <= a < b < nv.len() implies (#[trigger] nv[a]).0 < (#[trigger] nv[b]).0 by {
        if b < j {
        } else if b == j {
        } else if a < j {
            assert(nv[b] == pv[b - 1]);
            if j < pv.len() {
                assert(pv[j as int].0 > from);
                if b - 1 > j {
                    assert(pv[j as int].0 < pv[b - 1].0);
                }
            }
        } else if a == j {
            assert(nv[b] == pv[b - 1]);
            assert(pv[j as int].0 > from);
            if b - 1 > j {
                assert(pv[j as int].0 < pv[b - 1].0);
            }
        } else {
            assert(nv[a] == pv[a - 1] && nv[b] == pv[b - 1]);
        }
    }
}

/// Makes the moves in order, adjusting the destinations of the moves still
/// to come as `BTreeMap`-ordered moves are adjusted.
fn move_elements(v: &mut Vec<Plugin>, pairs: Vec<(usize, usize)>)
    requires
        moves_ok(pairs_view(pairs@), old(v)@.len() as int),
        plugins_wf(old(v)@),
    ensures
        plugins_view(final(v)@) == spec_move_elements(plugins_view(old(v)@), pairs_view(pairs@)),
        plugins_wf(final(v)@),
        final(v)@.to_multiset() == old(v)@.to_multiset(),
{
    let ghost target = spec_move_elements(plugins_view(v@), pairs_view(pairs@));
    let ghost orig = v@;
    let len = v.len();
    let mut pairs = pairs;
    assert(pairs_view(pairs@).skip(0) =~= pairs_view(pairs@));
    let mut k: usize = 0;
    while k < pairs.len()
        invariant
            k <= pairs.len(),
            v@.len() == len,
            plugins_wf(v@),
            v@.to_multiset() == orig.to_multiset(),
            moves_ok(pairs_view(pairs@).skip(k as int), len as int),
            spec_move_elements(plugins_view(v@), pairs_view(pairs@).skip(k as int)) == target,
        decreases pairs.len() - k,
    {
        let ghost rest = pairs_view(pairs@).skip(k as int);
        let (from, to) = pairs[k];
        assert(rest[0] == (from as int, to as int));
        let ghost cur = v@;
        let x = v.remove(from);
        v.insert(to, x);
        proof {
            assert(plugins_view(v@) =~= plugins_view(cur).remove(from as int).insert(to as int, plugins_view(cur)[from as int]));
            assert forall|j: int| 0 <= j < v@.len() implies (#[trigger] v@[j]).wf() by {
                let r = cur.remove(from as int);
                assert(v@ == r.insert(to as int, x));
                if j < to {
                    assert(v@[j] == r[j]);
                } else if j > to {
                    assert(v@[j] == r[j - 1]);
                }
                if j != to {
                    let jj = if j < to { j } else { j - 1 };
                    if jj < from { assert(r[jj] == cur[jj]); } else { assert(r[jj] == cur[jj + 1]); }
                }
            }
            vstd::seq_lib::to_multiset_remove(cur, from as int);
            vstd::seq_lib::to_multiset_insert(cur.remove(from as int), to as int, x);
            assert(x == cur[from as int]);
            assert(cur.contains(x));
            vstd::seq_lib::to_multiset_contains(cur, x);
            broadcast use vstd::multiset::group_multiset_axioms;
            assert(cur.to_multiset().remove(x).insert(x) =~= cur.to_multiset());
        }
        let mut q: usize = k + 1;
        let ghost before_adjust = pairs@;
        while q < pairs.len()
            invariant
                k + 1 <= q <= pairs.len(),
                pairs@.len() == before_adjust.len(),
                forall|t: int| 0 <= t < pairs@.len() && (t < k + 1 || t >= q) ==> #[trigger] pairs@[t] == before_adjust[t],
                forall|t: int| k + 1 <= t < q ==> (#[trigger] pairs@[t]).0 == before_adjust[t].0
                    && pairs@[t].1 == (if before_adjust[t].1 < from && before_adjust[t].1 > to { (before_adjust[t].1 + 1) as usize } else { before_adjust[t].1 }),
            decreases pairs.len() - q,
        {
            let (a, b) = pairs[q];
            if b < from && b > to {
                pairs.set(q, (a, b + 1));
            }
            q = q + 1;
        }
        proof {
            assert(pairs_view(pairs@).skip(k + 1) =~= adjust_moves(rest.drop_first(), from as int, to as int));
            let nr = pairs_view(pairs@).skip(k + 1);
            assert forall|a: int, b: int| 0 <= a < b < nr.len() implies (#[trigger] nr[a]).0 < (#[trigger] nr[b]).0 by {
                assert(nr[a].0 == rest[a + 1].0 && nr[b].0 == rest[b + 1].0);
            }
            assert forall|j: int| 0 <= j < nr.len() implies 0 <= (#[trigger] nr[j]).1 < nr[j].0 < len by {
                assert(nr[j].0 == rest[j + 1].0);
                assert(rest[0].0 < rest[j + 1].0);
            }
        }
        k = k + 1;
    }
    assert(pairs_view(pairs@).skip(pairs.len() as int).len() == 0);
}

/// The position of the first plugin that the master name `master` of the
/// `i`th plugin names and that it can hoist (0 where there is none).
fn hoist_source(plugins: &Vec<Plugin>, i: usize, master: &str) -> (res: usize)
    requires
        i < plugins.len(),
    ensures
        res == spec_hoist_from(plugins_view(plugins@), i as int, master@),
        res < plugins.len(),
{
    let ghost ps = plugins_view(plugins@);
    let ghost pred = pred_hoist_target(ps[i as int], master@);
    let hoister_is_blueprint = plugins[i].is_blueprint_master();
    let mut j: usize = 0;
    while j < plugins.len()
        invariant
            j <= plugins.len(),
            ps == plugins_view(plugins@),
            pred == pred_hoist_target(ps[i as int], master@),
            hoister_is_blueprint == spec_is_blueprint_master(ps[i as int]),
            forall|t: int| 0 <= t < j ==> !(#[trigger] pred(ps[t])),
        decreases plugins.len() - j,
    {
        if plugins[j].name_matches(master) && (hoister_is_blueprint || !plugins[j].is_blueprint_master()) {
            proof {
                assert(ps[j as int] == plugins@[j as int]@);
                lemma_first_index_is(ps, pred, j as int);
            }
            return j;
        }
        j = j + 1;
    }
    proof { lemma_first_index_none(ps, pred); }
    0
}

/// Moves each plugin that a master plugin depends on, and that loads after
/// it, to load just before its first such dependent, as `hoist_moves`
/// records the moves.
pub fn hoist_masters(plugins: &mut Vec<Plugin>)
    requires
        plugins_wf(old(plugins)@),
    ensures
        plugins_view(final(plugins)@) == spec_move_elements(
            plugins_view(old(plugins)@),
            spec_hoist_moves(plugins_view(old(plugins)@), old(plugins)@.len() as int),
        ),
        plugins_wf(final(plugins)@),
        final(plugins)@.to_multiset() == old(plugins)@.to_multiset(),
{
    let ghost ps = plugins_view(plugins@);
    let len = plugins.len();
    let mut pairs: Vec<(usize, usize)> = Vec::new();
    assert(pairs_view(pairs@) =~= Seq::<(int, int)>::empty());
    let mut i: usize = 0;
    while i < len
        invariant
            i <= len,
            len == plugins@.len(),
            ps == plugins_view(plugins@),
            plugins_wf(plugins@),
            pairs_view(pairs@) == spec_hoist_moves(ps, i as int),
            moves_ok(pairs_view(pairs@), len as int),
        decreases len - i,
    {
        let ghost before = pairs_view(pairs@);
        if plugins[i].is_master_file() {
            let masters = plugins[i].masters();
            let mut k: usize = 0;
            while k < masters.len()
                invariant
                    k <= masters.len(),
                    i < len,
                    ps[i as int].is_master,
                    strings_view(masters@) == ps[i as int].masters,
                    pairs_view(pairs@) == spec_add_master_moves(ps, i as int, k as int, before),
                    moves_ok(pairs_view(pairs@), len as int),
                decreases masters.len() - k,
            {
                let from = hoist_source(plugins, i, masters[k].as_str());
                assert(masters@[k as int]@ == ps[i as int].masters[k as int]);
                if from > i {
                    insert_move(&mut pairs, from, i, Ghost(len as int));
                }
                k = k + 1;
            }
        }
        i = i + 1;
    }
    move_elements(plugins, pairs);
}

/// No master plugin has a master that it would hoist loading after it.
pub open spec fn masters_hoisted(ps: Seq<PluginView>) -> bool {
    forall|i: int, k: int|
        #![trigger spec_hoist_from(ps, i, ps[i].masters[k])]
        0 <= i < ps.len() && ps[i].is_master && 0 <= k < ps[i].masters.len()
            ==> spec_hoist_from(ps, i, ps[i].masters[k]) <= i
}

proof fn lemma_no_master_moves(ps: Seq<PluginView>, i: int, k: int, pairs: Seq<(int, int)>)
    requires
        masters_hoisted(ps),
        0 <= i < ps.len(),
        k <= ps[i].masters.len(),
    ensures
        spec_add_master_moves(ps, i, k, pairs) == pairs,
    decreases k,
{
    if k > 0 && ps[i].is_master {
        lemma_no_master_moves(ps, i, k - 1, pairs);
        assert(spec_hoist_from(ps, i, ps[i].masters[k - 1]) <= i);
    }
}

proof fn lemma_no_hoist_moves(ps: Seq<PluginView>, n: int)
    requires
        masters_hoisted(ps),
        n <= ps.len(),
    ensures
        spec_hoist_moves(ps, n) == Seq::<(int, int)>::empty(),
    decreases n,
{
    if n > 0 {
        lemma_no_hoist_moves(ps, n - 1);
        lemma_no_master_moves(ps, n - 1, ps[n - 1].masters.len() as int, Seq::empty());
    }
}

/// Hoisting leaves a load order in which no master plugin has a master
/// that it would hoist loading after it as it is.
pub proof fn law_hoisting_keeps_hoisted_order(ps: Seq<PluginView>)
    requires
        masters_hoisted(ps),
    ensures
        spec_move_elements(ps, spec_hoist_moves(ps, ps.len() as int)) == ps,
{
    lemma_no_hoist_moves(ps, ps.len() as int);
}

/// The `i`th plugin, a master, has a master that it would hoist, found at
/// `f`, after it.
pub open spec fn hoists_from(ps: Seq<PluginView>, i: int, f: int) -> bool {
    &&& 0 <= i < f
    &&& i < ps.len()
    &&& ps[i].is_master
    &&& exists|k: int| 0 <= k < ps[i].masters.len() && #[trigger] spec_hoist_from(ps, i, ps[i].masters[k]) == f
}

/// The `i`th plugin is the first that would hoist the plugin at `f`.
pub open spec fn first_to_hoist(ps: Seq<PluginView>, i: int, f: int) -> bool {
    hoists_from(ps, i, f) && forall|j: int| 0 <= j < i ==> !hoists_from(ps, j, f)
}

/// Some pair moves the plugin at `f`.
pub open spec fn moves_from(pairs: Seq<(int, int)>, f: int) -> bool {
    exists|m: int| 0 <= m < pairs.len() && (#[trigger] pairs[m]).0 == f
}

/// Each pair moves a plugin to the position of the first plugin before `n`
/// that would hoist it, and each plugin that one before `n` would hoist is
/// moved.
pub open spec fn moves_up_to(ps: Seq<PluginView>, pairs: Seq<(int, int)>, n: int) -> bool {
    &&& forall|m: int| 0 <= m < pairs.len() ==> (#[trigger] pairs[m]).1 < n && first_to_hoist(ps, pairs[m].1, pairs[m].0)
    &&& forall|i: int, f: int| 0 <= i < n && #[trigger] hoists_from(ps, i, f) ==> moves_from(pairs, f)
}

proof fn lemma_sorted_insert(pairs: Seq<(int, int)>, k: int, v: int)
    ensures
        moves_from(sorted_insert(pairs, k, v), k),
        forall|f: int| moves_from(pairs, f) ==> moves_from(sorted_insert(pairs, k, v), f),
        forall|m: int| 0 <= m < sorted_insert(pairs, k, v).len() ==> (#[trigger] sorted_insert(pairs, k, v)[m] == (k, v)
            || exists|j: int| 0 <= j < pairs.len() && pairs[j] == sorted_insert(pairs, k, v)[m]),
        moves_from(pairs, k) ==> sorted_insert(pairs, k, v) == pairs,
{
    let r = sorted_insert(pairs, k, v);
    if exists|j: int| 0 <= j < pairs.len() && (#[trigger] pairs[j]).0 == k {
    } else {
        let at = match first_index(pairs, pred_key_above(k)) {
            Some(i) => i,
            None => pairs.len() as int,
        };
        if first_index(pairs, pred_key_above(k)) is Some {
            crate::seqs::lemma_first_index_some(pairs, pred_key_above(k));
        }
        assert(r == pairs.insert(at, (k, v)));
        assert(r[at] == (k, v));
        assert forall|f: int| moves_from(pairs, f) implies moves_from(r, f) by {
            let j = choose|j: int| 0 <= j < pairs.len() && (#[trigger] pairs[j]).0 == f;
            if j < at {
                assert(r[j] == pairs[j]);
            } else {
                assert(r[j + 1] == pairs[j]);
            }
        }
        assert forall|m: int| 0 <= m < r.len() implies (#[trigger] r[m] == (k, v)
            || exists|j: int| 0 <= j < pairs.len() && pairs[j] == r[m]) by {
            if m < at {
                assert(pairs[m] == r[m]);
            } else if m > at {
                assert(pairs[m - 1] == r[m]);
            }
        }
    }
}

proof fn lemma_master_moves(ps: Seq<PluginView>, i: int, k: int, pairs: Seq<(int, int)>)
    requires
        0 <= i < ps.len(),
        0 <= k <= ps[i].masters.len(),
        moves_up_to(ps, pairs, i),
    ensures
        ({
            let r = spec_add_master_moves(ps, i, k, pairs);
            &&& forall|m: int| 0 <= m < r.len() ==> (#[trigger] r[m]).1 <= i && first_to_hoist(ps, r[m].1, r[m].0)
            &&& forall|j: int, f: int| 0 <= j < i && #[trigger] hoists_from(ps, j, f) ==> moves_from(r, f)
            &&& forall|q: int| 0 <= q < k && ps[i].is_master && #[trigger] spec_hoist_from(ps, i, ps[i].masters[q]) > i
                ==> moves_from(r, spec_hoist_from(ps, i, ps[i].masters[q]))
        }),
    decreases k,
{
    if k <= 0 || !ps[i].is_master {
        assert forall|m: int| 0 <= m < pairs.len() implies (#[trigger] pairs[m]).1 <= i by {}
    } else {
        lemma_master_moves(ps, i, k - 1, pairs);
        let before = spec_add_master_moves(ps, i, k - 1, pairs);
        let from = spec_hoist_from(ps, i, ps[i].masters[k - 1]);
        if from > i {
            lemma_sorted_insert(before, from, i);
            let r = sorted_insert(before, from, i);
            assert(hoists_from(ps, i, from));
            if !moves_from(before, from) {
                assert forall|j: int| 0 <= j < i implies !hoists_from(ps, j, from) by {}
            }
            assert forall|m: int| 0 <= m < r.len() implies (#[trigger] r[m]).1 <= i && first_to_hoist(ps, r[m].1, r[m].0) by {
                if r[m] != (from, i) {
                    let j = choose|j: int| 0 <= j < before.len() && before[j] == r[m];
                    assert(before[j].1 <= i);
                } else if moves_from(before, from) {
                    assert(r == before);
                    let j = choose|j: int| 0 <= j < before.len() && before[j] == r[m];
                    assert(before[j].1 <= i);
                }
            }
            assert forall|q: int| 0 <= q < k && ps[i].is_master && #[trigger] spec_hoist_from(ps, i, ps[i].masters[q]) > i
                implies moves_from(r, spec_hoist_from(ps, i, ps[i].masters[q])) by {
                if q < k - 1 {
                }
            }
        }
    }
}

proof fn lemma_hoist_moves_up_to(ps: Seq<PluginView>, n: int)
    requires
        0 <= n <= ps.len(),
    ensures
        moves_up_to(ps, spec_hoist_moves(ps, n), n),
    decreases n,
{
    if n > 0 {
        lemma_hoist_moves_up_to(ps, n - 1);
        let i = n - 1;
        let before = spec_hoist_moves(ps, i);
        lemma_master_moves(ps, i, ps[i].masters.len() as int, before);
        let r = spec_hoist_moves(ps, n);
        assert forall|j: int, f: int| 0 <= j < n && #[trigger] hoists_from(ps, j, f) implies moves_from(r, f) by {
            if j == i {
                let q = choose|q: int| 0 <= q < ps[i].masters.len() && #[trigger] spec_hoist_from(ps, i, ps[i].masters[q]) == f;
                assert(spec_hoist_from(ps, i, ps[i].masters[q]) > i);
            }
        }
    }
}

/// The moves that hoisting makes: each takes a plugin to the position of
/// the first master plugin that would hoist it (one that has it as a
/// master, that it can hoist, and that loads before it), and every plugin
/// that some master plugin would hoist is moved. So a master found after a
/// master plugin that depends on it is moved to load just before its first
/// such dependent.
pub proof fn law_hoist_moves(ps: Seq<PluginView>)
    ensures
        forall|m: int| 0 <= m < spec_hoist_moves(ps, ps.len() as int).len()
            ==> first_to_hoist(ps, (#[trigger] spec_hoist_moves(ps, ps.len() as int)[m]).1, spec_hoist_moves(ps, ps.len() as int)[m].0),
        forall|i: int, f: int| #[trigger] hoists_from(ps, i, f) ==> moves_from(spec_hoist_moves(ps, ps.len() as int), f),
{
    lemma_hoist_moves_up_to(ps, ps.len() as int);
}

/// A single move takes the element at `from` to `to`: the element is at
/// `to` afterwards, and deleting it there gives the sequence with it
/// deleted where it was.
pub proof fn law_single_move<A>(s: Seq<A>, from: int, to: int)
    requires
        0 <= to < from < s.len(),
    ensures
        spec_move_elements(s, seq![(from, to)]).len() == s.len(),
        spec_move_elements(s, seq![(from, to)])[to] == s[from],
        spec_move_elements(s, seq![(from, to)]).remove(to) == s.remove(from),
{
    let r = s.remove(from).insert(to, s[from]);
    assert(adjust_moves(seq![(from, to)].drop_first(), from, to) =~= Seq::<(int, int)>::empty());
    assert(spec_move_elements(s, seq![(from, to)]) == spec_move_elements(r, Seq::<(int, int)>::empty()));
    assert(r.remove(to) =~= s.remove(from));
}

/// The pairs as integers.
pub open spec fn pairs_view(v: Seq<(usize, usize)>) -> Seq<(int, int)> {
    v.map_values(|e: (usize, usize)| (e.0 as int, e.1 as int))
}

} // verus!
