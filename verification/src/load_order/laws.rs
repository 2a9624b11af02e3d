//! What the load order operations promise of each other: what a read gives
//! back after a write.
use vstd::prelude::*;

use super::load::spec_mapped_lines;
use super::readable::{spec_is_active, spec_plugin_names};
use super::save::spec_lines_text;
use super::timestamp::{
    minute, plugin_before, pred_after, spec_insert_unique, spec_pad, spec_padded_unique_timestamps, spec_sort_plugins,
    spec_unique_timestamps, times_of, with_times,
};
use crate::encoding::{is_line_feed, text_lines, without_cr};
use super::writable::{spec_activate_ok, spec_insert_index, with_inserted, with_plugin};
use super::{pred_name_matches, spec_index_of, LoadOrderView};
use crate::game_settings::names_contain;
use crate::plugin::{spec_activated_path, spec_name_matches, PluginView};
use crate::seqs::{first_index, is_first, lemma_first_index_exists, lemma_first_index_is, lemma_first_index_none};

verus! {

/// Replacing a plugin by one with the same name and game leaves where every
/// name is found unchanged.
pub proof fn lemma_index_of_update(ps: Seq<PluginView>, i: int, x: PluginView, name: Seq<char>)
    requires
        0 <= i < ps.len(),
        x.name == ps[i].name,
        x.game == ps[i].game,
    ensures
        spec_index_of(ps.update(i, x), name) == spec_index_of(ps, name),
{
    let qs = ps.update(i, x);
    let p = pred_name_matches(name);
    assert forall|j: int| 0 <= j < ps.len() implies #[trigger] p(qs[j]) == p(ps[j]) by {
        if j == i {
            assert(qs[j] == x);
        } else {
            assert(qs[j] == ps[j]);
        }
    }
    match first_index(ps, p) {
        Some(k) => {
            crate::seqs::lemma_first_index_some(ps, p);
            assert(p(qs[k]));
            assert forall|j: int| 0 <= j < k implies !p(#[trigger] qs[j]) by {
                assert(!p(ps[j]));
            }
            lemma_first_index_is(qs, p, k);
        },
        None => {
            assert forall|j: int| 0 <= j < qs.len() implies !p(#[trigger] qs[j]) by {
                if p(ps[j]) {
                    lemma_first_index_exists(ps, p, j);
                }
            }
            lemma_first_index_none(qs, p);
        },
    }
}

/// After `activate` succeeds, the plugin is active.
pub proof fn law_activate_then_active(before: LoadOrderView, after: LoadOrderView, name: Seq<char>)
    requires
        spec_activate_ok(before, name),
        after == ({
            let i = spec_index_of(before.plugins, name)->0;
            let p = before.plugins[i];
            with_plugin(before, i, PluginView { active: true, path: spec_activated_path(p), ..p })
        }),
    ensures
        spec_is_active(after.plugins, name),
{
    let i = spec_index_of(before.plugins, name)->0;
    let p = before.plugins[i];
    crate::seqs::lemma_first_index_some(before.plugins, pred_name_matches(name));
    lemma_index_of_update(before.plugins, i, PluginView { active: true, path: spec_activated_path(p), ..p }, name);
}

/// After `deactivate` succeeds, the plugin is not active.
pub proof fn law_deactivate_then_inactive(before: LoadOrderView, after: LoadOrderView, name: Seq<char>)
    requires
        spec_index_of(before.plugins, name) is Some,
        after == ({
            let i = spec_index_of(before.plugins, name)->0;
            with_plugin(before, i, PluginView { active: false, ..before.plugins[i] })
        }),
    ensures
        !spec_is_active(after.plugins, name),
{
    let i = spec_index_of(before.plugins, name)->0;
    crate::seqs::lemma_first_index_some(before.plugins, pred_name_matches(name));
    lemma_index_of_update(before.plugins, i, PluginView { active: false, ..before.plugins[i] }, name);
}

/// After `add` succeeds, the added plugin is found by its name at the
/// position that `add` returned, where its name matches the name it was
/// added under and no other plugin does.
pub proof fn law_add_then_found(before: LoadOrderView, after: LoadOrderView, name: Seq<char>, p: PluginView)
    requires
        spec_index_of(before.plugins, name) is None,
        spec_name_matches(p, name),
        0 <= spec_insert_index(before, p) <= before.plugins.len(),
        after == with_inserted(before, spec_insert_index(before, p), p),
    ensures
        spec_index_of(after.plugins, name) == Some(spec_insert_index(before, p)),
{
    let i = spec_insert_index(before, p);
    let pred = pred_name_matches(name);
    let qs = before.plugins.insert(i, p);
    assert(qs[i] == p);
    assert forall|j: int| 0 <= j < i implies !pred(#[trigger] qs[j]) by {
        assert(qs[j] == before.plugins[j]);
        if pred(before.plugins[j]) {
            lemma_first_index_exists(before.plugins, pred, j);
        }
    }
    lemma_first_index_is(qs, pred, i);
}

/// Plugins with the same names and games, position by position, are found
/// by every name at the same positions.
pub proof fn lemma_index_of_same_names(ps: Seq<PluginView>, qs: Seq<PluginView>, name: Seq<char>)
    requires
        ps.len() == qs.len(),
        forall|j: int| 0 <= j < ps.len() ==> (#[trigger] qs[j]).name == ps[j].name && qs[j].game == ps[j].game,
    ensures
        spec_index_of(qs, name) == spec_index_of(ps, name),
{
    let p = pred_name_matches(name);
    assert forall|j: int| 0 <= j < ps.len() implies #[trigger] p(qs[j]) == p(ps[j]) by {}
    match first_index(ps, p) {
        Some(k) => {
            crate::seqs::lemma_first_index_some(ps, p);
            assert(p(qs[k]));
            assert forall|j: int| 0 <= j < k implies !p(#[trigger] qs[j]) by {
                assert(!p(ps[j]));
            }
            lemma_first_index_is(qs, p, k);
        },
        None => {
            assert forall|j: int| 0 <= j < qs.len() implies !p(#[trigger] qs[j]) by {
                if p(ps[j]) {
                    lemma_first_index_exists(ps, p, j);
                }
            }
            lemma_first_index_none(qs, p);
        },
    }
}

/// After `set_active_plugins` succeeds, each named plugin is active and
/// every other plugin is inactive.
pub proof fn law_set_active_plugins_then_active(before: LoadOrderView, after: LoadOrderView, names: Seq<Seq<char>>)
    requires
        forall|k: int| 0 <= k < names.len() ==> (#[trigger] spec_index_of(before.plugins, names[k])) is Some,
        after.plugins.len() == before.plugins.len(),
        forall|t: int| 0 <= t < before.plugins.len() ==> #[trigger] after.plugins[t]
            == super::writable::spec_after_set_active(before.plugins[t], super::writable::spec_lookup(before.plugins, names).contains(t)),
    ensures
        forall|k: int| 0 <= k < names.len() ==> spec_is_active(after.plugins, #[trigger] names[k]),
        forall|t: int| 0 <= t < after.plugins.len() && !super::writable::spec_lookup(before.plugins, names).contains(t)
            ==> !(#[trigger] after.plugins[t]).active,
{
    let idx = super::writable::spec_lookup(before.plugins, names);
    assert forall|k: int| 0 <= k < names.len() implies spec_is_active(after.plugins, #[trigger] names[k]) by {
        lemma_index_of_same_names(before.plugins, after.plugins, names[k]);
        let i = spec_index_of(before.plugins, names[k])->0;
        crate::seqs::lemma_first_index_some(before.plugins, pred_name_matches(names[k]));
        assert(idx[k] == i);
        assert(idx.contains(i));
    }
}

/// After `set_load_order` succeeds, the load order holds one plugin for each
/// name, in order, each matching its name, where each plugin loaded for a
/// name not yet in the load order matches that name.
pub proof fn law_set_load_order_then_names(
    before: LoadOrderView,
    after: LoadOrderView,
    names: Seq<Seq<char>>,
    candidates: Seq<Result<crate::plugin::Plugin, crate::enums::Error>>,
)
    requires
        candidates.len() == names.len(),
        forall|k: int| 0 <= k < names.len() ==> (#[trigger] candidates[k] matches Ok(p) ==> spec_name_matches(p@, names[k])),
        forall|k: int| 0 <= k < names.len() ==> #[trigger] super::writable::spec_new_plugin(before.plugins, names, candidates, k) is Some,
        after.plugins == super::writable::spec_new_plugins(before.plugins, names, candidates),
    ensures
        after.plugins.len() == names.len(),
        forall|k: int| 0 <= k < names.len() ==> spec_name_matches(#[trigger] after.plugins[k], names[k]),
{
    assert forall|k: int| 0 <= k < names.len() implies spec_name_matches(#[trigger] after.plugins[k], names[k]) by {
        assert(super::writable::spec_new_plugin(before.plugins, names, candidates, k) is Some);
        match spec_index_of(before.plugins, names[k]) {
            Some(i) => {
                crate::seqs::lemma_first_index_some(before.plugins, pred_name_matches(names[k]));
            },
            None => {
                assert(candidates[k] matches Ok(p) ==> spec_name_matches(p@, names[k]));
            },
        }
    }
}

/// After `set_plugin_index` moves a plugin that no other plugin's name
/// matches, the plugin is found at the position that it returned.
pub proof fn law_set_plugin_index_then_found(before: LoadOrderView, after: LoadOrderView, name: Seq<char>, position: int)
    requires
        spec_index_of(before.plugins, name) is Some,
        forall|j: int| 0 <= j < before.plugins.len() && j != spec_index_of(before.plugins, name)->0
            ==> !spec_name_matches(#[trigger] before.plugins[j], name),
        0 <= position,
        after.plugins == super::writable::spec_moved(before.plugins, spec_index_of(before.plugins, name)->0, position),
    ensures
        spec_index_of(after.plugins, name) == Some(
            if position >= before.plugins.len() - 1 { before.plugins.len() - 1 } else { position }),
{
    let x = spec_index_of(before.plugins, name)->0;
    crate::seqs::lemma_first_index_some(before.plugins, pred_name_matches(name));
    let ps = before.plugins;
    let rest = ps.remove(x);
    let i = if position >= ps.len() - 1 { ps.len() - 1 } else { position };
    let qs = after.plugins;
    assert(qs[i] == ps[x]);
    let pred = pred_name_matches(name);
    assert forall|j: int| 0 <= j < i implies !pred(#[trigger] qs[j]) by {
        assert(qs[j] == rest[j]);
        if j < x { assert(rest[j] == ps[j]); } else { assert(rest[j] == ps[j + 1]); }
    }
    lemma_first_index_is(qs, pred, i);
}

/// After `remove` succeeds for a plugin that no other plugin's name
/// matches, no plugin is found by that name.
pub proof fn law_remove_then_not_found(before: LoadOrderView, after: LoadOrderView, name: Seq<char>)
    requires
        spec_index_of(before.plugins, name) is Some,
        forall|j: int| 0 <= j < before.plugins.len() && j != spec_index_of(before.plugins, name)->0
            ==> !spec_name_matches(#[trigger] before.plugins[j], name),
        after == super::writable::without(before, spec_index_of(before.plugins, name)->0),
    ensures
        spec_index_of(after.plugins, name) is None,
{
    let x = spec_index_of(before.plugins, name)->0;
    crate::seqs::lemma_first_index_some(before.plugins, pred_name_matches(name));
    let ps = before.plugins;
    let qs = after.plugins;
    assert forall|j: int| 0 <= j < qs.len() implies !pred_name_matches(name)(#[trigger] qs[j]) by {
        if j < x { assert(qs[j] == ps[j]); } else { assert(qs[j] == ps[j + 1]); }
    }
    lemma_first_index_none(qs, pred_name_matches(name));
}

/// A name that reads back from a line of its own in a plugins file: not
/// empty, not a comment, with no line feed and no final carriage return.
pub open spec fn reads_back_from_line(name: Seq<char>) -> bool {
    &&& name.len() > 0
    &&& name[0] != '#'
    &&& forall|j: int| 0 <= j < name.len() ==> name[j] != '\n'
    &&& name.last() != '\r'
}

/// Splitting text that ends a line and then more text splits each apart.
proof fn lemma_text_lines_concat(x: Seq<char>, y: Seq<char>)
    requires
        x.len() > 0,
        x.last() == '\n',
    ensures
        text_lines(x + y) == text_lines(x) + text_lines(y),
    decreases x.len(),
{
    let p = is_line_feed();
    lemma_first_index_exists(x, p, x.len() - 1);
    let i = first_index(x, p)->0;
    let xy = x + y;
    assert forall|j: int| 0 <= j < i implies !p(#[trigger] xy[j]) by {
        assert(xy[j] == x[j]);
        assert(!p(x[j]));
    }
    assert(xy[i] == x[i]);
    assert(is_first(xy, p, i));
    lemma_first_index_is(xy, p, i);
    assert(xy.take(i) =~= x.take(i));
    assert(xy.skip(i + 1) =~= x.skip(i + 1) + y);
    if i + 1 == x.len() {
        assert(x.skip(i + 1) =~= Seq::<char>::empty());
        assert(x.skip(i + 1) + y =~= y);
        assert(text_lines(x) == seq![without_cr(x.take(i))] + text_lines(x.skip(i + 1)));
        assert(text_lines(x) =~= seq![without_cr(x.take(i))]);
        assert(text_lines(xy) == seq![without_cr(x.take(i))] + text_lines(y));
    } else {
        let rest = x.skip(i + 1);
        assert(rest.last() == x.last());
        lemma_text_lines_concat(rest, y);
        assert(text_lines(xy) == seq![without_cr(x.take(i))] + text_lines(rest + y));
        assert(text_lines(x) == seq![without_cr(x.take(i))] + text_lines(rest));
        assert(text_lines(xy) =~= text_lines(x) + text_lines(y));
    }
}

/// A name that reads back from a line, written with its line feed, is
/// that one line.
proof fn lemma_text_lines_one(name: Seq<char>)
    requires
        reads_back_from_line(name),
    ensures
        text_lines(name + seq!['\n']) == seq![name],
{
    let p = is_line_feed();
    let s = name + seq!['\n'];
    let i = name.len() as int;
    assert forall|j: int| 0 <= j < i implies !p(#[trigger] s[j]) by {
        assert(s[j] == name[j]);
    }
    assert(s[i] == '\n');
    assert(is_first(s, p, i));
    lemma_first_index_is(s, p, i);
    assert(s.take(i) =~= name);
    assert(s.skip(i + 1) =~= Seq::<char>::empty());
    assert(without_cr(name) == name);
    assert(text_lines(s.skip(i + 1)) =~= Seq::<Seq<char>>::empty());
    assert(text_lines(s) == seq![without_cr(s.take(i))] + text_lines(s.skip(i + 1)));
    assert(text_lines(s) =~= seq![name]);
}

/// The lines of `loadorder.txt` as it is written are the names written.
proof fn lemma_lines_text_lines(names: Seq<Seq<char>>)
    requires
        forall|i: int| 0 <= i < names.len() ==> reads_back_from_line(#[trigger] names[i]),
    ensures
        text_lines(spec_lines_text(names)) == names,
    decreases names.len(),
{
    if names.len() == 0 {
        assert(text_lines(Seq::<char>::empty()) =~= Seq::<Seq<char>>::empty());
    } else {
        let init = names.drop_last();
        let last = names.last();
        assert(reads_back_from_line(names[names.len() - 1]));
        lemma_text_lines_one(last);
        assert(forall|i: int| 0 <= i < init.len() ==> init[i] == names[i]);
        lemma_lines_text_lines(init);
        let before = spec_lines_text(init);
        assert(spec_lines_text(names) =~= before + (last + seq!['\n']));
        if init.len() == 0 {
            assert(before =~= Seq::<char>::empty());
            assert(before + (last + seq!['\n']) =~= last + seq!['\n']);
            assert(names =~= seq![last]);
        } else {
            assert(before.last() == '\n');
            lemma_text_lines_concat(before, last + seq!['\n']);
            assert(names =~= init + seq![last]);
        }
    }
}

/// Lines that each name a plugin are read as those names.
proof fn lemma_mapped_lines_all(lines: Seq<Seq<char>>)
    requires
        forall|i: int| 0 <= i < lines.len() ==> reads_back_from_line(#[trigger] lines[i]),
    ensures
        spec_mapped_lines(lines) == lines,
    decreases lines.len(),
{
    if lines.len() > 0 {
        let init = lines.drop_last();
        assert(reads_back_from_line(lines[lines.len() - 1]));
        assert(forall|i: int| 0 <= i < init.len() ==> init[i] == lines[i]);
        lemma_mapped_lines_all(init);
        assert(lines =~= init.push(lines.last()));
    }
}

/// What `load_order_file_contents` writes, `map_plugin_lines` reads back:
/// the names of the plugins in load order, where no name is empty, starts
/// with `#`, holds a line feed or ends in a carriage return.
pub proof fn law_load_order_file_reads_back(lo: LoadOrderView)
    requires
        forall|i: int| 0 <= i < lo.plugins.len() ==> reads_back_from_line(#[trigger] lo.plugins[i].name),
    ensures
        spec_mapped_lines(text_lines(spec_lines_text(spec_plugin_names(lo.plugins)))) == spec_plugin_names(lo.plugins),
{
    let names = spec_plugin_names(lo.plugins);
    assert forall|i: int| 0 <= i < names.len() implies reads_back_from_line(#[trigger] names[i]) by {
        assert(names[i] == lo.plugins[i].name);
    }
    lemma_lines_text_lines(names);
    lemma_mapped_lines_all(names);
}

/// Timestamps in strictly ascending order.
pub open spec fn strictly_ascending(ts: Seq<int>) -> bool {
    forall|i: int, j: int| 0 <= i < j < ts.len() ==> #[trigger] ts[i] < #[trigger] ts[j]
}

proof fn lemma_insert_unique_ascending(sorted: Seq<int>, t: int)
    requires
        strictly_ascending(sorted),
    ensures
        strictly_ascending(spec_insert_unique(sorted, t)),
        spec_insert_unique(sorted, t).len() <= sorted.len() + 1,
{
    if !sorted.contains(t) {
        let p = |y: int| t < y;
        match first_index(sorted, p) {
            Some(j) => {
                crate::seqs::lemma_first_index_some(sorted, p);
                let r = sorted.insert(j, t);
                assert forall|a: int, b: int| 0 <= a < b < r.len() implies #[trigger] r[a] < #[trigger] r[b] by {
                    if a < j {
                        assert(r[a] == sorted[a]);
                        assert(!p(sorted[a]));
                        if sorted[a] == t {
                            assert(sorted.contains(t));
                        }
                        if b < j {
                            assert(r[b] == sorted[b]);
                        } else if b > j {
                            assert(r[b] == sorted[b - 1]);
                            assert(p(sorted[j]));
                            if b - 1 > j {
                                assert(sorted[j] < sorted[b - 1]);
                            }
                        }
                    } else if a == j {
                        assert(r[b] == sorted[b - 1]);
                        if b - 1 > j {
                            assert(sorted[j] < sorted[b - 1]);
                        }
                    } else {
                        assert(r[a] == sorted[a - 1]);
                        assert(r[b] == sorted[b - 1]);
                    }
                }
            },
            None => {
                let r = sorted.push(t);
                assert forall|a: int, b: int| 0 <= a < b < r.len() implies #[trigger] r[a] < #[trigger] r[b] by {
                    if b == sorted.len() {
                        assert(r[a] == sorted[a]);
                        if !(sorted[a] < t) {
                            if sorted[a] == t {
                                assert(sorted.contains(t));
                            } else {
                                assert(p(sorted[a]));
                                crate::seqs::lemma_first_index_exists(sorted, p, a);
                            }
                        }
                    } else {
                        assert(r[a] == sorted[a]);
                        assert(r[b] == sorted[b]);
                    }
                }
            },
        }
    }
}

proof fn lemma_unique_ascending(ts: Seq<int>)
    ensures
        strictly_ascending(spec_unique_timestamps(ts)),
        spec_unique_timestamps(ts).len() <= ts.len(),
    decreases ts.len(),
{
    if ts.len() > 0 {
        lemma_unique_ascending(ts.drop_last());
        lemma_insert_unique_ascending(spec_unique_timestamps(ts.drop_last()), ts.last());
    }
}

proof fn lemma_pad_ascending(ts: Seq<int>, n: int)
    requires
        strictly_ascending(ts),
        ts.len() <= n,
    ensures
        strictly_ascending(spec_pad(ts, n)),
        spec_pad(ts, n).len() == n,
    decreases n - ts.len(),
{
    if ts.len() < n {
        let last = if ts.len() > 0 { ts.last() } else { 0 };
        let r = ts.push(last + minute());
        assert forall|a: int, b: int| 0 <= a < b < r.len() implies #[trigger] r[a] < #[trigger] r[b] by {
            assert(r[a] == ts[a]);
            if b < ts.len() {
                assert(r[b] == ts[b]);
            } else if a < ts.len() - 1 {
                assert(ts[a] < ts[ts.len() - 1]);
            }
        }
        lemma_pad_ascending(r, n);
    }
}

/// Plugins in an order that timestamp sorting keeps: master files first,
/// and strictly ascending times among plugins of the same kind.
pub open spec fn in_timestamp_order(ps: Seq<PluginView>) -> bool {
    forall|i: int, j: int| 0 <= i < j < ps.len() ==> {
        &&& (#[trigger] ps[j]).is_master ==> (#[trigger] ps[i]).is_master
        &&& ps[i].is_master == ps[j].is_master ==> ps[i].modification_time < ps[j].modification_time
    }
}

proof fn lemma_sorted_unchanged(ps: Seq<PluginView>)
    requires
        in_timestamp_order(ps),
    ensures
        spec_sort_plugins(ps) == ps,
    decreases ps.len(),
{
    if ps.len() > 0 {
        let init = ps.drop_last();
        let x = ps.last();
        assert(in_timestamp_order(init)) by {
            assert forall|i: int, j: int| 0 <= i < j < init.len() implies
                ((#[trigger] init[j]).is_master ==> (#[trigger] init[i]).is_master)
                && (init[i].is_master == init[j].is_master ==> init[i].modification_time < init[j].modification_time) by {
                assert(init[i] == ps[i] && init[j] == ps[j]);
            }
        }
        lemma_sorted_unchanged(init);
        assert forall|k: int| 0 <= k < init.len() implies !pred_after(x)(#[trigger] init[k]) by {
            assert(init[k] == ps[k]);
            assert(ps[ps.len() - 1] == x);
            assert(ps[ps.len() - 1].is_master ==> ps[k].is_master);
        }
        lemma_first_index_none(init, pred_after(x));
        assert(ps =~= init.push(x));
    }
}

/// A load order saved as timestamps sorts back into itself: where master
/// files all come before the other plugins, sorting the plugins by the
/// timestamps that `save_load_order_using_timestamps` gives them leaves
/// them in the same order.
pub proof fn law_saved_timestamps_sort_back(lo: LoadOrderView)
    requires
        forall|i: int, j: int| 0 <= i < j < lo.plugins.len() && (#[trigger] lo.plugins[j]).is_master
            ==> (#[trigger] lo.plugins[i]).is_master,
    ensures
        spec_sort_plugins(with_times(lo.plugins, spec_padded_unique_timestamps(lo.plugins)))
            == with_times(lo.plugins, spec_padded_unique_timestamps(lo.plugins)),
{
    let ps = lo.plugins;
    let u = spec_unique_timestamps(times_of(ps));
    lemma_unique_ascending(times_of(ps));
    lemma_pad_ascending(u, ps.len() as int);
    let ts = spec_padded_unique_timestamps(ps);
    let qs = with_times(ps, ts);
    assert forall|i: int, j: int| 0 <= i < j < qs.len() implies
        ((#[trigger] qs[j]).is_master ==> (#[trigger] qs[i]).is_master)
        && (qs[i].is_master == qs[j].is_master ==> qs[i].modification_time < qs[j].modification_time) by {
        assert(qs[i].is_master == ps[i].is_master);
        assert(qs[j].is_master == ps[j].is_master);
        assert(ts[i] < ts[j]);
    }
    lemma_sorted_unchanged(qs);
}

/// Putting a plugin that is not in the load order at a position inserts it
/// there, or at the end where the position is past it: the load order
/// grows by one, the plugin is found by its name at the position returned
/// (`min(position, length)`), and deleting it gives back the load order
/// as it was.
pub proof fn law_set_plugin_index_inserts(before: LoadOrderView, after: LoadOrderView, name: Seq<char>, p: PluginView, position: int)
    requires
        spec_index_of(before.plugins, name) is None,
        spec_name_matches(p, name),
        0 <= position,
        after.plugins == super::writable::spec_put(before.plugins, p, position),
    ensures
        ({
            let i = if position >= before.plugins.len() { before.plugins.len() as int } else { position };
            &&& after.plugins.len() == before.plugins.len() + 1
            &&& after.plugins[i] == p
            &&& after.plugins.remove(i) == before.plugins
            &&& spec_index_of(after.plugins, name) == Some(i)
        }),
{
    let ps = before.plugins;
    let i = if position >= ps.len() { ps.len() as int } else { position };
    let qs = after.plugins;
    assert(qs =~= ps.insert(i, p));
    assert(qs.remove(i) =~= ps);
    let pred = pred_name_matches(name);
    assert forall|j: int| 0 <= j < i implies !pred(#[trigger] qs[j]) by {
        assert(qs[j] == ps[j]);
        if pred(ps[j]) {
            lemma_first_index_exists(ps, pred, j);
        }
    }
    lemma_first_index_is(qs, pred, i);
}

/// Moving a plugin takes it out of its position and puts it at the
/// returned one (`min(position, length - 1)`): the load order keeps its
/// length, holds the plugin there, and deleting it there gives the load
/// order with the plugin deleted from where it was, every other plugin in
/// the same order.
pub proof fn law_set_plugin_index_moves(before: LoadOrderView, after: LoadOrderView, x: int, position: int)
    requires
        0 <= x < before.plugins.len(),
        0 <= position,
        after.plugins == super::writable::spec_moved(before.plugins, x, position),
    ensures
        ({
            let i = if position >= before.plugins.len() - 1 { before.plugins.len() - 1 } else { position };
            &&& after.plugins.len() == before.plugins.len()
            &&& after.plugins[i] == before.plugins[x]
            &&& after.plugins.remove(i) == before.plugins.remove(x)
        }),
{
    let ps = before.plugins;
    let i = if position >= ps.len() - 1 { ps.len() - 1 } else { position };
    let rest = ps.remove(x);
    assert(after.plugins =~= rest.insert(i, ps[x]));
    assert(after.plugins.remove(i) =~= rest);
}

/// Removing the plugin at a position takes out that plugin and no other:
/// the load order is one shorter, the plugins before it keep their
/// positions, those after it move up by one, and the settings are kept.
pub proof fn law_remove_takes_out_one(before: LoadOrderView, after: LoadOrderView, i: int)
    requires
        0 <= i < before.plugins.len(),
        after == super::writable::without(before, i),
    ensures
        after.settings == before.settings,
        after.plugins.len() == before.plugins.len() - 1,
        forall|j: int| 0 <= j < i ==> #[trigger] after.plugins[j] == before.plugins[j],
        forall|j: int| i <= j < after.plugins.len() ==> #[trigger] after.plugins[j] == before.plugins[j + 1],
{
}

/// The text of a line of a plugins file: its prefix bytes (ASCII) as
/// characters, then the name.
pub open spec fn line_text(item: (Seq<u8>, Seq<char>)) -> Seq<char> {
    item.0.map_values(|b: u8| b as char) + item.1
}

/// The plugins that an asterisk-based plugins file lists, in order, each by
/// its name and whether it is active.
pub open spec fn spec_listed_states(lo: LoadOrderView, ps: Seq<PluginView>) -> Seq<(Seq<char>, bool)>
    decreases ps.len(),
{
    if ps.len() == 0 {
        Seq::empty()
    } else {
        let rest = spec_listed_states(lo, ps.drop_last());
        if super::save::written_to_asterisk_file(lo, ps.last()) {
            rest.push((ps.last().name, ps.last().active))
        } else {
            rest
        }
    }
}

/// A name that an asterisk-based plugins file reads back from a line of its
/// own: one that reads back from a line and does not start with `*`.
pub open spec fn asterisk_name_reads_back(name: Seq<char>) -> bool {
    reads_back_from_line(name) && name[0] != '*'
}

proof fn lemma_asterisk_lines(lo: LoadOrderView, ps: Seq<PluginView>)
    requires
        forall|i: int| 0 <= i < ps.len() && super::save::written_to_asterisk_file(lo, #[trigger] ps[i])
            ==> asterisk_name_reads_back(ps[i].name),
    ensures
        ({
            let lines = super::save::spec_asterisk_items(lo, ps).map_values(|it: (Seq<u8>, Seq<char>)| line_text(it));
            &&& forall|k: int| 0 <= k < lines.len() ==> reads_back_from_line(#[trigger] lines[k])
            &&& super::load::spec_mapped_asterisk_lines(lines) == spec_listed_states(lo, ps)
        }),
    decreases ps.len(),
{
    if ps.len() > 0 {
        let init = ps.drop_last();
        assert forall|i: int| 0 <= i < init.len() && super::save::written_to_asterisk_file(lo, #[trigger] init[i])
            implies asterisk_name_reads_back(init[i].name) by {
            assert(init[i] == ps[i]);
        }
        lemma_asterisk_lines(lo, init);
        let p = ps.last();
        let before = super::save::spec_asterisk_items(lo, init);
        let lines0 = before.map_values(|it: (Seq<u8>, Seq<char>)| line_text(it));
        if super::save::written_to_asterisk_file(lo, p) {
            assert(ps[ps.len() - 1] == p);
            let item = (super::save::active_prefix(p.active), p.name);
            let l = line_text(item);
            let lines = super::save::spec_asterisk_items(lo, ps).map_values(|it: (Seq<u8>, Seq<char>)| line_text(it));
            assert(lines =~= lines0.push(l));
            if p.active {
                assert(seq![42u8].map_values(|b: u8| b as char) =~= seq!['*']) by {
                    assert((42u8 as char) == '*');
                }
                assert(l =~= seq!['*'] + p.name);
                assert(l.skip(1) =~= p.name);
            } else {
                assert(Seq::<u8>::empty().map_values(|b: u8| b as char) =~= Seq::<char>::empty());
                assert(l =~= p.name);
            }
            assert(reads_back_from_line(l)) by {
                assert(l.last() == p.name.last());
                assert forall|j: int| 0 <= j < l.len() implies l[j] != '\n' by {
                    if p.active && j == 0 {
                    } else if p.active {
                        assert(l[j] == p.name[j - 1]);
                    } else {
                        assert(l[j] == p.name[j]);
                    }
                }
            }
            assert(lines.drop_last() =~= lines0);
        } else {
            let lines = super::save::spec_asterisk_items(lo, ps).map_values(|it: (Seq<u8>, Seq<char>)| line_text(it));
            assert(lines =~= lines0);
        }
    }
}

/// Reading back the plugins file that `asterisk_active_plugins_file_contents`
/// writes (its lines' text, the names decoded) gives each plugin written,
/// in order, with its name and whether it is active: a line starts with
/// `*` exactly where its plugin is active. The names must read back from a
/// line of their own and not start with `*`.
pub proof fn law_asterisk_file_reads_back(lo: LoadOrderView, ps: Seq<PluginView>)
    requires
        forall|i: int| 0 <= i < ps.len() && super::save::written_to_asterisk_file(lo, #[trigger] ps[i])
            ==> asterisk_name_reads_back(ps[i].name),
    ensures
        super::load::spec_mapped_asterisk_lines(text_lines(spec_lines_text(
            super::save::spec_asterisk_items(lo, ps).map_values(|it: (Seq<u8>, Seq<char>)| line_text(it)),
        ))) == spec_listed_states(lo, ps),
{
    lemma_asterisk_lines(lo, ps);
    lemma_lines_text_lines(super::save::spec_asterisk_items(lo, ps).map_values(|it: (Seq<u8>, Seq<char>)| line_text(it)));
}

} // verus!
