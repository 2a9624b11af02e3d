//! OpenMW's load order, as the OpenMW Launcher arranges it: the game file
//! first, Tribunal before Bloodmoon, each plugin just before the earliest
//! plugin that has it as a master, then the active plugins in the order in
//! which the config lists them.
use vstd::prelude::*;

use super::load::{key_in, tuple_keys, tuples_view};
use super::readable::find_plugin_index;
use super::{plugins_view, plugins_wf, spec_index_of, LoadOrder, LoadOrderView};
use crate::enums::GameId;
use crate::game_settings::names_contain;
use crate::paths::{file_name, std_path_file_name};
use crate::plugin::{spec_has_master, spec_name_matches, Plugin, PluginView};
use crate::seqs::{first_index, lemma_first_index_is, lemma_first_index_none};
use crate::text::{eq_icase, iends_with, iends_with_ascii, owned, str_eq, strings_view, unicase_eq};

verus! {

/// A game file: a plugin with no masters that ends in `.esm` or
/// `.omwgame`.
pub open spec fn pred_game_file() -> spec_fn(PluginView) -> bool {
    |p: PluginView| (iends_with(p.name, ".esm"@) || iends_with(p.name, ".omwgame"@)) && p.masters.len() == 0
}

/// The Launcher's game file: the first game file in the load order.
pub open spec fn spec_game_file_name(ps: Seq<PluginView>) -> Option<Seq<char>> {
    match first_index(ps, pred_game_file()) {
        Some(i) => Some(ps[i].name),
        None => None,
    }
}

/// A plugin that does not load early.
pub open spec fn pred_modifiable(early: Seq<Seq<char>>) -> spec_fn(PluginView) -> bool {
    |p: PluginView| !names_contain(early, p.name)
}

/// The position of the first plugin that does not load early (the end
/// where all do).
pub open spec fn spec_first_modifiable(ps: Seq<PluginView>, early: Seq<Seq<char>>) -> int {
    match first_index(ps, pred_modifiable(early)) {
        Some(i) => i,
        None => ps.len() as int,
    }
}

/// An earlier plugin that the later one must load before: the later one is
/// the game file, or it is Tribunal and the earlier one Bloodmoon, or the
/// earlier one has it as a master.
pub open spec fn pred_loads_before(game_file: Option<Seq<char>>, later: PluginView) -> spec_fn(PluginView) -> bool {
    |earlier: PluginView| game_file == Some(later.name)
        || (spec_name_matches(later, "Tribunal.esm"@) && spec_name_matches(earlier, "Bloodmoon.esm"@))
        || spec_has_master(earlier, later.name)
}

/// Where, among the modifiable plugins before the `i`th, the `i`th plugin
/// moves to.
pub open spec fn spec_hoist_target(ps: Seq<PluginView>, first: int, game_file: Option<Seq<char>>, i: int) -> Option<int> {
    first_index(ps.subrange(first, i), pred_loads_before(game_file, ps[i]))
}

/// The plugins with the `i`th moved to position `to`.
pub open spec fn moved_to(ps: Seq<PluginView>, i: int, to: int) -> Seq<PluginView> {
    ps.remove(i).insert(to, ps[i])
}

/// The Launcher's arrangement, from the `i`th plugin down to the first
/// modifiable one: a plugin that must load before an earlier one moves
/// there, unless it already moved since the position last went down
/// (`moved` holds the names of those that did). `fuel` bounds the moves at a
/// position: there are never more than there are plugins.
pub open spec fn spec_launcher_order(
    ps: Seq<PluginView>,
    first: int,
    game_file: Option<Seq<char>>,
    i: int,
    moved: Seq<Seq<char>>,
    fuel: nat,
) -> Seq<PluginView>
    decreases i, fuel,
{
    if i <= first || first < 0 || i >= ps.len() {
        ps
    } else {
        let later = ps[i];
        let target = spec_hoist_target(ps, first, game_file, i);
        if !names_contain(moved, later.name) && target is Some {
            if fuel > 0 {
                spec_launcher_order(moved_to(ps, i, first + target->0), first, game_file, i, moved.push(later.name), (fuel - 1) as nat)
            } else {
                ps
            }
        } else {
            spec_launcher_order(ps, first, game_file, i - 1, Seq::empty(), ps.len())
        }
    }
}

/// The plugins with the active plugins brought into the order in which the
/// config lists them: each listed plugin found before the previous one
/// moves to just after it.
pub open spec fn spec_sort_active(ps: Seq<PluginView>, actives: Seq<(Seq<char>, bool)>) -> (Seq<PluginView>, int)
    decreases actives.len(),
{
    if actives.len() == 0 {
        (ps, 0)
    } else {
        let (before, previous) = spec_sort_active(ps, actives.drop_last());
        let (name, active) = actives.last();
        if !active {
            (before, previous)
        } else {
            match spec_index_of(before, name) {
                Some(current) => if current < previous {
                    (moved_to(before, current, previous), previous)
                } else {
                    (before, current)
                },
                None => (before, previous),
            }
        }
    }
}

/// The whole arrangement of OpenMW's load order.
pub open spec fn spec_apply_load_order(ps: Seq<PluginView>, early: Seq<Seq<char>>, actives: Seq<(Seq<char>, bool)>) -> Seq<PluginView> {
    if ps.len() == 0 {
        ps
    } else {
        let hoisted = spec_launcher_order(ps, spec_first_modifiable(ps, early), spec_game_file_name(ps),
            ps.len() - 1, Seq::empty(), ps.len());
        spec_sort_active(hoisted, actives).0
    }
}

/// Moving a plugin keeps the plugins, each as often as before.
proof fn lemma_moved_to_permutes(ps: Seq<PluginView>, i: int, to: int)
    requires
        0 <= i < ps.len(),
        0 <= to < ps.len(),
    ensures
        moved_to(ps, i, to).to_multiset() == ps.to_multiset(),
{
    broadcast use vstd::multiset::group_multiset_axioms;
    vstd::seq_lib::to_multiset_remove(ps, i);
    vstd::seq_lib::to_multiset_insert(ps.remove(i), to, ps[i]);
    ps.to_multiset_ensures();
    assert(ps.contains(ps[i]));
    assert(ps.to_multiset().remove(ps[i]).insert(ps[i]) =~= ps.to_multiset());
}

proof fn lemma_launcher_order_permutes(
    ps: Seq<PluginView>,
    first: int,
    game_file: Option<Seq<char>>,
    i: int,
    moved: Seq<Seq<char>>,
    fuel: nat,
)
    ensures
        spec_launcher_order(ps, first, game_file, i, moved, fuel).to_multiset() == ps.to_multiset(),
    decreases i, fuel,
{
    if i <= first || first < 0 || i >= ps.len() {
    } else {
        let target = spec_hoist_target(ps, first, game_file, i);
        if !names_contain(moved, ps[i].name) && target is Some {
            if fuel > 0 {
                crate::seqs::lemma_first_index_some(ps.subrange(first, i), pred_loads_before(game_file, ps[i]));
                lemma_moved_to_permutes(ps, i, first + target->0);
                lemma_launcher_order_permutes(moved_to(ps, i, first + target->0), first, game_file, i, moved.push(ps[i].name), (fuel - 1) as nat);
            }
        } else {
            lemma_launcher_order_permutes(ps, first, game_file, i - 1, Seq::empty(), ps.len());
        }
    }
}

proof fn lemma_sort_active_permutes(ps: Seq<PluginView>, actives: Seq<(Seq<char>, bool)>)
    ensures
        spec_sort_active(ps, actives).0.to_multiset() == ps.to_multiset(),
        spec_sort_active(ps, actives).0.len() == ps.len(),
        spec_sort_active(ps, actives).1 == 0 || 0 <= spec_sort_active(ps, actives).1 < ps.len(),
    decreases actives.len(),
{
    if actives.len() > 0 {
        lemma_sort_active_permutes(ps, actives.drop_last());
        let (before, previous) = spec_sort_active(ps, actives.drop_last());
        let (name, active) = actives.last();
        if active {
            if let Some(current) = spec_index_of(before, name) {
                crate::seqs::lemma_first_index_some(before, super::pred_name_matches(name));
                if current < previous {
                    lemma_moved_to_permutes(before, current, previous);
                    assert(moved_to(before, current, previous).len() == before.len());
                }
            }
        }
    }
}

/// Arranging OpenMW's load order only reorders it: the plugins after are
/// those before, each as often.
pub proof fn law_apply_load_order_permutes(ps: Seq<PluginView>, early: Seq<Seq<char>>, actives: Seq<(Seq<char>, bool)>)
    ensures
        spec_apply_load_order(ps, early, actives).to_multiset() == ps.to_multiset(),
        spec_apply_load_order(ps, early, actives).len() == ps.len(),
{
    if ps.len() > 0 {
        let hoisted = spec_launcher_order(ps, spec_first_modifiable(ps, early), spec_game_file_name(ps),
            ps.len() - 1, Seq::empty(), ps.len());
        lemma_launcher_order_permutes(ps, spec_first_modifiable(ps, early), spec_game_file_name(ps),
            ps.len() - 1, Seq::empty(), ps.len());
        lemma_sort_active_permutes(hoisted, actives);
        ps.to_multiset_ensures();
        hoisted.to_multiset_ensures();
    }
}

/// The names of the plugins.
pub open spec fn names_of(ps: Seq<PluginView>) -> Seq<Seq<char>> {
    ps.map_values(|p: PluginView| p.name)
}

/// Moving a plugin keeps every name of the plugins.
proof fn lemma_moved_keeps_names(ps: Seq<PluginView>, i: int, to: int, name: Seq<char>)
    requires
        0 <= to <= i < ps.len(),
        names_of(ps).contains(name),
    ensures
        names_of(moved_to(ps, i, to)).contains(name),
        moved_to(ps, i, to).len() == ps.len(),
{
    let j = choose|j: int| 0 <= j < names_of(ps).len() && names_of(ps)[j] == name;
    let m = moved_to(ps, i, to);
    let k = if j == i { to } else if j < to { j } else if j < i { j + 1 } else { j };
    assert(m[k] == ps[j]);
    assert(names_of(m)[k] == name);
}

/// A list of distinct names, each a name of one of the plugins, is no
/// longer than the plugins.
proof fn lemma_distinct_names_bound(moved: Seq<Seq<char>>, ps: Seq<PluginView>)
    requires
        moved.no_duplicates(),
        forall|k: int| 0 <= k < moved.len() ==> names_of(ps).contains(#[trigger] moved[k]),
    ensures
        moved.len() <= ps.len(),
{
    moved.unique_seq_to_set();
    names_of(ps).lemma_cardinality_of_set();
    assert(moved.to_set().subset_of(names_of(ps).to_set())) by {
        assert forall|x: Seq<char>| moved.to_set().contains(x) implies names_of(ps).to_set().contains(x) by {
            let k = choose|k: int| 0 <= k < moved.len() && moved[k] == x;
            assert(names_of(ps).contains(moved[k]));
        }
    }
    vstd::set_lib::lemma_len_subset(moved.to_set(), names_of(ps).to_set());
}

fn first_modifiable_index(lo: &LoadOrder) -> (res: usize)
    ensures
        res == spec_first_modifiable(lo@.plugins, lo@.settings.early_loading_plugins),
        res <= lo@.plugins.len(),
{
    let plugins = lo.plugins();
    let ghost ps = lo@.plugins;
    let ghost pred = pred_modifiable(lo@.settings.early_loading_plugins);
    let mut i: usize = 0;
    while i < plugins.len()
        invariant
            i <= plugins.len(),
            ps == plugins_view(plugins@),
            pred == pred_modifiable(lo@.settings.early_loading_plugins),
            forall|j: int| 0 <= j < i ==> !(#[trigger] pred(ps[j])),
        decreases plugins.len() - i,
    {
        if !lo.game_settings().loads_early(plugins[i].name()) {
            assert(ps[i as int] == plugins@[i as int]@);
            proof { lemma_first_index_is(ps, pred, i as int); }
            return i;
        }
        assert(ps[i as int] == plugins@[i as int]@);
        i = i + 1;
    }
    proof { lemma_first_index_none(ps, pred); }
    plugins.len()
}

fn game_file_name(plugins: &Vec<Plugin>) -> (res: Option<String>)
    ensures
        match res {
            Some(n) => spec_game_file_name(plugins_view(plugins@)) == Some(n@),
            None => spec_game_file_name(plugins_view(plugins@)) is None,
        },
{
    let ghost ps = plugins_view(plugins@);
    let mut i: usize = 0;
    while i < plugins.len()
        invariant
            i <= plugins.len(),
            ps == plugins_view(plugins@),
            forall|j: int| 0 <= j < i ==> !(#[trigger] pred_game_file()(ps[j])),
        decreases plugins.len() - i,
    {
        let name = plugins[i].name();
        assert(ps[i as int] == plugins@[i as int]@);
        if (iends_with_ascii(name, ".esm") || iends_with_ascii(name, ".omwgame")) && plugins[i].masters().len() == 0 {
            proof { lemma_first_index_is(ps, pred_game_file(), i as int); }
            return Some(owned(name));
        }
        i = i + 1;
    }
    proof { lemma_first_index_none(ps, pred_game_file()); }
    None
}

/// Where among the modifiable plugins before the `i`th it moves to.
fn hoist_target(plugins: &Vec<Plugin>, first: usize, game_file: &Option<String>, i: usize) -> (res: Option<usize>)
    requires
        first <= i < plugins.len(),
    ensures
        match res {
            Some(t) => spec_hoist_target(plugins_view(plugins@), first as int, opt_name(*game_file), i as int) == Some(t as int)
                && first + t < i,
            None => spec_hoist_target(plugins_view(plugins@), first as int, opt_name(*game_file), i as int) is None,
        },
{
    let ghost ps = plugins_view(plugins@);
    let ghost range = ps.subrange(first as int, i as int);
    let ghost pred = pred_loads_before(opt_name(*game_file), ps[i as int]);
    let later = &plugins[i];
    assert(ps[i as int] == later@);
    let is_game_file = match game_file {
        Some(n) => str_eq(n.as_str(), later.name()),
        None => false,
    };
    let is_tribunal = later.name_matches("Tribunal.esm");
    let mut k: usize = first;
    while k < i
        invariant
            first <= k <= i < plugins.len(),
            ps == plugins_view(plugins@),
            range == ps.subrange(first as int, i as int),
            pred == pred_loads_before(opt_name(*game_file), ps[i as int]),
            is_game_file == (opt_name(*game_file) == Some(ps[i as int].name)),
            is_tribunal == spec_name_matches(ps[i as int], "Tribunal.esm"@),
            forall|j: int| 0 <= j < k - first ==> !(#[trigger] pred(range[j])),
        decreases i - k,
    {
        let earlier = &plugins[k];
        assert(range[k - first] == ps[k as int]);
        assert(ps[k as int] == earlier@);
        if is_game_file || (is_tribunal && earlier.name_matches("Bloodmoon.esm")) || earlier.has_master(later.name()) {
            proof { lemma_first_index_is(range, pred, k - first); }
            return Some(k - first);
        }
        k = k + 1;
    }
    proof { lemma_first_index_none(range, pred); }
    None
}

pub open spec fn opt_name(o: Option<String>) -> Option<Seq<char>> {
    match o {
        Some(s) => Some(s@),
        None => None,
    }
}

fn moved_contains(moved: &Vec<String>, name: &str) -> (res: bool)
    ensures
        res == names_contain(strings_view(moved@), name@),
        !res ==> !strings_view(moved@).contains(name@),
{
    crate::game_settings::any_name_matches(moved, name)
}

impl LoadOrder {
    /// Arranges OpenMW's load order as the OpenMW Launcher does, given the
    /// active plugins in the order in which the config lists them.
    pub fn apply_load_order(&mut self, active_plugins: &Vec<(String, bool)>)
        requires
            old(self).wf(),
        ensures
            final(self).wf(),
            final(self)@ == (LoadOrderView {
                plugins: spec_apply_load_order(old(self)@.plugins, old(self)@.settings.early_loading_plugins, tuples_view(active_plugins@)),
                ..old(self)@
            }),
    {
        let ghost start = self@;
        let game_file = game_file_name(&self.plugins);
        let first = first_modifiable_index(self);
        if self.plugins.len() == 0 {
            return;
        }
        let n = self.plugins.len();
        let ghost gf = opt_name(game_file);
        let ghost ps0 = plugins_view(self.plugins@);
        let mut i: usize = n - 1;
        let mut moved: Vec<String> = Vec::new();
        assert(strings_view(moved@) =~= Seq::<Seq<char>>::empty());
        while i > first
            invariant
                self.wf(),
                self@.settings == start.settings,
                self.plugins@.len() == n,
                first <= n,
                i < n,
                gf == opt_name(game_file),
                strings_view(moved@).no_duplicates(),
                forall|k: int| 0 <= k < moved@.len() ==> names_of(self@.plugins).contains(#[trigger] strings_view(moved@)[k]),
                spec_launcher_order(self@.plugins, first as int, gf, i as int, strings_view(moved@), (n - moved@.len()) as nat)
                    == spec_launcher_order(ps0, first as int, gf, n - 1, Seq::empty(), n as nat),
            decreases i, n - moved@.len(),
        {
            let ghost ps = self@.plugins;
            let ghost mv = strings_view(moved@);
            assert(self.plugins@[i as int]@ == ps[i as int]);
            let already = moved_contains(&moved, self.plugins[i].name());
            let target = if already { None } else { hoist_target(&self.plugins, first, &game_file, i) };
            match target {
                Some(t) => {
                    let name = owned(self.plugins[i].name());
                    proof {
                        assert(names_of(ps)[i as int] == name@);
                        assert(names_of(ps).contains(name@));
                        assert(!mv.contains(name@));
                        lemma_distinct_names_bound(mv.push(name@), ps);
                    }
                    let ghost old_plugins = self.plugins@;
                    let p = self.plugins.remove(i);
                    self.plugins.insert(first + t, p);
                    moved.push(name);
                    proof {
                        assert(plugins_view(self.plugins@) =~= moved_to(ps, i as int, first + t));
                        assert forall|j: int| 0 <= j < self.plugins@.len() implies (#[trigger] self.plugins@[j]).wf() by {
                            let m = old_plugins.remove(i as int).insert(first + t, old_plugins[i as int]);
                            assert(self.plugins@ == m);
                            let k = if j == first + t { i as int } else if j < first + t { j } else if j <= i { j - 1 } else { j };
                            assert(m[j] == old_plugins[k]);
                        }
                        assert(strings_view(moved@) =~= mv.push(name@));
                        assert forall|k: int| 0 <= k < moved@.len() implies names_of(self@.plugins).contains(#[trigger] strings_view(moved@)[k]) by {
                            lemma_moved_keeps_names(ps, i as int, first + t, strings_view(moved@)[k]);
                        }
                    }
                },
                None => {
                    i = i - 1;
                    moved = Vec::new();
                    assert(strings_view(moved@) =~= Seq::<Seq<char>>::empty());
                },
            }
        }
        let ghost hoisted = self@.plugins;
        assert(hoisted == spec_launcher_order(ps0, first as int, gf, n - 1, Seq::empty(), n as nat));
        self.sort_active(active_plugins);
    }

    fn sort_active(&mut self, active_plugins: &Vec<(String, bool)>)
        requires
            old(self).wf(),
        ensures
            final(self).wf(),
            final(self)@ == (LoadOrderView {
                plugins: spec_sort_active(old(self)@.plugins, tuples_view(active_plugins@)).0,
                ..old(self)@
            }),
    {
        let ghost start = self@;
        let ghost acts = tuples_view(active_plugins@);
        let mut previous: usize = 0;
        let mut k: usize = 0;
        assert(acts.take(0) =~= Seq::<(Seq<char>, bool)>::empty());
        while k < active_plugins.len()
            invariant
                k <= active_plugins.len(),
                self.wf(),
                self@.settings == start.settings,
                acts == tuples_view(active_plugins@),
                (self@.plugins, previous as int) == spec_sort_active(start.plugins, acts.take(k as int)),
                previous < self@.plugins.len() || previous == 0,
                self@.plugins.len() == start.plugins.len(),
            decreases active_plugins.len() - k,
        {
            assert(acts.take(k + 1).drop_last() =~= acts.take(k as int));
            assert(acts.take(k + 1).last() == (active_plugins@[k as int].0@, active_plugins@[k as int].1));
            if active_plugins[k].1 {
                match find_plugin_index(&self.plugins, active_plugins[k].0.as_str()) {
                    Some(current) => {
                        if current < previous {
                            let ghost ps = self@.plugins;
                            let ghost old_plugins = self.plugins@;
                            let p = self.plugins.remove(current);
                            self.plugins.insert(previous, p);
                            proof {
                                assert(plugins_view(self.plugins@) =~= moved_to(ps, current as int, previous as int));
                                assert forall|j: int| 0 <= j < self.plugins@.len() implies (#[trigger] self.plugins@[j]).wf() by {
                                    let m = old_plugins.remove(current as int).insert(previous as int, old_plugins[current as int]);
                                    assert(self.plugins@ == m);
                                    let r = old_plugins.remove(current as int);
                                    if j < previous {
                                        assert(m[j] == r[j]);
                                    } else if j > previous {
                                        assert(m[j] == r[j - 1]);
                                    }
                                    if j != previous {
                                        let jj = if j < previous { j } else { j - 1 };
                                        if jj < current { assert(r[jj] == old_plugins[jj]); } else { assert(r[jj] == old_plugins[jj + 1]); }
                                    }
                                }
                            }
                        } else {
                            previous = current;
                        }
                    },
                    None => {},
                }
            }
            k = k + 1;
        }
        assert(acts.take(active_plugins.len() as int) =~= acts);
    }
}

/// The installed plugins' file names, without duplicates (the first path
/// with a name wins), each active where the config lists it.
pub open spec fn spec_total_insertion_order(defined: Seq<(Seq<char>, bool)>, installed: Seq<Seq<char>>) -> Seq<(Seq<char>, bool)>
    decreases installed.len(),
{
    if installed.len() == 0 {
        Seq::empty()
    } else {
        let kept = spec_total_insertion_order(defined, installed.drop_last());
        match std_path_file_name(installed.last()) {
            Some(f) => if names_contain(kept.map_values(|t: (Seq<char>, bool)| t.0), f) {
                kept
            } else {
                kept.push((f, names_contain(defined.map_values(|t: (Seq<char>, bool)| t.0), f)))
            },
            None => kept,
        }
    }
}

/// The order in which OpenMW's installed plugins are first inserted: that
/// of their paths (the Launcher's), with the active plugins set aside for
/// later.
pub fn total_insertion_order(defined_load_order: &Vec<(String, bool)>, installed_files: &Vec<String>, game_id: GameId) -> (res: Vec<(String, bool)>)
    ensures
        tuples_view(res@) == spec_total_insertion_order(tuples_view(defined_load_order@), strings_view(installed_files@)),
{
    let mut defined: Vec<String> = Vec::new();
    let mut d: usize = 0;
    while d < defined_load_order.len()
        invariant
            d <= defined_load_order.len(),
            strings_view(defined@) == tuples_view(defined_load_order@).take(d as int).map_values(|t: (Seq<char>, bool)| t.0),
        decreases defined_load_order.len() - d,
    {
        let ghost before = defined@;
        let ghost tv = tuples_view(defined_load_order@);
        defined.push(defined_load_order[d].0.clone());
        assert(strings_view(defined@) =~= strings_view(before).push(defined_load_order@[d as int].0@));
        assert(tv.take(d + 1) =~= tv.take(d as int).push(tv[d as int]));
        assert(tv.take(d + 1).map_values(|t: (Seq<char>, bool)| t.0) =~= tv.take(d as int).map_values(|t: (Seq<char>, bool)| t.0).push(tv[d as int].0));
        d = d + 1;
    }
    assert(tuples_view(defined_load_order@).take(defined_load_order.len() as int) =~= tuples_view(defined_load_order@));
    let ghost dv = tuples_view(defined_load_order@);
    let ghost fs = strings_view(installed_files@);
    let mut res: Vec<(String, bool)> = Vec::new();
    let mut names: Vec<String> = Vec::new();
    let mut i: usize = 0;
    assert(fs.take(0) =~= Seq::<Seq<char>>::empty());
    assert(tuples_view(res@) =~= Seq::<(Seq<char>, bool)>::empty());
    assert(strings_view(names@) =~= Seq::<Seq<char>>::empty());
    while i < installed_files.len()
        invariant
            i <= installed_files.len(),
            fs == strings_view(installed_files@),
            strings_view(defined@) == dv.map_values(|t: (Seq<char>, bool)| t.0),
            tuples_view(res@) == spec_total_insertion_order(dv, fs.take(i as int)),
            strings_view(names@) == tuples_view(res@).map_values(|t: (Seq<char>, bool)| t.0),
        decreases installed_files.len() - i,
    {
        assert(fs.take(i + 1).drop_last() =~= fs.take(i as int));
        assert(fs.take(i + 1).last() == installed_files@[i as int]@);
        match file_name(installed_files[i].as_str()) {
            Some(f) => {
                if !crate::game_settings::any_name_matches(&names, f.as_str()) {
                    let active = crate::game_settings::any_name_matches(&defined, f.as_str());
                    let ghost before = res@;
                    let ghost nb = names@;
                    let ghost fv = f@;
                    names.push(f.clone());
                    res.push((f, active));
                    assert(tuples_view(res@) =~= tuples_view(before).push((fv, active)));
                    assert(strings_view(names@) =~= strings_view(nb).push(fv));
                    assert(tuples_view(res@).map_values(|t: (Seq<char>, bool)| t.0) =~= tuples_view(before).map_values(|t: (Seq<char>, bool)| t.0).push(fv));
                }
            },
            None => {},
        }
        i = i + 1;
    }
    assert(fs.take(installed_files.len() as int) =~= fs);
    res
}

} // verus!
