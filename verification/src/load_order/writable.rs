//! Changing a load order: adding, removing, moving and (de)activating
//! plugins.
use vstd::prelude::*;

use super::mutable::{spec_insert_position};
use super::readable::{find_plugin_index, spec_is_active};
use super::validate::{error_reports, result_reports, spec_index_verdict, Verdict};
use super::{plugins_view, plugins_wf, spec_index_of, LoadOrder, LoadOrderView};
use crate::enums::{Error, GameId};
use crate::game_settings::names_contain;
use crate::plugin::{spec_activated_path, spec_name_matches, spec_unghosts_on_activation, Plugin, PluginView};
use crate::ghostable_path::spec_as_unghosted_path;
use crate::text::{eq_icase, opt_view, owned, strings_view, unicase_eq};
use crate::seqs::{first_index, lemma_first_index_is, lemma_first_index_none};

verus! {

/// The most light plugins that may be active at once.
pub const MAX_ACTIVE_LIGHT_PLUGINS: usize = 4096;

/// The most medium plugins that may be active at once.
pub const MAX_ACTIVE_MEDIUM_PLUGINS: usize = 256;

/// Whether a plugin's name starts with `BlueprintShips-`, compared as
/// `unicase::eq` compares. Starfield loads such a plugin for each active
/// plugin with the base name that follows the prefix, and removes it from
/// `plugins.txt`.
pub open spec fn spec_starts_with_blueprint_ships(name: Seq<char>) -> bool {
    name.len() >= 15 && unicase_eq(name.take(15), "BlueprintShips-"@)
}

/// Whether the plugin's name starts with `BlueprintShips-` (see
/// `spec_starts_with_blueprint_ships`).
pub fn starts_with_blueprint_ships(plugin_name: &str) -> (res: bool)
    ensures
        res == spec_starts_with_blueprint_ships(plugin_name@),
{
    let chars = crate::text::chars_of(plugin_name);
    if chars.len() < 15 {
        return false;
    }
    let prefix = crate::text::string_from_chars(&chars, 0, 15);
    assert(prefix@ =~= plugin_name@.take(15));
    eq_icase(prefix.as_str(), "BlueprintShips-")
}

/// How many plugins satisfy the predicate.
pub open spec fn count_where(ps: Seq<PluginView>, f: spec_fn(PluginView) -> bool) -> int
    decreases ps.len(),
{
    if ps.len() == 0 {
        0
    } else {
        count_where(ps.drop_last(), f) + if f(ps.last()) { 1int } else { 0int }
    }
}

pub open spec fn is_light(p: PluginView) -> bool {
    p.is_light
}

pub open spec fn is_medium(p: PluginView) -> bool {
    !p.is_light && p.is_medium
}

pub open spec fn is_full(p: PluginView) -> bool {
    !p.is_light && !p.is_medium
}

pub open spec fn pred_active_light() -> spec_fn(PluginView) -> bool {
    |p: PluginView| p.active && is_light(p)
}

pub open spec fn pred_active_medium() -> spec_fn(PluginView) -> bool {
    |p: PluginView| p.active && is_medium(p)
}

pub open spec fn pred_active_full() -> spec_fn(PluginView) -> bool {
    |p: PluginView| p.active && is_full(p)
}

/// The most full plugins that may be active at once: for OpenMW, the size
/// of its plugin index space; for the other games 255, less one slot for
/// light plugins and one for medium plugins where any are active.
pub open spec fn spec_max_active_full_plugins(game: GameId, light: int, medium: int) -> int {
    if game == GameId::OpenMW {
        0x7FFF_FFFE
    } else {
        255 - (if light > 0 { 1int } else { 0int }) - (if medium > 0 { 1int } else { 0int })
    }
}

/// A selection of `light` light, `medium` medium and `full` full plugins
/// is within the game's limits, the limit for full plugins being the one
/// set by the load order's currently active plugins.
pub open spec fn within_limits(lo: LoadOrderView, light: int, medium: int, full: int) -> bool {
    &&& light <= MAX_ACTIVE_LIGHT_PLUGINS
    &&& medium <= MAX_ACTIVE_MEDIUM_PLUGINS
    &&& full <= spec_current_max_full(lo)
}

/// Numbers of active plugins of each scale.
#[derive(Clone, Copy, Debug)]
pub struct PluginCounts {
    pub light: usize,
    pub medium: usize,
    pub full: usize,
}

pub fn max_active_full_plugins(game: GameId, light: usize, medium: usize) -> (res: usize)
    ensures
        res == spec_max_active_full_plugins(game, light as int, medium as int),
{
    if game == GameId::OpenMW {
        0x7FFF_FFFE
    } else {
        let mut max: usize = 255;
        if light > 0 {
            max = max - 1;
        }
        if medium > 0 {
            max = max - 1;
        }
        max
    }
}

proof fn lemma_count_where_bound(ps: Seq<PluginView>, f: spec_fn(PluginView) -> bool)
    ensures
        0 <= count_where(ps, f) <= ps.len(),
    decreases ps.len(),
{
    if ps.len() > 0 {
        lemma_count_where_bound(ps.drop_last(), f);
    }
}

/// Counts the active plugins of each scale.
pub fn count_active_plugins(plugins: &Vec<Plugin>) -> (res: PluginCounts)
    ensures
        res.light == count_where(plugins_view(plugins@), pred_active_light()),
        res.medium == count_where(plugins_view(plugins@), pred_active_medium()),
        res.full == count_where(plugins_view(plugins@), pred_active_full()),
{
    let ghost ps = plugins_view(plugins@);
    let mut counts = PluginCounts { light: 0, medium: 0, full: 0 };
    let mut i: usize = 0;
    while i < plugins.len()
        invariant
            i <= plugins.len(),
            counts.light == count_where(ps.take(i as int), pred_active_light()),
            counts.medium == count_where(ps.take(i as int), pred_active_medium()),
            counts.full == count_where(ps.take(i as int), pred_active_full()),
        decreases plugins.len() - i,
    {
        proof {
            assert(ps.take(i + 1).drop_last() =~= ps.take(i as int));
            assert(ps.take(i + 1).last() == plugins@[i as int]@);
            lemma_count_where_bound(ps.take(i as int), pred_active_light());
            lemma_count_where_bound(ps.take(i as int), pred_active_medium());
            lemma_count_where_bound(ps.take(i as int), pred_active_full());
        }
        let p = &plugins[i];
        if p.is_active() {
            if p.is_light_plugin() {
                counts.light = counts.light + 1;
            } else if p.is_medium_plugin() {
                counts.medium = counts.medium + 1;
            } else {
                counts.full = counts.full + 1;
            }
        }
        i = i + 1;
    }
    assert(ps.take(plugins.len() as int) =~= ps);
    counts
}

/// The load order with the `i`th plugin replaced by `p`.
pub open spec fn with_plugin(lo: LoadOrderView, i: int, p: PluginView) -> LoadOrderView {
    LoadOrderView { plugins: lo.plugins.update(i, p), ..lo }
}

/// The most full plugins that may be active beside the load order's
/// currently active light and medium plugins.
pub open spec fn spec_current_max_full(lo: LoadOrderView) -> int {
    spec_max_active_full_plugins(
        lo.settings.id,
        count_where(lo.plugins, pred_active_light()),
        count_where(lo.plugins, pred_active_medium()),
    )
}

/// The game's limit for plugins of `p`'s scale is already reached by the
/// load order's active plugins.
pub open spec fn spec_limit_reached(lo: LoadOrderView, p: PluginView) -> bool {
    ||| is_light(p) && count_where(lo.plugins, pred_active_light()) == MAX_ACTIVE_LIGHT_PLUGINS
    ||| is_medium(p) && count_where(lo.plugins, pred_active_medium()) == MAX_ACTIVE_MEDIUM_PLUGINS
    ||| is_full(p) && count_where(lo.plugins, pred_active_full()) == spec_current_max_full(lo)
}

/// What `activate` does: a missing plugin is an error; an active plugin is
/// left alone; an inactive plugin is refused where the active plugins of
/// its scale already reach the game's limit.
pub open spec fn spec_activate_ok(lo: LoadOrderView, name: Seq<char>) -> bool {
    spec_index_of(lo.plugins, name) matches Some(i) && (lo.plugins[i].active || !spec_limit_reached(lo, lo.plugins[i]))
}

/// The path that a plugin's file is still to be renamed from once the
/// plugin is activated: activating a ghosted plugin leaves its old path
/// pending, unless a rename already is.
pub open spec fn renamed_from_after_activation(p: PluginView, from: Option<Seq<char>>) -> Option<Seq<char>> {
    if spec_unghosts_on_activation(p) && from is None {
        Some(p.path)
    } else {
        from
    }
}

/// Activating the plugin once it is deactivated fails: it is ghosted and
/// its path has no file name to unghost.
pub open spec fn pred_activation_fails() -> spec_fn(PluginView) -> bool {
    |p: PluginView| spec_unghosts_on_activation(PluginView { active: false, ..p }) && spec_as_unghosted_path(p.path) is Err
}

/// The paths still to be renamed from once every plugin is deactivated and
/// the plugins at the chosen positions are activated.
pub open spec fn spec_renamed_after_set(
    ps: Seq<PluginView>,
    froms: Seq<Option<Seq<char>>>,
    chosen: Seq<int>,
) -> Seq<Option<Seq<char>>> {
    Seq::new(froms.len(), |t: int| if chosen.contains(t) {
        renamed_from_after_activation(PluginView { active: false, ..ps[t] }, froms[t])
    } else {
        froms[t]
    })
}

/// Where `insert` puts a plugin: its insert position, or the end.
pub open spec fn spec_insert_index(lo: LoadOrderView, p: PluginView) -> int {
    match spec_insert_position(lo.plugins, lo.settings.early_loading_plugins, p) {
        Some(i) => if i <= lo.plugins.len() { i } else { lo.plugins.len() as int },
        None => lo.plugins.len() as int,
    }
}

/// The position that `add` validates for a plugin.
pub open spec fn spec_add_position(lo: LoadOrderView, p: PluginView) -> int {
    match spec_insert_position(lo.plugins, lo.settings.early_loading_plugins, p) {
        Some(i) => i,
        None => lo.plugins.len() as int,
    }
}

/// Whether the query equals one of the names (query first).
pub fn query_in_set(names: &Vec<String>, query: &str) -> (res: bool)
    ensures
        res == set_contains(strings_view(names@), query@),
{
    let ghost ns = strings_view(names@);
    let mut i: usize = 0;
    while i < names.len()
        invariant
            i <= names.len(),
            ns == strings_view(names@),
            forall|j: int| 0 <= j < i ==> !unicase_eq(query@, #[trigger] ns[j]),
        decreases names.len() - i,
    {
        if eq_icase(query, names[i].as_str()) {
            assert(unicase_eq(query@, ns[i as int]));
            return true;
        }
        i = i + 1;
    }
    false
}

/// The load order with `p` inserted at `i`.
pub open spec fn with_inserted(lo: LoadOrderView, i: int, p: PluginView) -> LoadOrderView {
    LoadOrderView { plugins: lo.plugins.insert(i, p), ..lo }
}

/// The query is equal (by `unicase::eq`, query first) to one of the names,
/// as a `HashSet` of `UniCase` values finds it.
pub open spec fn set_contains(names: Seq<Seq<char>>, query: Seq<char>) -> bool {
    exists|j: int| 0 <= j < names.len() && unicase_eq(query, #[trigger] names[j])
}

pub open spec fn pred_not_in(names: Seq<Seq<char>>) -> spec_fn(Seq<char>) -> bool {
    |m: Seq<char>| !set_contains(names, m)
}

pub open spec fn pred_installed_non_master(ps: Seq<PluginView>) -> spec_fn(Seq<char>) -> bool {
    |n: Seq<char>| spec_index_of(ps, n) matches Some(t) && !ps[t].is_master
}

/// The non-master that prevents removing the master at position `i`: one of
/// its masters that the next master does not also have and that is
/// installed and not a master (removing the master would leave it loading
/// before a master that does not hoist it).
pub open spec fn spec_remove_blocker(ps: Seq<PluginView>, i: int) -> Option<Seq<char>> {
    if !ps[i].is_master {
        None
    } else {
        match first_index(ps.skip(i + 1), crate::load_order::validate::pred_master()) {
            None => None,
            Some(k) => {
                let remaining = ps[i].masters.filter(pred_not_in(ps[i + 1 + k].masters));
                match first_index(remaining, pred_installed_non_master(ps)) {
                    Some(x) => Some(remaining[x]),
                    None => None,
                }
            },
        }
    }
}

/// The load order without its `i`th plugin.
pub open spec fn without(lo: LoadOrderView, i: int) -> LoadOrderView {
    LoadOrderView { plugins: lo.plugins.remove(i), ..lo }
}

/// The load order with the plugin at `from` (which takes position `to`
/// once validated) moved: where `to` is past the end, to the end.
pub open spec fn spec_moved(ps: Seq<PluginView>, from: int, to: int) -> Seq<PluginView> {
    let rest = ps.remove(from);
    if to >= rest.len() {
        rest.push(ps[from])
    } else {
        rest.insert(to, ps[from])
    }
}

/// The load order with `p` put at `to`, or at the end where `to` is past it.
pub open spec fn spec_put(ps: Seq<PluginView>, p: PluginView, to: int) -> Seq<PluginView> {
    if to >= ps.len() {
        ps.push(p)
    } else {
        ps.insert(to, p)
    }
}

pub open spec fn pred_missing(ps: Seq<PluginView>) -> spec_fn(Seq<char>) -> bool {
    |n: Seq<char>| spec_index_of(ps, n) is None
}

/// The positions of the plugins that the names match.
pub open spec fn spec_lookup(ps: Seq<PluginView>, names: Seq<Seq<char>>) -> Seq<int> {
    Seq::new(names.len(), |k: int| spec_index_of(ps, names[k])->0)
}

/// The plugins at the given positions.
pub open spec fn spec_selected(ps: Seq<PluginView>, idx: Seq<int>) -> Seq<PluginView> {
    Seq::new(idx.len(), |k: int| ps[idx[k]])
}

pub open spec fn pred_light() -> spec_fn(PluginView) -> bool {
    |p: PluginView| is_light(p)
}

pub open spec fn pred_medium() -> spec_fn(PluginView) -> bool {
    |p: PluginView| is_medium(p)
}

pub open spec fn pred_full() -> spec_fn(PluginView) -> bool {
    |p: PluginView| is_full(p)
}

/// An implicitly active plugin that is installed and that the names leave
/// out.
pub open spec fn pred_left_out_implicit(ps: Seq<PluginView>, names: Seq<Seq<char>>) -> spec_fn(Seq<char>) -> bool {
    |ia: Seq<char>| spec_index_of(ps, ia) is Some && !(exists|k: int| 0 <= k < names.len() && unicase_eq(#[trigger] names[k], ia))
}

/// The views of a slice of strings.
pub open spec fn strs_view(v: Seq<&str>) -> Seq<Seq<char>> {
    v.map_values(|s: &str| s@)
}

/// The `t`th plugin once `set_active_plugins` has activated the plugins at
/// the positions `idx` and deactivated the rest.
pub open spec fn spec_after_set_active(p: PluginView, selected: bool) -> PluginView {
    let off = PluginView { active: false, ..p };
    if selected {
        PluginView { active: true, path: spec_activated_path(off), ..off }
    } else {
        off
    }
}

/// Counts the plugins at the given positions by scale.
fn count_plugins(plugins: &Vec<Plugin>, indices: &Vec<usize>) -> (res: PluginCounts)
    requires
        forall|k: int| 0 <= k < indices@.len() ==> #[trigger] indices@[k] < plugins@.len(),
    ensures
        ({
            let sel = spec_selected(plugins_view(plugins@), indices@.map_values(|i: usize| i as int));
            &&& res.light == count_where(sel, pred_light())
            &&& res.medium == count_where(sel, pred_medium())
            &&& res.full == count_where(sel, pred_full())
        }),
{
    let ghost sel = spec_selected(plugins_view(plugins@), indices@.map_values(|i: usize| i as int));
    let mut counts = PluginCounts { light: 0, medium: 0, full: 0 };
    let mut k: usize = 0;
    while k < indices.len()
        invariant
            k <= indices.len(),
            sel.len() == indices.len(),
            counts.light == count_where(sel.take(k as int), pred_light()),
            counts.medium == count_where(sel.take(k as int), pred_medium()),
            counts.full == count_where(sel.take(k as int), pred_full()),
        decreases indices.len() - k,
    {
        proof {
            assert(sel.take(k + 1).drop_last() =~= sel.take(k as int));
            assert(sel.take(k + 1).last() == plugins@[indices@[k as int] as int]@);
            lemma_count_where_bound(sel.take(k as int), pred_light());
            lemma_count_where_bound(sel.take(k as int), pred_medium());
            lemma_count_where_bound(sel.take(k as int), pred_full());
        }
        let p = &plugins[indices[k]];
        if p.is_light_plugin() {
            counts.light = counts.light + 1;
        } else if p.is_medium_plugin() {
            counts.medium = counts.medium + 1;
        } else {
            counts.full = counts.full + 1;
        }
        k = k + 1;
    }
    assert(sel.take(indices.len() as int) =~= sel);
    counts
}

pub open spec fn pred_duplicate(ns: Seq<Seq<char>>) -> spec_fn(int) -> bool {
    |k: int| exists|j: int| 0 <= j < k && unicase_eq(ns[k], #[trigger] ns[j])
}

/// The plugins that a new load order of the given names is made of: a
/// plugin already in the load order where a name matches one, else the
/// plugin that was loaded for the name.
pub open spec fn spec_new_plugin(ps: Seq<PluginView>, ns: Seq<Seq<char>>, candidates: Seq<Result<Plugin, Error>>, k: int) -> Option<PluginView> {
    match spec_index_of(ps, ns[k]) {
        Some(i) => Some(ps[i]),
        None => match candidates[k] {
            Ok(p) => Some(p@),
            Err(_) => None,
        },
    }
}

pub open spec fn pred_unloadable(ps: Seq<PluginView>, ns: Seq<Seq<char>>, candidates: Seq<Result<Plugin, Error>>) -> spec_fn(int) -> bool {
    |k: int| spec_new_plugin(ps, ns, candidates, k) is None
}

/// The new load order of the given names.
pub open spec fn spec_new_plugins(ps: Seq<PluginView>, ns: Seq<Seq<char>>, candidates: Seq<Result<Plugin, Error>>) -> Seq<PluginView> {
    Seq::new(ns.len(), |k: int| spec_new_plugin(ps, ns, candidates, k)->0)
}

/// The positions `0..n`.
pub open spec fn positions(n: int) -> Seq<int> {
    Seq::new(n as nat, |k: int| k)
}

/// What removing the named plugin does, where `installed` says whether its
/// file is installed: an installed plugin is not removed, nor a master whose
/// removal would leave a non-master that it hoists loading before the next
/// master.
pub open spec fn spec_removed(lo: LoadOrderView, after: LoadOrderView, plugin_name: Seq<char>, installed: bool, res: Result<(), Error>) -> bool {
    match res {
        Ok(()) => !installed && (spec_index_of(lo.plugins, plugin_name) matches Some(i)
            && spec_remove_blocker(lo.plugins, i) is None
            && after == without(lo, i)),
        Err(e) => after == lo && match spec_index_of(lo.plugins, plugin_name) {
            None => e matches Error::PluginNotFound(n) && n@ == plugin_name,
            Some(i) => if installed {
                e matches Error::InstalledPlugin(n) && n@ == plugin_name
            } else {
                spec_remove_blocker(lo.plugins, i) matches Some(b)
                    && (e matches Error::NonMasterBeforeMaster { master, non_master } && master@ == plugin_name && non_master@ == b)
            },
        },
    }
}

impl LoadOrder {
    /// Replaces the load order by the plugins with the given names, in
    /// order: a plugin in the load order is kept, and for another name the
    /// plugin in `candidates` at the same position is taken (as loaded from
    /// its file). The names must be unique and the new load order valid.
    pub fn set_load_order(&mut self, plugin_names: &[&str], candidates: Vec<Result<Plugin, Error>>) -> (res: Result<(), Error>)
        requires
            old(self).wf(),
            candidates@.len() == plugin_names@.len(),
            forall|k: int| 0 <= k < candidates@.len() ==> (#[trigger] candidates@[k] matches Ok(p) ==> p.wf()
                && spec_name_matches(p@, plugin_names@[k]@) && !p@.active),
        ensures
            final(self).wf(),
            final(self)@.settings == old(self)@.settings,
            res is Ok ==> crate::load_order::consistency::spec_load_order_verdict(
                final(self)@.plugins, final(self)@.settings.early_loading_plugins) is Valid,
            ({
                let ps = old(self)@.plugins;
                let ns = strs_view(plugin_names@);
                let ks = positions(ns.len() as int);
                let new_ps = spec_new_plugins(ps, ns, candidates@);
                let v = crate::load_order::consistency::spec_load_order_verdict(new_ps, old(self)@.settings.early_loading_plugins);
                if first_index(ks, pred_duplicate(ns)) is Some {
                    final(self)@ == old(self)@ && (res matches Err(e) && (e matches Error::DuplicatePlugin(n)
                        && n@ == ns[first_index(ks, pred_duplicate(ns))->0]))
                } else if first_index(ks, pred_unloadable(ps, ns, candidates@)) is Some {
                    let k = first_index(ks, pred_unloadable(ps, ns, candidates@))->0;
                    final(self)@ == old(self)@ && (candidates@[k] matches Err(e0) && res == Err::<(), Error>(e0))
                } else {
                    match res {
                        Ok(()) => v is Valid && final(self)@.plugins == new_ps,
                        Err(e) => error_reports(e, v) && final(self)@ == old(self)@,
                    }
                }
            }),
    {
        let ghost ps = self@.plugins;
        let ghost ns = strs_view(plugin_names@);
        let ghost ks = positions(ns.len() as int);
        let ghost cs = candidates@;
        let n = plugin_names.len();

        // The names must be unique.
        let mut k: usize = 0;
        while k < n
            invariant
                k <= n,
                n == plugin_names@.len(),
                ns == strs_view(plugin_names@),
                ks == positions(ns.len() as int),
                forall|t: int| 0 <= t < k ==> !(#[trigger] pred_duplicate(ns)(ks[t])),
            decreases n - k,
        {
            assert(ks[k as int] == k);
            let mut j: usize = 0;
            while j < k
                invariant
                    j <= k,
                    forall|q: int| 0 <= q < j ==> !unicase_eq(ns[k as int], #[trigger] ns[q]),
                decreases k - j,
            {
                assert(ns[k as int] == plugin_names@[k as int]@ && ns[j as int] == plugin_names@[j as int]@);
                if eq_icase(plugin_names[k], plugin_names[j]) {
                    proof { lemma_first_index_is(ks, pred_duplicate(ns), k as int); }
                    return Err(Error::DuplicatePlugin(owned(plugin_names[k])));
                }
                j = j + 1;
            }
            k = k + 1;
        }
        proof { lemma_first_index_none(ks, pred_duplicate(ns)); }

        // Take the candidates in order, from the end of a reversed copy.
        let mut candidates = candidates;
        let mut rev: Vec<Result<Plugin, Error>> = Vec::new();
        while candidates.len() > 0
            invariant
                rev@.len() + candidates@.len() == cs.len(),
                candidates@ == cs.take(candidates@.len() as int),
                forall|q: int| 0 <= q < rev@.len() ==> #[trigger] rev@[q] == cs[cs.len() - 1 - q],
            decreases candidates@.len(),
        {
            let c = candidates.pop().unwrap();
            rev.push(c);
        }

        let mut new_plugins: Vec<Plugin> = Vec::new();
        let mut k: usize = 0;
        while k < n
            invariant
                k <= n,
                n == ns.len(),
                n == cs.len(),
                rev@.len() == n - k,
                forall|q: int| 0 <= q < rev@.len() ==> #[trigger] rev@[q] == cs[n - 1 - q],
                new_plugins@.len() == k,
                plugins_wf(new_plugins@),
                ps == plugins_view(self.plugins@),
                forall|t: int| 0 <= t < k ==> !(#[trigger] pred_unloadable(ps, ns, cs)(ks[t])),
                forall|t: int| 0 <= t < k ==> spec_new_plugin(ps, ns, cs, t) == Some(#[trigger] new_plugins@[t]@),
            decreases n - k,
        {
            let c = rev.pop().unwrap();
            assert(c == cs[k as int]);
            assert(ks[k as int] == k);
            assert(ns[k as int] == plugin_names@[k as int]@);
            match find_plugin_index(&self.plugins, plugin_names[k]) {
                Some(i) => {
                    assert(ps[i as int] == self.plugins@[i as int]@);
                    new_plugins.push(self.plugins[i].clone());
                },
                None => match c {
                    Ok(p) => new_plugins.push(p),
                    Err(e) => {
                        proof { lemma_first_index_is(ks, pred_unloadable(ps, ns, cs), k as int); }
                        return Err(e);
                    },
                },
            }
            k = k + 1;
        }
        proof { lemma_first_index_none(ks, pred_unloadable(ps, ns, cs)); }
        assert(plugins_view(new_plugins@) =~= spec_new_plugins(ps, ns, cs));

        match crate::load_order::consistency::validate_load_order(&new_plugins, self.game_settings.early_loading_plugins()) {
            Ok(()) => {},
            Err(e) => return Err(e),
        }
        self.plugins = new_plugins;
        Ok(())
    }

    /// Makes the named plugins the active plugins: all must be in the load
    /// order, within the game's limits, and include every installed
    /// implicitly active plugin.
    #[verifier::spinoff_prover]
    #[verifier::rlimit(60)]
    pub fn set_active_plugins(&mut self, active_plugin_names: &[&str]) -> (res: Result<(), Error>)
        requires
            old(self).wf(),
        ensures
            final(self).wf(),
            final(self)@.settings == old(self)@.settings,
            ({
                let ps = old(self)@.plugins;
                let ns = strs_view(active_plugin_names@);
                let idx = spec_lookup(ps, ns);
                let sel = spec_selected(ps, idx);
                let light = count_where(sel, pred_light());
                let medium = count_where(sel, pred_medium());
                let full = count_where(sel, pred_full());
                let ia = old(self)@.settings.implicitly_active_plugins;
                let rf = old(self).renamed_froms();
                if first_index(ns, pred_missing(ps)) is Some {
                    let k = first_index(ns, pred_missing(ps))->0;
                    final(self)@ == old(self)@ && final(self).renamed_froms() == rf
                        && (res matches Err(e) && (e matches Error::PluginNotFound(n) && n@ == ns[k]))
                } else if !within_limits(old(self)@, light, medium, full) {
                    final(self)@ == old(self)@ && final(self).renamed_froms() == rf
                        && (res matches Err(e) && (e matches Error::TooManyActivePlugins { light_count, medium_count, full_count }
                        && light_count == light && medium_count == medium && full_count == full))
                } else if first_index(ia, pred_left_out_implicit(ps, ns)) is Some {
                    let j = first_index(ia, pred_left_out_implicit(ps, ns))->0;
                    final(self)@ == old(self)@ && final(self).renamed_froms() == rf
                        && (res matches Err(e) && (e matches Error::ImplicitlyActivePlugin(n) && n@ == ia[j]))
                } else {
                    let done = match first_index(sel, pred_activation_fails()) {
                        Some(k) => idx.take(k),
                        None => idx,
                    };
                    &&& match first_index(sel, pred_activation_fails()) {
                        Some(k) => res matches Err(Error::NoFilename(x)) && x@ == sel[k].path,
                        None => res is Ok,
                    }
                    &&& final(self)@.plugins.len() == ps.len()
                    &&& forall|t: int| 0 <= t < ps.len() ==>
                        #[trigger] final(self)@.plugins[t] == spec_after_set_active(ps[t], done.contains(t))
                    &&& final(self).renamed_froms() == spec_renamed_after_set(ps, rf, done)
                }
            }),
    {
        let ghost ps = self@.plugins;
        let ghost ns = strs_view(active_plugin_names@);
        let indices = match self.lookup_plugins(active_plugin_names) {
            Ok(v) => v,
            Err(e) => return Err(e),
        };
        let ghost idx = spec_lookup(ps, ns);
        assert(indices@.map_values(|i: usize| i as int) =~= idx);
        let counts = count_plugins(&self.plugins, &indices);
        let active = count_active_plugins(&self.plugins);
        let max_full = max_active_full_plugins(self.game_settings.id(), active.light, active.medium);
        if counts.full > max_full || counts.medium > MAX_ACTIVE_MEDIUM_PLUGINS || counts.light > MAX_ACTIVE_LIGHT_PLUGINS {
            return Err(Error::TooManyActivePlugins {
                light_count: counts.light,
                medium_count: counts.medium,
                full_count: counts.full,
            });
        }
        let ia = self.game_settings.implicitly_active_plugins();
        let ghost iav = strings_view(ia@);
        let mut j: usize = 0;
        while j < ia.len()
            invariant
                j <= ia.len(),
                iav == strings_view(ia@),
                forall|t: int| 0 <= t < j ==> !(#[trigger] pred_left_out_implicit(ps, ns)(iav[t])),
            decreases ia.len() - j,
        {
            let name = ia[j].as_str();
            assert(iav[j as int] == name@);
            if self.index_of(name).is_some() {
                let mut listed = false;
                let mut k: usize = 0;
                while k < active_plugin_names.len() && !listed
                    invariant
                        k <= active_plugin_names.len(),
                        listed ==> exists|q: int| 0 <= q < ns.len() && unicase_eq(#[trigger] ns[q], name@),
                        !listed ==> forall|q: int| 0 <= q < k ==> !unicase_eq(#[trigger] ns[q], name@),
                    decreases (if listed { 0 } else { active_plugin_names.len() - k + 1 }),
                {
                    assert(ns[k as int] == active_plugin_names@[k as int]@);
                    if eq_icase(active_plugin_names[k], name) {
                        listed = true;
                    } else {
                        k = k + 1;
                    }
                }
                if !listed {
                    proof { lemma_first_index_is(iav, pred_left_out_implicit(ps, ns), j as int); }
                    return Err(Error::ImplicitlyActivePlugin(owned(name)));
                }
            }
            j = j + 1;
        }
        proof { lemma_first_index_none(iav, pred_left_out_implicit(ps, ns)); }

        let ghost rf = self.renamed_froms();
        let ghost sel = spec_selected(ps, idx);
        let ghost fails = pred_activation_fails();
        self.deactivate_all();
        let mut k: usize = 0;
        while k < indices.len()
            invariant
                k <= indices.len(),
                indices@.len() == idx.len(),
                forall|q: int| 0 <= q < idx.len() ==> #[trigger] idx[q] == indices@[q] as int && idx[q] < ps.len(),
                self.wf(),
                self@.settings == old(self)@.settings,
                self@.plugins.len() == ps.len(),
                rf.len() == ps.len(),
                sel == spec_selected(ps, idx),
                fails == pred_activation_fails(),
                forall|t: int| 0 <= t < ps.len() ==> #[trigger] self@.plugins[t]
                    == spec_after_set_active(ps[t], idx.take(k as int).contains(t)),
                forall|q: int| 0 <= q < k ==> !(#[trigger] fails(sel[q])),
                self.renamed_froms() == spec_renamed_after_set(ps, rf, idx.take(k as int)),
            decreases indices.len() - k,
        {
            let index = indices[k];
            let ghost before = self.plugins@;
            let ghost bv = self@.plugins;
            let ghost brf = self.renamed_froms();
            assert(bv[index as int] == before[index as int]@);
            assert(sel[k as int] == ps[index as int]);
            proof {
                if idx.take(k as int).contains(index as int) {
                    let q = choose|q: int| 0 <= q < idx.take(k as int).len() && idx.take(k as int)[q] == index as int;
                    assert(sel[q] == ps[index as int]);
                    assert(!fails(sel[q]));
                }
            }
            match self.plugins[index].activate() {
                Ok(()) => {},
                Err(e) => {
                    proof {
                        assert forall|j: int| 0 <= j < self.plugins@.len() implies (#[trigger] self.plugins@[j]).wf() by {
                            if j != index {
                                assert(self.plugins@[j] == before[j]);
                            }
                        }
                        assert(fails(sel[k as int]));
                        lemma_first_index_is(sel, fails, k as int);
                        assert forall|t: int| 0 <= t < ps.len() implies #[trigger] self@.plugins[t]
                            == spec_after_set_active(ps[t], idx.take(k as int).contains(t)) by {
                            assert(self@.plugins[t] == self.plugins@[t]@);
                            if t != index {
                                assert(self.plugins@[t] == before[t]);
                            } else {
                                assert(self.plugins@[t]@ == before[t]@);
                                assert(bv[t] == before[t]@);
                            }
                            assert(bv[t] == spec_after_set_active(ps[t], idx.take(k as int).contains(t)));
                        }
                        assert(self.renamed_froms() =~= brf) by {
                            assert forall|t: int| 0 <= t < ps.len() implies
                                #[trigger] self.plugins@[t].spec_renamed_from() == before[t].spec_renamed_from() by {
                                if t != index {
                                    assert(self.plugins@[t] == before[t]);
                                }
                            }
                        }
                    }
                    return Err(e);
                },
            }
            proof {
                assert(!fails(sel[k as int]));
                assert(self.renamed_froms() =~= spec_renamed_after_set(ps, rf, idx.take(k + 1))) by {
                    assert(idx.take(k + 1) =~= idx.take(k as int).push(index as int));
                    assert forall|t: int| 0 <= t < ps.len() implies
                        #[trigger] self.renamed_froms()[t] == spec_renamed_after_set(ps, rf, idx.take(k + 1))[t] by {
                        assert(self.renamed_froms()[t] == self.plugins@[t].spec_renamed_from());
                        assert(brf[t] == before[t].spec_renamed_from());
                        if t != index {
                            assert(self.plugins@[t] == before[t]);
                            assert(idx.take(k + 1).contains(t) == idx.take(k as int).contains(t));
                        } else {
                            assert(idx.take(k + 1)[k as int] == t);
                        }
                    }
                }
                assert forall|j: int| 0 <= j < self.plugins@.len() implies (#[trigger] self.plugins@[j]).wf() by {
                    if j != index {
                        assert(self.plugins@[j] == before[j]);
                    }
                }
                assert(idx.take(k + 1) =~= idx.take(k as int).push(index as int));
                assert forall|t: int| 0 <= t < ps.len() implies #[trigger] self@.plugins[t]
                    == spec_after_set_active(ps[t], idx.take(k + 1).contains(t)) by {
                    assert(self@.plugins[t] == self.plugins@[t]@);
                    if t != index {
                        assert(self.plugins@[t] == before[t]);
                        assert(bv[t] == before[t]@);
                        assert(idx.take(k + 1).contains(t) == idx.take(k as int).contains(t));
                    } else {
                        assert(idx.take(k + 1)[k as int] == t);
                        assert(idx.take(k + 1).contains(t));
                    }
                }
            }
            k = k + 1;
        }
        assert(idx.take(indices.len() as int) =~= idx);
        proof { lemma_first_index_none(sel, fails); }
        Ok(())
    }

    /// The positions of the plugins that the names match.
    pub fn lookup_plugins(&self, active_plugin_names: &[&str]) -> (res: Result<Vec<usize>, Error>)
        ensures
            match res {
                Ok(v) => first_index(strs_view(active_plugin_names@), pred_missing(self@.plugins)) is None
                    && v@.len() == active_plugin_names@.len()
                    && forall|k: int| 0 <= k < v@.len() ==> #[trigger] v@[k] == spec_lookup(self@.plugins, strs_view(active_plugin_names@))[k]
                        && v@[k] < self@.plugins.len(),
                Err(e) => first_index(strs_view(active_plugin_names@), pred_missing(self@.plugins)) matches Some(k)
                    && (e matches Error::PluginNotFound(n) && n@ == active_plugin_names@[k]@),
            },
    {
        let ghost ns = strs_view(active_plugin_names@);
        let ghost ps = self@.plugins;
        let mut res: Vec<usize> = Vec::new();
        let mut k: usize = 0;
        while k < active_plugin_names.len()
            invariant
                k <= active_plugin_names.len(),
                res@.len() == k,
                ns == strs_view(active_plugin_names@),
                forall|j: int| 0 <= j < k ==> !(#[trigger] pred_missing(ps)(ns[j])),
                forall|j: int| 0 <= j < k ==> #[trigger] res@[j] == spec_index_of(ps, ns[j])->0 && res@[j] < ps.len(),
            decreases active_plugin_names.len() - k,
        {
            let n = active_plugin_names[k];
            assert(ns[k as int] == n@);
            match self.index_of(n) {
                Some(i) => res.push(i),
                None => {
                    proof { lemma_first_index_is(ns, pred_missing(ps), k as int); }
                    return Err(Error::PluginNotFound(owned(n)));
                },
            }
            k = k + 1;
        }
        proof { lemma_first_index_none(ns, pred_missing(ps)); }
        Ok(res)
    }

    /// Moves the plugin named `plugin_name` to `position` (or the end, where
    /// `position` is past it), or where it is not in the load order, puts it
    /// there as `plugin` holds it loaded from its file; the position must be
    /// valid for it. Returns the plugin's new position.
    pub fn set_plugin_index(&mut self, plugin_name: &str, position: usize, plugin: Result<Plugin, Error>) -> (res: Result<usize, Error>)
        requires
            old(self).wf(),
            plugin matches Ok(p) ==> p.wf() && spec_name_matches(p@, plugin_name@) && !p@.active,
        ensures
            final(self).wf(),
            final(self)@.settings == old(self)@.settings,
            match spec_index_of(old(self)@.plugins, plugin_name@) {
                Some(x) => if x == position {
                    res == Ok::<usize, Error>(position) && final(self)@ == old(self)@
                } else {
                    let v = spec_index_verdict(old(self)@.plugins, old(self)@.settings.early_loading_plugins, old(self)@.plugins[x], position as int);
                    match res {
                        Ok(i) => v is Valid && final(self)@.plugins == spec_moved(old(self)@.plugins, x, position as int)
                            && i == (if position >= old(self)@.plugins.len() - 1 { old(self)@.plugins.len() - 1 } else { position as int }),
                        Err(e) => error_reports(e, v) && final(self)@ == old(self)@,
                    }
                },
                None => match plugin {
                    Err(e0) => res == Err::<usize, Error>(e0) && final(self)@ == old(self)@,
                    Ok(p) => {
                        let v = spec_index_verdict(old(self)@.plugins, old(self)@.settings.early_loading_plugins, p@, position as int);
                        match res {
                            Ok(i) => v is Valid && final(self)@.plugins == spec_put(old(self)@.plugins, p@, position as int)
                                && i == (if position >= old(self)@.plugins.len() { old(self)@.plugins.len() as int } else { position as int }),
                            Err(e) => error_reports(e, v) && final(self)@ == old(self)@,
                        }
                    },
                },
            },
    {
        let ghost ps = plugins_view(self.plugins@);
        let ghost old_plugins = self.plugins@;
        let plugin = match find_plugin_index(&self.plugins, plugin_name) {
            Some(x) => {
                if x == position {
                    return Ok(position);
                }
                match self.validate_index(&self.plugins[x], position) {
                    Ok(()) => {},
                    Err(e) => return Err(e),
                }
                let p = self.plugins.remove(x);
                proof {
                    assert(plugins_view(self.plugins@) =~= ps.remove(x as int));
                    assert forall|j: int| 0 <= j < self.plugins@.len() implies (#[trigger] self.plugins@[j]).wf() by {
                        if j < x {
                            assert(self.plugins@[j] == old_plugins[j]);
                        } else {
                            assert(self.plugins@[j] == old_plugins[j + 1]);
                        }
                    }
                }
                p
            },
            None => {
                let p = match plugin {
                    Ok(p) => p,
                    Err(e) => return Err(e),
                };
                match self.validate_index(&p, position) {
                    Ok(()) => {},
                    Err(e) => return Err(e),
                }
                p
            },
        };
        let ghost mid = self.plugins@;
        let ghost pv = plugin@;
        let len = self.plugins.len();
        if position >= len {
            self.plugins.push(plugin);
            proof {
                assert(plugins_view(self.plugins@) =~= plugins_view(mid).push(pv));
                assert forall|j: int| 0 <= j < self.plugins@.len() implies (#[trigger] self.plugins@[j]).wf() by {
                    if j < len {
                        assert(self.plugins@[j] == mid[j]);
                    }
                }
            }
            Ok(len)
        } else {
            self.plugins.insert(position, plugin);
            proof {
                assert(plugins_view(self.plugins@) =~= plugins_view(mid).insert(position as int, pv));
                assert forall|j: int| 0 <= j < self.plugins@.len() implies (#[trigger] self.plugins@[j]).wf() by {
                    if j < position {
                        assert(self.plugins@[j] == mid[j]);
                    } else if j > position {
                        assert(self.plugins@[j] == mid[j - 1]);
                    }
                }
            }
            Ok(position)
        }
    }

    /// Removes the plugin named `plugin_name`, where `installed` says
    /// whether its file is installed: an installed plugin is not removed,
    /// nor a master whose removal would leave a non-master that it hoists
    /// loading before the next master.
    pub fn remove_with_install_state(&mut self, plugin_name: &str, installed: bool) -> (res: Result<(), Error>)
        requires
            old(self).wf(),
        ensures
            final(self).wf(),
            spec_removed(old(self)@, final(self)@, plugin_name@, installed, res),
    {
        let ghost ps = plugins_view(self.plugins@);
        let index = match find_plugin_index(&self.plugins, plugin_name) {
            Some(i) => i,
            None => return Err(Error::PluginNotFound(owned(plugin_name))),
        };
        if installed {
            return Err(Error::InstalledPlugin(owned(plugin_name)));
        }
        match self.remove_blocker(index) {
            Some(n) => return Err(Error::NonMasterBeforeMaster { master: owned(plugin_name), non_master: n }),
            None => {},
        }
        let ghost old_plugins = self.plugins@;
        self.plugins.remove(index);
        proof {
            assert(plugins_view(self.plugins@) =~= ps.remove(index as int));
            assert forall|j: int| 0 <= j < self.plugins@.len() implies (#[trigger] self.plugins@[j]).wf() by {
                if j < index {
                    assert(self.plugins@[j] == old_plugins[j]);
                } else {
                    assert(self.plugins@[j] == old_plugins[j + 1]);
                }
            }
        }
        Ok(())
    }

    fn remove_blocker(&self, index: usize) -> (res: Option<String>)
        requires
            index < self@.plugins.len(),
        ensures
            opt_view(res) == spec_remove_blocker(self@.plugins, index as int),
    {
        let plugins = &self.plugins;
        let ghost ps = plugins_view(plugins@);
        let plugin = &plugins[index];
        assert(ps[index as int] == plugin@);
        if !plugin.is_master_file() {
            return None;
        }
        let len = plugins.len();
        let ghost post = ps.skip(index + 1);
        let mut k: usize = index + 1;
        let mut found = false;
        while k < len && !found
            invariant
                index + 1 <= k <= len,
                len == plugins.len(),
                found ==> k < len && crate::seqs::is_first(post, crate::load_order::validate::pred_master(), k - index - 1),
                !found ==> forall|t: int| 0 <= t < k - index - 1 ==> !(#[trigger] crate::load_order::validate::pred_master()(post[t])),
            decreases (if found { 0 } else { len - k + 1 }),
        {
            assert(post[k - index - 1] == plugins@[k as int]@);
            if plugins[k].is_master_file() {
                found = true;
            } else {
                k = k + 1;
            }
        }
        if !found {
            proof { lemma_first_index_none(post, crate::load_order::validate::pred_master()); }
            return None;
        }
        proof { lemma_first_index_is(post, crate::load_order::validate::pred_master(), k - index - 1); }
        let next = &plugins[k];
        assert(ps[index + 1 + (k - index - 1)] == next@);
        let masters = plugin.masters();
        let next_masters = next.masters();
        let ghost ms = strings_view(masters@);
        let ghost nms = strings_view(next_masters@);
        let ghost remaining = ms.filter(pred_not_in(nms));
        let mut rem: Vec<String> = Vec::new();
        let mut i: usize = 0;
        while i < masters.len()
            invariant
                i <= masters.len(),
                ms == strings_view(masters@),
                nms == strings_view(next_masters@),
                strings_view(rem@) == ms.take(i as int).filter(pred_not_in(nms)),
            decreases masters.len() - i,
        {
            proof {
                reveal_with_fuel(Seq::<_>::filter, 1);
                assert(ms.take(i + 1).drop_last() =~= ms.take(i as int));
                assert(ms.take(i + 1).last() == ms[i as int]);
            }
            let m = masters[i].as_str();
            assert(ms[i as int] == m@);
            let in_next = query_in_set(next_masters, m);
            if !in_next {
                rem.push(masters[i].clone());
                proof {
                    assert(strings_view(rem@) =~= ms.take(i as int).filter(pred_not_in(nms)).push(ms[i as int]));
                }
            }
            i = i + 1;
        }
        assert(ms.take(masters.len() as int) =~= ms);
        assert(strings_view(rem@) == remaining);
        let mut x: usize = 0;
        while x < rem.len()
            invariant
                x <= rem.len(),
                strings_view(rem@) == remaining,
                forall|t: int| 0 <= t < x ==> !(#[trigger] pred_installed_non_master(ps)(remaining[t])),
            decreases rem.len() - x,
        {
            assert(remaining[x as int] == rem@[x as int]@);
            match find_plugin_index(plugins, rem[x].as_str()) {
                Some(t) => {
                    assert(ps[t as int] == plugins@[t as int]@);
                    if !plugins[t].is_master_file() {
                        proof { lemma_first_index_is(remaining, pred_installed_non_master(ps), x as int); }
                        return Some(rem[x].clone());
                    }
                },
                None => {},
            }
            x = x + 1;
        }
        proof { lemma_first_index_none(remaining, pred_installed_non_master(ps)); }
        None
    }

    /// Inserts the plugin at its insert position, or at the end.
    pub fn insert(&mut self, plugin: Plugin) -> (res: usize)
        requires
            old(self).wf(),
            plugin.wf(),
        ensures
            final(self).wf(),
            res == spec_insert_index(old(self)@, plugin@),
            final(self)@ == with_inserted(old(self)@, res as int, plugin@),
    {
        let ghost p = plugin@;
        let ghost old_plugins = self.plugins@;
        let len = self.plugins.len();
        let index = match self.insert_position(&plugin) {
            Some(i) => if i <= len { i } else { len },
            None => len,
        };
        self.plugins.insert(index, plugin);
        proof {
            assert(plugins_view(self.plugins@) =~= plugins_view(old_plugins).insert(index as int, p));
            assert forall|j: int| 0 <= j < self.plugins@.len() implies (#[trigger] self.plugins@[j]).wf() by {
                if j < index {
                    assert(self.plugins@[j] == old_plugins[j]);
                } else if j > index {
                    assert(self.plugins@[j] == old_plugins[j - 1]);
                }
            }
        }
        index
    }

    /// Adds the plugin named `plugin_name`, as `plugin` holds it loaded from
    /// its file, where the load order may take it at its insert position
    /// (or the end).
    pub fn add(&mut self, plugin_name: &str, plugin: Result<Plugin, Error>) -> (res: Result<usize, Error>)
        requires
            old(self).wf(),
            plugin matches Ok(p) ==> p.wf() && spec_name_matches(p@, plugin_name@) && !p@.active,
        ensures
            final(self).wf(),
            match res {
                Ok(i) => spec_index_of(old(self)@.plugins, plugin_name@) is None
                    && (plugin matches Ok(p)
                    && spec_index_verdict(old(self)@.plugins, old(self)@.settings.early_loading_plugins, p@, spec_add_position(old(self)@, p@)) is Valid
                    && i == spec_insert_index(old(self)@, p@)
                    && final(self)@ == with_inserted(old(self)@, i as int, p@)),
                Err(e) => final(self)@ == old(self)@ && if spec_index_of(old(self)@.plugins, plugin_name@) is Some {
                    e matches Error::DuplicatePlugin(n) && n@ == plugin_name@
                } else {
                    match plugin {
                        Err(e0) => e == e0,
                        Ok(p) => error_reports(e, spec_index_verdict(old(self)@.plugins, old(self)@.settings.early_loading_plugins, p@, spec_add_position(old(self)@, p@))),
                    }
                },
            },
    {
        if find_plugin_index(&self.plugins, plugin_name).is_some() {
            return Err(Error::DuplicatePlugin(owned(plugin_name)));
        }
        let plugin = match plugin {
            Ok(p) => p,
            Err(e) => return Err(e),
        };
        let position = match self.insert_position(&plugin) {
            Some(i) => i,
            None => self.plugins.len(),
        };
        match self.validate_index(&plugin, position) {
            Ok(()) => {},
            Err(e) => return Err(e),
        }
        Ok(self.insert(plugin))
    }

    pub fn deactivate(&mut self, plugin_name: &str) -> (res: Result<(), Error>)
        requires
            old(self).wf(),
        ensures
            final(self).wf(),
            final(self)@.settings == old(self)@.settings,
            match res {
                Ok(()) => !names_contain(old(self)@.settings.implicitly_active_plugins, plugin_name@)
                    && (spec_index_of(old(self)@.plugins, plugin_name@) matches Some(i)
                    && final(self)@ == with_plugin(old(self)@, i, PluginView { active: false, ..old(self)@.plugins[i] })),
                Err(e) => final(self)@ == old(self)@ && if names_contain(old(self)@.settings.implicitly_active_plugins, plugin_name@) {
                    e matches Error::ImplicitlyActivePlugin(n) && n@ == plugin_name@
                } else {
                    spec_index_of(old(self)@.plugins, plugin_name@) is None && (e matches Error::PluginNotFound(n) && n@ == plugin_name@)
                },
            },
    {
        if self.game_settings.is_implicitly_active(plugin_name) {
            return Err(Error::ImplicitlyActivePlugin(owned(plugin_name)));
        }
        let index = match find_plugin_index(&self.plugins, plugin_name) {
            Some(i) => i,
            None => return Err(Error::PluginNotFound(owned(plugin_name))),
        };
        let ghost ps = plugins_view(self.plugins@);
        let ghost old_plugins = self.plugins@;
        self.plugins[index].deactivate();
        proof {
            assert(plugins_view(self.plugins@) =~= ps.update(index as int, self.plugins@[index as int]@));
            assert forall|j: int| 0 <= j < self.plugins@.len() implies (#[trigger] self.plugins@[j]).wf() by {
                if j != index {
                    assert(self.plugins@[j] == old_plugins[j]);
                }
            }
        }
        Ok(())
    }

    /// Deactivates every plugin.
    pub fn deactivate_all(&mut self)
        requires
            old(self).wf(),
        ensures
            final(self).wf(),
            final(self)@.settings == old(self)@.settings,
            final(self)@.plugins.len() == old(self)@.plugins.len(),
            forall|i: int| 0 <= i < old(self)@.plugins.len() ==> #[trigger] final(self)@.plugins[i]
                == (PluginView { active: false, ..old(self)@.plugins[i] }),
            final(self).renamed_froms() == old(self).renamed_froms(),
    {
        let ghost ps = plugins_view(self.plugins@);
        let ghost rf = self.renamed_froms();
        let mut i: usize = 0;
        while i < self.plugins.len()
            invariant
                i <= self.plugins.len(),
                self.plugins.len() == ps.len(),
                self@.settings == old(self)@.settings,
                plugins_wf(self.plugins@),
                forall|j: int| 0 <= j < i ==> #[trigger] self.plugins@[j]@ == (PluginView { active: false, ..ps[j] }),
                forall|j: int| i <= j < ps.len() ==> #[trigger] self.plugins@[j]@ == ps[j],
                self.renamed_froms() == rf,
            decreases self.plugins.len() - i,
        {
            let ghost before = self.plugins@;
            self.plugins[i].deactivate();
            proof {
                assert forall|j: int| 0 <= j < self.plugins@.len() implies
                    #[trigger] self.plugins@[j].spec_renamed_from() == before[j].spec_renamed_from() by {}
                assert(self.renamed_froms() =~= rf);
                assert forall|j: int| 0 <= j < self.plugins@.len() implies (#[trigger] self.plugins@[j]).wf() by {
                    if j != i {
                        assert(self.plugins@[j] == before[j]);
                    }
                }
                assert forall|j: int| 0 <= j <= i implies #[trigger] self.plugins@[j]@ == (PluginView { active: false, ..ps[j] }) by {
                    if j < i {
                        assert(self.plugins@[j] == before[j]);
                    }
                }
                assert forall|j: int| i < j < ps.len() implies #[trigger] self.plugins@[j]@ == ps[j] by {
                    assert(self.plugins@[j] == before[j]);
                }
            }
            i = i + 1;
        }
        assert(self@.plugins.len() == ps.len());
    }

    pub fn activate(&mut self, plugin_name: &str) -> (res: Result<(), Error>)
        requires
            old(self).wf(),
        ensures
            final(self).wf(),
            final(self)@.settings == old(self)@.settings,
            match res {
                Ok(()) => spec_activate_ok(old(self)@, plugin_name@) && {
                    let i = spec_index_of(old(self)@.plugins, plugin_name@)->0;
                    let p = old(self)@.plugins[i];
                    final(self)@ == with_plugin(old(self)@, i, PluginView { active: true, path: spec_activated_path(p), ..p })
                },
                Err(e) => {
                    ||| (spec_index_of(old(self)@.plugins, plugin_name@) is None && (e matches Error::PluginNotFound(n) && n@ == plugin_name@) && final(self)@ == old(self)@)
                    ||| (spec_index_of(old(self)@.plugins, plugin_name@) is Some && !spec_activate_ok(old(self)@, plugin_name@)
                        && (e matches Error::TooManyActivePlugins { light_count, medium_count, full_count }
                            && light_count == count_where(old(self)@.plugins, pred_active_light())
                            && medium_count == count_where(old(self)@.plugins, pred_active_medium())
                            && full_count == count_where(old(self)@.plugins, pred_active_full()))
                        && final(self)@ == old(self)@)
                    ||| (spec_activate_ok(old(self)@, plugin_name@) && {
                        let p = old(self)@.plugins[spec_index_of(old(self)@.plugins, plugin_name@)->0];
                        spec_unghosts_on_activation(p) && spec_as_unghosted_path(p.path) is Err
                            && (e matches Error::NoFilename(x) && x@ == p.path)
                    } && final(self)@ == old(self)@)
                },
            },
            res is Ok ==> {
                let i = spec_index_of(old(self)@.plugins, plugin_name@)->0;
                final(self).renamed_froms() == old(self).renamed_froms().update(
                    i, renamed_from_after_activation(old(self)@.plugins[i], old(self).renamed_froms()[i]))
            },
            res is Err ==> final(self).renamed_froms() == old(self).renamed_froms(),
    {
        let counts = count_active_plugins(&self.plugins);
        let index = match find_plugin_index(&self.plugins, plugin_name) {
            Some(i) => i,
            None => return Err(Error::PluginNotFound(owned(plugin_name))),
        };
        let ghost ps = plugins_view(self.plugins@);
        assert(ps[index as int] == self.plugins@[index as int]@);
        if !self.plugins[index].is_active() {
            let is_light = self.plugins[index].is_light_plugin();
            let is_medium = !is_light && self.plugins[index].is_medium_plugin();
            let is_full = !is_light && !is_medium;
            let max_full = max_active_full_plugins(self.game_settings.id(), counts.light, counts.medium);
            if (is_light && counts.light == MAX_ACTIVE_LIGHT_PLUGINS) || (is_medium && counts.medium == MAX_ACTIVE_MEDIUM_PLUGINS)
                || (is_full && counts.full == max_full) {
                return Err(Error::TooManyActivePlugins {
                    light_count: counts.light,
                    medium_count: counts.medium,
                    full_count: counts.full,
                });
            }
            let ghost old_plugins = self.plugins@;
            match self.plugins[index].activate() {
                Ok(()) => {},
                Err(e) => {
                    proof {
                        assert(plugins_view(self.plugins@) =~= ps);
                        assert forall|j: int| 0 <= j < self.plugins@.len() implies (#[trigger] self.plugins@[j]).wf() by {
                            if j != index {
                                assert(self.plugins@[j] == old_plugins[j]);
                            }
                        }
                    }
                    return Err(e);
                },
            }
            proof {
                assert(plugins_view(self.plugins@) =~= ps.update(index as int, self.plugins@[index as int]@));
                assert forall|j: int| 0 <= j < self.plugins@.len() implies (#[trigger] self.plugins@[j]).wf() by {
                    if j != index {
                        assert(self.plugins@[j] == old_plugins[j]);
                    }
                }
            }
        } else {
            proof {
                assert(ps.update(index as int, PluginView { active: true, path: spec_activated_path(ps[index as int]), ..ps[index as int] }) =~= ps);
            }
        }
        Ok(())
    }
}

} // verus!
