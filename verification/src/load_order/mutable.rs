//! Changing a load order: where plugins are inserted, and which positions
//! are valid for them.
use vstd::prelude::*;

use super::readable::find_plugin_index;
use super::{plugins_view, spec_index_of, LoadOrder};
use crate::enums::Error;
use crate::plugin::{spec_is_blueprint_master, spec_name_matches, Plugin, PluginView};
use crate::seqs::{first_index, lemma_first_index_is, lemma_first_index_none};
use crate::text::{eq_icase, strings_view, unicase_eq};

verus! {

/// `q` lists `p` as a master: one of `q`'s masters matches `p`'s name.
pub open spec fn spec_is_master_of(q: PluginView, p: PluginView) -> bool {
    exists|i: int| 0 <= i < q.masters.len() && spec_name_matches(p, #[trigger] q.masters[i])
}

/// One of `q`'s masters is the name (by `unicase::eq`, master first).
pub open spec fn spec_lists_master(q: PluginView, name: Seq<char>) -> bool {
    exists|i: int| 0 <= i < q.masters.len() && unicase_eq(#[trigger] q.masters[i], name)
}

pub open spec fn pred_hoisting_blueprint_master(p: PluginView) -> spec_fn(PluginView) -> bool {
    |q: PluginView| spec_is_blueprint_master(q) && spec_is_master_of(q, p)
}

pub open spec fn pred_hoisting_master(p: PluginView) -> spec_fn(PluginView) -> bool {
    |q: PluginView| q.is_master && spec_is_master_of(q, p)
}

pub open spec fn pred_non_master() -> spec_fn(PluginView) -> bool {
    |q: PluginView| !q.is_master
}

/// Where a plugin goes in a load order, not counting early loaders: before
/// the first plugin that would hoist it, else (for a master) before the
/// first non-master, else (`None`) at the end. A blueprint master goes at
/// the end unless another blueprint master hoists it.
pub open spec fn spec_generic_insert_position(ps: Seq<PluginView>, p: PluginView) -> Option<int> {
    if spec_is_blueprint_master(p) {
        first_index(ps, pred_hoisting_blueprint_master(p))
    } else {
        match first_index(ps, pred_hoisting_master(p)) {
            Some(i) => Some(i),
            None => if p.is_master {
                first_index(ps, pred_non_master())
            } else {
                None
            },
        }
    }
}

/// How many of the first `k` names are of plugins in the load order.
pub open spec fn count_present(ps: Seq<PluginView>, names: Seq<Seq<char>>, k: int) -> int
    decreases k,
{
    if k <= 0 {
        0
    } else {
        count_present(ps, names, k - 1) + if spec_index_of(ps, names[k - 1]) is Some {
            1int
        } else {
            0int
        }
    }
}

pub open spec fn pred_early_loader_named(name: Seq<char>) -> spec_fn(Seq<char>) -> bool {
    |n: Seq<char>| unicase_eq(name, n)
}

/// Where a plugin is inserted into a load order (`None`: at the end). An
/// early loader (other than a blueprint master) goes after the early
/// loaders that precede it and are present.
pub open spec fn spec_insert_position(
    ps: Seq<PluginView>,
    early: Seq<Seq<char>>,
    p: PluginView,
) -> Option<int> {
    if ps.len() == 0 {
        None
    } else if !spec_is_blueprint_master(p) && first_index(early, pred_early_loader_named(p.name)) is Some {
        Some(count_present(ps, early, first_index(early, pred_early_loader_named(p.name))->0))
    } else {
        spec_generic_insert_position(ps, p)
    }
}

proof fn lemma_count_present_bound(ps: Seq<PluginView>, names: Seq<Seq<char>>, k: int)
    ensures
        0 <= count_present(ps, names, k) <= if k < 0 { 0 } else { k },
    decreases k,
{
    if k > 0 {
        lemma_count_present_bound(ps, names, k - 1);
    }
}

/// Whether `q` lists `p` as a master.
pub fn is_master_of(q: &Plugin, p: &Plugin) -> (res: bool)
    ensures
        res == spec_is_master_of(q@, p@),
{
    let masters = q.masters();
    let mut i: usize = 0;
    while i < masters.len()
        invariant
            i <= masters.len(),
            strings_view(masters@) == q@.masters,
            forall|j: int| 0 <= j < i ==> !spec_name_matches(p@, #[trigger] q@.masters[j]),
        decreases masters.len() - i,
    {
        if p.name_matches(masters[i].as_str()) {
            assert(spec_name_matches(p@, q@.masters[i as int]));
            return true;
        }
        i = i + 1;
    }
    false
}

/// Whether one of `q`'s masters is the name.
pub fn lists_master(q: &Plugin, name: &str) -> (res: bool)
    ensures
        res == spec_lists_master(q@, name@),
{
    let masters = q.masters();
    let mut i: usize = 0;
    while i < masters.len()
        invariant
            i <= masters.len(),
            strings_view(masters@) == q@.masters,
            forall|j: int| 0 <= j < i ==> !unicase_eq(#[trigger] q@.masters[j], name@),
        decreases masters.len() - i,
    {
        if eq_icase(masters[i].as_str(), name) {
            assert(unicase_eq(q@.masters[i as int], name@));
            return true;
        }
        i = i + 1;
    }
    false
}

pub fn generic_insert_position(plugins: &Vec<Plugin>, plugin: &Plugin) -> (res: Option<usize>)
    ensures
        match res {
            Some(i) => i < plugins.len() && spec_generic_insert_position(plugins_view(plugins@), plugin@) == Some(i as int),
            None => spec_generic_insert_position(plugins_view(plugins@), plugin@) is None,
        },
{
    let ghost ps = plugins_view(plugins@);
    if plugin.is_blueprint_master() {
        let mut i: usize = 0;
        while i < plugins.len()
            invariant
                i <= plugins.len(),
                ps == plugins_view(plugins@),
                spec_is_blueprint_master(plugin@),
                forall|j: int| 0 <= j < i ==> !(#[trigger] pred_hoisting_blueprint_master(plugin@)(ps[j])),
            decreases plugins.len() - i,
        {
            if plugins[i].is_blueprint_master() && is_master_of(&plugins[i], plugin) {
                proof {
                    assert(ps[i as int] == plugins@[i as int]@);
                    lemma_first_index_is(ps, pred_hoisting_blueprint_master(plugin@), i as int);
                }
                return Some(i);
            }
            i = i + 1;
        }
        proof { lemma_first_index_none(ps, pred_hoisting_blueprint_master(plugin@)); }
        return None;
    }
    let mut i: usize = 0;
    while i < plugins.len()
        invariant
            i <= plugins.len(),
            ps == plugins_view(plugins@),
            !spec_is_blueprint_master(plugin@),
            forall|j: int| 0 <= j < i ==> !(#[trigger] pred_hoisting_master(plugin@)(ps[j])),
        decreases plugins.len() - i,
    {
        if plugins[i].is_master_file() && is_master_of(&plugins[i], plugin) {
            proof {
                assert(ps[i as int] == plugins@[i as int]@);
                lemma_first_index_is(ps, pred_hoisting_master(plugin@), i as int);
            }
            return Some(i);
        }
        i = i + 1;
    }
    proof { lemma_first_index_none(ps, pred_hoisting_master(plugin@)); }
    if plugin.is_master_file() {
        find_first_non_master_position(plugins)
    } else {
        None
    }
}

pub fn find_first_non_master_position(plugins: &Vec<Plugin>) -> (res: Option<usize>)
    ensures
        match res {
            Some(i) => i < plugins.len() && first_index(plugins_view(plugins@), pred_non_master()) == Some(i as int),
            None => first_index(plugins_view(plugins@), pred_non_master()) is None,
        },
{
    let ghost ps = plugins_view(plugins@);
    let mut i: usize = 0;
    while i < plugins.len()
        invariant
            i <= plugins.len(),
            ps == plugins_view(plugins@),
            forall|j: int| 0 <= j < i ==> !(#[trigger] pred_non_master()(ps[j])),
        decreases plugins.len() - i,
    {
        if !plugins[i].is_master_file() {
            proof {
                assert(ps[i as int] == plugins@[i as int]@);
                lemma_first_index_is(ps, pred_non_master(), i as int);
            }
            return Some(i);
        }
        i = i + 1;
    }
    proof { lemma_first_index_none(ps, pred_non_master()); }
    None
}

impl LoadOrder {
    /// Where `plugin` would be inserted (`None`: at the end).
    pub fn insert_position(&self, plugin: &Plugin) -> (res: Option<usize>)
        ensures
            match res {
                Some(i) => spec_insert_position(
                    self@.plugins,
                    self@.settings.early_loading_plugins,
                    plugin@,
                ) == Some(i as int),
                None => spec_insert_position(
                    self@.plugins,
                    self@.settings.early_loading_plugins,
                    plugin@,
                ) is None,
            },
    {
        let plugins = self.plugins();
        let ghost ps = self@.plugins;
        if plugins.len() == 0 {
            return None;
        }
        let early = self.game_settings().early_loading_plugins();
        let ghost es = strings_view(early@);
        if !plugin.is_blueprint_master() {
            let mut loaded_plugin_count: usize = 0;
            let mut i: usize = 0;
            while i < early.len()
                invariant
                    i <= early.len(),
                    es == strings_view(early@),
                    es == self@.settings.early_loading_plugins,
                    ps == self@.plugins,
                    loaded_plugin_count == count_present(ps, es, i as int),
                    loaded_plugin_count <= i,
                    ps.len() > 0,
                    !spec_is_blueprint_master(plugin@),
                    forall|j: int| 0 <= j < i ==> !(#[trigger] pred_early_loader_named(plugin@.name)(es[j])),
                decreases early.len() - i,
            {
                if eq_icase(plugin.name(), early[i].as_str()) {
                    proof {
                        assert(es[i as int] == early@[i as int]@);
                        lemma_first_index_is(es, pred_early_loader_named(plugin@.name), i as int);
                        lemma_count_present_bound(ps, es, i as int);
                    }
                    return Some(loaded_plugin_count);
                }
                if self.index_of(early[i].as_str()).is_some() {
                    loaded_plugin_count = loaded_plugin_count + 1;
                }
                i = i + 1;
            }
            proof { lemma_first_index_none(es, pred_early_loader_named(plugin@.name)); }
        }
        generic_insert_position(plugins, plugin)
    }
}

} // verus!
