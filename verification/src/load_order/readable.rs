//! Reading a load order: names, positions and active plugins.
use vstd::prelude::*;

use super::{plugins_view, pred_name_matches, spec_index_of, LoadOrder, LoadOrderView};
use crate::game_settings::GameSettings;
use crate::plugin::{spec_name_matches, Plugin, PluginView};
use crate::seqs::{lemma_first_index_is, lemma_first_index_none};
use crate::text::strings_view;

verus! {

/// The names of the plugins, in order.
pub open spec fn spec_plugin_names(ps: Seq<PluginView>) -> Seq<Seq<char>> {
    ps.map_values(|p: PluginView| p.name)
}

/// The names of the active plugins, in order.
pub open spec fn spec_active_plugin_names(ps: Seq<PluginView>) -> Seq<Seq<char>> {
    ps.filter(pred_active()).map_values(plugin_name_of())
}

pub open spec fn pred_active() -> spec_fn(PluginView) -> bool {
    |p: PluginView| p.active
}

pub open spec fn plugin_name_of() -> spec_fn(PluginView) -> Seq<char> {
    |p: PluginView| p.name
}

/// The plugin that `name` matches is active.
pub open spec fn spec_is_active(ps: Seq<PluginView>, name: Seq<char>) -> bool {
    match spec_index_of(ps, name) {
        Some(i) => ps[i].active,
        None => false,
    }
}

/// The position of the first plugin in `plugins` whose name matches `name`.
pub fn find_plugin_index(plugins: &Vec<Plugin>, name: &str) -> (res: Option<usize>)
    ensures
        res matches Some(i) ==> i < plugins.len(),
        match res {
            Some(i) => spec_index_of(plugins_view(plugins@), name@) == Some(i as int),
            None => spec_index_of(plugins_view(plugins@), name@) is None,
        },
{
    let ghost ps = plugins_view(plugins@);
    let mut i: usize = 0;
    while i < plugins.len()
        invariant
            i <= plugins.len(),
            ps == plugins_view(plugins@),
            forall|j: int| 0 <= j < i ==> !(#[trigger] pred_name_matches(name@)(ps[j])),
        decreases plugins.len() - i,
    {
        if plugins[i].name_matches(name) {
            proof {
                lemma_first_index_is(ps, pred_name_matches(name@), i as int);
            }
            return Some(i);
        }
        i = i + 1;
    }
    proof {
        lemma_first_index_none(ps, pred_name_matches(name@));
    }
    None
}

impl LoadOrder {
    pub fn plugin_names(&self) -> (res: Vec<String>)
        ensures
            strings_view(res@) == spec_plugin_names(self@.plugins),
    {
        let plugins = self.plugins();
        let mut res: Vec<String> = Vec::new();
        let mut i: usize = 0;
        while i < plugins.len()
            invariant
                i <= plugins.len(),
                res.len() == i,
                plugins_view(plugins@) == self@.plugins,
                forall|j: int| 0 <= j < i ==> #[trigger] res@[j]@ == plugins@[j]@.name,
            decreases plugins.len() - i,
        {
            res.push(plugins[i].name().to_owned());
            i = i + 1;
        }
        assert(strings_view(res@) =~= spec_plugin_names(self@.plugins));
        res
    }

    pub fn index_of(&self, plugin_name: &str) -> (res: Option<usize>)
        ensures
            res matches Some(i) ==> i < self@.plugins.len(),
            match res {
                Some(i) => spec_index_of(self@.plugins, plugin_name@) == Some(i as int),
                None => spec_index_of(self@.plugins, plugin_name@) is None,
            },
    {
        find_plugin_index(self.plugins(), plugin_name)
    }

    pub fn plugin_at(&self, index: usize) -> (res: Option<String>)
        ensures
            match res {
                Some(n) => index < self@.plugins.len() && n@ == self@.plugins[index as int].name,
                None => index >= self@.plugins.len(),
            },
    {
        let plugins = self.plugins();
        if index < plugins.len() {
            Some(plugins[index].name().to_owned())
        } else {
            None
        }
    }

    pub fn active_plugin_names(&self) -> (res: Vec<String>)
        ensures
            strings_view(res@) == spec_active_plugin_names(self@.plugins),
    {
        let plugins = self.plugins();
        let ghost ps = self@.plugins;
        let mut res: Vec<String> = Vec::new();
        let mut i: usize = 0;
        while i < plugins.len()
            invariant
                i <= plugins.len(),
                plugins_view(plugins@) == ps,
                strings_view(res@) == spec_active_plugin_names(ps.take(i as int)),
            decreases plugins.len() - i,
        {
            proof {
                reveal_with_fuel(Seq::<_>::filter, 1);
                assert(ps.take(i + 1).drop_last() =~= ps.take(i as int));
            }
            if plugins[i].is_active() {
                res.push(plugins[i].name().to_owned());
            }
            proof {
                let f = ps.take(i as int).filter(pred_active());
                assert(ps.take(i + 1).last() == ps[i as int]);
                if ps[i as int].active {
                    assert(ps.take(i + 1).filter(pred_active()) == f.push(ps[i as int]));
                    assert(f.push(ps[i as int]).map_values(plugin_name_of()) =~= f.map_values(
                        plugin_name_of(),
                    ).push(ps[i as int].name));
                } else {
                    assert(ps.take(i + 1).filter(pred_active()) == f);
                }
                assert(strings_view(res@) =~= spec_active_plugin_names(ps.take(i + 1)));
            }
            i = i + 1;
        }
        assert(ps.take(plugins.len() as int) =~= ps);
        res
    }

    pub fn is_active(&self, plugin_name: &str) -> (res: bool)
        ensures
            res == spec_is_active(self@.plugins, plugin_name@),
    {
        match self.index_of(plugin_name) {
            Some(i) => self.plugins()[i].is_active(),
            None => false,
        }
    }
}

/// Reading a load order: its game's settings, its plugins' names in order,
/// where a plugin is and which plugins are active.
pub trait ReadableLoadOrder {
    fn game_settings(&self) -> &GameSettings;

    fn plugin_names(&self) -> Vec<String>;

    fn index_of(&self, plugin_name: &str) -> Option<usize>;

    fn plugin_at(&self, index: usize) -> Option<String>;

    fn active_plugin_names(&self) -> Vec<String>;

    fn is_active(&self, plugin_name: &str) -> bool;
}

impl ReadableLoadOrder for LoadOrder {
    fn game_settings(&self) -> (res: &GameSettings)
        ensures
            res@ == self@.settings,
    {
        LoadOrder::game_settings(self)
    }

    fn plugin_names(&self) -> (res: Vec<String>)
        ensures
            strings_view(res@) == spec_plugin_names(self@.plugins),
    {
        LoadOrder::plugin_names(self)
    }

    fn index_of(&self, plugin_name: &str) -> (res: Option<usize>)
        ensures
            match res {
                Some(i) => spec_index_of(self@.plugins, plugin_name@) == Some(i as int),
                None => spec_index_of(self@.plugins, plugin_name@) is None,
            },
    {
        LoadOrder::index_of(self, plugin_name)
    }

    fn plugin_at(&self, index: usize) -> (res: Option<String>)
        ensures
            match res {
                Some(n) => index < self@.plugins.len() && n@ == self@.plugins[index as int].name,
                None => index >= self@.plugins.len(),
            },
    {
        LoadOrder::plugin_at(self, index)
    }

    fn active_plugin_names(&self) -> (res: Vec<String>)
        ensures
            strings_view(res@) == spec_active_plugin_names(self@.plugins),
    {
        LoadOrder::active_plugin_names(self)
    }

    fn is_active(&self, plugin_name: &str) -> (res: bool)
        ensures
            res == spec_is_active(self@.plugins, plugin_name@),
    {
        LoadOrder::is_active(self, plugin_name)
    }
}

} // verus!
