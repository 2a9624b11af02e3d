//! A load order: the plugins of a game in the order in which they load.
use vstd::prelude::*;

use crate::game_settings::{GameSettings, GameSettingsView};
use crate::plugin::{spec_name_matches, Plugin, PluginView};
use crate::seqs::first_index;

pub mod consistency;
pub mod hoist;
pub mod laws;
pub mod load;
pub mod mutable;
pub mod openmw;
pub mod readable;
pub mod save;
pub mod timestamp;
pub mod validate;
pub mod writable;

verus! {

/// What the load order logic reads of a load order.
pub struct LoadOrderView {
    pub settings: GameSettingsView,
    pub plugins: Seq<PluginView>,
}

/// The views of a sequence of plugins.
pub open spec fn plugins_view(v: Seq<Plugin>) -> Seq<PluginView> {
    v.map_values(|p: Plugin| p@)
}

/// Each plugin is well formed.
pub open spec fn plugins_wf(v: Seq<Plugin>) -> bool {
    forall|i: int| 0 <= i < v.len() ==> (#[trigger] v[i]).wf()
}

/// The plugin's name matches `name`.
pub open spec fn pred_name_matches(name: Seq<char>) -> spec_fn(PluginView) -> bool {
    |p: PluginView| spec_name_matches(p, name)
}

/// The position of the first plugin whose name matches `name`.
pub open spec fn spec_index_of(ps: Seq<PluginView>, name: Seq<char>) -> Option<int> {
    first_index(ps, pred_name_matches(name))
}

/// A game's plugins, in their load order, and its settings.
#[derive(Debug)]
pub struct LoadOrder {
    game_settings: GameSettings,
    plugins: Vec<Plugin>,
}

impl View for LoadOrder {
    type V = LoadOrderView;

    closed spec fn view(&self) -> LoadOrderView {
        LoadOrderView { settings: self.game_settings@, plugins: plugins_view(self.plugins@) }
    }
}

impl LoadOrder {
    pub closed spec fn wf(&self) -> bool {
        plugins_wf(self.plugins@)
    }

    /// For each plugin, the path that its file is still to be renamed from,
    /// where activating it unghosted it.
    pub closed spec fn renamed_froms(&self) -> Seq<Option<Seq<char>>> {
        self.plugins@.map_values(|p: Plugin| p.spec_renamed_from())
    }

    /// An empty load order for the game.
    pub fn new(game_settings: GameSettings) -> (res: LoadOrder)
        ensures
            res@.settings == game_settings@,
            res@.plugins == Seq::<PluginView>::empty(),
            res.wf(),
    {
        let res = LoadOrder { game_settings, plugins: Vec::new() };
        assert(res@.plugins =~= Seq::<PluginView>::empty());
        res
    }

    pub fn game_settings(&self) -> (res: &GameSettings)
        ensures
            res@ == self@.settings,
    {
        &self.game_settings
    }

    /// The game's settings, to change: the plugins stay as they are.
    pub fn game_settings_mut(&mut self) -> (res: &mut GameSettings)
        ensures
            res@ == old(self)@.settings,
            final(self)@ == (LoadOrderView { settings: final(res)@, plugins: old(self)@.plugins }),
            final(self).wf() == old(self).wf(),
    {
        &mut self.game_settings
    }

    /// Empties the load order, as loading it anew starts by doing.
    pub fn clear(&mut self)
        ensures
            final(self)@ == (LoadOrderView { plugins: Seq::<PluginView>::empty(), ..old(self)@ }),
            final(self).wf(),
    {
        self.plugins = Vec::new();
        assert(self@.plugins =~= Seq::<PluginView>::empty());
    }

    pub fn plugins(&self) -> (res: &Vec<Plugin>)
        ensures
            plugins_view(res@) == self@.plugins,
            plugins_wf(res@) == self.wf(),
    {
        &self.plugins
    }
}

} // verus!
