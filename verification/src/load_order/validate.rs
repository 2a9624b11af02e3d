//! Which positions in a load order a plugin may take.
use vstd::prelude::*;

use super::mutable::{is_master_of, lists_master, spec_is_master_of, spec_lists_master};
use super::readable::find_plugin_index;
use super::{plugins_view, spec_index_of, LoadOrder};
use crate::enums::Error;
use crate::game_settings::{any_name_matches, names_contain};
use crate::plugin::{spec_is_blueprint_master, Plugin, PluginView};
use crate::seqs::{
    first_index, last_index, lemma_first_index_is, lemma_first_index_none, lemma_last_index_is,
    lemma_last_index_none,
};
use crate::text::{eq_icase, owned, strings_view, unicase_eq};

verus! {

/// The outcome of checking a load order position: valid, or the first rule
/// that the position breaks.
pub enum Verdict {
    Valid,
    /// `master` loads before `plugin`, so would hoist it.
    Hoist { plugin: Seq<char>, master: Seq<char> },
    /// `non_master` would load before `master` without being hoisted.
    NonMasterBeforeMaster { master: Seq<char>, non_master: Seq<char> },
    /// The early loader `name` would load at `pos` instead of `expected`.
    EarlyPosition { name: Seq<char>, pos: int, expected: int },
}

/// The error reports the verdict.
pub open spec fn error_reports(e: Error, v: Verdict) -> bool {
    match v {
        Verdict::Valid => false,
        Verdict::Hoist { plugin, master } => e matches Error::UnrepresentedHoist { plugin: a, master: b }
            && a@ == plugin && b@ == master,
        Verdict::NonMasterBeforeMaster { master, non_master } => e matches Error::NonMasterBeforeMaster { master: a, non_master: b }
            && a@ == master && b@ == non_master,
        Verdict::EarlyPosition { name, pos, expected } => e matches Error::InvalidEarlyLoadingPluginPosition { name: a, pos: b, expected_pos: c }
            && a@ == name && b == pos && c == expected,
    }
}

/// The result reports the verdict.
pub open spec fn result_reports(res: Result<(), Error>, v: Verdict) -> bool {
    match res {
        Ok(()) => v is Valid,
        Err(e) => error_reports(e, v),
    }
}

/// `min(index, len)`.
pub open spec fn clamp(index: int, len: int) -> int {
    if index < len { index } else { len }
}

pub open spec fn pred_blueprint_master_listing(name: Seq<char>) -> spec_fn(PluginView) -> bool {
    |q: PluginView| spec_is_blueprint_master(q) && spec_lists_master(q, name)
}

pub open spec fn pred_lists_master(name: Seq<char>) -> spec_fn(PluginView) -> bool {
    |q: PluginView| spec_lists_master(q, name)
}

pub open spec fn pred_master() -> spec_fn(PluginView) -> bool {
    |q: PluginView| q.is_master
}

pub open spec fn pred_not_among(names: Seq<Seq<char>>) -> spec_fn(PluginView) -> bool {
    |q: PluginView| !names_contain(names, q.name)
}

pub open spec fn pred_among(names: Seq<Seq<char>>) -> spec_fn(PluginView) -> bool {
    |q: PluginView| names_contain(names, q.name)
}

pub open spec fn pred_master_of(p: PluginView) -> spec_fn(PluginView) -> bool {
    |q: PluginView| q.is_master && spec_is_master_of(q, p)
}

/// A blueprint master may not load after a blueprint master that lists it
/// as a master.
pub open spec fn spec_blueprint_verdict(ps: Seq<PluginView>, p: PluginView, index: int) -> Verdict {
    let pre = ps.take(clamp(index, ps.len() as int));
    match first_index(pre, pred_blueprint_master_listing(p.name)) {
        Some(i) => Verdict::Hoist { plugin: p.name, master: pre[i].name },
        None => Verdict::Valid,
    }
}

/// The plugins after the last master of `pre` (after its first plugin where
/// there is no master).
pub open spec fn after_previous_master(pre: Seq<PluginView>) -> Seq<PluginView> {
    let pm = match last_index(pre, pred_master()) {
        Some(j) => j,
        None => 0,
    };
    if pm + 1 <= pre.len() {
        pre.skip(pm + 1)
    } else {
        Seq::empty()
    }
}

/// A master may not load after a plugin that lists it as a master, may
/// only follow the previous master with its own masters, and may not load
/// before one of its masters.
pub open spec fn spec_master_verdict(ps: Seq<PluginView>, p: PluginView, index: int) -> Verdict {
    let pre = ps.take(clamp(index, ps.len() as int));
    let post = ps.skip(clamp(index, ps.len() as int));
    match first_index(pre, pred_lists_master(p.name)) {
        Some(i) => Verdict::Hoist { plugin: p.name, master: pre[i].name },
        None => match first_index(after_previous_master(pre), pred_not_among(p.masters)) {
            Some(i) => Verdict::NonMasterBeforeMaster {
                master: p.name,
                non_master: after_previous_master(pre)[i].name,
            },
            None => match first_index(post, pred_among(p.masters)) {
                Some(i) => Verdict::Hoist { plugin: post[i].name, master: p.name },
                None => Verdict::Valid,
            },
        },
    }
}

/// A non-master may not load after a master that lists it as a master, and
/// may only load before the next master if that master lists it.
pub open spec fn spec_non_master_verdict(ps: Seq<PluginView>, p: PluginView, index: int) -> Verdict {
    let pre = ps.take(clamp(index, ps.len() as int));
    let post = ps.skip(clamp(index, ps.len() as int));
    match first_index(pre, pred_master_of(p)) {
        Some(i) => Verdict::Hoist { plugin: p.name, master: pre[i].name },
        None => match first_index(post, pred_master()) {
            None => Verdict::Valid,
            Some(i) => if spec_is_master_of(post[i], p) {
                Verdict::Valid
            } else {
                Verdict::NonMasterBeforeMaster { master: post[i].name, non_master: p.name }
            },
        },
    }
}

/// Checks the early loaders from the `k`th on, where `next_index` is the
/// position that the next early loader would take: the plugin `name` may
/// only take the position of an early loader if it is that early loader,
/// and must take it if it is.
pub open spec fn spec_early_verdict(
    ps: Seq<PluginView>,
    name: Seq<char>,
    pos: int,
    early: Seq<Seq<char>>,
    k: int,
    next_index: int,
) -> Verdict
    decreases early.len() - k,
{
    if k < 0 || k >= early.len() {
        Verdict::Valid
    } else {
        let el = early[k];
        let names_match = unicase_eq(name, el);
        match spec_index_of(ps, el) {
            Some(i) => if !names_match && pos == i {
                Verdict::EarlyPosition { name: el, pos: i + 1, expected: i }
            } else if names_match && pos != i {
                Verdict::EarlyPosition { name, pos, expected: i }
            } else {
                spec_early_verdict(
                    ps,
                    name,
                    pos,
                    early,
                    k + 1,
                    if !spec_is_blueprint_master(ps[i]) { i + 1 } else { next_index },
                )
            },
            None => if names_match && pos != next_index {
                Verdict::EarlyPosition { name, pos, expected: next_index }
            } else {
                spec_early_verdict(ps, name, pos, early, k + 1, next_index)
            },
        }
    }
}

/// Whether the plugin may take the position `index` in the load order.
pub open spec fn spec_index_verdict(
    ps: Seq<PluginView>,
    early: Seq<Seq<char>>,
    p: PluginView,
    index: int,
) -> Verdict {
    if spec_is_blueprint_master(p) {
        spec_blueprint_verdict(ps, p, index)
    } else if !(spec_early_verdict(ps, p.name, index, early, 0, 0) is Valid) {
        spec_early_verdict(ps, p.name, index, early, 0, 0)
    } else if p.is_master {
        spec_master_verdict(ps, p, index)
    } else {
        spec_non_master_verdict(ps, p, index)
    }
}

pub fn validate_blueprint_plugin_index(plugins: &Vec<Plugin>, plugin: &Plugin, index: usize) -> (res: Result<(), Error>)
    ensures
        result_reports(res, spec_blueprint_verdict(plugins_view(plugins@), plugin@, index as int)),
{
    let ghost ps = plugins_view(plugins@);
    let end = if index < plugins.len() { index } else { plugins.len() };
    let ghost pre = ps.take(end as int);
    assert(clamp(index as int, ps.len() as int) == end as int);
    let mut i: usize = 0;
    while i < end
        invariant
            i <= end <= plugins.len(),
            ps == plugins_view(plugins@),
            pre == ps.take(end as int),
            forall|j: int| 0 <= j < i ==> !(#[trigger] pred_blueprint_master_listing(plugin@.name)(pre[j])),
        decreases end - i,
    {
        if plugins[i].is_blueprint_master() && lists_master(&plugins[i], plugin.name()) {
            proof {
                assert(pre[i as int] == plugins@[i as int]@);
                lemma_first_index_is(pre, pred_blueprint_master_listing(plugin@.name), i as int);
            }
            let e = Error::UnrepresentedHoist {
                plugin: owned(plugin.name()),
                master: owned(plugins[i].name()),
            };
            return Err(e);
        }
        proof { assert(pre[i as int] == plugins@[i as int]@); }
        i = i + 1;
    }
    proof { lemma_first_index_none(pre, pred_blueprint_master_listing(plugin@.name)); }
    Ok(())
}

/// Whether the plugin's name is among the names (by `unicase::eq`, name of
/// the list first).
fn names_include(names: &Vec<String>, name: &str) -> (res: bool)
    ensures
        res == names_contain(strings_view(names@), name@),
{
    any_name_matches(names, name)
}

pub fn validate_master_file_index(plugins: &Vec<Plugin>, plugin: &Plugin, index: usize) -> (res: Result<(), Error>)
    ensures
        result_reports(res, spec_master_verdict(plugins_view(plugins@), plugin@, index as int)),
{
    let ghost ps = plugins_view(plugins@);
    let len = plugins.len();
    let end = if index < len { index } else { len };
    let ghost pre = ps.take(end as int);
    let ghost post = ps.skip(end as int);
    assert(clamp(index as int, ps.len() as int) == end as int);

    // None of the preceding plugins may list this plugin as a master.
    let mut i: usize = 0;
    while i < end
        invariant
            i <= end,
            forall|j: int| 0 <= j < i ==> !(#[trigger] pred_lists_master(plugin@.name)(pre[j])),
        decreases end - i,
    {
        proof { assert(pre[i as int] == plugins@[i as int]@); }
        if lists_master(&plugins[i], plugin.name()) {
            proof { lemma_first_index_is(pre, pred_lists_master(plugin@.name), i as int); }
            return Err(Error::UnrepresentedHoist {
                plugin: owned(plugin.name()),
                master: owned(plugins[i].name()),
            });
        }
        i = i + 1;
    }
    proof { lemma_first_index_none(pre, pred_lists_master(plugin@.name)); }

    // The position of the last preceding master, or 0.
    let mut previous_master_pos: usize = 0;
    let mut found = false;
    let mut k: usize = end;
    while k > 0 && !found
        invariant
            k <= end,
            !found ==> previous_master_pos == 0,
            !found ==> forall|j: int| k <= j < end ==> !(#[trigger] pred_master()(pre[j])),
            found ==> last_index(pre, pred_master()) == Some(previous_master_pos as int),
        decreases (if found { 0 } else { k + 1 }),
    {
        proof { assert(pre[k - 1] == plugins@[k - 1]@); }
        if plugins[k - 1].is_master_file() {
            previous_master_pos = k - 1;
            found = true;
            proof { lemma_last_index_is(pre, pred_master(), k - 1); }
        } else {
            k = k - 1;
        }
    }
    if !found {
        proof { lemma_last_index_none(pre, pred_master()); }
    }
    assert(found ==> last_index(pre, pred_master()) == Some(previous_master_pos as int));
    assert(!found ==> last_index(pre, pred_master()) is None && previous_master_pos == 0);
    let ghost after = after_previous_master(pre);

    // The plugins between the previous master and this index must be
    // masters of this plugin.
    let masters = plugin.masters();
    let start = previous_master_pos + 1;
    assert(start <= end ==> after =~= pre.skip(start as int));
    assert(start > end ==> after.len() == 0);
    let mut i: usize = start;
    while start <= i && i < end
        invariant
            start <= i,
            start <= end ==> i <= end,
            start <= end ==> after =~= pre.skip(start as int),
            strings_view(masters@) == plugin@.masters,
            forall|j: int| 0 <= j < i - start ==> !(#[trigger] pred_not_among(plugin@.masters)(after[j])),
        decreases end - i,
    {
        proof { assert(after[i - start] == plugins@[i as int]@); }
        if !names_include(masters, plugins[i].name()) {
            proof { lemma_first_index_is(after, pred_not_among(plugin@.masters), i - start); }
            return Err(Error::NonMasterBeforeMaster {
                master: owned(plugin.name()),
                non_master: owned(plugins[i].name()),
            });
        }
        i = i + 1;
    }
    proof { lemma_first_index_none(after, pred_not_among(plugin@.masters)); }

    // None of the plugins from this index on may be masters of this plugin.
    let mut i: usize = end;
    while i < len
        invariant
            end <= i <= len,
            len == plugins.len(),
            post =~= ps.skip(end as int),
            strings_view(masters@) == plugin@.masters,
            forall|j: int| 0 <= j < i - end ==> !(#[trigger] pred_among(plugin@.masters)(post[j])),
        decreases len - i,
    {
        proof { assert(post[i - end] == plugins@[i as int]@); }
        if names_include(masters, plugins[i].name()) {
            proof { lemma_first_index_is(post, pred_among(plugin@.masters), i - end); }
            return Err(Error::UnrepresentedHoist {
                plugin: owned(plugins[i].name()),
                master: owned(plugin.name()),
            });
        }
        i = i + 1;
    }
    proof { lemma_first_index_none(post, pred_among(plugin@.masters)); }
    Ok(())
}

pub fn validate_non_master_file_index(plugins: &Vec<Plugin>, plugin: &Plugin, index: usize) -> (res: Result<(), Error>)
    ensures
        result_reports(res, spec_non_master_verdict(plugins_view(plugins@), plugin@, index as int)),
{
    let ghost ps = plugins_view(plugins@);
    let len = plugins.len();
    let end = if index < len { index } else { len };
    let ghost pre = ps.take(end as int);
    let ghost post = ps.skip(end as int);
    assert(clamp(index as int, ps.len() as int) == end as int);

    // No earlier master may list this plugin as a master.
    let mut i: usize = 0;
    while i < end
        invariant
            i <= end,
            forall|j: int| 0 <= j < i ==> !(#[trigger] pred_master_of(plugin@)(pre[j])),
        decreases end - i,
    {
        proof { assert(pre[i as int] == plugins@[i as int]@); }
        if plugins[i].is_master_file() && is_master_of(&plugins[i], plugin) {
            proof { lemma_first_index_is(pre, pred_master_of(plugin@), i as int); }
            return Err(Error::UnrepresentedHoist {
                plugin: owned(plugin.name()),
                master: owned(plugins[i].name()),
            });
        }
        i = i + 1;
    }
    proof { lemma_first_index_none(pre, pred_master_of(plugin@)); }

    // The next master must list this plugin as a master.
    let mut i: usize = end;
    while i < len
        invariant
            end <= i <= len,
            len == plugins.len(),
            post =~= ps.skip(end as int),
            forall|j: int| 0 <= j < i - end ==> !(#[trigger] pred_master()(post[j])),
        decreases len - i,
    {
        proof { assert(post[i - end] == plugins@[i as int]@); }
        if plugins[i].is_master_file() {
            proof { lemma_first_index_is(post, pred_master(), i - end); }
            if is_master_of(&plugins[i], plugin) {
                return Ok(());
            } else {
                return Err(Error::NonMasterBeforeMaster {
                    master: owned(plugins[i].name()),
                    non_master: owned(plugin.name()),
                });
            }
        }
        i = i + 1;
    }
    proof { lemma_first_index_none(post, pred_master()); }
    Ok(())
}

impl LoadOrder {
    /// Checks that the plugin named `plugin_name` taking `position` won't
    /// make any early-loading plugin load in the wrong position.
    pub fn validate_early_loading_plugin_indexes(&self, plugin_name: &str, position: usize) -> (res: Result<(), Error>)
        ensures
            result_reports(res, spec_early_verdict(
                self@.plugins,
                plugin_name@,
                position as int,
                self@.settings.early_loading_plugins,
                0,
                0,
            )),
    {
        let plugins = self.plugins();
        let ghost ps = self@.plugins;
        let early = self.game_settings().early_loading_plugins();
        let ghost es = strings_view(early@);
        let ghost target = spec_early_verdict(ps, plugin_name@, position as int, es, 0, 0);
        let mut next_index: usize = 0;
        let mut k: usize = 0;
        while k < early.len()
            invariant
                k <= early.len(),
                es == strings_view(early@),
                next_index <= plugins.len(),
                spec_early_verdict(ps, plugin_name@, position as int, es, k as int, next_index as int) == target,
            decreases early.len() - k,
        {
            let early_loader = early[k].as_str();
            assert(es[k as int] == early_loader@);
            let names_match = eq_icase(plugin_name, early_loader);
            let expected_index = match find_plugin_index(plugins, early_loader) {
                Some(i) => {
                    if !names_match && position == i {
                        return Err(Error::InvalidEarlyLoadingPluginPosition {
                            name: owned(early_loader),
                            pos: i + 1,
                            expected_pos: i,
                        });
                    }
                    if !plugins[i].is_blueprint_master() {
                        next_index = i + 1;
                    }
                    i
                },
                None => next_index,
            };
            if names_match && position != expected_index {
                return Err(Error::InvalidEarlyLoadingPluginPosition {
                    name: owned(plugin_name),
                    pos: position,
                    expected_pos: expected_index,
                });
            }
            k = k + 1;
        }
        Ok(())
    }

    /// Checks that `plugin` may take the position `index` in the load order.
    pub fn validate_index(&self, plugin: &Plugin, index: usize) -> (res: Result<(), Error>)
        ensures
            result_reports(res, spec_index_verdict(
                self@.plugins,
                self@.settings.early_loading_plugins,
                plugin@,
                index as int,
            )),
    {
        if plugin.is_blueprint_master() {
            validate_blueprint_plugin_index(self.plugins(), plugin, index)
        } else {
            self.validate_early_loading_plugin_indexes(plugin.name(), index)?;
            if plugin.is_master_file() {
                validate_master_file_index(self.plugins(), plugin, index)
            } else {
                validate_non_master_file_index(self.plugins(), plugin, index)
            }
        }
    }
}

} // verus!
