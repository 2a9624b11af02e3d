//! Checks of a whole load order, for when it is replaced.
use vstd::prelude::*;

use super::plugins_view;
use super::validate::{clamp, error_reports, pred_master, result_reports, Verdict};
use crate::enums::Error;
use crate::game_settings::{any_name_matches, names_contain};
use super::mutable::find_first_non_master_position;
use crate::plugin::{spec_is_blueprint_master, Plugin, PluginView};
use crate::seqs::{
    first_index, last_index, lemma_first_index_is, lemma_first_index_none, lemma_last_index_is,
    lemma_last_index_none,
};
use crate::text::{eq_icase, owned, strings_view, unicase_eq};

verus! {

pub open spec fn pred_named(name: Seq<char>) -> spec_fn(PluginView) -> bool {
    |p: PluginView| unicase_eq(p.name, name)
}

/// Checks the early loaders from the `k`th on, `missing` of the earlier ones
/// being absent: each early loader that is present must load at its index
/// among the present early loaders.
pub open spec fn spec_early_positions_verdict(
    ps: Seq<PluginView>,
    early: Seq<Seq<char>>,
    k: int,
    missing: int,
) -> Verdict
    decreases early.len() - k,
{
    if k < 0 || k >= early.len() {
        Verdict::Valid
    } else {
        match first_index(ps, pred_named(early[k])) {
            Some(pos) => if pos != k - missing {
                Verdict::EarlyPosition { name: early[k], pos, expected: k - missing }
            } else {
                spec_early_positions_verdict(ps, early, k + 1, missing)
            },
            None => spec_early_positions_verdict(ps, early, k + 1, missing + 1),
        }
    }
}

/// How many of the names are of plugins in the load order.
pub open spec fn count_present(ps: Seq<PluginView>, names: Seq<Seq<char>>) -> int
    decreases names.len(),
{
    if names.len() == 0 {
        0
    } else {
        count_present(ps, names.drop_last()) + if first_index(ps, pred_named(names.last())) is Some { 1int } else { 0int }
    }
}

/// Each early loader from the `k`th on that is in the load order is at the
/// position given by how many early loaders before it are present.
pub open spec fn early_loaders_in_place(ps: Seq<PluginView>, early: Seq<Seq<char>>, k: int) -> bool {
    forall|j: int| k <= j < early.len() ==> (#[trigger] first_index(ps, pred_named(early[j])) matches Some(pos)
        ==> pos == count_present(ps, early.take(j)))
}

proof fn lemma_early_positions(ps: Seq<PluginView>, early: Seq<Seq<char>>, k: int, missing: int)
    requires
        0 <= k <= early.len(),
        missing == k - count_present(ps, early.take(k)),
    ensures
        spec_early_positions_verdict(ps, early, k, missing) is Valid <==> early_loaders_in_place(ps, early, k),
        spec_early_positions_verdict(ps, early, k, missing) matches Verdict::EarlyPosition { name, pos, expected }
            ==> exists|j: int| k <= j < early.len() && name == early[j]
                && first_index(ps, pred_named(early[j])) == Some(pos) && expected == count_present(ps, early.take(j))
                && pos != expected,
    decreases early.len() - k,
{
    if k < early.len() {
        assert(early.take(k + 1).drop_last() =~= early.take(k));
        assert(early.take(k + 1).last() == early[k]);
        let next_missing = match first_index(ps, pred_named(early[k])) {
            Some(_) => missing,
            None => missing + 1,
        };
        lemma_early_positions(ps, early, k + 1, next_missing);
    }
}

/// The early loaders' positions pass the check exactly where every early
/// loader in the load order is at the number of early loaders listed before
/// it that are in the load order (those that are absent are skipped); where
/// the check fails, it names such a misplaced early loader, its position
/// and that number.
pub proof fn law_early_loader_positions(ps: Seq<PluginView>, early: Seq<Seq<char>>)
    ensures
        spec_early_positions_verdict(ps, early, 0, 0) is Valid <==> early_loaders_in_place(ps, early, 0),
        spec_early_positions_verdict(ps, early, 0, 0) matches Verdict::EarlyPosition { name, pos, expected }
            ==> exists|j: int| 0 <= j < early.len() && name == early[j]
                && first_index(ps, pred_named(early[j])) == Some(pos) && expected == count_present(ps, early.take(j))
                && pos != expected,
{
    assert(early.take(0) =~= Seq::<Seq<char>>::empty());
    lemma_early_positions(ps, early, 0, 0);
}

pub fn validate_early_loader_positions(plugins: &Vec<Plugin>, early_loading_plugins: &Vec<String>) -> (res: Result<(), Error>)
    ensures
        result_reports(res, spec_early_positions_verdict(
            plugins_view(plugins@),
            strings_view(early_loading_plugins@),
            0,
            0,
        )),
{
    let ghost ps = plugins_view(plugins@);
    let ghost es = strings_view(early_loading_plugins@);
    let ghost target = spec_early_positions_verdict(ps, es, 0, 0);
    let mut missing: usize = 0;
    let mut k: usize = 0;
    while k < early_loading_plugins.len()
        invariant
            k <= early_loading_plugins.len(),
            missing <= k,
            spec_early_positions_verdict(ps, es, k as int, missing as int) == target,
        decreases early_loading_plugins.len() - k,
    {
        let name = early_loading_plugins[k].as_str();
        assert(es[k as int] == name@);
        let mut pos: usize = 0;
        let mut found = false;
        while pos < plugins.len() && !found
            invariant
                pos <= plugins.len(),
                found ==> pos < plugins.len() && is_first_at(ps, name@, pos as int),
                !found ==> forall|j: int| 0 <= j < pos ==> !(#[trigger] pred_named(name@)(ps[j])),
            decreases (if found { 0 } else { plugins.len() - pos + 1 }),
        {
            proof { assert(ps[pos as int] == plugins@[pos as int]@); }
            if eq_icase(plugins[pos].name(), name) {
                found = true;
            } else {
                pos = pos + 1;
            }
        }
        if found {
            proof { lemma_first_index_is(ps, pred_named(name@), pos as int); }
            let expected = k - missing;
            if pos != expected {
                return Err(Error::InvalidEarlyLoadingPluginPosition {
                    name: owned(name),
                    pos,
                    expected_pos: expected,
                });
            }
        } else {
            proof { lemma_first_index_none(ps, pred_named(name@)); }
            missing = missing + 1;
        }
        k = k + 1;
    }
    Ok(())
}

spec fn is_first_at(ps: Seq<PluginView>, name: Seq<char>, pos: int) -> bool {
    crate::seqs::is_first(ps, pred_named(name), pos)
}

/// A set of names compared by `unicase::eq` (as a `HashSet` of `UniCase`
/// values is), with `name` added unless an equal name is present.
pub open spec fn set_insert(s: Seq<Seq<char>>, name: Seq<char>) -> Seq<Seq<char>> {
    if exists|i: int| 0 <= i < s.len() && unicase_eq(name, #[trigger] s[i]) {
        s
    } else {
        s.push(name)
    }
}

pub open spec fn pred_not_listed(masters: Seq<Seq<char>>) -> spec_fn(Seq<char>) -> bool {
    |y: Seq<char>| !(exists|i: int| 0 <= i < masters.len() && unicase_eq(#[trigger] masters[i], y))
}

/// The set without the names equal to any of the masters.
pub open spec fn set_remove_all(s: Seq<Seq<char>>, masters: Seq<Seq<char>>) -> Seq<Seq<char>> {
    s.filter(pred_not_listed(masters))
}

/// Walks the plugins from `j` to `end`, collecting non-masters and letting
/// each master remove its own masters: a master after which a collected
/// non-master remains loads after a non-master that it does not hoist.
pub open spec fn spec_unhoisted_verdict(
    ps: Seq<PluginView>,
    j: int,
    end: int,
    s: Seq<Seq<char>>,
) -> Verdict
    decreases end + 1 - j,
{
    if j < 0 || j > end || j >= ps.len() {
        Verdict::Valid
    } else if !ps[j].is_master {
        spec_unhoisted_verdict(ps, j + 1, end, set_insert(s, ps[j].name))
    } else {
        let s2 = set_remove_all(s, ps[j].masters);
        if s2.len() > 0 {
            Verdict::NonMasterBeforeMaster { master: ps[j].name, non_master: s2[0] }
        } else {
            spec_unhoisted_verdict(ps, j + 1, end, s2)
        }
    }
}

pub open spec fn pred_non_blueprint_master() -> spec_fn(PluginView) -> bool {
    |p: PluginView| p.is_master && !spec_is_blueprint_master(p)
}

pub open spec fn pred_not_master() -> spec_fn(PluginView) -> bool {
    |p: PluginView| !p.is_master
}

/// No non-master loads before a (non-blueprint) master unless a master
/// hoists it there.
pub open spec fn spec_no_unhoisted_verdict(ps: Seq<PluginView>) -> Verdict {
    let fnm = match first_index(ps, pred_not_master()) {
        Some(i) => i,
        None => ps.len() as int,
    };
    match last_index(ps, pred_non_blueprint_master()) {
        None => Verdict::Valid,
        Some(lm) => if fnm < lm {
            spec_unhoisted_verdict(ps, fnm, lm, Seq::empty())
        } else {
            Verdict::Valid
        },
    }
}

fn set_insert_exec(s: &mut Vec<String>, name: &str)
    ensures
        strings_view(final(s)@) == set_insert(strings_view(old(s)@), name@),
{
    let ghost sv = strings_view(s@);
    let mut i: usize = 0;
    while i < s.len()
        invariant
            i <= s.len(),
            sv == strings_view(s@),
            forall|j: int| 0 <= j < i ==> !unicase_eq(name@, #[trigger] sv[j]),
        decreases s.len() - i,
    {
        if eq_icase(name, s[i].as_str()) {
            assert(unicase_eq(name@, sv[i as int]));
            return;
        }
        i = i + 1;
    }
    s.push(owned(name));
    assert(strings_view(s@) =~= sv.push(name@));
}

fn set_remove_all_exec(s: &Vec<String>, masters: &Vec<String>) -> (res: Vec<String>)
    ensures
        strings_view(res@) == set_remove_all(strings_view(s@), strings_view(masters@)),
{
    let ghost sv = strings_view(s@);
    let ghost ms = strings_view(masters@);
    let mut res: Vec<String> = Vec::new();
    let mut i: usize = 0;
    while i < s.len()
        invariant
            i <= s.len(),
            sv == strings_view(s@),
            ms == strings_view(masters@),
            strings_view(res@) == sv.take(i as int).filter(pred_not_listed(ms)),
        decreases s.len() - i,
    {
        proof {
            reveal_with_fuel(Seq::<_>::filter, 1);
            assert(sv.take(i + 1).drop_last() =~= sv.take(i as int));
            assert(sv.take(i + 1).last() == sv[i as int]);
        }
        let listed = any_name_matches(masters, s[i].as_str());
        assert(listed == !pred_not_listed(ms)(sv[i as int]));
        if !listed {
            res.push(s[i].clone());
            proof {
                assert(strings_view(res@) =~= sv.take(i as int).filter(pred_not_listed(ms)).push(
                    sv[i as int],
                ));
            }
        }
        i = i + 1;
    }
    assert(sv.take(s.len() as int) =~= sv);
    res
}

pub fn validate_no_unhoisted_non_masters_before_masters(plugins: &Vec<Plugin>) -> (res: Result<(), Error>)
    ensures
        result_reports(res, spec_no_unhoisted_verdict(plugins_view(plugins@))),
{
    let ghost ps = plugins_view(plugins@);
    let len = plugins.len();
    let first_non_master_pos = match find_first_non_master_position(plugins) {
        None => len,
        Some(x) => x,
    };
    assert(first_index(ps, pred_not_master()) =~= first_index(ps, crate::load_order::mutable::pred_non_master()));

    // The last master that is not a blueprint master.
    let mut last_master_pos: usize = 0;
    let mut found = false;
    let mut k: usize = len;
    while k > 0 && !found
        invariant
            k <= len,
            len == plugins.len(),
            !found ==> forall|j: int| k <= j < len ==> !(#[trigger] pred_non_blueprint_master()(ps[j])),
            found ==> last_master_pos < len && last_index(ps, pred_non_blueprint_master()) == Some(last_master_pos as int),
        decreases (if found { 0 } else { k + 1 }),
    {
        proof { assert(ps[k - 1] == plugins@[k - 1]@); }
        if plugins[k - 1].is_master_file() && !plugins[k - 1].is_blueprint_master() {
            last_master_pos = k - 1;
            found = true;
            proof { lemma_last_index_is(ps, pred_non_blueprint_master(), k - 1); }
        } else {
            k = k - 1;
        }
    }
    if !found {
        proof { lemma_last_index_none(ps, pred_non_blueprint_master()); }
        return Ok(());
    }
    if first_non_master_pos < last_master_pos {
        let ghost target = spec_unhoisted_verdict(ps, first_non_master_pos as int, last_master_pos as int, Seq::empty());
        let mut set: Vec<String> = Vec::new();
        assert(strings_view(set@) =~= Seq::<Seq<char>>::empty());
        let mut j = first_non_master_pos;
        while j <= last_master_pos
            invariant
                first_non_master_pos <= j <= last_master_pos + 1,
                last_master_pos < len,
                len == plugins.len(),
                spec_unhoisted_verdict(ps, j as int, last_master_pos as int, strings_view(set@)) == target,
            decreases last_master_pos + 1 - j,
        {
            let plugin = &plugins[j];
            assert(ps[j as int] == plugin@);
            if !plugin.is_master_file() {
                set_insert_exec(&mut set, plugin.name());
            } else {
                set = set_remove_all_exec(&set, plugin.masters());
                if set.len() > 0 {
                    assert(strings_view(set@)[0] == set@[0]@);
                    return Err(Error::NonMasterBeforeMaster {
                        master: owned(plugin.name()),
                        non_master: set[0].clone(),
                    });
                }
            }
            j = j + 1;
        }
    }
    Ok(())
}

pub open spec fn pred_key_equals(m: Seq<char>) -> spec_fn(PluginView) -> bool {
    |q: PluginView| unicase_eq(m, q.name)
}

/// The master name has a plugin after position `i`.
pub open spec fn pred_found_after(ps: Seq<PluginView>, i: int) -> spec_fn(Seq<char>) -> bool {
    |m: Seq<char>| first_index(ps.skip(i + 1), pred_key_equals(m)) is Some
}

/// The first plugin after position `i` that is named by the first of the
/// `i`th plugin's masters to name any plugin after it (as a name map that
/// is filled from the end of the load order finds it).
pub open spec fn spec_later_master(ps: Seq<PluginView>, i: int) -> Option<int> {
    match first_index(ps[i].masters, pred_found_after(ps, i)) {
        Some(mi) => Some(i + 1 + first_index(ps.skip(i + 1), pred_key_equals(ps[i].masters[mi]))->0),
        None => None,
    }
}

/// The `i`th plugin is a master that loads before a plugin that it found as
/// its master, which is not a blueprint master where it is not one itself.
pub open spec fn spec_loads_before_master(ps: Seq<PluginView>, i: int) -> bool {
    &&& ps[i].is_master
    &&& spec_later_master(ps, i) matches Some(j)
    &&& (spec_is_blueprint_master(ps[i]) || !spec_is_blueprint_master(ps[j]))
}

pub open spec fn pred_loads_before_master(ps: Seq<PluginView>) -> spec_fn(int) -> bool {
    |i: int| spec_loads_before_master(ps, i)
}

/// No master loads before one of its masters (the check starts from the end
/// of the load order, so reports the last such master).
pub open spec fn spec_masters_first_verdict(ps: Seq<PluginView>) -> Verdict {
    let idx = Seq::new(ps.len(), |i: int| i);
    match last_index(idx, pred_loads_before_master(ps)) {
        Some(k) => Verdict::Hoist {
            plugin: ps[spec_later_master(ps, k)->0].name,
            master: ps[k].name,
        },
        None => Verdict::Valid,
    }
}

pub fn validate_plugins_load_before_their_masters(plugins: &Vec<Plugin>) -> (res: Result<(), Error>)
    ensures
        result_reports(res, spec_masters_first_verdict(plugins_view(plugins@))),
{
    let ghost ps = plugins_view(plugins@);
    let ghost idx = Seq::new(ps.len(), |i: int| i);
    let len = plugins.len();
    let mut k: usize = len;
    while k > 0
        invariant
            k <= len,
            len == plugins.len(),
            idx.len() == len,
            forall|j: int| k <= j < len ==> !(#[trigger] pred_loads_before_master(ps)(idx[j])),
        decreases k,
    {
        let i = k - 1;
        let plugin = &plugins[i];
        assert(ps[i as int] == plugin@);
        assert(idx[i as int] == i);
        if plugin.is_master_file() {
            let masters = plugin.masters();
            let ghost ms = strings_view(masters@);
            let ghost post = ps.skip(i + 1);
            let mut mi: usize = 0;
            let mut hit: Option<usize> = None;
            while mi < masters.len() && hit.is_none()
                invariant
                    mi <= masters.len(),
                    ms == ps[i as int].masters,
                    ms == strings_view(masters@),
                    post == ps.skip(i + 1),
                    hit is None ==> forall|t: int| 0 <= t < mi ==> !(#[trigger] pred_found_after(ps, i as int)(ms[t])),
                    hit matches Some(j) ==> i < j < len && spec_later_master(ps, i as int) == Some(j as int),
                decreases (if hit is None { masters.len() - mi + 1 } else { 0 }),
            {
                let m = masters[mi].as_str();
                assert(ms[mi as int] == m@);
                let mut j: usize = i + 1;
                let mut found = false;
                while j < len && !found
                    invariant
                        i + 1 <= j <= len,
                        found ==> j < len && crate::seqs::is_first(post, pred_key_equals(m@), j - i - 1),
                        !found ==> forall|t: int| 0 <= t < j - i - 1 ==> !(#[trigger] pred_key_equals(m@)(post[t])),
                    decreases (if found { 0 } else { len - j + 1 }),
                {
                    assert(post[j - i - 1] == plugins@[j as int]@);
                    if eq_icase(m, plugins[j].name()) {
                        found = true;
                    } else {
                        j = j + 1;
                    }
                }
                if found {
                    proof {
                        lemma_first_index_is(post, pred_key_equals(m@), j - i - 1);
                        lemma_first_index_is(ms, pred_found_after(ps, i as int), mi as int);
                    }
                    hit = Some(j);
                } else {
                    proof { lemma_first_index_none(post, pred_key_equals(m@)); }
                    mi = mi + 1;
                }
            }
            if hit.is_none() {
                proof { lemma_first_index_none(ms, pred_found_after(ps, i as int)); }
            }
            if let Some(j) = hit {
                assert(ps[j as int] == plugins@[j as int]@);
                if plugin.is_blueprint_master() || !plugins[j].is_blueprint_master() {
                    proof { lemma_last_index_is(idx, pred_loads_before_master(ps), i as int); }
                    return Err(Error::UnrepresentedHoist {
                        plugin: owned(plugins[j].name()),
                        master: owned(plugin.name()),
                    });
                }
            }
        }
        k = k - 1;
    }
    proof { lemma_last_index_none(idx, pred_loads_before_master(ps)); }
    Ok(())
}

/// The load order obeys the early loaders' positions, has no non-master
/// before a master that does not hoist it, and has no master before one
/// of its masters.
pub open spec fn spec_load_order_verdict(ps: Seq<PluginView>, early: Seq<Seq<char>>) -> Verdict {
    if !(spec_early_positions_verdict(ps, early, 0, 0) is Valid) {
        spec_early_positions_verdict(ps, early, 0, 0)
    } else if !(spec_no_unhoisted_verdict(ps) is Valid) {
        spec_no_unhoisted_verdict(ps)
    } else {
        spec_masters_first_verdict(ps)
    }
}

pub fn validate_load_order(plugins: &Vec<Plugin>, early_loading_plugins: &Vec<String>) -> (res: Result<(), Error>)
    ensures
        result_reports(res, spec_load_order_verdict(plugins_view(plugins@), strings_view(early_loading_plugins@))),
{
    validate_early_loader_positions(plugins, early_loading_plugins)?;
    validate_no_unhoisted_non_masters_before_masters(plugins)?;
    validate_plugins_load_before_their_masters(plugins)
}

} // verus!
