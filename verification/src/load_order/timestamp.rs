//! Timestamp-based load orders: plugins load in the order of their files'
//! modification times, masters first.
use vstd::prelude::*;

use super::load::key_in;
use super::readable::spec_active_plugin_names;
use super::{plugins_view, plugins_wf, LoadOrder, LoadOrderView};
use crate::encoding::{strict_encode, windows_1252_encoded};
use crate::enums::{Error, GameId};
use crate::ini::{spec_values_of, IniDoc};
use crate::message::{decimal, decimal_string};
use crate::paths::{file_name, std_path_file_name};
use crate::plugin::{time_in_range, trim_dot_ghost, Plugin, PluginView};
use crate::seqs::{first_index, lemma_first_index_is, lemma_first_index_none};
use crate::text::{owned, str_less, str_lt, strings_view};

verus! {

/// `a` loads before `b` by timestamp: masters first, then earlier
/// modification times, then names in descending order.
pub open spec fn plugin_before(a: PluginView, b: PluginView) -> bool {
    if a.is_master == b.is_master {
        if a.modification_time != b.modification_time {
            a.modification_time < b.modification_time
        } else {
            str_lt(b.name, a.name)
        }
    } else {
        a.is_master
    }
}

/// Whether `a` loads before `b` by timestamp (`Ordering::Less`).
pub fn plugin_sorter(a: &Plugin, b: &Plugin) -> (res: bool)
    ensures
        res == plugin_before(a@, b@),
{
    if a.is_master_file() == b.is_master_file() {
        if a.modification_time() != b.modification_time() {
            a.modification_time() < b.modification_time()
        } else {
            str_less(b.name(), a.name())
        }
    } else {
        a.is_master_file()
    }
}

pub open spec fn pred_after(x: PluginView) -> spec_fn(PluginView) -> bool {
    |y: PluginView| plugin_before(x, y)
}

/// The sorted plugins with `x` inserted before the first one that it loads
/// before, and so after those that it ties with.
pub open spec fn spec_insert_sorted(sorted: Seq<PluginView>, x: PluginView) -> Seq<PluginView> {
    match first_index(sorted, pred_after(x)) {
        Some(j) => sorted.insert(j, x),
        None => sorted.push(x),
    }
}

/// The plugins stably sorted by timestamp order: plugins that tie keep
/// their order.
pub open spec fn spec_sort_plugins(ps: Seq<PluginView>) -> Seq<PluginView>
    decreases ps.len(),
{
    if ps.len() == 0 {
        Seq::empty()
    } else {
        spec_insert_sorted(spec_sort_plugins(ps.drop_last()), ps.last())
    }
}

/// Sorts the plugins stably by timestamp order.
pub fn sort_plugins(plugins: Vec<Plugin>) -> (res: Vec<Plugin>)
    requires
        plugins_wf(plugins@),
    ensures
        plugins_view(res@) == spec_sort_plugins(plugins_view(plugins@)),
        plugins_wf(res@),
{
    let ghost ps = plugins_view(plugins@);
    let mut rest = plugins;
    let mut sorted: Vec<Plugin> = Vec::new();
    let n = rest.len();
    let mut i: usize = 0;
    assert(ps.take(0) =~= Seq::<PluginView>::empty());
    assert(plugins_view(sorted@) =~= Seq::<PluginView>::empty());
    while rest.len() > 0
        invariant
            i + rest.len() == n,
            n == ps.len(),
            forall|j: int| 0 <= j < rest.len() ==> #[trigger] rest@[j]@ == ps[i + j] && rest@[j].wf(),
            plugins_wf(sorted@),
            plugins_view(sorted@) == spec_sort_plugins(ps.take(i as int)),
        decreases rest.len(),
    {
        let ghost before_rest = rest@;
        let x = rest.remove(0);
        proof {
            assert forall|j: int| 0 <= j < rest.len() implies #[trigger] rest@[j]@ == ps[i + 1 + j] && rest@[j].wf() by {
                assert(rest@[j] == before_rest[j + 1]);
                assert(before_rest[j + 1]@ == ps[i + (j + 1)]);
            }
            assert(ps.take(i + 1).drop_last() =~= ps.take(i as int));
            assert(ps.take(i + 1).last() == x@);
        }
        let ghost sv = plugins_view(sorted@);
        let mut j: usize = 0;
        while j < sorted.len() && !plugin_sorter(&x, &sorted[j])
            invariant
                j <= sorted.len(),
                sv == plugins_view(sorted@),
                forall|t: int| 0 <= t < j ==> !(#[trigger] pred_after(x@)(sv[t])),
            decreases sorted.len() - j,
        {
            assert(sv[j as int] == sorted@[j as int]@);
            j = j + 1;
        }
        proof {
            if j < sorted.len() {
                assert(sv[j as int] == sorted@[j as int]@);
                lemma_first_index_is(sv, pred_after(x@), j as int);
            } else {
                lemma_first_index_none(sv, pred_after(x@));
            }
        }
        let ghost old_sorted = sorted@;
        let ghost xv = x@;
        sorted.insert(j, x);
        proof {
            assert(plugins_view(sorted@) =~= sv.insert(j as int, xv));
            if j == old_sorted.len() {
                assert(sv.insert(j as int, xv) =~= sv.push(xv));
            }
            assert forall|t: int| 0 <= t < sorted@.len() implies (#[trigger] sorted@[t]).wf() by {
                if t < j {
                    assert(sorted@[t] == old_sorted[t]);
                } else if t > j {
                    assert(sorted@[t] == old_sorted[t - 1]);
                }
            }
        }
        i = i + 1;
    }
    assert(ps.take(n as int) =~= ps);
    sorted
}

/// One minute, in nanoseconds.
pub open spec fn minute() -> int {
    60_000_000_000
}

/// The sorted, distinct timestamps with `t` added.
pub open spec fn spec_insert_unique(sorted: Seq<int>, t: int) -> Seq<int> {
    if sorted.contains(t) {
        sorted
    } else {
        match first_index(sorted, |y: int| t < y) {
            Some(j) => sorted.insert(j, t),
            None => sorted.push(t),
        }
    }
}

/// The distinct timestamps in ascending order.
pub open spec fn spec_unique_timestamps(ts: Seq<int>) -> Seq<int>
    decreases ts.len(),
{
    if ts.len() == 0 {
        Seq::empty()
    } else {
        spec_insert_unique(spec_unique_timestamps(ts.drop_last()), ts.last())
    }
}

/// The timestamps, padded at one-minute intervals after the last (or after
/// the Unix epoch) until there are `n`.
pub open spec fn spec_pad(ts: Seq<int>, n: int) -> Seq<int>
    decreases n - ts.len(),
{
    if ts.len() >= n {
        ts
    } else {
        let last = if ts.len() > 0 { ts.last() } else { 0 };
        spec_pad(ts.push(last + minute()), n)
    }
}

/// The modification times of the plugins.
pub open spec fn times_of(ps: Seq<PluginView>) -> Seq<int> {
    ps.map_values(|p: PluginView| p.modification_time)
}

/// The timestamps that saving a timestamp-based load order gives the
/// plugins, in load order: the distinct timestamps in ascending order,
/// padded to one for each plugin.
pub open spec fn spec_padded_unique_timestamps(ps: Seq<PluginView>) -> Seq<int> {
    spec_pad(spec_unique_timestamps(times_of(ps)), ps.len() as int)
}

/// The timestamps leave room for padding one per plugin: the padded
/// timestamps stay within the range of modification times.
pub open spec fn times_leave_room(ps: Seq<PluginView>) -> bool {
    &&& forall|i: int| 0 <= i < ps.len() ==> -0x8000_0000_0000_0000_0000_0000 < #[trigger] ps[i].modification_time < 0x8000_0000_0000_0000_0000_0000
    &&& ps.len() * 60_000_000_000 <= 0x8000_0000_0000_0000_0000_0000
}

proof fn lemma_unique_within(ts: Seq<int>, lo: int, hi: int)
    requires
        forall|i: int| 0 <= i < ts.len() ==> lo < #[trigger] ts[i] < hi,
    ensures
        forall|i: int| 0 <= i < spec_unique_timestamps(ts).len() ==> lo < #[trigger] spec_unique_timestamps(ts)[i] < hi,
        spec_unique_timestamps(ts).len() <= ts.len(),
    decreases ts.len(),
{
    if ts.len() > 0 {
        lemma_unique_within(ts.drop_last(), lo, hi);
        let u = spec_unique_timestamps(ts.drop_last());
        let t = ts.last();
        if !u.contains(t) {
            match first_index(u, |y: int| t < y) {
                Some(j) => {
                    assert forall|i: int| 0 <= i < u.insert(j, t).len() implies lo < #[trigger] u.insert(j, t)[i] < hi by {
                        if i < j { assert(u.insert(j, t)[i] == u[i]); } else if i > j { assert(u.insert(j, t)[i] == u[i - 1]); }
                    }
                },
                None => {
                    assert forall|i: int| 0 <= i < u.push(t).len() implies lo < #[trigger] u.push(t)[i] < hi by {
                        if i < u.len() { assert(u.push(t)[i] == u[i]); }
                    }
                },
            }
        }
    }
}

fn unique_timestamps(plugins: &Vec<Plugin>) -> (res: Vec<i128>)
    ensures
        res@.map_values(|t: i128| t as int) == spec_unique_timestamps(times_of(plugins_view(plugins@))),
{
    let ghost ps = plugins_view(plugins@);
    let ghost ts = times_of(ps);
    let mut sorted: Vec<i128> = Vec::new();
    let mut i: usize = 0;
    assert(ts.take(0) =~= Seq::<int>::empty());
    assert(sorted@.map_values(|t: i128| t as int) =~= Seq::<int>::empty());
    while i < plugins.len()
        invariant
            i <= plugins.len(),
            ps == plugins_view(plugins@),
            ts == times_of(ps),
            sorted@.map_values(|t: i128| t as int) == spec_unique_timestamps(ts.take(i as int)),
        decreases plugins.len() - i,
    {
        let t = plugins[i].modification_time();
        let ghost sv = sorted@.map_values(|t: i128| t as int);
        assert(ps[i as int] == plugins@[i as int]@);
        assert(ts.take(i + 1).drop_last() =~= ts.take(i as int));
        assert(ts.take(i + 1).last() == t as int);
        let mut j: usize = 0;
        let mut present = false;
        while j < sorted.len()
            invariant
                j <= sorted.len(),
                sv == sorted@.map_values(|t: i128| t as int),
                present == exists|k: int| 0 <= k < j && sv[k] == t as int,
            decreases sorted.len() - j,
        {
            assert(sv[j as int] == sorted@[j as int] as int);
            if sorted[j] == t {
                present = true;
            }
            j = j + 1;
        }
        if !present {
            let mut k: usize = 0;
            while k < sorted.len() && !(t < sorted[k])
                invariant
                    k <= sorted.len(),
                    sv == sorted@.map_values(|t: i128| t as int),
                    forall|q: int| 0 <= q < k ==> !((t as int) < #[trigger] sv[q]),
                decreases sorted.len() - k,
            {
                k = k + 1;
            }
            proof {
                let pred = |y: int| (t as int) < y;
                if k < sorted.len() {
                    lemma_first_index_is(sv, pred, k as int);
                } else {
                    lemma_first_index_none(sv, pred);
                }
                assert(!sv.contains(t as int));
            }
            let ghost old_sorted = sorted@;
            sorted.insert(k, t);
            proof {
                assert(sorted@.map_values(|t: i128| t as int) =~= sv.insert(k as int, t as int));
                if k == old_sorted.len() {
                    assert(sv.insert(k as int, t as int) =~= sv.push(t as int));
                }
            }
        } else {
            proof {
                let k = choose|k: int| 0 <= k < j && sv[k] == t as int;
                assert(sv.contains(t as int));
            }
        }
        i = i + 1;
    }
    assert(ts.take(plugins.len() as int) =~= ts);
    sorted
}

/// The distinct timestamps of the plugins in ascending order, padded at
/// one-minute intervals to one for each plugin.
pub fn padded_unique_timestamps(plugins: &Vec<Plugin>) -> (res: Vec<i128>)
    requires
        times_leave_room(plugins_view(plugins@)),
    ensures
        res@.map_values(|t: i128| t as int) == spec_padded_unique_timestamps(plugins_view(plugins@)),
        forall|k: int| 0 <= k < res@.len() ==> time_in_range(#[trigger] res@[k] as int),
{
    let ghost ps = plugins_view(plugins@);
    let mut sorted = unique_timestamps(plugins);
    let ghost u = sorted@.map_values(|t: i128| t as int);
    proof {
        let ts = times_of(ps);
        assert forall|q: int| 0 <= q < ts.len() implies -0x8000_0000_0000_0000_0000_0000int < #[trigger] ts[q] < 0x8000_0000_0000_0000_0000_0000int by {
            assert(ts[q] == ps[q].modification_time);
        }
        lemma_unique_within(ts, -0x8000_0000_0000_0000_0000_0000int, 0x8000_0000_0000_0000_0000_0000int);
        assert forall|q: int| 0 <= q < sorted@.len() implies -0x8000_0000_0000_0000_0000_0000int < (#[trigger] sorted@[q] as int)
            && (sorted@[q] as int) < 0x8000_0000_0000_0000_0000_0000int + (q + 1) * 60_000_000_000 by {
            assert(u[q] == sorted@[q] as int);
        }
    }
    let n = plugins.len();
    while sorted.len() < n
        invariant
            n == ps.len(),
            sorted@.len() <= n,
            n * 60_000_000_000 <= 0x8000_0000_0000_0000_0000_0000int,
            forall|q: int| 0 <= q < sorted@.len() ==> -0x8000_0000_0000_0000_0000_0000int < (#[trigger] sorted@[q] as int)
                && (sorted@[q] as int) < 0x8000_0000_0000_0000_0000_0000int + (q + 1) * 60_000_000_000,
            spec_pad(sorted@.map_values(|t: i128| t as int), n as int) == spec_pad(u, n as int),
        decreases n - sorted.len(),
    {
        let ghost sv = sorted@.map_values(|t: i128| t as int);
        let last: i128 = if sorted.len() > 0 { sorted[sorted.len() - 1] } else { 0 };
        assert(sorted.len() < n);
        let next = last + 60_000_000_000;
        let ghost old_sorted = sorted@;
        sorted.push(next);
        proof {
            assert(sorted@.map_values(|t: i128| t as int) =~= sv.push((if sv.len() > 0 { sv.last() } else { 0 }) + minute()));
            assert forall|q: int| 0 <= q < sorted@.len() implies -0x8000_0000_0000_0000_0000_0000int < (#[trigger] sorted@[q] as int)
                && (sorted@[q] as int) < 0x8000_0000_0000_0000_0000_0000int + (q + 1) * 60_000_000_000 by {
                if q < old_sorted.len() {
                    assert(sorted@[q] == old_sorted[q]);
                }
            }
        }
    }
    proof {
        assert forall|k: int| 0 <= k < sorted@.len() implies time_in_range(#[trigger] sorted@[k] as int) by {
            assert((k + 1) * 60_000_000_000 <= n * 60_000_000_000) by (nonlinear_arith)
                requires k + 1 <= sorted@.len(), sorted@.len() <= n;
        }
    }
    sorted
}

/// The plugins with the `k`th given the `k`th timestamp.
pub open spec fn with_times(ps: Seq<PluginView>, ts: Seq<int>) -> Seq<PluginView> {
    Seq::new(ps.len(), |k: int| PluginView { modification_time: ts[k], ..ps[k] })
}

impl LoadOrder {
    /// Sorts the plugins stably by timestamp order (see `plugin_before`).
    pub fn sort_by_timestamps(&mut self)
        requires
            old(self).wf(),
        ensures
            final(self).wf(),
            final(self)@ == (LoadOrderView { plugins: spec_sort_plugins(old(self)@.plugins), ..old(self)@ }),
    {
        let mut plugins: Vec<Plugin> = Vec::new();
        std::mem::swap(&mut plugins, &mut self.plugins);
        self.plugins = sort_plugins(plugins);
    }

    /// Replaces the plugins by those given, stably sorted by timestamp
    /// order, as loading a timestamp-based load order does with the
    /// installed plugins.
    pub fn load_plugins_by_timestamp(&mut self, plugins: Vec<Plugin>)
        requires
            plugins_wf(plugins@),
        ensures
            final(self).wf(),
            final(self)@ == (LoadOrderView { plugins: spec_sort_plugins(plugins_view(plugins@)), ..old(self)@ }),
    {
        self.plugins = sort_plugins(plugins);
    }

    /// Saves the load order as the plugins' timestamps: each plugin in turn
    /// takes the next of the padded distinct timestamps, so that they load
    /// in their current order. The new times are written to the files by
    /// the caller.
    pub fn save_load_order_using_timestamps(&mut self)
        requires
            old(self).wf(),
            times_leave_room(old(self)@.plugins),
        ensures
            final(self).wf(),
            final(self)@ == (LoadOrderView {
                plugins: with_times(old(self)@.plugins, spec_padded_unique_timestamps(old(self)@.plugins)),
                ..old(self)@
            }),
    {
        let ghost ps = self@.plugins;
        let timestamps = padded_unique_timestamps(&self.plugins);
        let ghost tv = timestamps@.map_values(|t: i128| t as int);
        proof {
            assert(spec_pad(spec_unique_timestamps(times_of(ps)), ps.len() as int).len() >= ps.len()) by {
                lemma_pad_len(spec_unique_timestamps(times_of(ps)), ps.len() as int);
            }
        }
        let mut k: usize = 0;
        while k < self.plugins.len()
            invariant
                k <= self.plugins.len(),
                self@.settings == old(self)@.settings,
                self.plugins@.len() == ps.len(),
                timestamps@.len() >= ps.len(),
                tv == timestamps@.map_values(|t: i128| t as int),
                forall|q: int| 0 <= q < timestamps@.len() ==> time_in_range(#[trigger] timestamps@[q] as int),
                plugins_wf(self.plugins@),
                forall|q: int| 0 <= q < k ==> #[trigger] self.plugins@[q]@ == (PluginView { modification_time: tv[q], ..ps[q] }),
                forall|q: int| k <= q < ps.len() ==> #[trigger] self.plugins@[q]@ == ps[q],
            decreases self.plugins.len() - k,
        {
            let ghost before = self.plugins@;
            let t = timestamps[k];
            assert(time_in_range(timestamps@[k as int] as int));
            self.plugins[k].set_modification_time(t);
            proof {
                assert forall|q: int| 0 <= q < self.plugins@.len() implies (#[trigger] self.plugins@[q]).wf() by {
                    if q != k {
                        assert(self.plugins@[q] == before[q]);
                    }
                }
                assert forall|q: int| 0 <= q < k + 1 implies #[trigger] self.plugins@[q]@ == (PluginView { modification_time: tv[q], ..ps[q] }) by {
                    if q < k {
                        assert(self.plugins@[q] == before[q]);
                    }
                }
                assert forall|q: int| k + 1 <= q < ps.len() implies #[trigger] self.plugins@[q]@ == ps[q] by {
                    assert(self.plugins@[q] == before[q]);
                }
            }
            k = k + 1;
        }
        assert(self@.plugins =~= with_times(ps, tv));
        assert(tv == spec_padded_unique_timestamps(ps));
        assert(self@.settings == old(self)@.settings);
        assert(ps == old(self)@.plugins);
    }
}

proof fn lemma_pad_len(ts: Seq<int>, n: int)
    ensures
        spec_pad(ts, n).len() >= n,
        ts.len() <= n ==> spec_pad(ts, n).len() == n,
    decreases n - ts.len(),
{
    if ts.len() < n {
        let last = if ts.len() > 0 { ts.last() } else { 0 };
        lemma_pad_len(ts.push(last + minute()), n);
    }
}

/// The file names of the paths, without those whose names (without a ghost
/// extension, ignoring case) came before: the first of each wins.
pub open spec fn spec_unique_filenames(paths: Seq<Seq<char>>, game: GameId) -> Seq<Seq<char>>
    decreases paths.len(),
{
    if paths.len() == 0 {
        Seq::empty()
    } else {
        let kept = spec_unique_filenames(paths.drop_last(), game);
        match std_path_file_name(paths.last()) {
            Some(f) => if key_in(kept.map_values(|n: Seq<char>| super::load::dedup_key(n, game)), f, game) {
                kept
            } else {
                kept.push(f)
            },
            None => kept,
        }
    }
}

/// The file names of the installed plugins' paths, the first of each.
pub fn get_unique_filenames(file_paths: &Vec<String>, game_id: GameId) -> (res: Vec<String>)
    ensures
        strings_view(res@) == spec_unique_filenames(strings_view(file_paths@), game_id),
{
    let ghost fs = strings_view(file_paths@);
    let mut res: Vec<String> = Vec::new();
    let mut keys: Vec<String> = Vec::new();
    let mut i: usize = 0;
    assert(fs.take(0) =~= Seq::<Seq<char>>::empty());
    assert(strings_view(res@) =~= Seq::<Seq<char>>::empty());
    assert(strings_view(keys@) =~= Seq::<Seq<char>>::empty());
    while i < file_paths.len()
        invariant
            i <= file_paths.len(),
            fs == strings_view(file_paths@),
            strings_view(res@) == spec_unique_filenames(fs.take(i as int), game_id),
            strings_view(keys@) == strings_view(res@).map_values(|n: Seq<char>| super::load::dedup_key(n, game_id)),
        decreases file_paths.len() - i,
    {
        assert(fs.take(i + 1).drop_last() =~= fs.take(i as int));
        assert(fs.take(i + 1).last() == file_paths@[i as int]@);
        match file_name(file_paths[i].as_str()) {
            Some(f) => {
                let key = owned(trim_dot_ghost(f.as_str(), game_id));
                if !crate::game_settings::any_name_matches(&keys, key.as_str()) {
                    let ghost rb = strings_view(res@);
                    let ghost kb = strings_view(keys@);
                    let ghost fv = f@;
                    let ghost kv = key@;
                    res.push(f);
                    keys.push(key);
                    assert(strings_view(res@) =~= rb.push(fv));
                    assert(strings_view(keys@) =~= kb.push(kv));
                    assert(strings_view(res@).map_values(|n: Seq<char>| super::load::dedup_key(n, game_id))
                        =~= rb.map_values(|n: Seq<char>| super::load::dedup_key(n, game_id)).push(kv));
                }
            },
            None => {},
        }
        i = i + 1;
    }
    assert(fs.take(file_paths.len() as int) =~= fs);
    res
}

/// `[Game Files]`, the header of Morrowind.ini's list of active plugins.
pub open spec fn game_files_header() -> Seq<u8> {
    seq![91u8, 71u8, 97u8, 109u8, 101u8, 32u8, 70u8, 105u8, 108u8, 101u8, 115u8, 93u8]
}

/// The lines of bytes split at line feeds (a final empty line dropped).
pub open spec fn byte_lines_end(bytes: Seq<u8>) -> bool {
    bytes.len() > 0 && bytes.last() == 10u8
}

/// The part of Morrowind.ini up to and including its `[Game Files]` header
/// line, each line ending in a line feed (all of it where there is no such
/// line).
pub open spec fn spec_prelude(bytes: Seq<u8>) -> Seq<u8>
    decreases bytes.len(),
{
    if bytes.len() == 0 {
        Seq::empty()
    } else {
        match first_index(bytes, |b: u8| b == 10u8) {
            Some(i) => {
                let line = bytes.take(i);
                if line.len() >= 12 && line.take(12) == game_files_header() {
                    line.push(10u8)
                } else {
                    line.push(10u8) + spec_prelude(bytes.skip(i + 1))
                }
            },
            None => bytes.push(10u8),
        }
    }
}

fn starts_with_header(bytes: &Vec<u8>, from: usize, to: usize) -> (res: bool)
    requires
        from <= to <= bytes.len(),
    ensures
        res == (to - from >= 12 && bytes@.subrange(from as int, to as int).take(12) == game_files_header()),
{
    if to - from < 12 {
        return false;
    }
    let header: [u8; 12] = [91u8, 71u8, 97u8, 109u8, 101u8, 32u8, 70u8, 105u8, 108u8, 101u8, 115u8, 93u8];
    let mut k: usize = 0;
    while k < 12
        invariant
            k <= 12,
            to - from >= 12,
            from <= to <= bytes.len(),
            header@ == game_files_header(),
            forall|q: int| 0 <= q < k ==> bytes@[from + q] == game_files_header()[q],
        decreases 12 - k,
    {
        if bytes[from + k] != header[k] {
            assert(bytes@.subrange(from as int, to as int).take(12)[k as int] != game_files_header()[k as int]);
            return false;
        }
        k = k + 1;
    }
    assert(bytes@.subrange(from as int, to as int).take(12) =~= game_files_header());
    true
}

/// The part of Morrowind.ini that saving keeps: the lines up to and
/// including the `[Game Files]` header (`None` where the file does not
/// exist: then nothing is kept).
pub fn file_prelude(bytes: Option<&[u8]>) -> (res: Vec<u8>)
    ensures
        res@ == match bytes { Some(b) => spec_prelude(b@), None => Seq::empty() },
{
    let bytes = match bytes {
        None => return Vec::new(),
        Some(b) => crate::encoding::copy_bytes(b),
    };
    let n = bytes.len();
    let mut prelude: Vec<u8> = Vec::new();
    let mut start: usize = 0;
    let mut i: usize = 0;
    assert(bytes@.skip(0) =~= bytes@);
    while i < n
        invariant
            n == bytes.len(),
            start <= i <= n,
            forall|j: int| start <= j < i ==> bytes@[j] != 10u8,
            prelude@ + spec_prelude(bytes@.skip(start as int)) == spec_prelude(bytes@),
        decreases n - i,
    {
        if bytes[i] == 10u8 {
            let ghost rest = bytes@.skip(start as int);
            proof {
                assert forall|j: int| 0 <= j < i - start implies rest[j] != 10u8 by {
                    assert(rest[j] == bytes@[start + j]);
                }
                assert(rest[i - start] == 10u8);
                lemma_first_index_is(rest, |b: u8| b == 10u8, i - start);
                assert(rest.take(i - start) =~= bytes@.subrange(start as int, i as int));
                assert(rest.skip(i - start + 1) =~= bytes@.skip(i + 1));
            }
            let ghost before = prelude@;
            let mut k = start;
            while k < i
                invariant
                    start <= k <= i,
                    i < n,
                    n == bytes.len(),
                    prelude@ == before + bytes@.subrange(start as int, k as int),
                decreases i - k,
            {
                prelude.push(bytes[k]);
                assert(bytes@.subrange(start as int, k + 1) =~= bytes@.subrange(start as int, k as int).push(bytes@[k as int]));
                k = k + 1;
            }
            prelude.push(10u8);
            let is_header = starts_with_header(&bytes, start, i);
            if is_header {
                assert(prelude@ =~= before + rest.take(i - start).push(10u8));
                assert(prelude@ + Seq::<u8>::empty() =~= prelude@);
                return prelude;
            }
            assert(prelude@ + spec_prelude(bytes@.skip(i + 1)) =~= before + (rest.take(i - start).push(10u8) + spec_prelude(rest.skip(i - start + 1))));
            start = i + 1;
        }
        i = i + 1;
    }
    if start < n {
        let ghost rest = bytes@.skip(start as int);
        proof {
            assert forall|j: int| 0 <= j < rest.len() implies rest[j] != 10u8 by {
                assert(rest[j] == bytes@[start + j]);
            }
            lemma_first_index_none(rest, |b: u8| b == 10u8);
        }
        let ghost before = prelude@;
        let mut k = start;
        while k < n
            invariant
                start <= k <= n,
                n == bytes.len(),
                prelude@ == before + bytes@.subrange(start as int, k as int),
            decreases n - k,
        {
            prelude.push(bytes[k]);
            assert(bytes@.subrange(start as int, k + 1) =~= bytes@.subrange(start as int, k as int).push(bytes@[k as int]));
            k = k + 1;
        }
        prelude.push(10u8);
        assert(rest =~= bytes@.subrange(start as int, n as int));
        assert(prelude@ =~= before + rest.push(10u8));
    } else {
        assert(bytes@.skip(start as int) =~= Seq::<u8>::empty());
        assert(prelude@ + Seq::<u8>::empty() =~= prelude@);
    }
    prelude
}

} // verus!
