//! What saving a load order writes: the contents of the load order and
//! active plugins files, and the data paths of OpenMW's user config.
use vstd::prelude::*;

use super::readable::{plugin_name_of, spec_active_plugin_names, spec_plugin_names};
use super::timestamp::spec_prelude;
use super::writable::{spec_starts_with_blueprint_ships, starts_with_blueprint_ships};
use super::{plugins_view, plugins_wf, LoadOrder, LoadOrderView};
use crate::encoding::{strict_encode, windows_1252_encoded};
use crate::enums::{Error, GameId};
use crate::game_settings::names_contain;
use crate::message::{decimal, decimal_string};
use crate::openmw_config::{escape_openmw_data_value, spec_escape};
use crate::paths::{path_eq, std_path_eq};
use crate::plugin::{Plugin, PluginView};
use crate::text::{chars_of, owned, push_char, strings_view};

verus! {

/// The lines of a plugins file: each a byte prefix then an encoded name.
pub open spec fn spec_encode_lines(items: Seq<(Seq<u8>, Seq<char>)>) -> Result<Seq<u8>, Seq<char>>
    decreases items.len(),
{
    if items.len() == 0 {
        Ok(Seq::empty())
    } else {
        match spec_encode_lines(items.drop_last()) {
            Ok(before) => {
                let (prefix, name) = items.last();
                let (bytes, unmappable) = windows_1252_encoded(name);
                if unmappable {
                    Err(name)
                } else {
                    Ok(before + prefix + bytes + seq![10u8])
                }
            },
            Err(n) => Err(n),
        }
    }
}

pub open spec fn items_view(items: Seq<(Vec<u8>, String)>) -> Seq<(Seq<u8>, Seq<char>)> {
    items.map_values(|t: (Vec<u8>, String)| (t.0@, t.1@))
}

/// Writes the lines, each name encoded as Windows-1252; a name that cannot
/// be encoded fails with `EncodeError`.
pub fn encode_lines(items: &Vec<(Vec<u8>, String)>) -> (res: Result<Vec<u8>, Error>)
    ensures
        match spec_encode_lines(items_view(items@)) {
            Ok(b) => res matches Ok(v) && v@ == b,
            Err(n) => res matches Err(Error::EncodeError(s)) && s@ == n,
        },
{
    let ghost iv = items_view(items@);
    let mut out: Vec<u8> = Vec::new();
    let mut i: usize = 0;
    assert(iv.take(0) =~= Seq::<(Seq<u8>, Seq<char>)>::empty());
    while i < items.len()
        invariant
            i <= items.len(),
            iv == items_view(items@),
            spec_encode_lines(iv.take(i as int)) == Ok::<Seq<u8>, Seq<char>>(out@),
        decreases items.len() - i,
    {
        assert(iv.take(i + 1).drop_last() =~= iv.take(i as int));
        assert(iv.take(i + 1).last() == (items@[i as int].0@, items@[i as int].1@));
        let bytes = match strict_encode(items[i].1.as_str()) {
            Ok(b) => b,
            Err(e) => {
                proof { lemma_encode_lines_stops(iv, i as int + 1); }
                return Err(e);
            },
        };
        let mut prefix = crate::encoding::copy_bytes(items[i].0.as_slice());
        let ghost before = out@;
        let ghost pv = prefix@;
        let ghost bv = bytes@;
        out.append(&mut prefix);
        let mut b = bytes;
        out.append(&mut b);
        out.push(10u8);
        assert(out@ =~= before + pv + bv + seq![10u8]);
        i = i + 1;
    }
    assert(iv.take(items.len() as int) =~= iv);
    Ok(out)
}

proof fn lemma_encode_lines_stops(items: Seq<(Seq<u8>, Seq<char>)>, k: int)
    requires
        0 < k <= items.len(),
        spec_encode_lines(items.take(k)) is Err,
    ensures
        spec_encode_lines(items) == spec_encode_lines(items.take(k)),
    decreases items.len() - k,
{
    if k < items.len() {
        assert(items.take(k + 1).drop_last() =~= items.take(k));
        lemma_encode_lines_stops(items, k + 1);
    } else {
        assert(items.take(k) =~= items);
    }
}

/// The text of `loadorder.txt`: each plugin's name on a line.
pub open spec fn spec_lines_text(names: Seq<Seq<char>>) -> Seq<char>
    decreases names.len(),
{
    if names.len() == 0 {
        Seq::empty()
    } else {
        spec_lines_text(names.drop_last()) + names.last() + seq!['\n']
    }
}

/// The items that write each name with no prefix.
pub open spec fn plain_items(names: Seq<Seq<char>>) -> Seq<(Seq<u8>, Seq<char>)> {
    names.map_values(|n: Seq<char>| (Seq::<u8>::empty(), n))
}

/// The prefix that marks an active plugin in an asterisk-based file: `*`.
pub open spec fn active_prefix(active: bool) -> Seq<u8> {
    if active { seq![42u8] } else { Seq::empty() }
}

/// Whether a plugin is written to an asterisk-based active plugins file:
/// early loading plugins are not, nor Starfield's blueprint plugins and
/// plugins whose names start with `BlueprintShips-`, which the game removes
/// from the file.
pub open spec fn written_to_asterisk_file(lo: LoadOrderView, p: PluginView) -> bool {
    !names_contain(lo.settings.early_loading_plugins, p.name)
        && !(lo.settings.id == GameId::Starfield && (p.is_blueprint || spec_starts_with_blueprint_ships(p.name)))
}

/// The lines of an asterisk-based active plugins file, for the plugins.
pub open spec fn spec_asterisk_items(lo: LoadOrderView, ps: Seq<PluginView>) -> Seq<(Seq<u8>, Seq<char>)>
    decreases ps.len(),
{
    if ps.len() == 0 {
        Seq::empty()
    } else {
        let rest = spec_asterisk_items(lo, ps.drop_last());
        let p = ps.last();
        if written_to_asterisk_file(lo, p) { rest.push((active_prefix(p.active), p.name)) } else { rest }
    }
}

/// The prefix of Morrowind.ini's `k`th active plugin line: `GameFile<k>=`.
pub open spec fn game_file_prefix(k: int) -> Seq<u8> {
    seq![71u8, 97u8, 109u8, 101u8, 70u8, 105u8, 108u8, 101u8]
        + decimal(k as nat).map_values(|c: char| c as u8) + seq![61u8]
}

/// The lines of a timestamp-based game's active plugins file: for
/// Morrowind, each prefixed by `GameFile<index>=`.
pub open spec fn spec_timestamp_items(game: GameId, names: Seq<Seq<char>>) -> Seq<(Seq<u8>, Seq<char>)> {
    Seq::new(names.len(), |k: int| (if game == GameId::Morrowind { game_file_prefix(k) } else { Seq::empty() }, names[k]))
}

fn decimal_bytes(n: usize) -> (res: Vec<u8>)
    ensures
        res@ == decimal(n as nat).map_values(|c: char| c as u8),
{
    let s = decimal_string(n as u64);
    let chars = chars_of(s.as_str());
    let mut out: Vec<u8> = Vec::new();
    let mut i: usize = 0;
    while i < chars.len()
        invariant
            i <= chars.len(),
            chars@ == decimal(n as nat),
            out@ == chars@.take(i as int).map_values(|c: char| c as u8),
        decreases chars.len() - i,
    {
        proof { lemma_decimal_ascii(n as nat); }
        assert((chars@[i as int] as u32) < 128);
        out.push(chars[i] as u8);
        assert(chars@.take(i + 1).map_values(|c: char| c as u8) =~= chars@.take(i as int).map_values(|c: char| c as u8).push(chars@[i as int] as u8));
        i = i + 1;
    }
    assert(chars@.take(chars.len() as int) =~= chars@);
    out
}

proof fn lemma_decimal_ascii(n: nat)
    ensures
        forall|i: int| 0 <= i < decimal(n).len() ==> (#[trigger] decimal(n)[i] as u32) < 128,
    decreases n,
{
    if n >= 10 {
        lemma_decimal_ascii(n / 10);
        assert forall|i: int| 0 <= i < decimal(n).len() implies (#[trigger] decimal(n)[i] as u32) < 128 by {
            if i < decimal(n / 10).len() {
                assert(decimal(n)[i] == decimal(n / 10)[i]);
            }
        }
    }
}

/// The renames that unghosting left pending for the plugins, in order: each
/// from the plugin's old path to its current one.
pub open spec fn spec_pending_renames(ps: Seq<Plugin>) -> Seq<(Seq<char>, Seq<char>)>
    decreases ps.len(),
{
    if ps.len() == 0 {
        Seq::empty()
    } else {
        let rest = spec_pending_renames(ps.drop_last());
        match ps.last().spec_renamed_from() {
            Some(from) => rest.push((from, ps.last()@.path)),
            None => rest,
        }
    }
}

/// The renames pending for plugins with the given views and the paths
/// that each plugin's file is still to be renamed from, in order.
pub open spec fn spec_renames_of(ps: Seq<PluginView>, froms: Seq<Option<Seq<char>>>) -> Seq<(Seq<char>, Seq<char>)>
    decreases ps.len(),
{
    if ps.len() == 0 || froms.len() == 0 {
        Seq::empty()
    } else {
        let rest = spec_renames_of(ps.drop_last(), froms.drop_last());
        match froms.last() {
            Some(from) => rest.push((from, ps.last().path)),
            None => rest,
        }
    }
}

proof fn lemma_renames_of(ps: Seq<Plugin>)
    ensures
        spec_pending_renames(ps) == spec_renames_of(plugins_view(ps), ps.map_values(|p: Plugin| p.spec_renamed_from())),
    decreases ps.len(),
{
    if ps.len() > 0 {
        lemma_renames_of(ps.drop_last());
        assert(plugins_view(ps).drop_last() =~= plugins_view(ps.drop_last()));
        assert(ps.map_values(|p: Plugin| p.spec_renamed_from()).drop_last()
            =~= ps.drop_last().map_values(|p: Plugin| p.spec_renamed_from()));
    }
}

pub open spec fn renames_view(v: Seq<(String, String)>) -> Seq<(Seq<char>, Seq<char>)> {
    v.map_values(|r: (String, String)| (r.0@, r.1@))
}

impl LoadOrder {
    /// The renames that activating ghosted plugins left pending.
    pub closed spec fn pending_renames(&self) -> Seq<(Seq<char>, Seq<char>)> {
        spec_pending_renames(self.plugins@)
    }

    /// The pending renames are those that the plugins' views and
    /// `renamed_froms` give.
    pub proof fn lemma_pending_renames(&self)
        ensures
            self.renamed_froms().len() == self@.plugins.len(),
            self.pending_renames() == spec_renames_of(self@.plugins, self.renamed_froms()),
    {
        lemma_renames_of(self.plugins@);
    }

    /// Takes the renames that activating ghosted plugins left pending, for
    /// the caller to perform on the files; afterwards none is pending and
    /// the load order is unchanged.
    pub fn take_pending_renames(&mut self) -> (res: Vec<(String, String)>)
        requires
            old(self).wf(),
        ensures
            final(self).wf(),
            final(self)@ == old(self)@,
            renames_view(res@) == old(self).pending_renames(),
            final(self).pending_renames() == Seq::<(Seq<char>, Seq<char>)>::empty(),
    {
        let ghost ps = self.plugins@;
        let mut rest: Vec<Plugin> = Vec::new();
        std::mem::swap(&mut rest, &mut self.plugins);
        let n = rest.len();
        let mut done: Vec<Plugin> = Vec::new();
        let mut renames: Vec<(String, String)> = Vec::new();
        let mut i: usize = 0;
        assert(ps.take(0) =~= Seq::<Plugin>::empty());
        assert(renames_view(renames@) =~= Seq::<(Seq<char>, Seq<char>)>::empty());
        assert(done@ =~= Seq::<Plugin>::empty());
        while rest.len() > 0
            invariant
                i + rest.len() == n,
                n == ps.len(),
                ps == old(self).plugins@,
                plugins_wf(ps),
                forall|j: int| 0 <= j < rest.len() ==> #[trigger] rest@[j] == ps[i + j],
                done@.len() == i,
                forall|j: int| 0 <= j < i ==> (#[trigger] done@[j])@ == ps[j]@ && done@[j].spec_renamed_from() is None
                    && done@[j].wf() == ps[j].wf(),
                renames_view(renames@) == spec_pending_renames(ps.take(i as int)),
                spec_pending_renames(done@) == Seq::<(Seq<char>, Seq<char>)>::empty(),
            decreases rest.len(),
        {
            let ghost before_rest = rest@;
            let ghost before_done = done@;
            let mut p = rest.remove(0);
            proof {
                assert forall|j: int| 0 <= j < rest.len() implies #[trigger] rest@[j] == ps[i + 1 + j] by {
                    assert(rest@[j] == before_rest[j + 1]);
                }
                assert(ps.take(i + 1).drop_last() =~= ps.take(i as int));
                assert(ps.take(i + 1).last() == p);
            }
            let ghost before_renames = renames@;
            match p.take_pending_rename() {
                Some(r) => {
                    renames.push(r);
                    assert(renames_view(renames@) =~= renames_view(before_renames).push((r.0@, r.1@)));
                },
                None => {},
            }
            done.push(p);
            proof {
                assert(done@.drop_last() =~= before_done);
            }
            i = i + 1;
        }
        assert(ps.take(n as int) =~= ps);
        self.plugins = done;
        proof {
            assert(plugins_view(self.plugins@) =~= plugins_view(ps));
            assert forall|j: int| 0 <= j < self.plugins@.len() implies (#[trigger] self.plugins@[j]).wf() by {
                assert(ps[j].wf());
            }
        }
        renames
    }
}

impl LoadOrder {
    /// The text of Skyrim's `loadorder.txt`: each plugin's name on a line.
    pub fn load_order_file_contents(&self) -> (res: String)
        ensures
            res@ == spec_lines_text(spec_plugin_names(self@.plugins)),
    {
        let names = self.plugin_names();
        let ghost nv = strings_view(names@);
        let mut text = String::new();
        let mut i: usize = 0;
        assert(nv.take(0) =~= Seq::<Seq<char>>::empty());
        while i < names.len()
            invariant
                i <= names.len(),
                nv == strings_view(names@),
                text@ == spec_lines_text(nv.take(i as int)),
            decreases names.len() - i,
        {
            assert(nv.take(i + 1).drop_last() =~= nv.take(i as int));
            text.append(names[i].as_str());
            push_char(&mut text, '\n');
            i = i + 1;
        }
        assert(nv.take(names.len() as int) =~= nv);
        text
    }

    /// The bytes of a textfile-based game's `plugins.txt`: the active
    /// plugins' names, encoded as Windows-1252, one per line.
    pub fn textfile_active_plugins_file_contents(&self) -> (res: Result<Vec<u8>, Error>)
        ensures
            match spec_encode_lines(plain_items(spec_active_plugin_names(self@.plugins))) {
                Ok(b) => res matches Ok(v) && v@ == b,
                Err(n) => res matches Err(Error::EncodeError(s)) && s@ == n,
            },
    {
        let names = self.active_plugin_names();
        let mut items: Vec<(Vec<u8>, String)> = Vec::new();
        let mut i: usize = 0;
        while i < names.len()
            invariant
                i <= names.len(),
                items_view(items@) == plain_items(strings_view(names@)).take(i as int),
            decreases names.len() - i,
        {
            items.push((Vec::new(), names[i].clone()));
            assert(items_view(items@) =~= plain_items(strings_view(names@)).take(i + 1));
            i = i + 1;
        }
        assert(plain_items(strings_view(names@)).take(names.len() as int) =~= plain_items(strings_view(names@)));
        encode_lines(&items)
    }

    /// The bytes of an asterisk-based game's `plugins.txt`: each plugin that
    /// the file lists, `*` marking the active ones, encoded as Windows-1252.
    pub fn asterisk_active_plugins_file_contents(&self) -> (res: Result<Vec<u8>, Error>)
        ensures
            match spec_encode_lines(spec_asterisk_items(self@, self@.plugins)) {
                Ok(b) => res matches Ok(v) && v@ == b,
                Err(n) => res matches Err(Error::EncodeError(s)) && s@ == n,
            },
    {
        let ghost ps = self@.plugins;
        let mut items: Vec<(Vec<u8>, String)> = Vec::new();
        let mut i: usize = 0;
        assert(ps.take(0) =~= Seq::<PluginView>::empty());
        while i < self.plugins.len()
            invariant
                i <= self.plugins.len(),
                ps == self@.plugins,
                items_view(items@) == spec_asterisk_items(self@, ps.take(i as int)),
            decreases self.plugins.len() - i,
        {
            let p = &self.plugins[i];
            assert(ps[i as int] == p@);
            assert(ps.take(i + 1).drop_last() =~= ps.take(i as int));
            assert(ps.take(i + 1).last() == p@);
            let early = self.game_settings.loads_early(p.name());
            let skipped = self.game_settings.id() == GameId::Starfield
                && (starts_with_blueprint_ships(p.name()) || p.is_blueprint_plugin());
            if !early && !skipped {
                let mut prefix: Vec<u8> = Vec::new();
                if p.is_active() {
                    prefix.push(42u8);
                }
                assert(prefix@ =~= active_prefix(p@.active));
                let ghost before = items_view(items@);
                items.push((prefix, owned(p.name())));
                assert(items_view(items@) =~= before.push((active_prefix(p@.active), p@.name)));
            }
            i = i + 1;
        }
        assert(ps.take(self.plugins.len() as int) =~= ps);
        encode_lines(&items)
    }

    /// The bytes of a timestamp-based game's active plugins file: for
    /// Morrowind, the part of Morrowind.ini up to its `[Game Files]` header
    /// (`ini` holds the file's bytes, `None` where it does not exist), then
    /// `GameFile<index>=` and each active plugin's name; for other games the
    /// names alone, one per line, encoded as Windows-1252.
    pub fn timestamp_active_plugins_file_contents(&self, ini: Option<&[u8]>) -> (res: Result<Vec<u8>, Error>)
        ensures
            match spec_encode_lines(spec_timestamp_items(self@.settings.id, spec_active_plugin_names(self@.plugins))) {
                Ok(b) => res matches Ok(v) && v@ == (if self@.settings.id == GameId::Morrowind {
                    match ini { Some(x) => spec_prelude(x@), None => Seq::empty() }
                } else {
                    Seq::empty()
                }) + b,
                Err(n) => res matches Err(Error::EncodeError(s)) && s@ == n,
            },
    {
        let is_morrowind = self.game_settings.id() == GameId::Morrowind;
        let mut prelude = if is_morrowind { super::timestamp::file_prelude(ini) } else { Vec::new() };
        let names = self.active_plugin_names();
        let ghost nv = strings_view(names@);
        let ghost game = self@.settings.id;
        let mut items: Vec<(Vec<u8>, String)> = Vec::new();
        let mut i: usize = 0;
        while i < names.len()
            invariant
                i <= names.len(),
                nv == strings_view(names@),
                is_morrowind == (game == GameId::Morrowind),
                items_view(items@) == spec_timestamp_items(game, nv).take(i as int),
            decreases names.len() - i,
        {
            let mut prefix: Vec<u8> = Vec::new();
            if is_morrowind {
                prefix.push(71u8); prefix.push(97u8); prefix.push(109u8); prefix.push(101u8);
                prefix.push(70u8); prefix.push(105u8); prefix.push(108u8); prefix.push(101u8);
                let mut digits = decimal_bytes(i);
                prefix.append(&mut digits);
                prefix.push(61u8);
                assert(prefix@ =~= game_file_prefix(i as int));
            } else {
                assert(prefix@ =~= Seq::<u8>::empty());
            }
            let ghost before = items_view(items@);
            items.push((prefix, names[i].clone()));
            assert(items_view(items@) =~= spec_timestamp_items(game, nv).take(i + 1));
            i = i + 1;
        }
        assert(spec_timestamp_items(game, nv).take(names.len() as int) =~= spec_timestamp_items(game, nv));
        match encode_lines(&items) {
            Ok(mut body) => {
                prelude.append(&mut body);
                Ok(prelude)
            },
            Err(e) => Err(e),
        }
    }

    /// The data paths that saving OpenMW's load order writes to its user
    /// config, escaped: the additional plugins directories other than those
    /// that the non-user configs add (`read_only`).
    pub fn openmw_data_values(&self, read_only: &Vec<String>) -> (res: Vec<String>)
        ensures
            strings_view(res@) == spec_openmw_data_values(self@.settings.additional_plugins_directories, strings_view(read_only@)),
    {
        let dirs = self.game_settings.additional_plugins_directories();
        let ghost dv = strings_view(dirs@);
        let mut res: Vec<String> = Vec::new();
        let mut i: usize = 0;
        assert(dv.take(0) =~= Seq::<Seq<char>>::empty());
        assert(strings_view(res@) =~= Seq::<Seq<char>>::empty());
        while i < dirs.len()
            invariant
                i <= dirs.len(),
                dv == strings_view(dirs@),
                dv == self@.settings.additional_plugins_directories,
                strings_view(res@) == spec_openmw_data_values(dv.take(i as int), strings_view(read_only@)),
            decreases dirs.len() - i,
        {
            assert(dv.take(i + 1).drop_last() =~= dv.take(i as int));
            assert(dv.take(i + 1).last() == dirs@[i as int]@);
            let mut found = false;
            let mut j: usize = 0;
            while j < read_only.len()
                invariant
                    j <= read_only.len(),
                    found == exists|k: int| 0 <= k < j && std_path_eq(#[trigger] strings_view(read_only@)[k], dirs@[i as int]@),
                decreases read_only.len() - j,
            {
                let eq = path_eq(read_only[j].as_str(), dirs[i].as_str());
                assert(strings_view(read_only@)[j as int] == read_only@[j as int]@);
                if eq {
                    found = true;
                }
                j = j + 1;
            }
            if !found {
                let v = escape_openmw_data_value(dirs[i].as_str());
                let ghost before = strings_view(res@);
                let ghost vv = v@;
                res.push(v);
                assert(strings_view(res@) =~= before.push(vv));
            }
            i = i + 1;
        }
        assert(dv.take(dirs.len() as int) =~= dv);
        res
    }
}

/// The escaped data paths other than the read-only ones.
pub open spec fn spec_openmw_data_values(dirs: Seq<Seq<char>>, read_only: Seq<Seq<char>>) -> Seq<Seq<char>>
    decreases dirs.len(),
{
    if dirs.len() == 0 {
        Seq::empty()
    } else {
        let rest = spec_openmw_data_values(dirs.drop_last(), read_only);
        let d = dirs.last();
        if exists|k: int| 0 <= k < read_only.len() && std_path_eq(#[trigger] read_only[k], d) {
            rest
        } else {
            rest.push(seq!['"'] + spec_escape(d) + seq!['"'])
        }
    }
}

} // verus!
