//! Reading a load order from the game's files: their lines, the plugins
//! that they name, and how those are merged with the installed plugins.
use vstd::prelude::*;

use super::hoist::{hoist_masters, spec_hoist_moves, spec_move_elements};
use super::mutable::spec_insert_position;
use super::readable::find_plugin_index;
use super::writable::{spec_insert_index, spec_starts_with_blueprint_ships, starts_with_blueprint_ships, with_inserted, with_plugin};
use super::{plugins_view, plugins_wf, spec_index_of, LoadOrder, LoadOrderView};
use crate::encoding::{copy_bytes, decode_windows_1252_strict, split_lines, text_lines, windows_1252_decoded_strict};
use crate::enums::{game_allows_plugin_ghosting, Error, GameId};
use crate::game_settings::{names_contain, GameSettingsView};
use crate::plugin::{
    spec_activated_path, spec_trim_dot_ghost, spec_trim_dot_ghost_unchecked, spec_unghosts_on_activation,
    trim_dot_ghost, trim_dot_ghost_unchecked, Plugin, PluginView,
};
use crate::ghostable_path::spec_as_unghosted_path;
use crate::ini::IniDoc;
use crate::seqs::first_index;
use crate::text::{clone_strings, eq_icase, owned, strings_view, unicase_eq};

verus! {

/// A line of a plugins file names a plugin unless it is empty or a comment.
pub open spec fn spec_plugin_line(line: Seq<char>) -> Option<Seq<char>> {
    if line.len() == 0 || line[0] == '#' {
        None
    } else {
        Some(line)
    }
}

/// The plugin that a line of a plugins file names, if any.
pub fn plugin_line_mapper(line: &str) -> (res: Option<String>)
    ensures
        match res {
            Some(s) => spec_plugin_line(line@) == Some(s@),
            None => spec_plugin_line(line@) is None,
        },
{
    if line.unicode_len() == 0 || line.get_char(0) == '#' {
        None
    } else {
        Some(owned(line))
    }
}

/// A line of an asterisk-based plugins file: a leading `*` marks an active
/// plugin.
pub open spec fn spec_asterisk_line(line: Seq<char>) -> Option<(Seq<char>, bool)> {
    if line.len() == 0 || line[0] == '#' {
        None
    } else if line[0] == '*' {
        Some((line.skip(1), true))
    } else {
        Some((line, false))
    }
}

/// The plugin that a line of an asterisk-based plugins file names, and
/// whether it is active.
pub fn owning_plugin_line_mapper(line: &str) -> (res: Option<(String, bool)>)
    ensures
        match res {
            Some((s, a)) => spec_asterisk_line(line@) == Some((s@, a)),
            None => spec_asterisk_line(line@) is None,
        },
{
    let n = line.unicode_len();
    if n == 0 || line.get_char(0) == '#' {
        None
    } else if line.get_char(0) == '*' {
        let rest = line.substring_char(1, n);
        assert(rest@ =~= line@.skip(1));
        Some((owned(rest), true))
    } else {
        Some((owned(line), false))
    }
}

/// The names that the lines give, in order.
pub open spec fn spec_mapped_lines(lines: Seq<Seq<char>>) -> Seq<Seq<char>>
    decreases lines.len(),
{
    if lines.len() == 0 {
        Seq::empty()
    } else {
        let rest = spec_mapped_lines(lines.drop_last());
        match spec_plugin_line(lines.last()) {
            Some(s) => rest.push(s),
            None => rest,
        }
    }
}

/// The plugins that a file's text names, one per line.
pub fn map_plugin_lines(text: &str) -> (res: Vec<String>)
    ensures
        strings_view(res@) == spec_mapped_lines(text_lines(text@)),
{
    let lines = split_lines(text);
    let ghost ls = lines@.map_values(|l: String| l@);
    let mut res: Vec<String> = Vec::new();
    let mut i: usize = 0;
    assert(ls.take(0) =~= Seq::<Seq<char>>::empty());
    assert(strings_view(res@) =~= Seq::<Seq<char>>::empty());
    while i < lines.len()
        invariant
            i <= lines.len(),
            ls == lines@.map_values(|l: String| l@),
            strings_view(res@) == spec_mapped_lines(ls.take(i as int)),
        decreases lines.len() - i,
    {
        assert(ls.take(i + 1).drop_last() =~= ls.take(i as int));
        assert(ls.take(i + 1).last() == lines@[i as int]@);
        let ghost before = res@;
        match plugin_line_mapper(lines[i].as_str()) {
            Some(s) => {
                let ghost sv = s@;
                res.push(s);
                assert(strings_view(res@) =~= strings_view(before).push(sv));
            },
            None => {},
        }
        i = i + 1;
    }
    assert(ls.take(lines.len() as int) =~= ls);
    res
}

/// The names and activity that the lines of an asterisk-based file give.
pub open spec fn spec_mapped_asterisk_lines(lines: Seq<Seq<char>>) -> Seq<(Seq<char>, bool)>
    decreases lines.len(),
{
    if lines.len() == 0 {
        Seq::empty()
    } else {
        let rest = spec_mapped_asterisk_lines(lines.drop_last());
        match spec_asterisk_line(lines.last()) {
            Some(t) => rest.push(t),
            None => rest,
        }
    }
}

pub open spec fn tuples_view(v: Seq<(String, bool)>) -> Seq<(Seq<char>, bool)> {
    v.map_values(|t: (String, bool)| (t.0@, t.1))
}

/// The plugins that an asterisk-based file's text names, one per line, and
/// whether each is active.
pub fn map_asterisk_lines(text: &str) -> (res: Vec<(String, bool)>)
    ensures
        tuples_view(res@) == spec_mapped_asterisk_lines(text_lines(text@)),
{
    let lines = split_lines(text);
    let ghost ls = lines@.map_values(|l: String| l@);
    let mut res: Vec<(String, bool)> = Vec::new();
    let mut i: usize = 0;
    assert(ls.take(0) =~= Seq::<Seq<char>>::empty());
    assert(tuples_view(res@) =~= Seq::<(Seq<char>, bool)>::empty());
    while i < lines.len()
        invariant
            i <= lines.len(),
            ls == lines@.map_values(|l: String| l@),
            tuples_view(res@) == spec_mapped_asterisk_lines(ls.take(i as int)),
        decreases lines.len() - i,
    {
        assert(ls.take(i + 1).drop_last() =~= ls.take(i as int));
        assert(ls.take(i + 1).last() == lines@[i as int]@);
        let ghost before = res@;
        match owning_plugin_line_mapper(lines[i].as_str()) {
            Some(t) => {
                let ghost tv = (t.0@, t.1);
                res.push(t);
                assert(tuples_view(res@) =~= tuples_view(before).push(tv));
            },
            None => {},
        }
        i = i + 1;
    }
    assert(ls.take(lines.len() as int) =~= ls);
    res
}

/// Whether the game ignores its active plugins file: Fallout 4, Fallout 4 VR
/// and Starfield do when test files are set.
pub open spec fn spec_ignores_active_plugins_file(settings: GameSettingsView) -> bool {
    (settings.id == GameId::Fallout4 || settings.id == GameId::Fallout4VR || settings.id == GameId::Starfield)
        && settings.test_files.len() > 0
}

/// The plugins that loading an asterisk-based load order reads first, given
/// the text of `plugins.txt` (`None` where it does not exist): none where
/// the game ignores the file, except for Starfield, whose test files then
/// stand in for it, all active.
pub open spec fn spec_asterisk_plugin_tuples(settings: GameSettingsView, text: Option<Seq<char>>) -> Seq<(Seq<char>, bool)> {
    if spec_ignores_active_plugins_file(settings) {
        if settings.id == GameId::Starfield {
            settings.test_files.map_values(|n: Seq<char>| (n, true))
        } else {
            Seq::empty()
        }
    } else {
        match text {
            Some(t) => spec_mapped_asterisk_lines(text_lines(t)),
            None => Seq::empty(),
        }
    }
}

impl LoadOrder {
    /// Whether the game ignores its active plugins file (see
    /// `spec_ignores_active_plugins_file`).
    pub fn ignores_active_plugins_file(&self) -> (res: bool)
        ensures
            res == spec_ignores_active_plugins_file(self@.settings),
    {
        let id = self.game_settings.id();
        (id == GameId::Fallout4 || id == GameId::Fallout4VR || id == GameId::Starfield)
            && self.game_settings.test_files().len() > 0
    }

    /// The plugins that loading an asterisk-based load order reads first,
    /// with whether each is active (see `spec_asterisk_plugin_tuples`).
    pub fn asterisk_plugin_tuples(&self, text: Option<&str>) -> (res: Vec<(String, bool)>)
        ensures
            tuples_view(res@) == spec_asterisk_plugin_tuples(self@.settings, match text { Some(t) => Some(t@), None => None }),
    {
        if self.ignores_active_plugins_file() {
            let mut res: Vec<(String, bool)> = Vec::new();
            if self.game_settings.id() == GameId::Starfield {
                let names = self.game_settings.test_files();
                let ghost nv = strings_view(names@);
                let mut i: usize = 0;
                while i < names.len()
                    invariant
                        i <= names.len(),
                        nv == strings_view(names@),
                        tuples_view(res@) == nv.take(i as int).map_values(|n: Seq<char>| (n, true)),
                    decreases names.len() - i,
                {
                    let ghost before = tuples_view(res@);
                    let name = names[i].clone();
                    assert(name@ == nv[i as int]);
                    res.push((name, true));
                    assert(tuples_view(res@) =~= before.push((nv[i as int], true)));
                    assert(nv.take(i + 1) =~= nv.take(i as int).push(nv[i as int]));
                    assert(nv.take(i + 1).map_values(|n: Seq<char>| (n, true))
                        =~= nv.take(i as int).map_values(|n: Seq<char>| (n, true)).push((nv[i as int], true)));
                    i = i + 1;
                }
                assert(nv.take(names.len() as int) =~= nv);
            } else {
                assert(tuples_view(res@) =~= Seq::<(Seq<char>, bool)>::empty());
            }
            res
        } else {
            match text {
                Some(t) => map_asterisk_lines(t),
                None => {
                    let res: Vec<(String, bool)> = Vec::new();
                    assert(tuples_view(res@) =~= Seq::<(Seq<char>, bool)>::empty());
                    res
                },
            }
        }
    }
}

/// The text of a plugins file, decoded from Windows-1252 without
/// replacement: `None` where the file does not exist, which gives no text.
pub open spec fn spec_plugins_file_text(bytes: Option<Seq<u8>>) -> Option<Seq<char>> {
    match bytes {
        None => Some(Seq::empty()),
        Some(b) => windows_1252_decoded_strict(b),
    }
}

/// Decodes a plugins file's bytes (`None` where the file does not exist,
/// which is read as empty), failing with `DecodeError` where they are not
/// Windows-1252.
pub fn decode_plugins_file(bytes: Option<&[u8]>) -> (res: Result<String, Error>)
    ensures
        match spec_plugins_file_text(match bytes { Some(b) => Some(b@), None => None }) {
            Some(t) => res matches Ok(s) && s@ == t,
            None => res matches Err(Error::DecodeError(b)) && bytes matches Some(x) && b@ == x@,
        },
{
    match bytes {
        None => {
            let s = String::new();
            Ok(s)
        },
        Some(b) => match decode_windows_1252_strict(b) {
            Some(s) => Ok(s),
            None => Err(Error::DecodeError(copy_bytes(b))),
        },
    }
}

/// The plugins that a plugins file lists, given its bytes.
pub fn read_plugin_names(bytes: Option<&[u8]>) -> (res: Result<Vec<String>, Error>)
    ensures
        match spec_plugins_file_text(match bytes { Some(b) => Some(b@), None => None }) {
            Some(t) => res matches Ok(v) && strings_view(v@) == spec_mapped_lines(text_lines(t)),
            None => res matches Err(Error::DecodeError(b)) && bytes matches Some(x) && b@ == x@,
        },
{
    match decode_plugins_file(bytes) {
        Ok(text) => Ok(map_plugin_lines(text.as_str())),
        Err(e) => Err(e),
    }
}

/// The key by which a plugin name is deduplicated: the name without its
/// ghost extension (for games that allow ghosting).
pub open spec fn dedup_key(name: Seq<char>, game: GameId) -> Seq<char> {
    spec_trim_dot_ghost(name, game)
}

/// Whether the name's key matches one of the keys (by `unicase::eq`).
pub open spec fn key_in(keys: Seq<Seq<char>>, name: Seq<char>, game: GameId) -> bool {
    names_contain(keys, dedup_key(name, game))
}

/// The keys of the tuples' names.
pub open spec fn tuple_keys(ts: Seq<(Seq<char>, bool)>, game: GameId) -> Seq<Seq<char>> {
    ts.map_values(|t: (Seq<char>, bool)| dedup_key(t.0, game))
}

/// The tuples, each kept unless a later one has the same key: of each
/// plugin, the last mention wins.
pub open spec fn spec_keep_last(ts: Seq<(Seq<char>, bool)>, game: GameId) -> Seq<(Seq<char>, bool)>
    decreases ts.len(),
{
    if ts.len() == 0 {
        Seq::empty()
    } else {
        let rest = spec_keep_last(ts.drop_first(), game);
        if key_in(tuple_keys(rest, game), ts[0].0, game) {
            rest
        } else {
            seq![ts[0]] + rest
        }
    }
}

/// The file names whose keys are not among `seen` or those of earlier kept
/// names, each inactive.
pub open spec fn spec_new_files(files: Seq<Seq<char>>, seen: Seq<Seq<char>>, game: GameId) -> Seq<(Seq<char>, bool)>
    decreases files.len(),
{
    if files.len() == 0 {
        Seq::empty()
    } else {
        let kept = spec_new_files(files.drop_last(), seen, game);
        if key_in(seen + tuple_keys(kept, game), files.last(), game) {
            kept
        } else {
            kept.push((files.last(), false))
        }
    }
}

/// The plugins that the files list, without duplicates (the last mention
/// wins), followed by the installed plugins that they do not list, as
/// inactive plugins.
pub open spec fn spec_remove_duplicates_icase(
    ts: Seq<(Seq<char>, bool)>,
    files: Seq<Seq<char>>,
    game: GameId,
) -> Seq<(Seq<char>, bool)> {
    let listed = spec_keep_last(ts, game);
    listed + spec_new_files(files, tuple_keys(listed, game), game)
}

fn key_of(name: &str, game_id: GameId) -> (res: String)
    ensures
        res@ == dedup_key(name@, game_id),
{
    owned(trim_dot_ghost(name, game_id))
}

fn any_key_matches(keys: &Vec<String>, key: &str) -> (res: bool)
    ensures
        res == names_contain(strings_view(keys@), key@),
{
    crate::game_settings::any_name_matches(keys, key)
}

/// Merges the plugins that the load order files list with the installed
/// plugins' file names.
pub fn remove_duplicates_icase(
    plugin_tuples: Vec<(String, bool)>,
    filenames: Vec<String>,
    game_id: GameId,
) -> (res: Vec<(String, bool)>)
    ensures
        tuples_view(res@) == spec_remove_duplicates_icase(tuples_view(plugin_tuples@), strings_view(filenames@), game_id),
{
    let ghost ts = tuples_view(plugin_tuples@);
    let mut kept: Vec<(String, bool)> = Vec::new();
    let mut keys: Vec<String> = Vec::new();
    let mut i: usize = plugin_tuples.len();
    assert(ts.skip(i as int) =~= Seq::<(Seq<char>, bool)>::empty());
    assert(tuples_view(kept@) =~= Seq::<(Seq<char>, bool)>::empty());
    assert(strings_view(keys@) =~= Seq::<Seq<char>>::empty());
    while i > 0
        invariant
            i <= plugin_tuples.len(),
            ts == tuples_view(plugin_tuples@),
            tuples_view(kept@) == spec_keep_last(ts.skip(i as int), game_id),
            strings_view(keys@) == tuple_keys(tuples_view(kept@), game_id),
        decreases i,
    {
        let ghost rest = ts.skip(i as int);
        assert(ts.skip(i - 1).drop_first() =~= rest);
        assert(ts.skip(i - 1)[0] == ts[i - 1]);
        let key = key_of(plugin_tuples[i - 1].0.as_str(), game_id);
        if !any_key_matches(&keys, key.as_str()) {
            let ghost before = kept@;
            let ghost kb = keys@;
            let t = (plugin_tuples[i - 1].0.clone(), plugin_tuples[i - 1].1);
            let ghost tv = (t.0@, t.1);
            let ghost kv = key@;
            kept.insert(0, t);
            keys.insert(0, key);
            assert(tuples_view(kept@) =~= seq![tv] + tuples_view(before));
            assert(strings_view(keys@) =~= seq![kv] + strings_view(kb));
            assert(tuple_keys(tuples_view(kept@), game_id) =~= seq![kv] + tuple_keys(tuples_view(before), game_id));
        }
        i = i - 1;
    }
    assert(ts.skip(0) =~= ts);
    let ghost listed = tuples_view(kept@);
    let ghost seen = strings_view(keys@);
    let ghost fs = strings_view(filenames@);
    let mut files: Vec<(String, bool)> = Vec::new();
    let mut j: usize = 0;
    assert(fs.take(0) =~= Seq::<Seq<char>>::empty());
    assert(tuples_view(files@) =~= Seq::<(Seq<char>, bool)>::empty());
    assert(strings_view(keys@) =~= seen + tuple_keys(tuples_view(files@), game_id));
    while j < filenames.len()
        invariant
            j <= filenames.len(),
            fs == strings_view(filenames@),
            tuples_view(files@) == spec_new_files(fs.take(j as int), seen, game_id),
            strings_view(keys@) == seen + tuple_keys(tuples_view(files@), game_id),
        decreases filenames.len() - j,
    {
        assert(fs.take(j + 1).drop_last() =~= fs.take(j as int));
        assert(fs.take(j + 1).last() == filenames@[j as int]@);
        let key = key_of(filenames[j].as_str(), game_id);
        if !any_key_matches(&keys, key.as_str()) {
            let ghost before = files@;
            let ghost kb = strings_view(keys@);
            let ghost kv = key@;
            let t = (filenames[j].clone(), false);
            let ghost tv = (t.0@, t.1);
            files.push(t);
            keys.push(key);
            assert(tuples_view(files@) =~= tuples_view(before).push(tv));
            assert(strings_view(keys@) =~= kb.push(kv));
            assert(tuple_keys(tuples_view(files@), game_id) =~= tuple_keys(tuples_view(before), game_id).push(kv));
            assert(strings_view(keys@) =~= seen + tuple_keys(tuples_view(files@), game_id));
        }
        j = j + 1;
    }
    assert(fs.take(filenames.len() as int) =~= fs);
    let ghost fv = tuples_view(files@);
    let mut files = files;
    kept.append(&mut files);
    assert(tuples_view(kept@) =~= listed + fv);
    kept
}

/// Whether two names of plugins in load order files name the same plugin:
/// for games that allow ghosting, regardless of ghost extensions.
pub open spec fn spec_plugin_names_match(game_id: GameId, name1: Seq<char>, name2: Seq<char>) -> bool {
    if game_allows_plugin_ghosting(game_id) {
        unicase_eq(spec_trim_dot_ghost_unchecked(name1), spec_trim_dot_ghost_unchecked(name2))
    } else {
        unicase_eq(name1, name2)
    }
}

pub fn plugin_names_match(game_id: GameId, name1: &str, name2: &str) -> (res: bool)
    ensures
        res == spec_plugin_names_match(game_id, name1@, name2@),
{
    if game_id.allow_plugin_ghosting() {
        eq_icase(trim_dot_ghost_unchecked(name1), trim_dot_ghost_unchecked(name2))
    } else {
        eq_icase(name1, name2)
    }
}

/// How `loadorder.txt` and `plugins.txt` agree.
pub enum SelfConsistency {
    ConsistentNoLoadOrderFile,
    ConsistentOnlyLoadOrderFile,
    ConsistentWithNames(Vec<String>),
    Inconsistent,
}

/// Whether a name of `loadorder.txt` names one of the active plugins.
pub open spec fn listed_as_active(game_id: GameId, active: Seq<Seq<char>>, name: Seq<char>) -> bool {
    exists|i: int| 0 <= i < active.len() && spec_plugin_names_match(game_id, #[trigger] active[i], name)
}

/// The names of `loadorder.txt` that are active, in order.
pub open spec fn spec_active_in_order(game_id: GameId, load_order: Seq<Seq<char>>, active: Seq<Seq<char>>) -> Seq<Seq<char>>
    decreases load_order.len(),
{
    if load_order.len() == 0 {
        Seq::empty()
    } else {
        let rest = spec_active_in_order(game_id, load_order.drop_last(), active);
        if listed_as_active(game_id, active, load_order.last()) { rest.push(load_order.last()) } else { rest }
    }
}

/// The files agree where the active plugins of `loadorder.txt`, in its
/// order, pair up with those of `plugins.txt` as far as both go.
pub open spec fn spec_files_agree(game_id: GameId, load_order: Seq<Seq<char>>, active: Seq<Seq<char>>) -> bool {
    let filtered = spec_active_in_order(game_id, load_order, active);
    forall|k: int| 0 <= k < filtered.len() && k < active.len()
        ==> spec_plugin_names_match(game_id, #[trigger] filtered[k], active[k])
}

fn filter_active_in_order(game_id: GameId, load_order: &Vec<String>, active: &Vec<String>) -> (res: Vec<String>)
    ensures
        strings_view(res@) == spec_active_in_order(game_id, strings_view(load_order@), strings_view(active@)),
{
    let ghost lo = strings_view(load_order@);
    let ghost ac = strings_view(active@);
    let mut res: Vec<String> = Vec::new();
    let mut i: usize = 0;
    assert(lo.take(0) =~= Seq::<Seq<char>>::empty());
    assert(strings_view(res@) =~= Seq::<Seq<char>>::empty());
    while i < load_order.len()
        invariant
            i <= load_order.len(),
            lo == strings_view(load_order@),
            ac == strings_view(active@),
            strings_view(res@) == spec_active_in_order(game_id, lo.take(i as int), ac),
        decreases load_order.len() - i,
    {
        assert(lo.take(i + 1).drop_last() =~= lo.take(i as int));
        assert(lo.take(i + 1).last() == load_order@[i as int]@);
        let mut found = false;
        let mut j: usize = 0;
        while j < active.len()
            invariant
                j <= active.len(),
                ac == strings_view(active@),
                found == exists|t: int| 0 <= t < j && spec_plugin_names_match(game_id, #[trigger] ac[t], load_order@[i as int]@),
            decreases active.len() - j,
        {
            let m = plugin_names_match(game_id, active[j].as_str(), load_order[i].as_str());
            assert(ac[j as int] == active@[j as int]@);
            if m {
                found = true;
            }
            j = j + 1;
        }
        if found {
            let ghost before = res@;
            res.push(load_order[i].clone());
            assert(strings_view(res@) =~= strings_view(before).push(load_order@[i as int]@));
        }
        i = i + 1;
    }
    assert(lo.take(load_order.len() as int) =~= lo);
    res
}

/// Checks whether `loadorder.txt` and `plugins.txt` agree, given what each
/// lists (`None` where the file does not exist; the game has a
/// `loadorder.txt` where `has_load_order_file` says so).
pub fn check_self_consistency(
    game_id: GameId,
    has_load_order_file: bool,
    load_order_names: Option<Vec<String>>,
    active_plugin_names: Option<Vec<String>>,
) -> (res: SelfConsistency)
    ensures
        !has_load_order_file ==> res is ConsistentNoLoadOrderFile,
        has_load_order_file && load_order_names is None ==> res is ConsistentNoLoadOrderFile,
        has_load_order_file && load_order_names is Some && active_plugin_names is None ==> res is ConsistentOnlyLoadOrderFile,
        has_load_order_file ==> match (load_order_names, active_plugin_names) {
            (Some(l), Some(a)) => if spec_files_agree(game_id, strings_view(l@), strings_view(a@)) {
                res matches SelfConsistency::ConsistentWithNames(n) && strings_view(n@) == strings_view(l@)
            } else {
                res is Inconsistent
            },
            _ => true,
        },
{
    if !has_load_order_file {
        return SelfConsistency::ConsistentNoLoadOrderFile;
    }
    let load_order = match load_order_names {
        None => return SelfConsistency::ConsistentNoLoadOrderFile,
        Some(l) => l,
    };
    let active = match active_plugin_names {
        None => return SelfConsistency::ConsistentOnlyLoadOrderFile,
        Some(a) => a,
    };
    let filtered = filter_active_in_order(game_id, &load_order, &active);
    let ghost fv = strings_view(filtered@);
    let ghost av = strings_view(active@);
    let mut k: usize = 0;
    while k < filtered.len() && k < active.len()
        invariant
            k <= filtered.len(),
            fv == strings_view(filtered@),
            av == strings_view(active@),
            forall|t: int| 0 <= t < k ==> spec_plugin_names_match(game_id, #[trigger] fv[t], av[t]),
        decreases filtered.len() - k,
    {
        if !plugin_names_match(game_id, filtered[k].as_str(), active[k].as_str()) {
            assert(!spec_plugin_names_match(game_id, fv[k as int], av[k as int]));
            return SelfConsistency::Inconsistent;
        }
        k = k + 1;
    }
    SelfConsistency::ConsistentWithNames(load_order)
}

/// The names that decide whether a textfile-based load order is ambiguous:
/// none where `loadorder.txt` and `plugins.txt` disagree, the names they
/// agree on, else those of the one file that is read (`plugins.txt`'s where
/// there is no `loadorder.txt`, else `loadorder.txt`'s).
pub fn textfile_listed_names(
    consistency: SelfConsistency,
    load_order_names: Option<Vec<String>>,
    active_names: Vec<String>,
) -> (res: Option<Vec<String>>)
    ensures
        match consistency {
            SelfConsistency::Inconsistent => res is None,
            SelfConsistency::ConsistentWithNames(n) => res matches Some(v) && v@ == n@,
            SelfConsistency::ConsistentNoLoadOrderFile => res matches Some(v) && v@ == active_names@,
            SelfConsistency::ConsistentOnlyLoadOrderFile => res matches Some(v) && match load_order_names {
                Some(l) => v@ == l@,
                None => v@.len() == 0,
            },
        },
{
    match consistency {
        SelfConsistency::Inconsistent => None,
        SelfConsistency::ConsistentWithNames(n) => Some(n),
        SelfConsistency::ConsistentNoLoadOrderFile => Some(active_names),
        SelfConsistency::ConsistentOnlyLoadOrderFile => match load_order_names {
            Some(l) => Some(l),
            None => Some(Vec::new()),
        },
    }
}

/// The plugins that loading a textfile-based load order reads first, in
/// order and with whether each is active: the names of `loadorder.txt`,
/// inactive, where it exists (the active plugins then come from
/// `plugins.txt`), else those of `plugins.txt`, active.
pub fn textfile_load_tuples(load_order_names: Option<Vec<String>>, active_names: &Vec<String>) -> (res: Vec<(String, bool)>)
    ensures
        tuples_view(res@) == match load_order_names {
            Some(n) => strings_view(n@).map_values(|x: Seq<char>| (x, false)),
            None => strings_view(active_names@).map_values(|x: Seq<char>| (x, true)),
        },
{
    let (names, active) = match load_order_names {
        Some(n) => (n, false),
        None => (clone_strings(active_names), true),
    };
    let ghost nv = strings_view(names@);
    let mut res: Vec<(String, bool)> = Vec::new();
    let mut i: usize = 0;
    while i < names.len()
        invariant
            i <= names.len(),
            nv == strings_view(names@),
            tuples_view(res@) == nv.take(i as int).map_values(|x: Seq<char>| (x, active)),
        decreases names.len() - i,
    {
        let ghost before = tuples_view(res@);
        res.push((owned(names[i].as_str()), active));
        assert(tuples_view(res@) =~= before.push((nv[i as int], active)));
        assert(nv.take(i + 1).map_values(|x: Seq<char>| (x, active))
            =~= nv.take(i as int).map_values(|x: Seq<char>| (x, active)).push((nv[i as int], active)));
        i = i + 1;
    }
    assert(nv.take(names.len() as int) =~= nv);
    res
}

/// The load order with the plugins inserted in turn.
pub open spec fn spec_insert_all(lo: LoadOrderView, ps: Seq<PluginView>) -> LoadOrderView
    decreases ps.len(),
{
    if ps.len() == 0 {
        lo
    } else {
        let before = spec_insert_all(lo, ps.drop_last());
        with_inserted(before, spec_insert_index(before, ps.last()), ps.last())
    }
}

/// What activating a plugin without checking the active plugin limits
/// gives: a plugin in the load order is activated (`None` where that fails);
/// a missing one is inserted where a loaded `candidate` is given.
pub open spec fn spec_activate_unvalidated(lo: LoadOrderView, name: Seq<char>, candidate: Option<PluginView>) -> Option<LoadOrderView> {
    match spec_index_of(lo.plugins, name) {
        Some(i) => {
            let p = lo.plugins[i];
            if spec_unghosts_on_activation(p) && spec_as_unghosted_path(p.path) is Err {
                None
            } else {
                Some(with_plugin(lo, i, PluginView { active: true, path: spec_activated_path(p), ..p }))
            }
        },
        None => match candidate {
            Some(c) => Some(with_inserted(lo, spec_insert_index(lo, c), c)),
            None => Some(lo),
        },
    }
}

/// The load order with the named plugins activated in turn, stopping at the
/// first failure.
pub open spec fn spec_activate_all(lo: LoadOrderView, names: Seq<Seq<char>>, candidates: Seq<Option<PluginView>>) -> Option<LoadOrderView>
    decreases names.len(),
{
    if names.len() == 0 {
        Some(lo)
    } else {
        match spec_activate_all(lo, names.drop_last(), candidates) {
            Some(before) => spec_activate_unvalidated(before, names.last(),
                if names.len() - 1 < candidates.len() { candidates[names.len() - 1] } else { None }),
            None => None,
        }
    }
}

pub open spec fn candidates_view(v: Seq<Option<Plugin>>) -> Seq<Option<PluginView>> {
    v.map_values(|o: Option<Plugin>| match o {
        Some(p) => Some(p@),
        None => None,
    })
}

pub open spec fn candidates_wf(v: Seq<Option<Plugin>>) -> bool {
    forall|i: int| 0 <= i < v.len() ==> (#[trigger] v[i] matches Some(p) ==> p.wf())
}

impl LoadOrder {
    /// Hoists masters that other masters depend on (see `hoist_masters`).
    pub fn hoist_masters(&mut self)
        requires
            old(self).wf(),
        ensures
            final(self).wf(),
            final(self)@ == (LoadOrderView {
                plugins: spec_move_elements(old(self)@.plugins, spec_hoist_moves(old(self)@.plugins, old(self)@.plugins.len() as int)),
                ..old(self)@
            }),
    {
        hoist_masters(&mut self.plugins);
    }

    /// Inserts the loaded plugins in turn, each at its insert position.
    pub fn load_unique_plugins(&mut self, plugins: Vec<Plugin>)
        requires
            old(self).wf(),
            plugins_wf(plugins@),
        ensures
            final(self).wf(),
            final(self)@ == spec_insert_all(old(self)@, plugins_view(plugins@)),
    {
        let ghost ps = plugins_view(plugins@);
        let ghost start = self@;
        let mut plugins = plugins;
        let n = plugins.len();
        let mut i: usize = 0;
        assert(ps.take(0) =~= Seq::<PluginView>::empty());
        while plugins.len() > 0
            invariant
                self.wf(),
                i + plugins.len() == n,
                n == ps.len(),
                forall|j: int| 0 <= j < plugins.len() ==> #[trigger] plugins@[j]@ == ps[i + j] && plugins@[j].wf(),
                self@ == spec_insert_all(start, ps.take(i as int)),
            decreases plugins.len(),
        {
            let ghost before = plugins@;
            let p = plugins.remove(0);
            assert(p@ == ps[i as int]);
            assert forall|j: int| 0 <= j < plugins.len() implies #[trigger] plugins@[j]@ == ps[i + 1 + j] && plugins@[j].wf() by {
                assert(plugins@[j] == before[j + 1]);
                assert(before[j + 1]@ == ps[i + (j + 1)]);
            }
            assert(ps.take(i + 1).drop_last() =~= ps.take(i as int));
            self.insert(p);
            i = i + 1;
        }
        assert(ps.take(i as int) =~= ps);
    }

    /// Activates a plugin without checking the active plugin limits: one in
    /// the load order is activated; a missing one is inserted where loading
    /// it gave `candidate`, which should be active.
    pub fn activate_unvalidated(&mut self, filename: &str, candidate: Option<Plugin>) -> (res: Result<(), Error>)
        requires
            old(self).wf(),
            candidate matches Some(p) ==> p.wf(),
        ensures
            final(self).wf(),
            match spec_activate_unvalidated(old(self)@, filename@, match candidate { Some(p) => Some(p@), None => None }) {
                Some(lo) => res is Ok && final(self)@ == lo,
                None => res is Err && final(self)@ == old(self)@,
            },
    {
        let ghost ps = plugins_view(self.plugins@);
        match find_plugin_index(&self.plugins, filename) {
            Some(index) => {
                let ghost old_plugins = self.plugins@;
                assert(ps[index as int] == self.plugins@[index as int]@);
                let r = self.plugins[index].activate();
                proof {
                    assert forall|j: int| 0 <= j < self.plugins@.len() implies (#[trigger] self.plugins@[j]).wf() by {
                        if j != index {
                            assert(self.plugins@[j] == old_plugins[j]);
                        }
                    }
                    match r {
                        Ok(_) => {
                            assert(plugins_view(self.plugins@) =~= ps.update(index as int, self.plugins@[index as int]@));
                        },
                        Err(_) => {
                            assert(plugins_view(self.plugins@) =~= ps);
                        },
                    }
                }
                r
            },
            None => {
                match candidate {
                    Some(p) => {
                        self.insert(p);
                    },
                    None => {},
                }
                Ok(())
            },
        }
    }

    /// Activates the game's implicitly active plugins in turn, stopping at
    /// the first failure: `candidates` holds, for each of them, the plugin
    /// as loaded from its file (active), where it could be loaded.
    pub fn add_implicitly_active_plugins(&mut self, candidates: Vec<Option<Plugin>>) -> (res: Result<(), Error>)
        requires
            old(self).wf(),
            candidates_wf(candidates@),
        ensures
            final(self).wf(),
            match spec_activate_all(old(self)@, old(self)@.settings.implicitly_active_plugins, candidates_view(candidates@)) {
                Some(lo) => res is Ok && final(self)@ == lo,
                None => res is Err,
            },
    {
        let names = clone_strings(self.game_settings.implicitly_active_plugins());
        let ghost nv = strings_view(names@);
        let ghost cv = candidates_view(candidates@);
        let ghost start = self@;
        let mut candidates = candidates;
        let mut i: usize = 0;
        while i < names.len()
            invariant
                i <= names.len(),
                self.wf(),
                nv == strings_view(names@),
                nv == start.settings.implicitly_active_plugins,
                candidates@.len() == if i <= cv.len() { cv.len() - i } else { 0 },
                candidates_wf(candidates@),
                forall|j: int| 0 <= j < candidates@.len() ==> #[trigger] candidates_view(candidates@)[j] == cv[i + j],
                spec_activate_all(start, nv.take(i as int), cv) == Some(self@),
            decreases names.len() - i,
        {
            let ghost cands_before = candidates@;
            let candidate = if candidates.len() > 0 {
                let c = candidates.remove(0);
                assert(candidates_view(cands_before)[0] == cv[i as int]);
                proof {
                    assert forall|j: int| 0 <= j < candidates@.len() implies #[trigger] candidates_view(candidates@)[j] == cv[i + 1 + j] by {
                        assert(candidates@[j] == cands_before[j + 1]);
                        assert(candidates_view(cands_before)[j + 1] == cv[i + (j + 1)]);
                    }
                    assert forall|j: int| 0 <= j < candidates@.len() implies (#[trigger] candidates@[j] matches Some(p) ==> p.wf()) by {
                        assert(candidates@[j] == cands_before[j + 1]);
                    }
                    assert(cands_before[0] matches Some(p) ==> p.wf());
                }
                c
            } else {
                None
            };
            proof {
                assert(nv.take(i + 1).drop_last() =~= nv.take(i as int));
                assert(nv.take(i + 1).last() == names@[i as int]@);
            }
            match self.activate_unvalidated(names[i].as_str(), candidate) {
                Ok(()) => {},
                Err(e) => {
                    proof {
                        lemma_activate_all_stops(start, nv, cv, i as int + 1);
                    }
                    return Err(e);
                },
            }
            i = i + 1;
        }
        assert(nv.take(names.len() as int) =~= nv);
        Ok(())
    }

    /// Activates the plugins that the active plugins file lists, after
    /// deactivating all: names that no plugin matches are ignored, and the
    /// first plugin that fails to activate stops the loading.
    pub fn load_active_plugins(&mut self, plugin_names: &Vec<String>) -> (res: Result<(), Error>)
        requires
            old(self).wf(),
        ensures
            final(self).wf(),
            final(self)@.settings == old(self)@.settings,
            final(self)@.plugins.len() == old(self)@.plugins.len(),
            match spec_activate_all(spec_all_deactivated(old(self)@), strings_view(plugin_names@), Seq::empty()) {
                Some(lo) => res is Ok && final(self)@ == lo,
                None => res is Err,
            },
    {
        self.deactivate_all();
        let ghost nv = strings_view(plugin_names@);
        let ghost cv = Seq::<Option<PluginView>>::empty();
        let ghost start = self@;
        proof {
            assert(self@.plugins =~= spec_all_deactivated(old(self)@).plugins);
            assert(start == spec_all_deactivated(old(self)@));
            assert(nv.take(0) =~= Seq::<Seq<char>>::empty());
        }
        let mut i: usize = 0;
        while i < plugin_names.len()
            invariant
                i <= plugin_names.len(),
                self.wf(),
                nv == strings_view(plugin_names@),
                cv == Seq::<Option<PluginView>>::empty(),
                start == spec_all_deactivated(old(self)@),
                self@.settings == old(self)@.settings,
                self@.plugins.len() == old(self)@.plugins.len(),
                spec_activate_all(start, nv.take(i as int), cv) == Some(self@),
            decreases plugin_names.len() - i,
        {
            proof {
                assert(nv.take(i + 1).drop_last() =~= nv.take(i as int));
                assert(nv.take(i + 1).last() == plugin_names@[i as int]@);
            }
            match self.activate_unvalidated(plugin_names[i].as_str(), None) {
                Ok(()) => {},
                Err(e) => {
                    proof {
                        lemma_activate_all_stops(start, nv, cv, i as int + 1);
                    }
                    return Err(e);
                },
            }
            i = i + 1;
        }
        assert(nv.take(plugin_names.len() as int) =~= nv);
        Ok(())
    }
}

/// The load order with every plugin inactive.
pub open spec fn spec_all_deactivated(lo: LoadOrderView) -> LoadOrderView {
    LoadOrderView { plugins: lo.plugins.map_values(|p: PluginView| PluginView { active: false, ..p }), ..lo }
}

/// Once activating the names fails, activating more of them fails too.
proof fn lemma_activate_all_stops(lo: LoadOrderView, names: Seq<Seq<char>>, candidates: Seq<Option<PluginView>>, k: int)
    requires
        0 < k <= names.len(),
        spec_activate_all(lo, names.take(k), candidates) is None,
    ensures
        spec_activate_all(lo, names, candidates) is None,
    decreases names.len() - k,
{
    if k < names.len() {
        assert(names.take(k + 1).drop_last() =~= names.take(k));
        lemma_activate_all_stops(lo, names, candidates, k + 1);
    } else {
        assert(names.take(k) =~= names);
    }
}

/// Whether the plugin's name is among the names as a set of case-folded
/// names (without ghost extensions) holds them.
pub open spec fn listed(names: Seq<Seq<char>>, game: GameId, name: Seq<char>) -> bool {
    names_contain(names.map_values(|n: Seq<char>| dedup_key(n, game)), name)
}

/// A plugin whose position is defined without being listed: one that is
/// implicitly active, a blueprint plugin, or in Starfield a plugin whose
/// name starts with `BlueprintShips-` (Starfield removes the last two from
/// the file).
pub open spec fn position_implied(lo: LoadOrderView, p: PluginView) -> bool {
    ||| names_contain(lo.settings.implicitly_active_plugins, p.name)
    ||| p.is_blueprint
    ||| (lo.settings.id == GameId::Starfield && spec_starts_with_blueprint_ships(p.name))
}

fn keys_of(names: &Vec<String>, game_id: GameId) -> (res: Vec<String>)
    ensures
        strings_view(res@) == strings_view(names@).map_values(|n: Seq<char>| dedup_key(n, game_id)),
{
    let mut res: Vec<String> = Vec::new();
    let mut i: usize = 0;
    while i < names.len()
        invariant
            i <= names.len(),
            strings_view(res@) == strings_view(names@).take(i as int).map_values(|n: Seq<char>| dedup_key(n, game_id)),
        decreases names.len() - i,
    {
        let k = key_of(names[i].as_str(), game_id);
        let ghost before = strings_view(res@);
        let ghost kv = k@;
        res.push(k);
        assert(strings_view(res@) =~= before.push(kv));
        assert(strings_view(names@).take(i + 1) =~= strings_view(names@).take(i as int).push(names@[i as int]@));
        i = i + 1;
    }
    assert(strings_view(names@).take(names.len() as int) =~= strings_view(names@));
    res
}

impl LoadOrder {
    /// Whether a textfile-based load order is ambiguous: `loadorder.txt` and
    /// `plugins.txt` disagree (`listed` is `None`), or some plugin is not
    /// among the names that the files list.
    pub fn textfile_is_ambiguous(&self, listed_names: Option<&Vec<String>>) -> (res: bool)
        ensures
            res == match listed_names {
                None => true,
                Some(names) => exists|i: int| 0 <= i < self@.plugins.len()
                    && !listed(strings_view(names@), self@.settings.id, #[trigger] self@.plugins[i].name),
            },
    {
        let names = match listed_names {
            None => return true,
            Some(n) => n,
        };
        let game_id = self.game_settings.id();
        let keys = keys_of(names, game_id);
        let ghost ps = self@.plugins;
        let mut i: usize = 0;
        while i < self.plugins.len()
            invariant
                i <= self.plugins.len(),
                ps == self@.plugins,
                game_id == self@.settings.id,
                strings_view(keys@) == strings_view(names@).map_values(|n: Seq<char>| dedup_key(n, game_id)),
                forall|j: int| 0 <= j < i ==> listed(strings_view(names@), game_id, #[trigger] ps[j].name),
            decreases self.plugins.len() - i,
        {
            assert(ps[i as int] == self.plugins@[i as int]@);
            if !crate::game_settings::any_name_matches(&keys, self.plugins[i].name()) {
                return true;
            }
            i = i + 1;
        }
        false
    }

    /// Whether an asterisk-based load order is ambiguous: some plugin whose
    /// position is not implied is not among the names that `plugins.txt`
    /// lists (`listed_names`; none where the file is ignored).
    pub fn asterisk_is_ambiguous(&self, listed_names: &Vec<String>) -> (res: bool)
        ensures
            res == exists|i: int| 0 <= i < self@.plugins.len()
                && !position_implied(self@, #[trigger] self@.plugins[i])
                && !listed(strings_view(listed_names@), self@.settings.id, self@.plugins[i].name),
    {
        let game_id = self.game_settings.id();
        let keys = keys_of(listed_names, game_id);
        let ghost ps = self@.plugins;
        let mut i: usize = 0;
        while i < self.plugins.len()
            invariant
                i <= self.plugins.len(),
                ps == self@.plugins,
                game_id == self@.settings.id,
                strings_view(keys@) == strings_view(listed_names@).map_values(|n: Seq<char>| dedup_key(n, game_id)),
                forall|j: int| 0 <= j < i ==> position_implied(self@, #[trigger] ps[j])
                    || listed(strings_view(listed_names@), game_id, ps[j].name),
            decreases self.plugins.len() - i,
        {
            let p = &self.plugins[i];
            assert(ps[i as int] == p@);
            let implied = self.game_settings.is_implicitly_active(p.name()) || p.is_blueprint_plugin()
                || (game_id == GameId::Starfield && starts_with_blueprint_ships(p.name()));
            if !implied && !crate::game_settings::any_name_matches(&keys, p.name()) {
                return true;
            }
            i = i + 1;
        }
        false
    }

    /// Removes the plugin from the load order, unless its file is installed
    /// (see `remove_with_install_state`). Whether it is installed is read
    /// from disk, at the path that `GameSettings::plugin_path` gives.
    pub fn remove(&mut self, plugin_name: &str) -> (res: Result<(), Error>)
        requires
            old(self).wf(),
        ensures
            final(self).wf(),
            super::writable::spec_removed(old(self)@, final(self)@, plugin_name@, true, res)
                || super::writable::spec_removed(old(self)@, final(self)@, plugin_name@, false, res),
    {
        let installed = match find_plugin_index(&self.plugins, plugin_name) {
            Some(_) => crate::ghostable_path::path_exists(self.game_settings.plugin_path(plugin_name).as_str()),
            None => false,
        };
        self.remove_with_install_state(plugin_name, installed)
    }

    /// The active plugins that Morrowind.ini lists in its `[Game Files]`
    /// section, in order.
    pub fn morrowind_active_plugin_names(ini: &IniDoc) -> (res: Vec<String>)
        ensures
            strings_view(res@) == spec_game_files(ini@),
    {
        match ini.find_section(Some("Game Files")) {
            None => {
                let v: Vec<String> = Vec::new();
                assert(strings_view(v@) =~= Seq::<Seq<char>>::empty());
                v
            },
            Some(i) => {
                let props = &ini.sections[i].properties;
                let mut v: Vec<String> = Vec::new();
                let mut j: usize = 0;
                while j < props.len()
                    invariant
                        j <= props.len(),
                        ini@[i as int].1 == props@.map_values(|p: (String, String)| crate::ini::property_view(p)),
                        strings_view(v@) == ini@[i as int].1.take(j as int).map_values(|p: (Seq<char>, Seq<char>)| p.1),
                    decreases props.len() - j,
                {
                    let ghost before = strings_view(v@);
                    let ghost pv = props@[j as int].1@;
                    v.push(props[j].1.clone());
                    assert(strings_view(v@) =~= before.push(pv));
                    assert(ini@[i as int].1.take(j + 1) =~= ini@[i as int].1.take(j as int).push(ini@[i as int].1[j as int]));
                    j = j + 1;
                }
                assert(ini@[i as int].1.take(props.len() as int) =~= ini@[i as int].1);
                v
            },
        }
    }
}

/// The values of the first `[Game Files]` section, in order.
pub open spec fn spec_game_files(doc: Seq<(Option<Seq<char>>, Seq<(Seq<char>, Seq<char>)>)>) -> Seq<Seq<char>> {
    match first_index(doc, crate::ini::pred_section_named(Some("Game Files"@))) {
        Some(i) => doc[i].1.map_values(|p: (Seq<char>, Seq<char>)| p.1),
        None => Seq::empty(),
    }
}

} // verus!
