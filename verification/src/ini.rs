//! Ini files: their parsed contents, and the settings that games read from
//! them.
use vstd::prelude::*;

use crate::encoding::{decode_windows_1252, windows_1252_decoded};
use crate::enums::{Error, GameId};
use crate::paths::{join, std_path_join};
use crate::seqs::{first_index, lemma_first_index_is, lemma_first_index_none};
use crate::text::{chars_of, opt_view, owned, str_eq, string_from_chars};
use crate::vdf::{parse_vdf, spec_user_config_language, spec_vdf_error_message, user_config_language, vdf_error_message, vdf_parsed};

verus! {

/// A section of an ini file: its name (`None` for the properties before
/// the first section header) and its properties in file order.
pub struct IniSection {
    pub name: Option<String>,
    pub properties: Vec<(String, String)>,
}

/// The sections of an ini file in file order, as `rust-ini` parses them.
pub struct IniDoc {
    pub sections: Vec<IniSection>,
}

/// A property as characters.
pub open spec fn property_view(p: (String, String)) -> (Seq<char>, Seq<char>) {
    (p.0@, p.1@)
}

/// A section as characters.
pub open spec fn section_view(s: IniSection) -> (Option<Seq<char>>, Seq<(Seq<char>, Seq<char>)>) {
    (
        match s.name {
            Some(n) => Some(n@),
            None => None,
        },
        s.properties@.map_values(|p: (String, String)| property_view(p)),
    )
}

impl View for IniDoc {
    type V = Seq<(Option<Seq<char>>, Seq<(Seq<char>, Seq<char>)>)>;

    open spec fn view(&self) -> Self::V {
        self.sections@.map_values(|s: IniSection| section_view(s))
    }
}

/// What `ini::Ini::load_from_str_opt` gives for the text with the given
/// quote and escape options: the sections in file order, each with its
/// name and its properties in file order, or the line, column and message
/// of a parse error.
pub uninterp spec fn ini_parsed(text: Seq<char>, quote: bool, escape: bool) -> Result<
    Seq<(Option<Seq<char>>, Seq<(Seq<char>, Seq<char>)>)>,
    (int, int, Seq<char>),
>;

/// Parses ini text with `ini::Ini::load_from_str_opt`, the other parse
/// options left at their defaults, and lists its sections and properties
/// in the order in which `Ini::iter` and `Properties::iter` give them (the
/// order of the file). The result is named by `ini_parsed`.
#[verifier::external_body]
pub(crate) fn parse_ini(text: &str, quote: bool, escape: bool) -> (res: Result<IniDoc, (usize, usize, String)>)
    ensures
        match res {
            Ok(doc) => ini_parsed(text@, quote, escape) == Ok::<_, (int, int, Seq<char>)>(doc@),
            Err(e) => ini_parsed(text@, quote, escape) == Err::<Seq<(Option<Seq<char>>, Seq<(Seq<char>, Seq<char>)>)>, _>((e.0 as int, e.1 as int, e.2@)),
        },
{
    let opt = ini::ParseOption { enabled_quote: quote, enabled_escape: escape, ..ini::ParseOption::default() };
    match ini::Ini::load_from_str_opt(text, opt) {
        Ok(doc) => Ok(IniDoc {
            sections: doc.iter().map(|(name, props)| IniSection {
                name: name.map(|n| n.to_string()),
                properties: props.iter().map(|(k, v)| (k.to_string(), v.to_string())).collect(),
            }).collect(),
        }),
        Err(e) => Err((e.line, e.col, e.msg.to_string())),
    }
}

/// The lines of the properties as `rust-ini` writes them with no escaping:
/// each key, `=`, its value and the line separator.
pub open spec fn spec_property_lines(props: Seq<(Seq<char>, Seq<char>)>, sep: Seq<char>) -> Seq<char>
    decreases props.len(),
{
    if props.len() == 0 {
        Seq::empty()
    } else {
        spec_property_lines(props.drop_last(), sep) + props.last().0 + seq!['='] + props.last().1 + sep
    }
}

/// Some section has properties.
pub open spec fn has_nonempty_section(doc: Seq<(Option<Seq<char>>, Seq<(Seq<char>, Seq<char>)>)>) -> bool {
    exists|i: int| 0 <= i < doc.len() && (#[trigger] doc[i]).1.len() > 0
}

/// The text that `rust-ini` writes for the sections with no escaping and
/// the line separator `sep`: each section's `[name]` line (none for the
/// general section) and property lines, with an empty line before each
/// section that has properties, except the first such.
pub open spec fn spec_ini_text(doc: Seq<(Option<Seq<char>>, Seq<(Seq<char>, Seq<char>)>)>, sep: Seq<char>) -> Seq<char>
    decreases doc.len(),
{
    if doc.len() == 0 {
        Seq::empty()
    } else {
        let init = doc.drop_last();
        let s = doc.last();
        spec_ini_text(init, sep)
            + (if s.1.len() > 0 && has_nonempty_section(init) { sep } else { Seq::empty() })
            + (match s.0 {
                Some(n) => seq!['['] + n + seq![']'] + sep,
                None => Seq::empty(),
            })
            + spec_property_lines(s.1, sep)
    }
}

/// Whitespace as `char::is_whitespace` has it (Unicode's `White_Space`).
pub open spec fn is_unicode_whitespace(c: char) -> bool {
    let n = c as u32;
    ||| 9 <= n <= 13
    ||| n == 0x20 || n == 0x85 || n == 0xA0 || n == 0x1680
    ||| 0x2000 <= n <= 0x200A
    ||| n == 0x2028 || n == 0x2029 || n == 0x202F || n == 0x205F || n == 0x3000
}

/// Neither end of the text is whitespace.
pub open spec fn untrimmed(t: Seq<char>) -> bool {
    t.len() > 0 ==> !is_unicode_whitespace(t[0]) && !is_unicode_whitespace(t.last())
}

/// A key that `rust-ini` reads back as written: not empty, without `=`,
/// `:`, a line break or a backslash, not starting with a comment or
/// section character, and without whitespace at either end.
pub open spec fn ini_key_reads_back(k: Seq<char>) -> bool {
    &&& k.len() > 0
    &&& untrimmed(k)
    &&& k[0] != ';' && k[0] != '#' && k[0] != '['
    &&& forall|i: int| 0 <= i < k.len() ==> k[i] != '=' && k[i] != ':' && k[i] != '\n' && k[i] != '\r' && k[i] != '\\'
}

/// A value that `rust-ini` (with quotes and escapes off) reads back as
/// written: without a line break, without whitespace at either end, and not
/// ending in a backslash (which would continue it on the next line).
pub open spec fn ini_value_reads_back(v: Seq<char>) -> bool {
    &&& untrimmed(v)
    &&& v.len() > 0 ==> v.last() != '\\'
    &&& forall|i: int| 0 <= i < v.len() ==> v[i] != '\n' && v[i] != '\r'
}

/// A section name that `rust-ini` reads back as written: without `]` or a
/// line break, without whitespace at either end, and not ending in a
/// backslash.
pub open spec fn ini_section_name_reads_back(n: Seq<char>) -> bool {
    &&& untrimmed(n)
    &&& n.len() > 0 ==> n.last() != '\\'
    &&& forall|i: int| 0 <= i < n.len() ==> n[i] != ']' && n[i] != '\n' && n[i] != '\r'
}

/// Sections that `rust-ini` reads back as `spec_ini_text` writes them: the
/// general section first and only there, and every name, key and value one
/// that reads back.
pub open spec fn ini_reads_back(doc: Seq<(Option<Seq<char>>, Seq<(Seq<char>, Seq<char>)>)>) -> bool {
    &&& doc.len() > 0
    &&& doc[0].0 is None
    &&& forall|i: int| 0 < i < doc.len() ==> ((#[trigger] doc[i]).0 matches Some(n) && ini_section_name_reads_back(n))
    &&& forall|i: int, j: int| 0 <= i < doc.len() && 0 <= j < doc[i].1.len()
        ==> ini_key_reads_back(#[trigger] doc[i].1[j].0) && ini_value_reads_back(doc[i].1[j].1)
}

/// Parsing the text with quotes and escapes off gives the sections.
pub open spec fn parses_back_to(text: Seq<char>, doc: Seq<(Option<Seq<char>>, Seq<(Seq<char>, Seq<char>)>)>) -> bool {
    ini_parsed(text, false, false) == Ok::<_, (int, int, Seq<char>)>(doc)
}

/// Writes the sections with `ini::Ini::write_to_policy` and
/// `EscapePolicy::Nothing`, after building an `Ini` that holds them in
/// order (a new `Ini`'s empty general section, which writes nothing, comes
/// first). With nothing escaped, what it writes is `spec_ini_text` with
/// the default line separator, which is the machine's (`\r\n` on Windows,
/// else `\n`); the contract says which of the two it is no further. Where
/// every name, key and value is one that `rust-ini`'s parser reads back (see
/// `ini_reads_back`: it trims whitespace, ends a key at `=` or `:`, treats a
/// line start of `;`, `#` or `[` specially and continues a line after a
/// final backslash), parsing the text with quotes and escapes off gives the
/// sections back.
#[verifier::external_body]
pub(crate) fn write_ini(doc: &IniDoc) -> (res: String)
    ensures
        res@ == spec_ini_text(doc@, seq!['\n']) || res@ == spec_ini_text(doc@, seq!['\r', '\n']),
        ini_reads_back(doc@) ==> parses_back_to(res@, doc@),
{
    let mut ini = ini::Ini::new();
    for s in doc.sections.iter() {
        let mut props = ini::Properties::new();
        for (k, v) in s.properties.iter() { props.append(k.clone(), v.clone()); }
        match ini.entry(s.name.clone()) {
            ini::SectionEntry::Vacant(e) => { e.insert(props); },
            ini::SectionEntry::Occupied(mut e) => e.append(props),
        }
    }
    let mut out: Vec<u8> = Vec::new();
    let _ = ini.write_to_policy(&mut out, ini::EscapePolicy::Nothing);
    String::from_utf8_lossy(&out).into_owned()
}

pub open spec fn pred_section_named(name: Option<Seq<char>>) -> spec_fn((Option<Seq<char>>, Seq<(Seq<char>, Seq<char>)>)) -> bool {
    |s: (Option<Seq<char>>, Seq<(Seq<char>, Seq<char>)>)| s.0 == name
}

pub open spec fn pred_key(key: Seq<char>) -> spec_fn((Seq<char>, Seq<char>)) -> bool {
    |p: (Seq<char>, Seq<char>)| p.0 == key
}

/// The first value of the key in the first section of the name, as
/// `Ini::get_from` looks it up.
pub open spec fn spec_get_from(
    doc: Seq<(Option<Seq<char>>, Seq<(Seq<char>, Seq<char>)>)>,
    section: Option<Seq<char>>,
    key: Seq<char>,
) -> Option<Seq<char>> {
    match first_index(doc, pred_section_named(section)) {
        Some(i) => match first_index(doc[i].1, pred_key(key)) {
            Some(j) => Some(doc[i].1[j].1),
            None => None,
        },
        None => None,
    }
}

/// The values of the key among the properties, in order.
pub open spec fn spec_values_of(props: Seq<(Seq<char>, Seq<char>)>, key: Seq<char>) -> Seq<Seq<char>>
    decreases props.len(),
{
    if props.len() == 0 {
        Seq::empty()
    } else {
        let rest = spec_values_of(props.drop_last(), key);
        if props.last().0 == key {
            rest.push(props.last().1)
        } else {
            rest
        }
    }
}

/// All values of the key in the general section, as
/// `general_section().get_all` gives them.
pub open spec fn spec_general_values(
    doc: Seq<(Option<Seq<char>>, Seq<(Seq<char>, Seq<char>)>)>,
    key: Seq<char>,
) -> Seq<Seq<char>> {
    match first_index(doc, pred_section_named(None)) {
        Some(i) => spec_values_of(doc[i].1, key),
        None => Seq::empty(),
    }
}

/// Whether two optional strings hold the same characters.
fn opt_str_eq(a: &Option<String>, b: Option<&str>) -> (res: bool)
    ensures
        res == (match (a, b) {
            (Some(x), Some(y)) => x@ == y@,
            (None, None) => true,
            _ => false,
        }),
{
    match (a, b) {
        (Some(x), Some(y)) => str_eq(x.as_str(), y),
        (None, None) => true,
        _ => false,
    }
}

impl IniDoc {
    /// The index of the first section with the name.
    pub fn find_section(&self, name: Option<&str>) -> (res: Option<usize>)
        ensures
            match res {
                Some(i) => i < self.sections.len() && first_index(self@, pred_section_named(
                    match name { Some(n) => Some(n@), None => None },
                )) == Some(i as int),
                None => first_index(self@, pred_section_named(
                    match name { Some(n) => Some(n@), None => None },
                )) is None,
            },
    {
        let ghost wanted = match name { Some(n) => Some(n@), None => None::<Seq<char>> };
        let ghost pred = pred_section_named(wanted);
        let mut i: usize = 0;
        while i < self.sections.len()
            invariant
                i <= self.sections.len(),
                pred == pred_section_named(wanted),
                forall|j: int| 0 <= j < i ==> !(#[trigger] pred(self@[j])),
            decreases self.sections.len() - i,
        {
            if opt_str_eq(&self.sections[i].name, name) {
                proof { lemma_first_index_is(self@, pred, i as int); }
                return Some(i);
            }
            i = i + 1;
        }
        proof { lemma_first_index_none(self@, pred); }
        None
    }

    /// The first value of the key in the first section with the name, as
    /// `Ini::get_from` gives it.
    pub fn get_from(&self, section: Option<&str>, key: &str) -> (res: Option<String>)
        ensures
            match res {
                Some(v) => spec_get_from(self@, match section { Some(n) => Some(n@), None => None }, key@) == Some(v@),
                None => spec_get_from(self@, match section { Some(n) => Some(n@), None => None }, key@) is None,
            },
    {
        match self.find_section(section) {
            None => None,
            Some(i) => {
                let props = &self.sections[i].properties;
                let ghost pv = self@[i as int].1;
                let mut j: usize = 0;
                while j < props.len()
                    invariant
                        j <= props.len(),
                        pv == props@.map_values(|p: (String, String)| property_view(p)),
                        forall|t: int| 0 <= t < j ==> !(#[trigger] pred_key(key@)(pv[t])),
                    decreases props.len() - j,
                {
                    if str_eq(props[j].0.as_str(), key) {
                        proof { lemma_first_index_is(pv, pred_key(key@), j as int); }
                        return Some(props[j].1.clone());
                    }
                    j = j + 1;
                }
                proof { lemma_first_index_none(pv, pred_key(key@)); }
                None
            },
        }
    }

    /// All values of the key in the general section, in order.
    pub fn general_values(&self, key: &str) -> (res: Vec<String>)
        ensures
            res@.map_values(|s: String| s@) == spec_general_values(self@, key@),
    {
        let mut res: Vec<String> = Vec::new();
        match self.find_section(None) {
            None => {
                assert(res@.map_values(|s: String| s@) =~= Seq::<Seq<char>>::empty());
            },
            Some(i) => {
                let props = &self.sections[i].properties;
                let ghost pv = self@[i as int].1;
                let mut j: usize = 0;
                assert(pv.take(0) =~= Seq::<(Seq<char>, Seq<char>)>::empty());
                assert(res@.map_values(|s: String| s@) =~= Seq::<Seq<char>>::empty());
                while j < props.len()
                    invariant
                        j <= props.len(),
                        pv == props@.map_values(|p: (String, String)| property_view(p)),
                        res@.map_values(|s: String| s@) == spec_values_of(pv.take(j as int), key@),
                    decreases props.len() - j,
                {
                    assert(pv.take(j + 1).drop_last() =~= pv.take(j as int));
                    let ghost before = res@;
                    if str_eq(props[j].0.as_str(), key) {
                        res.push(props[j].1.clone());
                        assert(res@.map_values(|s: String| s@) =~= before.map_values(|s: String| s@).push(pv[j as int].1));
                    }
                    j = j + 1;
                }
                assert(pv.take(props.len() as int) =~= pv);
            },
        }
        res
    }
}

/// The ini file's text, decoded from Windows-1252, parsed without quote or
/// escape handling; a parse error names the file.
pub open spec fn spec_read_ini(path: Seq<char>, bytes: Seq<u8>, res: Result<IniDoc, Error>) -> bool {
    match ini_parsed(windows_1252_decoded(bytes), false, false) {
        Ok(d) => res matches Ok(doc) && doc@ == d,
        Err((l, c, m)) => res matches Err(Error::IniParsingError { path: p, line, column, message })
            && p@ == path && line == l && column == c && message@ == m,
    }
}

/// Parses an ini file's bytes, which games write in Windows-1252.
pub fn read_ini(ini_path: &str, bytes: &[u8]) -> (res: Result<IniDoc, Error>)
    ensures
        spec_read_ini(ini_path@, bytes@, res),
{
    let text = decode_windows_1252(bytes);
    match parse_ini(text.as_str(), false, false) {
        Ok(doc) => Ok(doc),
        Err((line, column, message)) => Err(Error::IniParsingError { path: owned(ini_path), line, column, message }),
    }
}

/// Whether the game uses its My Games directory, as an ini file at the
/// path says: unless the file sets `bUseMyGamesDirectory` to `0` in its
/// `General` section. `contents` holds the file's bytes, `None` where the
/// file does not exist.
pub fn use_my_games_directory(ini_path: &str, contents: Option<&[u8]>) -> (res: Result<bool, Error>)
    ensures
        match contents {
            None => res == Ok::<bool, Error>(true),
            Some(bytes) => match ini_parsed(windows_1252_decoded(bytes@), false, false) {
                Ok(d) => res == Ok::<bool, Error>(
                    spec_get_from(d, Some("General"@), "bUseMyGamesDirectory"@) != Some("0"@)),
                Err(_) => res is Err && spec_read_ini(ini_path@, bytes@, Err(res->Err_0)),
            },
        },
{
    match contents {
        None => Ok(true),
        Some(bytes) => match read_ini(ini_path, bytes) {
            Ok(doc) => {
                let value = doc.get_from(Some("General"), "bUseMyGamesDirectory");
                Ok(!opt_str_eq(&value, Some("0")))
            },
            Err(e) => Err(e),
        },
    }
}

/// The key of the `k`th test file setting.
pub open spec fn test_file_key(k: int) -> Seq<char> {
    if k == 0 { "sTestFile1"@ }
    else if k == 1 { "sTestFile2"@ }
    else if k == 2 { "sTestFile3"@ }
    else if k == 3 { "sTestFile4"@ }
    else if k == 4 { "sTestFile5"@ }
    else if k == 5 { "sTestFile6"@ }
    else if k == 6 { "sTestFile7"@ }
    else if k == 7 { "sTestFile8"@ }
    else if k == 8 { "sTestFile9"@ }
    else { "sTestFile10"@ }
}

fn test_file_key_str(k: usize) -> (res: &'static str)
    requires
        k < 10,
    ensures
        res@ == test_file_key(k as int),
{
    if k == 0 { "sTestFile1" }
    else if k == 1 { "sTestFile2" }
    else if k == 2 { "sTestFile3" }
    else if k == 3 { "sTestFile4" }
    else if k == 4 { "sTestFile5" }
    else if k == 5 { "sTestFile6" }
    else if k == 6 { "sTestFile7" }
    else if k == 7 { "sTestFile8" }
    else if k == 8 { "sTestFile9" }
    else { "sTestFile10" }
}

/// Optional strings as characters.
pub open spec fn opt_strings_view(v: Seq<Option<String>>) -> Seq<Option<Seq<char>>> {
    v.map_values(|o: Option<String>| match o {
        Some(s) => Some(s@),
        None => None,
    })
}

/// The ten test file settings of a parsed ini file's `General` section.
pub open spec fn spec_test_files_of(d: Seq<(Option<Seq<char>>, Seq<(Seq<char>, Seq<char>)>)>) -> Seq<Option<Seq<char>>> {
    Seq::new(10, |k: int| spec_get_from(d, Some("General"@), test_file_key(k)))
}

/// The test file settings of an ini file: `sTestFile1` to `sTestFile10` in
/// its `General` section, or ten `None`s where the file does not exist
/// (`contents` is `None`).
pub fn read_test_files(ini_path: &str, contents: Option<&[u8]>) -> (res: Result<Vec<Option<String>>, Error>)
    ensures
        match contents {
            None => res matches Ok(v) && opt_strings_view(v@) == Seq::new(10, |k: int| None::<Seq<char>>),
            Some(bytes) => match ini_parsed(windows_1252_decoded(bytes@), false, false) {
                Ok(d) => res matches Ok(v) && opt_strings_view(v@) == spec_test_files_of(d),
                Err(_) => res is Err && spec_read_ini(ini_path@, bytes@, Err(res->Err_0)),
            },
        },
{
    match contents {
        None => {
            let mut v: Vec<Option<String>> = Vec::new();
            let mut k: usize = 0;
            while k < 10
                invariant
                    k <= 10,
                    opt_strings_view(v@) == Seq::new(k as nat, |t: int| None::<Seq<char>>),
                decreases 10 - k,
            {
                let ghost before = v@;
                v.push(None);
                assert(opt_strings_view(v@) =~= opt_strings_view(before).push(None));
                assert(Seq::new((k + 1) as nat, |t: int| None::<Seq<char>>) =~= Seq::new(k as nat, |t: int| None::<Seq<char>>).push(None));
                k = k + 1;
            }
            Ok(v)
        },
        Some(bytes) => match read_ini(ini_path, bytes) {
            Err(e) => Err(e),
            Ok(doc) => {
                let ghost d = doc@;
                let mut v: Vec<Option<String>> = Vec::new();
                let mut k: usize = 0;
                while k < 10
                    invariant
                        k <= 10,
                        d == doc@,
                        opt_strings_view(v@) == spec_test_files_of(d).take(k as int),
                    decreases 10 - k,
                {
                    let value = doc.get_from(Some("General"), test_file_key_str(k));
                    let ghost before = v@;
                    v.push(value);
                    assert(opt_strings_view(v@) =~= opt_strings_view(before).push(spec_test_files_of(d)[k as int]));
                    assert(spec_test_files_of(d).take(k + 1) =~= spec_test_files_of(d).take(k as int).push(spec_test_files_of(d)[k as int]));
                    k = k + 1;
                }
                assert(spec_test_files_of(d).take(10) =~= spec_test_files_of(d));
                Ok(v)
            },
        },
    }
}

/// The settings of `base`, each replaced by that of `overrider` where the
/// latter is set.
pub open spec fn spec_merge_test_files(base: Seq<Option<Seq<char>>>, overrider: Seq<Option<Seq<char>>>) -> Seq<Option<Seq<char>>> {
    Seq::new(base.len(), |k: int| if k < overrider.len() && overrider[k] is Some { overrider[k] } else { base[k] })
}

/// Overwrites each test file setting of `base` with that of `overrider`,
/// where the latter is set.
pub fn merge_test_files(base: Vec<Option<String>>, overrider: &Vec<Option<String>>) -> (res: Vec<Option<String>>)
    ensures
        opt_strings_view(res@) == spec_merge_test_files(opt_strings_view(base@), opt_strings_view(overrider@)),
{
    let mut res = base;
    let ghost b = opt_strings_view(res@);
    let mut k: usize = 0;
    while k < res.len()
        invariant
            k <= res.len(),
            b.len() == res.len(),
            forall|t: int| 0 <= t < res.len() ==> #[trigger] opt_strings_view(res@)[t] == (
                if t < k { spec_merge_test_files(b, opt_strings_view(overrider@))[t] } else { b[t] }),
        decreases res.len() - k,
    {
        let ghost before = res@;
        if k < overrider.len() {
            match &overrider[k] {
                Some(s) => {
                    res.set(k, Some(s.clone()));
                },
                None => {},
            }
        }
        proof {
            assert forall|t: int| 0 <= t < res.len() implies #[trigger] opt_strings_view(res@)[t] == (
                if t < k + 1 { spec_merge_test_files(b, opt_strings_view(overrider@))[t] } else { b[t] }) by {
                if t != k {
                    assert(res@[t] == before[t]);
                    assert(opt_strings_view(before)[t] == opt_strings_view(res@)[t]);
                }
            }
        }
        k = k + 1;
    }
    assert(opt_strings_view(res@) =~= spec_merge_test_files(b, opt_strings_view(overrider@)));
    res
}

/// The set, non-empty settings, in order.
pub open spec fn spec_filter_test_files(v: Seq<Option<Seq<char>>>) -> Seq<Seq<char>>
    decreases v.len(),
{
    if v.len() == 0 {
        Seq::empty()
    } else {
        let rest = spec_filter_test_files(v.drop_last());
        match v.last() {
            Some(s) => if s.len() > 0 { rest.push(s) } else { rest },
            None => rest,
        }
    }
}

/// The test files that are set, in order, without empty names.
pub fn filter_test_files(test_files: Vec<Option<String>>) -> (res: Vec<String>)
    ensures
        res@.map_values(|s: String| s@) == spec_filter_test_files(opt_strings_view(test_files@)),
{
    let ghost v = opt_strings_view(test_files@);
    let mut res: Vec<String> = Vec::new();
    let mut k: usize = 0;
    assert(v.take(0) =~= Seq::<Option<Seq<char>>>::empty());
    assert(res@.map_values(|s: String| s@) =~= Seq::<Seq<char>>::empty());
    while k < test_files.len()
        invariant
            k <= test_files.len(),
            v == opt_strings_view(test_files@),
            res@.map_values(|s: String| s@) == spec_filter_test_files(v.take(k as int)),
        decreases test_files.len() - k,
    {
        assert(v.take(k + 1).drop_last() =~= v.take(k as int));
        let ghost before = res@;
        match &test_files[k] {
            Some(s) => {
                if s.unicode_len() > 0 {
                    res.push(s.clone());
                    assert(res@.map_values(|s: String| s@) =~= before.map_values(|s: String| s@).push(v[k as int]->Some_0));
                }
            },
            None => {},
        }
        k = k + 1;
    }
    assert(v.take(test_files.len() as int) =~= v);
    res
}

/// The ini files that hold a game's test file settings, in the order in
/// which they are read: `use_my_games` is what `use_my_games_directory`
/// says of Oblivion's ini in the game directory, `is_enderal` whether the
/// game is Enderal, and `language` Starfield's language code.
pub open spec fn spec_test_files_ini_paths(
    game: GameId,
    game_path: Seq<char>,
    my_games_path: Seq<char>,
    use_my_games: bool,
    is_enderal: bool,
    language: Seq<char>,
) -> Seq<Seq<char>> {
    match game {
        GameId::Morrowind | GameId::OpenMW => Seq::empty(),
        GameId::Oblivion => seq![if use_my_games { std_path_join(my_games_path, "Oblivion.ini"@) } else {
            std_path_join(game_path, "Oblivion.ini"@) }],
        GameId::Skyrim | GameId::SkyrimSE => seq![std_path_join(my_games_path,
            if is_enderal { "Enderal.ini"@ } else { "Skyrim.ini"@ })],
        GameId::SkyrimVR => seq![std_path_join(my_games_path, "SkyrimVR.ini"@)],
        GameId::Fallout3 => seq![std_path_join(my_games_path, "FALLOUT.INI"@)],
        GameId::FalloutNV => seq![std_path_join(my_games_path, "Fallout.ini"@)],
        GameId::Fallout4 => seq![std_path_join(my_games_path, "Fallout4.ini"@), std_path_join(my_games_path, "Fallout4Custom.ini"@)],
        GameId::Fallout4VR => seq![std_path_join(my_games_path, "Fallout4VR.ini"@), std_path_join(my_games_path, "Fallout4VRCustom.ini"@)],
        GameId::Starfield => seq![
            std_path_join(game_path, "Starfield.ini"@),
            std_path_join(my_games_path, "StarfieldCustom.ini"@),
            std_path_join(my_games_path, "Starfield_"@ + language + ".INI"@),
        ],
    }
}

/// The paths of the ini files that hold the game's test file settings, in
/// the order in which they are read.
pub fn test_files_ini_paths(
    game_id: GameId,
    game_path: &str,
    my_games_path: &str,
    use_my_games: bool,
    is_enderal: bool,
    language: &str,
) -> (res: Vec<String>)
    ensures
        res@.map_values(|s: String| s@) == spec_test_files_ini_paths(game_id, game_path@, my_games_path@, use_my_games, is_enderal, language@),
{
    let mut res: Vec<String> = Vec::new();
    match game_id {
        GameId::Morrowind | GameId::OpenMW => {},
        GameId::Oblivion => {
            if use_my_games {
                res.push(join(my_games_path, "Oblivion.ini"));
            } else {
                res.push(join(game_path, "Oblivion.ini"));
            }
        },
        GameId::Skyrim | GameId::SkyrimSE => {
            let filename = if is_enderal { "Enderal.ini" } else { "Skyrim.ini" };
            res.push(join(my_games_path, filename));
        },
        GameId::SkyrimVR => res.push(join(my_games_path, "SkyrimVR.ini")),
        GameId::Fallout3 => res.push(join(my_games_path, "FALLOUT.INI")),
        GameId::FalloutNV => res.push(join(my_games_path, "Fallout.ini")),
        GameId::Fallout4 => {
            res.push(join(my_games_path, "Fallout4.ini"));
            res.push(join(my_games_path, "Fallout4Custom.ini"));
        },
        GameId::Fallout4VR => {
            res.push(join(my_games_path, "Fallout4VR.ini"));
            res.push(join(my_games_path, "Fallout4VRCustom.ini"));
        },
        GameId::Starfield => {
            res.push(join(game_path, "Starfield.ini"));
            res.push(join(my_games_path, "StarfieldCustom.ini"));
            let mut filename = owned("Starfield_");
            filename.append(language);
            filename.append(".INI");
            res.push(join(my_games_path, filename.as_str()));
        },
    }
    assert(res@.map_values(|s: String| s@) =~= spec_test_files_ini_paths(game_id, game_path@, my_games_path@, use_my_games, is_enderal, language@));
    res
}

/// No test file setting.
pub open spec fn no_test_files() -> Seq<Option<Seq<char>>> {
    Seq::new(10, |k: int| None::<Seq<char>>)
}

/// The test file settings of the `n`th file of the list (none where there
/// is no such file, or the file does not exist), or `None` where the file
/// does not parse.
pub open spec fn spec_nth_test_files(files: Seq<(String, Option<Vec<u8>>)>, n: int) -> Option<Seq<Option<Seq<char>>>> {
    if 0 <= n < files.len() {
        match files[n].1 {
            None => Some(no_test_files()),
            Some(bytes) => match ini_parsed(windows_1252_decoded(bytes@), false, false) {
                Ok(d) => Some(spec_test_files_of(d)),
                Err(_) => None,
            },
        }
    } else {
        Some(no_test_files())
    }
}

/// How many ini files hold the game's test file settings.
pub open spec fn test_files_ini_count(game: GameId) -> int {
    match game {
        GameId::Morrowind | GameId::OpenMW => 0,
        GameId::Fallout4 | GameId::Fallout4VR => 2,
        GameId::Starfield => 3,
        _ => 1,
    }
}

/// The game's test files, from the settings of its ini files: Fallout 4's
/// custom ini overrides its base ini, and Starfield's custom ini overrides
/// its language ini, which overrides its base ini.
pub open spec fn spec_test_files(game: GameId, files: Seq<(String, Option<Vec<u8>>)>) -> Seq<Seq<char>> {
    let t0 = spec_nth_test_files(files, 0)->Some_0;
    let t1 = spec_nth_test_files(files, 1)->Some_0;
    let t2 = spec_nth_test_files(files, 2)->Some_0;
    match game {
        GameId::Morrowind | GameId::OpenMW => Seq::empty(),
        GameId::Fallout4 | GameId::Fallout4VR => spec_filter_test_files(spec_merge_test_files(t0, t1)),
        GameId::Starfield => spec_filter_test_files(spec_merge_test_files(spec_merge_test_files(t0, t2), t1)),
        _ => spec_filter_test_files(t0),
    }
}

fn nth_test_files(files: &Vec<(String, Option<Vec<u8>>)>, n: usize) -> (res: Result<Vec<Option<String>>, Error>)
    ensures
        match spec_nth_test_files(files@, n as int) {
            Some(t) => res matches Ok(v) && opt_strings_view(v@) == t,
            None => res is Err && spec_read_ini(files@[n as int].0@, files@[n as int].1->Some_0@, Err(res->Err_0)),
        },
{
    if n < files.len() {
        match &files[n].1 {
            None => read_test_files(files[n].0.as_str(), None),
            Some(bytes) => read_test_files(files[n].0.as_str(), Some(bytes.as_slice())),
        }
    } else {
        read_test_files("", None)
    }
}

/// The game's test files, given the paths and contents (`None` where a file
/// does not exist) of the ini files that `test_files_ini_paths` lists, in
/// that order. The first file that does not parse gives the error.
pub fn test_files(game_id: GameId, ini_files: &Vec<(String, Option<Vec<u8>>)>) -> (res: Result<Vec<String>, Error>)
    ensures
        (forall|k: int| 0 <= k < test_files_ini_count(game_id) ==> #[trigger] spec_nth_test_files(ini_files@, k) is Some)
            ==> (res matches Ok(v) && v@.map_values(|s: String| s@) == spec_test_files(game_id, ini_files@)),
        forall|k: int| 0 <= k < test_files_ini_count(game_id)
            && #[trigger] spec_nth_test_files(ini_files@, k) is None
            && (forall|j: int| 0 <= j < k ==> spec_nth_test_files(ini_files@, j) is Some)
            ==> (res is Err && spec_read_ini(ini_files@[k].0@, ini_files@[k].1->Some_0@, Err(res->Err_0))),
{
    match game_id {
        GameId::Morrowind | GameId::OpenMW => {
            let v: Vec<String> = Vec::new();
            assert(v@.map_values(|s: String| s@) =~= Seq::<Seq<char>>::empty());
            Ok(v)
        },
        GameId::Fallout4 | GameId::Fallout4VR => {
            let base = match nth_test_files(ini_files, 0) { Ok(t) => t, Err(e) => return Err(e) };
            let custom = match nth_test_files(ini_files, 1) { Ok(t) => t, Err(e) => return Err(e) };
            Ok(filter_test_files(merge_test_files(base, &custom)))
        },
        GameId::Starfield => {
            let base = match nth_test_files(ini_files, 0) { Ok(t) => t, Err(e) => return Err(e) };
            let custom = match nth_test_files(ini_files, 1) { Ok(t) => t, Err(e) => return Err(e) };
            let language = match nth_test_files(ini_files, 2) { Ok(t) => t, Err(e) => return Err(e) };
            let merged = merge_test_files(base, &language);
            Ok(filter_test_files(merge_test_files(merged, &custom)))
        },
        _ => {
            let base = match nth_test_files(ini_files, 0) { Ok(t) => t, Err(e) => return Err(e) };
            Ok(filter_test_files(base))
        },
    }
}

/// The language code that Starfield uses for a Steam language name.
pub open spec fn spec_map_steam_language(language: Seq<char>) -> Seq<char> {
    if language == "german"@ { "de"@ }
    else if language == "french"@ { "fr"@ }
    else if language == "italian"@ { "it"@ }
    else if language == "spanish"@ || language == "latam"@ { "es"@ }
    else if language == "schinese"@ { "zhhans"@ }
    else if language == "japanese"@ { "ja"@ }
    else if language == "polish"@ { "pl"@ }
    else if language == "brazilian"@ { "ptbr"@ }
    else { "en"@ }
}

/// Maps a Steam language name to the language code that Starfield uses.
pub fn map_steam_language(steam_language: &str) -> (res: &'static str)
    ensures
        res@ == spec_map_steam_language(steam_language@),
{
    if str_eq(steam_language, "german") { "de" }
    else if str_eq(steam_language, "french") { "fr" }
    else if str_eq(steam_language, "italian") { "it" }
    else if str_eq(steam_language, "spanish") || str_eq(steam_language, "latam") { "es" }
    else if str_eq(steam_language, "schinese") { "zhhans" }
    else if str_eq(steam_language, "japanese") { "ja" }
    else if str_eq(steam_language, "polish") { "pl" }
    else if str_eq(steam_language, "brazilian") { "ptbr" }
    else { "en" }
}

pub open spec fn is_hyphen() -> spec_fn(char) -> bool {
    |c: char| c == '-'
}

/// The part of a text before its first hyphen (all of it where it has none).
pub open spec fn before_hyphen(s: Seq<char>) -> Seq<char> {
    match first_index(s, is_hyphen()) {
        Some(i) => s.take(i),
        None => s,
    }
}

/// The text after its first hyphen, where it has one.
pub open spec fn after_hyphen(s: Seq<char>) -> Option<Seq<char>> {
    match first_index(s, is_hyphen()) {
        Some(i) => Some(s.skip(i + 1)),
        None => None,
    }
}

/// The language code that Starfield uses for a Windows language tag, read
/// from the tag's first two hyphen-separated parts.
pub open spec fn spec_map_windows_system_language(tag: Seq<char>) -> Seq<char> {
    let first = before_hyphen(tag);
    let second = match after_hyphen(tag) {
        Some(rest) => Some(before_hyphen(rest)),
        None => None,
    };
    if first == "fr"@ { "fr"@ }
    else if first == "es"@ { "es"@ }
    else if first == "pl"@ { "pl"@ }
    else if first == "de"@ { "de"@ }
    else if first == "it"@ { "it"@ }
    else if first == "ja"@ { "ja"@ }
    else if first == "pt"@ { if second == Some("BR"@) { "ptbr"@ } else { "en"@ } }
    else if first == "zh"@ { if second == Some("Hans"@) { "zhhans"@ } else { "en"@ } }
    else { "en"@ }
}

/// Splits a text at its first hyphen.
fn split_hyphen(s: &str) -> (res: (String, Option<String>))
    ensures
        res.0@ == before_hyphen(s@),
        opt_view_of(res.1) == after_hyphen(s@),
{
    let chars = chars_of(s);
    let mut i: usize = 0;
    while i < chars.len()
        invariant
            chars@ == s@,
            i <= chars.len(),
            forall|j: int| 0 <= j < i ==> !(#[trigger] is_hyphen()(s@[j])),
        decreases chars.len() - i,
    {
        if chars[i] == '-' {
            proof { lemma_first_index_is(s@, is_hyphen(), i as int); }
            let first = string_from_chars(&chars, 0, i);
            let rest = string_from_chars(&chars, i + 1, chars.len());
            assert(first@ =~= s@.take(i as int));
            assert(rest@ =~= s@.skip(i + 1));
            return (first, Some(rest));
        }
        i = i + 1;
    }
    proof { lemma_first_index_none(s@, is_hyphen()); }
    (owned(s), None)
}

pub open spec fn opt_view_of(o: Option<String>) -> Option<Seq<char>> {
    match o {
        Some(s) => Some(s@),
        None => None,
    }
}

/// Maps a Windows language tag (such as `en-GB`) to the language code that
/// Starfield uses.
pub fn map_windows_system_language(system_language: &str) -> (res: &'static str)
    ensures
        res@ == spec_map_windows_system_language(system_language@),
{
    let (first, rest) = split_hyphen(system_language);
    let second: Option<String> = match rest {
        Some(r) => Some(split_hyphen(r.as_str()).0),
        None => None,
    };
    let f = first.as_str();
    if str_eq(f, "fr") { "fr" }
    else if str_eq(f, "es") { "es" }
    else if str_eq(f, "pl") { "pl" }
    else if str_eq(f, "de") { "de" }
    else if str_eq(f, "it") { "it" }
    else if str_eq(f, "ja") { "ja" }
    else if str_eq(f, "pt") {
        if opt_str_eq(&second, Some("BR")) { "ptbr" } else { "en" }
    } else if str_eq(f, "zh") {
        if opt_str_eq(&second, Some("Hans")) { "zhhans" } else { "en" }
    } else { "en" }
}

/// The language in a Steam app manifest (the text of the file at
/// `manifest_path`): its `AppState.UserConfig.language`, if it has one (see
/// `spec_user_config_language`). A parse error is a `VdfParsingError` for
/// the path, with the error's message.
pub fn steam_manifest_language(manifest_path: &str, text: &str) -> (res: Result<Option<String>, Error>)
    ensures
        match vdf_parsed(text@) {
            Ok(t) => res matches Ok(o) && opt_view(o) == spec_user_config_language(t),
            Err(e) => res matches Err(Error::VdfParsingError(p, message))
                && p@ == manifest_path@ && message@ == spec_vdf_error_message(e),
        },
{
    match parse_vdf(text) {
        Ok(value) => Ok(user_config_language(&value)),
        Err(e) => Err(Error::VdfParsingError(owned(manifest_path), vdf_error_message(&e))),
    }
}

/// Starfield's language code: that of the language in its Steam app
/// manifest where the game was installed through Steam (`steam_language`
/// is `Some` and holds the manifest's `AppState.UserConfig.language`, if
/// any), else that of the system language, else `en`.
pub fn starfield_language(steam_language: Option<Option<&str>>, system_language: Option<&str>) -> (res: &'static str)
    ensures
        res@ == match steam_language {
            Some(Some(l)) => spec_map_steam_language(l@),
            Some(None) => "en"@,
            None => match system_language {
                Some(l) => spec_map_windows_system_language(l@),
                None => "en"@,
            },
        },
{
    match steam_language {
        Some(Some(l)) => map_steam_language(l),
        Some(None) => "en",
        None => match system_language {
            Some(l) => map_windows_system_language(l),
            None => "en",
        },
    }
}

} // verus!
