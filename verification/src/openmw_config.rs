//! OpenMW's config files: the values they hold, how paths in them resolve,
//! how configs merge, and in which order the config files load.
//!
//! OpenMW loads a local or global config, then each config directory that
//! loaded configs list; the last one loaded is the user's. The files are read
//! by the caller, which hands over their contents (`None` where a file does
//! not exist).
use vstd::prelude::*;

use crate::enums::Error;
use crate::ini::{ini_reads_back, parses_back_to, pred_section_named, property_view, section_view, spec_general_values, spec_get_from, spec_ini_text, spec_values_of, IniDoc, IniSection};
use crate::paths::{is_relative, join, path_eq, std_path_eq, std_path_is_relative, std_path_join};
use crate::seqs::{first_index, lemma_first_index_is, lemma_first_index_none};
use crate::text::{chars_of, clone_strings, opt_view, owned, push_char, str_eq, string_from_chars, strings_view};

verus! {

/// The directories that OpenMW's paths may be relative to.
pub struct FixedPaths {
    pub local: String,
    pub user_config: String,
    pub user_data: String,
    pub global_config: String,
    pub global_data: String,
    pub flatpak_app: Option<String>,
}

pub struct FixedPathsView {
    pub local: Seq<char>,
    pub user_config: Seq<char>,
    pub user_data: Seq<char>,
    pub global_config: Seq<char>,
    pub global_data: Seq<char>,
    pub flatpak_app: Option<Seq<char>>,
}

impl View for FixedPaths {
    type V = FixedPathsView;

    open spec fn view(&self) -> FixedPathsView {
        FixedPathsView {
            local: self.local@,
            user_config: self.user_config@,
            user_data: self.user_data@,
            global_config: self.global_config@,
            global_data: self.global_data@,
            flatpak_app: match self.flatpak_app {
                Some(p) => Some(p@),
                None => None,
            },
        }
    }
}

/// A value with its enclosing double quotes removed and its `&` escapes
/// resolved, read from just after the opening quote: the value ends at an
/// unescaped double quote, and a final `&` escapes nothing.
pub open spec fn spec_unquote(s: Seq<char>) -> Seq<char>
    decreases s.len(),
{
    if s.len() == 0 {
        Seq::empty()
    } else if s[0] == '"' {
        Seq::empty()
    } else if s[0] == '&' {
        if s.len() >= 2 {
            seq![s[1]] + spec_unquote(s.skip(2))
        } else {
            Seq::empty()
        }
    } else {
        seq![s[0]] + spec_unquote(s.skip(1))
    }
}

/// A config value as OpenMW reads a path from it: a value that starts with
/// a double quote is unquoted and unescaped, any other is taken as it is.
pub open spec fn spec_parse_path_value(value: Seq<char>) -> Seq<char> {
    if value.len() > 0 && value[0] == '"' {
        spec_unquote(value.skip(1))
    } else {
        value
    }
}

/// Reads a path from a config value: values may be enclosed in double
/// quotes and use `&` as an escape character.
pub fn parse_path_value(value: &str) -> (res: String)
    ensures
        res@ == spec_parse_path_value(value@),
{
    let chars = chars_of(value);
    if chars.len() == 0 || chars[0] != '"' {
        return owned(value);
    }
    let mut result = String::new();
    let mut i: usize = 1;
    proof {
        assert(result@ + spec_unquote(value@.skip(1)) =~= spec_unquote(value@.skip(1)));
    }
    while i < chars.len()
        invariant
            chars@ == value@,
            1 <= i <= chars.len(),
            result@ + spec_unquote(value@.skip(i as int)) == spec_unquote(value@.skip(1)),
        decreases chars.len() - i,
    {
        let ghost rest = value@.skip(i as int);
        let c = chars[i];
        assert(rest[0] == c);
        if c == '"' {
            assert(spec_unquote(rest) == Seq::<char>::empty());
            assert(result@ =~= result@ + spec_unquote(rest));
            return result;
        }
        if c == '&' {
            if i + 1 < chars.len() {
                let ghost r = result@;
                push_char(&mut result, chars[i + 1]);
                proof {
                    assert(rest[1] == chars@[i + 1]);
                    assert(rest.skip(2) =~= value@.skip(i + 2));
                    assert(result@ + spec_unquote(value@.skip(i + 2)) =~= r + spec_unquote(rest));
                }
                i = i + 2;
            } else {
                assert(spec_unquote(rest) == Seq::<char>::empty());
                assert(result@ =~= result@ + spec_unquote(rest));
                return result;
            }
        } else {
            let ghost r = result@;
            push_char(&mut result, c);
            proof {
                assert(rest.skip(1) =~= value@.skip(i + 1));
                assert(result@ + spec_unquote(value@.skip(i + 1)) =~= r + spec_unquote(rest));
            }
            i = i + 1;
        }
    }
    assert(value@.skip(i as int).len() == 0);
    assert(result@ =~= result@ + spec_unquote(value@.skip(i as int)));
    result
}

pub open spec fn is_question_mark() -> spec_fn(char) -> bool {
    |c: char| c == '?'
}

/// The directory that a `?token?` prefix names, if the token is known.
pub open spec fn token_dir(token: Seq<char>, fixed: FixedPathsView) -> Option<Seq<char>> {
    if token == "local"@ {
        Some(fixed.local)
    } else if token == "userconfig"@ {
        Some(fixed.user_config)
    } else if token == "userdata"@ {
        Some(fixed.user_data)
    } else if token == "global"@ {
        Some(fixed.global_data)
    } else {
        None
    }
}

/// Where a parsed path value points: relative paths are relative to the
/// config's directory; a Flatpak app's `/app/` paths are inside the app's
/// files; a `?token?` prefix stands for one of the fixed directories, and
/// an unknown token resolves to nothing.
pub open spec fn spec_resolve_path_value(parsed: Seq<char>, config_dir: Seq<char>, fixed: FixedPathsView) -> Option<Seq<char>> {
    if parsed.len() == 0 || parsed[0] != '?' {
        if std_path_is_relative(parsed) {
            Some(std_path_join(config_dir, parsed))
        } else {
            match fixed.flatpak_app {
                Some(app) => if parsed.len() >= 5 && parsed.take(5) == "/app/"@ {
                    Some(std_path_join(app, parsed.skip(5)))
                } else {
                    Some(parsed)
                },
                None => Some(parsed),
            }
        }
    } else {
        let rest = parsed.skip(1);
        match first_index(rest, is_question_mark()) {
            Some(i) => match token_dir(rest.take(i), fixed) {
                Some(dir) => if rest.skip(i + 1).len() == 0 {
                    Some(dir)
                } else {
                    Some(std_path_join(dir, rest.skip(i + 1)))
                },
                None => None,
            },
            None => Some(parsed),
        }
    }
}

/// Resolves a parsed path value; `None` where it starts with an unknown
/// `?token?`.
pub fn resolve_path_value(parsed_path: String, config_dir_path: &str, fixed_paths: &FixedPaths) -> (res: Option<String>)
    ensures
        match res {
            Some(p) => spec_resolve_path_value(parsed_path@, config_dir_path@, fixed_paths@) == Some(p@),
            None => spec_resolve_path_value(parsed_path@, config_dir_path@, fixed_paths@) is None,
        },
{
    let chars = chars_of(parsed_path.as_str());
    let n = chars.len();
    if n == 0 || chars[0] != '?' {
        if is_relative(parsed_path.as_str()) {
            return Some(join(config_dir_path, parsed_path.as_str()));
        }
        match &fixed_paths.flatpak_app {
            Some(app) => {
                if n >= 5 {
                    let head = string_from_chars(&chars, 0, 5);
                    if str_eq(head.as_str(), "/app/") {
                        let suffix = string_from_chars(&chars, 5, n);
                        assert(suffix@ =~= parsed_path@.skip(5));
                        return Some(join(app.as_str(), suffix.as_str()));
                    }
                }
                return Some(parsed_path);
            },
            None => {
                return Some(parsed_path);
            },
        }
    }
    let ghost rest = parsed_path@.skip(1);
    let mut i: usize = 1;
    while i < n
        invariant
            chars@ == parsed_path@,
            n == chars.len(),
            1 <= i <= n,
            rest == parsed_path@.skip(1),
            forall|j: int| 0 <= j < i - 1 ==> !(#[trigger] is_question_mark()(rest[j])),
        decreases n - i,
    {
        if chars[i] == '?' {
            proof { lemma_first_index_is(rest, is_question_mark(), i - 1); }
            let token = string_from_chars(&chars, 1, i);
            let suffix = string_from_chars(&chars, i + 1, n);
            assert(token@ =~= rest.take(i - 1));
            assert(suffix@ =~= rest.skip(i as int));
            let t = token.as_str();
            let dir: &String = if str_eq(t, "local") {
                &fixed_paths.local
            } else if str_eq(t, "userconfig") {
                &fixed_paths.user_config
            } else if str_eq(t, "userdata") {
                &fixed_paths.user_data
            } else if str_eq(t, "global") {
                &fixed_paths.global_data
            } else {
                return None;
            };
            if i + 1 == n {
                return Some(dir.clone());
            }
            return Some(join(dir.as_str(), suffix.as_str()));
        }
        i = i + 1;
    }
    proof { lemma_first_index_none(rest, is_question_mark()); }
    Some(parsed_path)
}

/// The values of an `openmw.cfg` that the library reads.
pub struct OpenMWConfig {
    pub replace: Vec<String>,
    pub config: Vec<String>,
    pub resources: Option<String>,
    pub data_local: Option<String>,
    pub data: Vec<String>,
    pub content: Vec<String>,
}

pub struct OpenMWConfigView {
    pub replace: Seq<Seq<char>>,
    pub config: Seq<Seq<char>>,
    pub resources: Option<Seq<char>>,
    pub data_local: Option<Seq<char>>,
    pub data: Seq<Seq<char>>,
    pub content: Seq<Seq<char>>,
}

impl View for OpenMWConfig {
    type V = OpenMWConfigView;

    open spec fn view(&self) -> OpenMWConfigView {
        OpenMWConfigView {
            replace: strings_view(self.replace@),
            config: strings_view(self.config@),
            resources: match self.resources {
                Some(p) => Some(p@),
                None => None,
            },
            data_local: match self.data_local {
                Some(p) => Some(p@),
                None => None,
            },
            data: strings_view(self.data@),
            content: strings_view(self.content@),
        }
    }
}

/// The config with no values.
pub open spec fn empty_config() -> OpenMWConfigView {
    OpenMWConfigView {
        replace: Seq::empty(),
        config: Seq::empty(),
        resources: None,
        data_local: None,
        data: Seq::empty(),
        content: Seq::empty(),
    }
}

impl Clone for OpenMWConfig {
    fn clone(&self) -> (res: OpenMWConfig)
        ensures
            res@ == self@,
    {
        OpenMWConfig {
            replace: clone_strings(&self.replace),
            config: clone_strings(&self.config),
            resources: self.resources.clone(),
            data_local: self.data_local.clone(),
            data: clone_strings(&self.data),
            content: clone_strings(&self.content),
        }
    }
}

impl Default for OpenMWConfig {
    fn default() -> (res: OpenMWConfig)
        ensures
            res@ == empty_config(),
    {
        let res = OpenMWConfig {
            replace: Vec::new(),
            config: Vec::new(),
            resources: None,
            data_local: None,
            data: Vec::new(),
            content: Vec::new(),
        };
        assert(res@.replace =~= Seq::<Seq<char>>::empty());
        assert(res@.config =~= Seq::<Seq<char>>::empty());
        assert(res@.data =~= Seq::<Seq<char>>::empty());
        assert(res@.content =~= Seq::<Seq<char>>::empty());
        res
    }
}

/// Whether the `replace` values include the name.
pub open spec fn replaces(replace: Seq<Seq<char>>, name: Seq<char>) -> bool {
    exists|i: int| 0 <= i < replace.len() && replace[i] == name
}

/// A later config merged into the earlier configs' merge: the first
/// `resources` and `data-local` values win, and each list is appended to,
/// unless the later config replaces it.
pub open spec fn spec_reduce_into(later: OpenMWConfigView, acc: OpenMWConfigView) -> OpenMWConfigView {
    OpenMWConfigView {
        resources: if acc.resources is Some { acc.resources } else { later.resources },
        data_local: if acc.data_local is Some { acc.data_local } else { later.data_local },
        config: if replaces(later.replace, "config"@) { later.config } else { acc.config + later.config },
        data: if replaces(later.replace, "data"@) { later.data } else { acc.data + later.data },
        content: if replaces(later.replace, "content"@) { later.content } else { acc.content + later.content },
        replace: if replaces(later.replace, "replace"@) { later.replace } else { acc.replace + later.replace },
    }
}

/// The configs merged in order.
pub open spec fn spec_reduce(configs: Seq<OpenMWConfigView>) -> OpenMWConfigView
    decreases configs.len(),
{
    if configs.len() == 0 {
        empty_config()
    } else if configs.len() == 1 {
        configs[0]
    } else {
        spec_reduce_into(configs.last(), spec_reduce(configs.drop_last()))
    }
}

/// Whether one of the strings is the name.
fn contains_str(v: &Vec<String>, name: &str) -> (res: bool)
    ensures
        res == replaces(strings_view(v@), name@),
{
    let mut i: usize = 0;
    while i < v.len()
        invariant
            i <= v.len(),
            forall|j: int| 0 <= j < i ==> strings_view(v@)[j] != name@,
        decreases v.len() - i,
    {
        if str_eq(v[i].as_str(), name) {
            assert(strings_view(v@)[i as int] == name@);
            return true;
        }
        i = i + 1;
    }
    false
}

/// Appends the strings of `tail` to `head`.
fn append_strings(head: &mut Vec<String>, tail: Vec<String>)
    ensures
        strings_view(final(head)@) == strings_view(old(head)@) + strings_view(tail@),
{
    let ghost t = tail@;
    let mut tail = tail;
    head.append(&mut tail);
    assert(strings_view(head@) =~= strings_view(old(head)@) + strings_view(t));
}

impl OpenMWConfig {
    /// Merges this config into the merge of the configs loaded before it.
    pub fn reduce_into(self, accumulator: Self) -> (res: Self)
        ensures
            res@ == spec_reduce_into(self@, accumulator@),
    {
        let later = self;
        let mut acc = accumulator;
        let replaces_config = contains_str(&later.replace, "config");
        let replaces_data = contains_str(&later.replace, "data");
        let replaces_content = contains_str(&later.replace, "content");
        let replaces_replace = contains_str(&later.replace, "replace");
        let config = if replaces_config {
            later.config
        } else {
            append_strings(&mut acc.config, later.config);
            acc.config
        };
        let data = if replaces_data {
            later.data
        } else {
            append_strings(&mut acc.data, later.data);
            acc.data
        };
        let content = if replaces_content {
            later.content
        } else {
            append_strings(&mut acc.content, later.content);
            acc.content
        };
        let replace = if replaces_replace {
            later.replace
        } else {
            append_strings(&mut acc.replace, later.replace);
            acc.replace
        };
        let resources = match acc.resources {
            Some(r) => Some(r),
            None => later.resources,
        };
        let data_local = match acc.data_local {
            Some(r) => Some(r),
            None => later.data_local,
        };
        OpenMWConfig { replace, config, resources, data_local, data, content }
    }

    /// Merges the configs in order; no config merges to an empty one.
    pub fn reduce(configs: Vec<Self>) -> (res: Self)
        ensures
            res@ == spec_reduce(configs@.map_values(|c: OpenMWConfig| c@)),
    {
        let ghost views = configs@.map_values(|c: OpenMWConfig| c@);
        let mut configs = configs;
        if configs.len() == 0 {
            return OpenMWConfig::default();
        }
        let mut acc = configs.remove(0);
        assert(views.take(1) =~= seq![acc@]);
        let mut k: usize = 1;
        while configs.len() > 0
            invariant
                1 <= k <= views.len(),
                configs@.len() == views.len() - k,
                forall|j: int| 0 <= j < configs@.len() ==> #[trigger] configs@[j]@ == views[k + j],
                acc@ == spec_reduce(views.take(k as int)),
            decreases configs.len(),
        {
            let next = configs.remove(0);
            assert(next@ == views[k as int]);
            assert(views.take(k + 1).drop_last() =~= views.take(k as int));
            acc = next.reduce_into(acc);
            k = k + 1;
        }
        assert(views.take(k as int) =~= views);
        acc
    }

    /// The data paths that the config adds: `data-local`, then the `data`
    /// values.
    pub fn into_additional_data_paths(self) -> (res: Vec<String>)
        ensures
            strings_view(res@) == match self@.data_local {
                Some(p) => seq![p] + self@.data,
                None => self@.data,
            },
    {
        let mut paths: Vec<String> = Vec::new();
        let ghost has_local = self.data_local is Some;
        match self.data_local {
            Some(p) => paths.push(p),
            None => {},
        }
        append_strings(&mut paths, self.data);
        paths
    }
}

/// The resolved paths of the values, without those that resolve to nothing.
pub open spec fn spec_resolve_all(values: Seq<Seq<char>>, config_dir: Seq<char>, fixed: FixedPathsView) -> Seq<Seq<char>>
    decreases values.len(),
{
    if values.len() == 0 {
        Seq::empty()
    } else {
        let rest = spec_resolve_all(values.drop_last(), config_dir, fixed);
        match spec_resolve_path_value(spec_parse_path_value(values.last()), config_dir, fixed) {
            Some(p) => rest.push(p),
            None => rest,
        }
    }
}

/// The resolved path of an optional value.
pub open spec fn spec_resolve_opt(value: Option<Seq<char>>, config_dir: Seq<char>, fixed: FixedPathsView) -> Option<Seq<char>> {
    match value {
        Some(v) => spec_resolve_path_value(spec_parse_path_value(v), config_dir, fixed),
        None => None,
    }
}

fn resolve_all(values: &Vec<String>, config_dir: &str, fixed: &FixedPaths) -> (res: Vec<String>)
    ensures
        strings_view(res@) == spec_resolve_all(strings_view(values@), config_dir@, fixed@),
{
    let ghost vs = strings_view(values@);
    let mut res: Vec<String> = Vec::new();
    let mut k: usize = 0;
    assert(vs.take(0) =~= Seq::<Seq<char>>::empty());
    assert(strings_view(res@) =~= Seq::<Seq<char>>::empty());
    while k < values.len()
        invariant
            k <= values.len(),
            vs == strings_view(values@),
            strings_view(res@) == spec_resolve_all(vs.take(k as int), config_dir@, fixed@),
        decreases values.len() - k,
    {
        assert(vs.take(k + 1).drop_last() =~= vs.take(k as int));
        assert(vs.take(k + 1).last() == values@[k as int]@);
        let ghost before = res@;
        match resolve_path_value(parse_path_value(values[k].as_str()), config_dir, fixed) {
            Some(p) => {
                res.push(p);
                assert(strings_view(res@) =~= strings_view(before).push(res@.last()@));
            },
            None => {},
        }
        k = k + 1;
    }
    assert(vs.take(values.len() as int) =~= vs);
    res
}

fn resolve_opt(value: Option<String>, config_dir: &str, fixed: &FixedPaths) -> (res: Option<String>)
    ensures
        match res {
            Some(p) => spec_resolve_opt(match value { Some(v) => Some(v@), None => None }, config_dir@, fixed@) == Some(p@),
            None => spec_resolve_opt(match value { Some(v) => Some(v@), None => None }, config_dir@, fixed@) is None,
        },
{
    match value {
        Some(v) => resolve_path_value(parse_path_value(v.as_str()), config_dir, fixed),
        None => None,
    }
}

/// The config that a parsed `openmw.cfg` in the directory holds.
pub open spec fn spec_config_of(
    doc: Seq<(Option<Seq<char>>, Seq<(Seq<char>, Seq<char>)>)>,
    config_dir: Seq<char>,
    fixed: FixedPathsView,
) -> OpenMWConfigView {
    OpenMWConfigView {
        data: spec_resolve_all(spec_general_values(doc, "data"@), config_dir, fixed),
        resources: spec_resolve_opt(spec_get_from(doc, None, "resources"@), config_dir, fixed),
        data_local: spec_resolve_opt(spec_get_from(doc, None, "data-local"@), config_dir, fixed),
        config: spec_resolve_all(spec_general_values(doc, "config"@), config_dir, fixed),
        replace: spec_general_values(doc, "replace"@),
        content: spec_general_values(doc, "content"@),
    }
}

/// Parses the text of an `openmw.cfg`, as UTF-8 and without quote or escape
/// handling; a parse error names the file.
pub open spec fn spec_read_openmw_cfg(path: Seq<char>, text: Seq<char>, res: Result<IniDoc, Error>) -> bool {
    match crate::ini::ini_parsed(text, false, false) {
        Ok(d) => res matches Ok(doc) && doc@ == d,
        Err((l, c, m)) => res matches Err(Error::IniParsingError { path: p, line, column, message })
            && p@ == path && line == l && column == c && message@ == m,
    }
}

/// Parses the text of the `openmw.cfg` at the path.
pub fn read_openmw_cfg(path: &str, text: &str) -> (res: Result<IniDoc, Error>)
    ensures
        spec_read_openmw_cfg(path@, text@, res),
{
    match crate::ini::parse_ini(text, false, false) {
        Ok(doc) => Ok(doc),
        Err((line, column, message)) => Err(Error::IniParsingError { path: owned(path), line, column, message }),
    }
}

/// The properties without those whose key is `data` or `content`.
pub open spec fn spec_without_listings(props: Seq<(Seq<char>, Seq<char>)>) -> Seq<(Seq<char>, Seq<char>)>
    decreases props.len(),
{
    if props.len() == 0 {
        Seq::empty()
    } else {
        let rest = spec_without_listings(props.drop_last());
        if props.last().0 == "data"@ || props.last().0 == "content"@ {
            rest
        } else {
            rest.push(props.last())
        }
    }
}

/// A property with the key for each of the values, in order.
pub open spec fn keyed(key: Seq<char>, values: Seq<Seq<char>>) -> Seq<(Seq<char>, Seq<char>)> {
    values.map_values(|v: Seq<char>| (key, v))
}

/// The general section's properties once its data paths and content are
/// replaced: the other properties in order, then a `data` property for each
/// data value and a `content` property for each plugin name.
pub open spec fn spec_general_props(
    props: Seq<(Seq<char>, Seq<char>)>,
    data: Seq<Seq<char>>,
    names: Seq<Seq<char>>,
) -> Seq<(Seq<char>, Seq<char>)> {
    spec_without_listings(props) + keyed("data"@, data) + keyed("content"@, names)
}

/// The config with its data paths and content replaced in the (first)
/// general section; one is added in front where there is none.
pub open spec fn spec_with_general_values(
    doc: Seq<(Option<Seq<char>>, Seq<(Seq<char>, Seq<char>)>)>,
    data: Seq<Seq<char>>,
    names: Seq<Seq<char>>,
) -> Seq<(Option<Seq<char>>, Seq<(Seq<char>, Seq<char>)>)> {
    match first_index(doc, pred_section_named(None)) {
        Some(i) => doc.update(i, (None, spec_general_props(doc[i].1, data, names))),
        None => seq![(None, spec_general_props(Seq::empty(), data, names))] + doc,
    }
}

/// `s` is the text that `rust-ini` writes for the config, with either line
/// separator.
pub open spec fn is_ini_text_of(s: Seq<char>, doc: Seq<(Option<Seq<char>>, Seq<(Seq<char>, Seq<char>)>)>) -> bool {
    s == spec_ini_text(doc, seq!['\n']) || s == spec_ini_text(doc, seq!['\r', '\n'])
}

/// The config that `openmw_cfg_text` writes for the file's current text
/// (`None` where there is no file), where that text parses.
pub open spec fn spec_written_cfg(
    existing: Option<Seq<char>>,
    data: Seq<Seq<char>>,
    names: Seq<Seq<char>>,
) -> Seq<(Option<Seq<char>>, Seq<(Seq<char>, Seq<char>)>)> {
    let base = match existing {
        None => seq![(None::<Seq<char>>, Seq::<(Seq<char>, Seq<char>)>::empty())],
        Some(t) => match crate::ini::ini_parsed(t, false, false) {
            Ok(d) => d,
            Err(_) => Seq::empty(),
        },
    };
    spec_with_general_values(base, data, names)
}

proof fn lemma_values_of_concat(a: Seq<(Seq<char>, Seq<char>)>, b: Seq<(Seq<char>, Seq<char>)>, key: Seq<char>)
    ensures
        spec_values_of(a + b, key) == spec_values_of(a, key) + spec_values_of(b, key),
    decreases b.len(),
{
    if b.len() == 0 {
        assert(a + b =~= a);
        assert(spec_values_of(a, key) + spec_values_of(b, key) =~= spec_values_of(a, key));
    } else {
        lemma_values_of_concat(a, b.drop_last(), key);
        assert((a + b).drop_last() =~= a + b.drop_last());
        assert((a + b).last() == b.last());
        if b.last().0 == key {
            assert(spec_values_of(a, key) + spec_values_of(b, key)
                =~= (spec_values_of(a, key) + spec_values_of(b.drop_last(), key)).push(b.last().1));
        } else {
            assert(spec_values_of(b, key) == spec_values_of(b.drop_last(), key));
        }
    }
}

proof fn lemma_values_of_without_listings(props: Seq<(Seq<char>, Seq<char>)>, key: Seq<char>)
    requires
        key == "data"@ || key == "content"@,
    ensures
        spec_values_of(spec_without_listings(props), key) == Seq::<Seq<char>>::empty(),
    decreases props.len(),
{
    if props.len() > 0 {
        lemma_values_of_without_listings(props.drop_last(), key);
        let rest = spec_without_listings(props.drop_last());
        if !(props.last().0 == "data"@ || props.last().0 == "content"@) {
            assert(rest.push(props.last()).drop_last() =~= rest);
        }
    }
}

proof fn lemma_values_of_keyed(k: Seq<char>, vs: Seq<Seq<char>>, key: Seq<char>)
    ensures
        spec_values_of(keyed(k, vs), key) == (if k == key { vs } else { Seq::<Seq<char>>::empty() }),
    decreases vs.len(),
{
    if vs.len() > 0 {
        lemma_values_of_keyed(k, vs.drop_last(), key);
        assert(keyed(k, vs).drop_last() =~= keyed(k, vs.drop_last()));
        if k == key {
            assert(vs.drop_last().push(vs.last()) =~= vs);
        }
    }
}

/// What `openmw_cfg_text` writes holds the data values and the active
/// plugins' names as the general section's `data` and `content` values, in
/// order; so where the written config reads back (`ini_reads_back`),
/// reading it gives the names and data paths written.
pub proof fn law_written_cfg_lists_values(
    doc: Seq<(Option<Seq<char>>, Seq<(Seq<char>, Seq<char>)>)>,
    data: Seq<Seq<char>>,
    names: Seq<Seq<char>>,
)
    ensures
        spec_general_values(spec_with_general_values(doc, data, names), "content"@) == names,
        spec_general_values(spec_with_general_values(doc, data, names), "data"@) == data,
{
    reveal_strlit("data");
    reveal_strlit("content");
    assert("data"@ != "content"@) by {
        assert("data"@.len() != "content"@.len());
    }
    let pred = pred_section_named(None);
    let written = spec_with_general_values(doc, data, names);
    let props = match first_index(doc, pred) {
        Some(i) => doc[i].1,
        None => Seq::empty(),
    };
    match first_index(doc, pred) {
        Some(i) => {
            crate::seqs::lemma_first_index_some(doc, pred);
            assert(written[i] == (None::<Seq<char>>, spec_general_props(props, data, names)));
            assert forall|j: int| 0 <= j < i implies !pred(#[trigger] written[j]) by {
                assert(written[j] == doc[j]);
            }
            lemma_first_index_is(written, pred, i);
        },
        None => {
            assert(written[0] == (None::<Seq<char>>, spec_general_props(props, data, names)));
            lemma_first_index_is(written, pred, 0);
        },
    }
    lemma_general_props_values(props, data, names);
}

proof fn lemma_general_props_values(props: Seq<(Seq<char>, Seq<char>)>, data: Seq<Seq<char>>, names: Seq<Seq<char>>)
    requires
        "data"@ != "content"@,
    ensures
        spec_values_of(spec_general_props(props, data, names), "content"@) == names,
        spec_values_of(spec_general_props(props, data, names), "data"@) == data,
{
    let a = spec_without_listings(props);
    let b = keyed("data"@, data);
    let c = keyed("content"@, names);
    assert(spec_general_props(props, data, names) == (a + b) + c);
    lemma_values_of_concat(a + b, c, "content"@);
    lemma_values_of_concat(a, b, "content"@);
    lemma_values_of_concat(a + b, c, "data"@);
    lemma_values_of_concat(a, b, "data"@);
    lemma_values_of_without_listings(props, "content"@);
    lemma_values_of_without_listings(props, "data"@);
    lemma_values_of_keyed("data"@, data, "content"@);
    lemma_values_of_keyed("content"@, names, "content"@);
    lemma_values_of_keyed("data"@, data, "data"@);
    lemma_values_of_keyed("content"@, names, "data"@);
    assert(Seq::<Seq<char>>::empty() + Seq::<Seq<char>>::empty() + names =~= names);
    assert(Seq::<Seq<char>>::empty() + data + Seq::<Seq<char>>::empty() =~= data);
}

/// The general section's properties once its data paths and content are
/// replaced (see `spec_general_props`).
fn general_props(props: &Vec<(String, String)>, data_values: &Vec<String>, active_plugin_names: &Vec<String>) -> (res: Vec<(String, String)>)
    ensures
        res@.map_values(|p: (String, String)| property_view(p)) == spec_general_props(
            props@.map_values(|p: (String, String)| property_view(p)), strings_view(data_values@), strings_view(active_plugin_names@)),
{
    let ghost pv = props@.map_values(|p: (String, String)| property_view(p));
    let mut res: Vec<(String, String)> = Vec::new();
    let mut i: usize = 0;
    while i < props.len()
        invariant
            i <= props.len(),
            pv == props@.map_values(|p: (String, String)| property_view(p)),
            res@.map_values(|p: (String, String)| property_view(p)) == spec_without_listings(pv.take(i as int)),
        decreases props.len() - i,
    {
        let key = props[i].0.as_str();
        let ghost before = res@.map_values(|p: (String, String)| property_view(p));
        assert(pv.take(i + 1).drop_last() =~= pv.take(i as int));
        assert(pv.take(i + 1).last() == pv[i as int]);
        assert(pv[i as int] == property_view(props@[i as int]));
        if !str_eq(key, "data") && !str_eq(key, "content") {
            res.push((owned(key), owned(props[i].1.as_str())));
            assert(res@.map_values(|p: (String, String)| property_view(p)) =~= before.push(pv[i as int]));
        }
        i = i + 1;
    }
    assert(pv.take(props.len() as int) =~= pv);
    let ghost kept = res@.map_values(|p: (String, String)| property_view(p));
    let mut j: usize = 0;
    while j < data_values.len()
        invariant
            j <= data_values.len(),
            res@.map_values(|p: (String, String)| property_view(p)) == kept + keyed("data"@, strings_view(data_values@).take(j as int)),
        decreases data_values.len() - j,
    {
        let ghost before = res@.map_values(|p: (String, String)| property_view(p));
        res.push((owned("data"), owned(data_values[j].as_str())));
        proof {
            assert(res@.map_values(|p: (String, String)| property_view(p)) =~= before.push(("data"@, data_values@[j as int]@)));
            assert(keyed("data"@, strings_view(data_values@).take(j + 1)) =~= keyed("data"@, strings_view(data_values@).take(j as int)).push(("data"@, data_values@[j as int]@)));
        }
        j = j + 1;
    }
    assert(strings_view(data_values@).take(data_values.len() as int) =~= strings_view(data_values@));
    let ghost with_data = res@.map_values(|p: (String, String)| property_view(p));
    let mut k: usize = 0;
    while k < active_plugin_names.len()
        invariant
            k <= active_plugin_names.len(),
            res@.map_values(|p: (String, String)| property_view(p)) == with_data + keyed("content"@, strings_view(active_plugin_names@).take(k as int)),
        decreases active_plugin_names.len() - k,
    {
        let ghost before = res@.map_values(|p: (String, String)| property_view(p));
        res.push((owned("content"), owned(active_plugin_names[k].as_str())));
        proof {
            assert(res@.map_values(|p: (String, String)| property_view(p)) =~= before.push(("content"@, active_plugin_names@[k as int]@)));
            assert(keyed("content"@, strings_view(active_plugin_names@).take(k + 1)) =~= keyed("content"@, strings_view(active_plugin_names@).take(k as int)).push(("content"@, active_plugin_names@[k as int]@)));
        }
        k = k + 1;
    }
    assert(strings_view(active_plugin_names@).take(active_plugin_names.len() as int) =~= strings_view(active_plugin_names@));
    res
}

/// The text of the user's `openmw.cfg` once its data paths (`data_values`,
/// already escaped) and active plugins are written to it, keeping the
/// file's other entries: `existing` is the file's current text (`None`
/// where there is no such file), and a parse error in it is returned as
/// `read_openmw_cfg` returns it. The text is written with nothing escaped,
/// as OpenMW's launcher does not escape backslashes.
pub fn openmw_cfg_text(cfg_path: &str, existing: Option<&str>, data_values: &Vec<String>, active_plugin_names: &Vec<String>) -> (res: Result<String, Error>)
    ensures
        res matches Ok(s) ==> ({
            let written = spec_written_cfg(match existing { Some(t) => Some(t@), None => None },
                strings_view(data_values@), strings_view(active_plugin_names@));
            ini_reads_back(written) ==> parses_back_to(s@, written)
        }),
        match existing {
            None => res matches Ok(s) && is_ini_text_of(s@, spec_with_general_values(
                seq![(None::<Seq<char>>, Seq::<(Seq<char>, Seq<char>)>::empty())], strings_view(data_values@), strings_view(active_plugin_names@))),
            Some(t) => match crate::ini::ini_parsed(t@, false, false) {
                Ok(d) => res matches Ok(s) && is_ini_text_of(s@, spec_with_general_values(
                    d, strings_view(data_values@), strings_view(active_plugin_names@))),
                Err(_) => res is Err && spec_read_openmw_cfg(cfg_path@, t@, Err(res->Err_0)),
            },
        },
{
    let mut doc = match existing {
        None => {
            let d0 = IniDoc { sections: vec![IniSection { name: None, properties: Vec::new() }] };
            assert(d0.sections@[0].properties@.map_values(|p: (String, String)| property_view(p))
                =~= Seq::<(Seq<char>, Seq<char>)>::empty());
            assert(d0@ =~= seq![(None::<Seq<char>>, Seq::<(Seq<char>, Seq<char>)>::empty())]);
            d0
        },
        Some(t) => match read_openmw_cfg(cfg_path, t) {
            Ok(d) => d,
            Err(e) => return Err(e),
        },
    };
    let ghost d = doc@;
    let ghost data = strings_view(data_values@);
    let ghost names = strings_view(active_plugin_names@);
    match doc.find_section(None) {
        Some(i) => {
            let props = general_props(&doc.sections[i].properties, data_values, active_plugin_names);
            let ghost pv = props@.map_values(|p: (String, String)| property_view(p));
            assert(doc@[i as int] == section_view(doc.sections@[i as int]));
            doc.sections.set(i, IniSection { name: None, properties: props });
            assert(section_view(doc.sections@[i as int]) == (None::<Seq<char>>, pv));
            assert(doc@ =~= d.update(i as int, (None, spec_general_props(d[i as int].1, data, names))));
        },
        None => {
            let empty: Vec<(String, String)> = Vec::new();
            let props = general_props(&empty, data_values, active_plugin_names);
            let ghost pv = props@.map_values(|p: (String, String)| property_view(p));
            assert(empty@.map_values(|p: (String, String)| property_view(p)) =~= Seq::<(Seq<char>, Seq<char>)>::empty());
            doc.sections.insert(0, IniSection { name: None, properties: props });
            assert(section_view(doc.sections@[0]) == (None::<Seq<char>>, pv));
            assert(doc@ =~= seq![(None, spec_general_props(Seq::empty(), data, names))] + d);
        },
    }
    Ok(crate::ini::write_ini(&doc))
}

/// The config in the directory's `openmw.cfg`, given the file's text
/// (`None` where there is no such file).
pub fn load_config(config_dir_path: &str, text: Option<&str>, fixed_paths: &FixedPaths) -> (res: Result<Option<OpenMWConfig>, Error>)
    ensures
        match text {
            None => res matches Ok(None),
            Some(t) => match crate::ini::ini_parsed(t@, false, false) {
                Ok(d) => res matches Ok(Some(c)) && c@ == spec_config_of(d, config_dir_path@, fixed_paths@),
                Err(_) => res is Err && spec_read_openmw_cfg(
                    std_path_join(config_dir_path@, "openmw.cfg"@), t@, Err(res->Err_0)),
            },
        },
{
    let text = match text {
        None => return Ok(None),
        Some(t) => t,
    };
    let cfg_path = join(config_dir_path, "openmw.cfg");
    let doc = match read_openmw_cfg(cfg_path.as_str(), text) {
        Ok(doc) => doc,
        Err(e) => return Err(e),
    };
    let data = resolve_all(&doc.general_values("data"), config_dir_path, fixed_paths);
    let resources = resolve_opt(doc.get_from(None, "resources"), config_dir_path, fixed_paths);
    let data_local = resolve_opt(doc.get_from(None, "data-local"), config_dir_path, fixed_paths);
    let config = resolve_all(&doc.general_values("config"), config_dir_path, fixed_paths);
    let replace = doc.general_values("replace");
    let content = doc.general_values("content");
    let c = OpenMWConfig { replace, config, resources, data_local, data, content };
    assert(c@.replace =~= spec_general_values(doc@, "replace"@));
    assert(c@.content =~= spec_general_values(doc@, "content"@));
    Ok(Some(c))
}

/// The active plugins that the user's `openmw.cfg` lists as `content`
/// values, in order, given the file's text (`None` where it does not exist).
pub fn read_active_plugin_names(user_config_path: &str, text: Option<&str>) -> (res: Result<Vec<String>, Error>)
    ensures
        match text {
            None => res matches Ok(v) && v@.len() == 0,
            Some(t) => match crate::ini::ini_parsed(t@, false, false) {
                Ok(d) => res matches Ok(v) && strings_view(v@) == spec_general_values(d, "content"@),
                Err(_) => res is Err && spec_read_openmw_cfg(user_config_path@, t@, Err(res->Err_0)),
            },
        },
{
    match text {
        None => Ok(Vec::new()),
        Some(t) => match read_openmw_cfg(user_config_path, t) {
            Ok(doc) => {
                let v = doc.general_values("content");
                assert(strings_view(v@) =~= v@.map_values(|s: String| s@));
                Ok(v)
            },
            Err(e) => Err(e),
        },
    }
}

/// The configs that loaded, in load order, and the directory of the last
/// one, which OpenMW treats as the user's.
pub struct OpenMWConfigState {
    pub loaded_configs: Vec<OpenMWConfig>,
    pub user_config_dir: String,
}

/// Which config a loader waits for.
#[derive(PartialEq, Eq, Structural)]
pub enum LoadPhase {
    Local,
    Global,
    Extra,
}

/// Loads OpenMW's config files in the order in which OpenMW loads them: the
/// local config, or else the global one, then each config directory that
/// loaded configs list, most recently listed first, skipping directories
/// already loaded. A config that replaces `config` drops all but the first
/// loaded config. The caller reads each file that a step asks for and hands
/// back what `load_config` made of it.
pub struct ConfigLoader {
    phase: LoadPhase,
    local: String,
    global_config: String,
    active_config_paths: Vec<String>,
    already_parsed_paths: Vec<String>,
    extra_config_dirs: Vec<String>,
    parsed_configs: Vec<OpenMWConfig>,
    pending: String,
}

pub struct ConfigLoaderView {
    pub phase: LoadPhase,
    pub local: Seq<char>,
    pub global_config: Seq<char>,
    pub active: Seq<Seq<char>>,
    pub already: Seq<Seq<char>>,
    pub extra: Seq<Seq<char>>,
    pub parsed: Seq<OpenMWConfigView>,
    pub pending: Seq<char>,
}

impl View for ConfigLoader {
    type V = ConfigLoaderView;

    closed spec fn view(&self) -> ConfigLoaderView {
        ConfigLoaderView {
            phase: self.phase,
            local: self.local@,
            global_config: self.global_config@,
            active: strings_view(self.active_config_paths@),
            already: strings_view(self.already_parsed_paths@),
            extra: strings_view(self.extra_config_dirs@),
            parsed: self.parsed_configs@.map_values(|c: OpenMWConfig| c@),
            pending: self.pending@,
        }
    }
}

/// What a step of the loader gives: the directory whose config to read
/// next, or the loaded configs and the user's config directory.
pub enum ConfigLoadStep {
    Read(ConfigLoader, String),
    Done(OpenMWConfigState),
}

pub enum ConfigLoadStepView {
    Read(ConfigLoaderView, Seq<char>),
    Done(Seq<OpenMWConfigView>, Seq<char>),
}

pub open spec fn step_view(s: ConfigLoadStep) -> ConfigLoadStepView {
    match s {
        ConfigLoadStep::Read(l, p) => ConfigLoadStepView::Read(l@, p@),
        ConfigLoadStep::Done(st) => ConfigLoadStepView::Done(
            st.loaded_configs@.map_values(|c: OpenMWConfig| c@), st.user_config_dir@),
    }
}

/// Whether one of the paths equals `p`, as `Path`s compare.
pub open spec fn path_in(paths: Seq<Seq<char>>, p: Seq<char>) -> bool {
    exists|i: int| 0 <= i < paths.len() && std_path_eq(#[trigger] paths[i], p)
}

/// The loader's next request once a config has been handled: the most
/// recently listed config directory not yet loaded, or the end.
pub open spec fn spec_next_extra(v: ConfigLoaderView) -> ConfigLoadStepView
    decreases v.extra.len(),
{
    if v.extra.len() == 0 {
        ConfigLoadStepView::Done(v.parsed, v.active.last())
    } else {
        let p = v.extra.last();
        let v2 = ConfigLoaderView { extra: v.extra.drop_last(), ..v };
        if path_in(v.already, p) {
            spec_next_extra(v2)
        } else {
            ConfigLoadStepView::Read(ConfigLoaderView { already: v.already.push(p), pending: p, phase: LoadPhase::Extra, ..v2 }, p)
        }
    }
}

/// The loader once the first config has loaded.
pub open spec fn spec_begin(v: ConfigLoaderView, c: OpenMWConfigView) -> ConfigLoadStepView {
    spec_next_extra(ConfigLoaderView { already: v.active, extra: c.config, parsed: seq![c], ..v })
}

/// A step of the loader, given what loading the requested config gave.
pub open spec fn spec_load_step(v: ConfigLoaderView, loaded: Option<OpenMWConfigView>) -> ConfigLoadStepView {
    match v.phase {
        LoadPhase::Local => match loaded {
            Some(c) => spec_begin(ConfigLoaderView { active: seq![v.local], ..v }, c),
            None => ConfigLoadStepView::Read(
                ConfigLoaderView { active: seq![v.global_config], phase: LoadPhase::Global, ..v }, v.global_config),
        },
        LoadPhase::Global => match loaded {
            Some(c) => spec_begin(v, c),
            None => ConfigLoadStepView::Done(Seq::empty(), v.global_config),
        },
        LoadPhase::Extra => match loaded {
            Some(c) => {
                let truncate = replaces(c.replace, "config"@) && v.parsed.len() > 1;
                let active = if truncate { v.active.take(1) } else { v.active };
                let parsed = if truncate { v.parsed.take(1) } else { v.parsed };
                spec_next_extra(ConfigLoaderView {
                    active: active.push(v.pending),
                    parsed: parsed.push(c),
                    extra: v.extra + c.config,
                    ..v
                })
            },
            None => spec_next_extra(ConfigLoaderView {
                active: v.active.push(v.pending),
                parsed: v.parsed.push(empty_config()),
                ..v
            }),
        },
    }
}

proof fn lemma_next_extra_reads_new_directory(v: ConfigLoaderView)
    ensures
        spec_next_extra(v) matches ConfigLoadStepView::Read(l, p) ==> !path_in(v.already, p)
            && l.already == v.already.push(p) && l.phase is Extra,
    decreases v.extra.len(),
{
    if v.extra.len() > 0 {
        lemma_next_extra_reads_new_directory(ConfigLoaderView { extra: v.extra.drop_last(), ..v });
    }
}

/// Past the local and global configs, each directory that the loader asks
/// for is one that it has not loaded yet (as `Path`s compare), and it joins
/// those loaded: no config directory is read twice, so the reading loop
/// ends once the distinct directories that the configs name run out.
pub proof fn law_config_loader_reads_each_directory_once(v: ConfigLoaderView, loaded: Option<OpenMWConfigView>)
    requires
        v.phase is Extra,
    ensures
        spec_load_step(v, loaded) matches ConfigLoadStepView::Read(l, p) ==> !path_in(v.already, p)
            && l.already == v.already.push(p) && l.phase is Extra,
{
    match loaded {
        Some(c) => {
            let truncate = replaces(c.replace, "config"@) && v.parsed.len() > 1;
            let active = if truncate { v.active.take(1) } else { v.active };
            let parsed = if truncate { v.parsed.take(1) } else { v.parsed };
            lemma_next_extra_reads_new_directory(ConfigLoaderView {
                active: active.push(v.pending),
                parsed: parsed.push(c),
                extra: v.extra + c.config,
                ..v
            });
        },
        None => {
            lemma_next_extra_reads_new_directory(ConfigLoaderView {
                active: v.active.push(v.pending),
                parsed: v.parsed.push(empty_config()),
                ..v
            });
        },
    }
}

impl ConfigLoader {
    /// A loader in the phase with the paths in use is one that a step gave.
    pub closed spec fn wf(&self) -> bool {
        !(self.phase is Local) ==> self.active_config_paths.len() >= 1
    }

    /// Starts loading: the local config directory is read first.
    pub fn start(fixed_paths: &FixedPaths) -> (res: (ConfigLoader, String))
        ensures
            res.0.wf(),
            res.0@ == (ConfigLoaderView {
                phase: LoadPhase::Local,
                local: fixed_paths@.local,
                global_config: fixed_paths@.global_config,
                active: Seq::empty(),
                already: Seq::empty(),
                extra: Seq::empty(),
                parsed: Seq::empty(),
                pending: Seq::empty(),
            }),
            res.1@ == fixed_paths@.local,
    {
        let loader = ConfigLoader {
            phase: LoadPhase::Local,
            local: fixed_paths.local.clone(),
            global_config: fixed_paths.global_config.clone(),
            active_config_paths: Vec::new(),
            already_parsed_paths: Vec::new(),
            extra_config_dirs: Vec::new(),
            parsed_configs: Vec::new(),
            pending: String::new(),
        };
        assert(loader@.active =~= Seq::<Seq<char>>::empty());
        assert(loader@.already =~= Seq::<Seq<char>>::empty());
        assert(loader@.extra =~= Seq::<Seq<char>>::empty());
        assert(loader@.parsed =~= Seq::<OpenMWConfigView>::empty());
        (loader, fixed_paths.local.clone())
    }

    fn next_extra(self) -> (res: ConfigLoadStep)
        requires
            self.active_config_paths.len() >= 1,
        ensures
            step_view(res) == spec_next_extra(self@),
            res matches ConfigLoadStep::Read(l, _) ==> l.wf(),
    {
        let mut this = self;
        loop
            invariant
                this.active_config_paths.len() >= 1,
                spec_next_extra(this@) == spec_next_extra(self@),
            decreases this.extra_config_dirs.len(),
        {
            let ghost before = this@;
            match this.extra_config_dirs.pop() {
                None => {
                    let last = this.active_config_paths[this.active_config_paths.len() - 1].clone();
                    let state = OpenMWConfigState { loaded_configs: this.parsed_configs, user_config_dir: last };
                    return ConfigLoadStep::Done(state);
                },
                Some(path) => {
                    assert(this@.extra =~= before.extra.drop_last());
                    let mut found = false;
                    let mut i: usize = 0;
                    while i < this.already_parsed_paths.len()
                        invariant
                            i <= this.already_parsed_paths.len(),
                            found == exists|j: int| 0 <= j < i && std_path_eq(#[trigger] before.already[j], path@),
                            before.already == strings_view(this.already_parsed_paths@),
                        decreases this.already_parsed_paths.len() - i,
                    {
                        let eq = path_eq(this.already_parsed_paths[i].as_str(), path.as_str());
                        proof { assert(before.already[i as int] == this.already_parsed_paths@[i as int]@); }
                        if eq {
                            found = true;
                        }
                        i = i + 1;
                    }
                    if !found {
                        this.already_parsed_paths.push(path.clone());
                        assert(this@.already =~= before.already.push(path@));
                        this.pending = path.clone();
                        this.phase = LoadPhase::Extra;
                        return ConfigLoadStep::Read(this, path);
                    }
                },
            }
        }
    }

    /// Hands over what `load_config` gave for the directory that the last
    /// step asked for, and takes the next step.
    pub fn step(self, loaded: Option<OpenMWConfig>) -> (res: ConfigLoadStep)
        requires
            self.wf(),
        ensures
            step_view(res) == spec_load_step(self@, match loaded { Some(c) => Some(c@), None => None }),
            res matches ConfigLoadStep::Read(l, _) ==> l.wf(),
    {
        let mut this = self;
        match this.phase {
            LoadPhase::Local => match loaded {
                Some(c) => {
                    let mut active: Vec<String> = Vec::new();
                    active.push(this.local.clone());
                    this.active_config_paths = active;
                    assert(this@.active =~= seq![this@.local]);
                    this.begin(c)
                },
                None => {
                    let mut active: Vec<String> = Vec::new();
                    active.push(this.global_config.clone());
                    this.active_config_paths = active;
                    assert(this@.active =~= seq![this@.global_config]);
                    this.phase = LoadPhase::Global;
                    let global = this.global_config.clone();
                    ConfigLoadStep::Read(this, global)
                },
            },
            LoadPhase::Global => match loaded {
                Some(c) => {
                    this.begin(c)
                },
                None => {
                    let state = OpenMWConfigState { loaded_configs: Vec::new(), user_config_dir: this.global_config };
                    assert(state.loaded_configs@.map_values(|c: OpenMWConfig| c@) =~= Seq::<OpenMWConfigView>::empty());
                    ConfigLoadStep::Done(state)
                },
            },
            LoadPhase::Extra => {
                let ghost v = this@;
                match loaded {
                    Some(c) => {
                        let ghost cv = c@;
                        if contains_str(&c.replace, "config") && this.parsed_configs.len() > 1 {
                            this.active_config_paths.truncate(1);
                            this.parsed_configs.truncate(1);
                            assert(this@.active =~= v.active.take(1));
                            assert(this@.parsed =~= v.parsed.take(1));
                        }
                        let ghost mid = this@;
                        let more = clone_strings(&c.config);
                        append_strings(&mut this.extra_config_dirs, more);
                        this.parsed_configs.push(c);
                        this.active_config_paths.push(this.pending.clone());
                        assert(this@.parsed =~= mid.parsed.push(cv));
                        assert(this@.active =~= mid.active.push(v.pending));
                        this.next_extra()
                    },
                    None => {
                        this.parsed_configs.push(OpenMWConfig::default());
                        this.active_config_paths.push(this.pending.clone());
                        assert(this@.parsed =~= v.parsed.push(empty_config()));
                        assert(this@.active =~= v.active.push(v.pending));
                        this.next_extra()
                    },
                }
            },
        }
    }

    fn begin(self, config: OpenMWConfig) -> (res: ConfigLoadStep)
        requires
            self.active_config_paths.len() >= 1,
        ensures
            step_view(res) == spec_begin(self@, config@),
            res matches ConfigLoadStep::Read(l, _) ==> l.wf(),
    {
        let mut this = self;
        this.already_parsed_paths = clone_strings(&this.active_config_paths);
        this.extra_config_dirs = clone_strings(&config.config);
        let ghost cv = config@;
        let mut parsed: Vec<OpenMWConfig> = Vec::new();
        parsed.push(config);
        this.parsed_configs = parsed;
        assert(this@.parsed =~= seq![cv]);
        this.next_extra()
    }
}

impl OpenMWConfigState {
    /// Whether the directory is the user's config directory, as `Path`s
    /// compare.
    pub fn is_user_config_dir(&self, dir: &str) -> (res: bool)
        ensures
            res == std_path_eq(self.user_config_dir@, dir@),
    {
        path_eq(self.user_config_dir.as_str(), dir)
    }
}

/// The configs merged, with the last (the user's) replaced by `user_config`
/// where the user's config directory is another: `user_config` is then
/// what `load_config` gave for that directory.
pub open spec fn spec_config_with_user_config_dir(
    configs: Seq<OpenMWConfigView>,
    same_dir: bool,
    user_config: Option<OpenMWConfigView>,
) -> OpenMWConfigView {
    if same_dir {
        spec_reduce(configs)
    } else {
        let kept = if configs.len() > 0 { configs.drop_last() } else { configs };
        spec_reduce(kept.push(match user_config {
            Some(c) => c,
            None => empty_config(),
        }))
    }
}

/// Merges the loaded configs, taking the user's config from
/// `user_config_dir` instead, where that is not the directory that OpenMW
/// would use: `user_config` is what `load_config` gave for it.
pub fn load_game_config_with_user_config_dir(
    config_state: OpenMWConfigState,
    user_config_dir: &str,
    user_config: Option<OpenMWConfig>,
) -> (res: OpenMWConfig)
    ensures
        res@ == spec_config_with_user_config_dir(
            config_state.loaded_configs@.map_values(|c: OpenMWConfig| c@),
            std_path_eq(config_state.user_config_dir@, user_config_dir@),
            match user_config { Some(c) => Some(c@), None => None },
        ),
{
    let ghost views = config_state.loaded_configs@.map_values(|c: OpenMWConfig| c@);
    let same = config_state.is_user_config_dir(user_config_dir);
    let mut configs = config_state.loaded_configs;
    if !same {
        let new_config = match user_config {
            Some(c) => c,
            None => OpenMWConfig::default(),
        };
        let ghost nv = new_config@;
        configs.pop();
        assert(configs@.map_values(|c: OpenMWConfig| c@) =~= if views.len() > 0 { views.drop_last() } else { views });
        configs.push(new_config);
        assert(configs@.map_values(|c: OpenMWConfig| c@) =~= (if views.len() > 0 { views.drop_last() } else { views }).push(nv));
    }
    OpenMWConfig::reduce(configs)
}

/// The loaded configs merged without the last one, which is the user's.
pub open spec fn spec_non_user_config(configs: Seq<OpenMWConfigView>) -> OpenMWConfigView {
    spec_reduce(if configs.len() > 0 { configs.drop_last() } else { configs })
}

/// Merges the loaded configs other than the user's.
pub fn load_non_user_config(config_state: OpenMWConfigState) -> (res: OpenMWConfig)
    ensures
        res@ == spec_non_user_config(config_state.loaded_configs@.map_values(|c: OpenMWConfig| c@)),
{
    let ghost views = config_state.loaded_configs@.map_values(|c: OpenMWConfig| c@);
    let mut configs = config_state.loaded_configs;
    configs.pop();
    assert(configs@.map_values(|c: OpenMWConfig| c@) =~= if views.len() > 0 { views.drop_last() } else { views });
    OpenMWConfig::reduce(configs)
}

/// The user's config directory: that of the last config that loaded.
pub fn user_config_dir(config_state: &OpenMWConfigState) -> (res: String)
    ensures
        res@ == config_state.user_config_dir@,
{
    config_state.user_config_dir.clone()
}

/// The `resources/vfs` directory: under the config's `resources` value, or
/// else under the game path's `resources` directory.
pub fn resources_vfs_path(game_path: &str, config: OpenMWConfig) -> (res: String)
    ensures
        res@ == std_path_join(match config@.resources {
            Some(r) => r,
            None => std_path_join(game_path@, "resources"@),
        }, "vfs"@),
{
    let resources = match config.resources {
        Some(r) => r,
        None => join(game_path, "resources"),
    };
    join(resources.as_str(), "vfs")
}

/// The data paths that the merged config adds.
pub fn additional_data_paths(config: OpenMWConfig) -> (res: Vec<String>)
    ensures
        strings_view(res@) == match config@.data_local {
            Some(p) => seq![p] + config@.data,
            None => config@.data,
        },
{
    config.into_additional_data_paths()
}

/// The data paths that the configs other than the user's add.
pub fn non_user_additional_data_paths(config_state: OpenMWConfigState) -> (res: Vec<String>)
    ensures
        strings_view(res@) == match spec_non_user_config(config_state.loaded_configs@.map_values(|c: OpenMWConfig| c@)).data_local {
            Some(p) => seq![p] + spec_non_user_config(config_state.loaded_configs@.map_values(|c: OpenMWConfig| c@)).data,
            None => spec_non_user_config(config_state.loaded_configs@.map_values(|c: OpenMWConfig| c@)).data,
        },
{
    load_non_user_config(config_state).into_additional_data_paths()
}

/// The active plugins that the configs other than the user's list.
pub fn non_user_active_plugin_names(config_state: OpenMWConfigState) -> (res: Vec<String>)
    ensures
        strings_view(res@) == spec_non_user_config(config_state.loaded_configs@.map_values(|c: OpenMWConfig| c@)).content,
{
    load_non_user_config(config_state).content
}

/// A data path escaped for `openmw.cfg`: each `&` and `"` preceded by `&`.
pub open spec fn spec_escape(s: Seq<char>) -> Seq<char>
    decreases s.len(),
{
    if s.len() == 0 {
        Seq::empty()
    } else {
        let rest = spec_escape(s.drop_last());
        let c = s.last();
        if c == '&' || c == '"' {
            rest.push('&').push(c)
        } else {
            rest.push(c)
        }
    }
}

/// A data path as `openmw.cfg` holds it: escaped and enclosed in double
/// quotes.
pub fn escape_openmw_data_value(value: &str) -> (res: String)
    ensures
        res@ == seq!['"'] + spec_escape(value@) + seq!['"'],
{
    let chars = chars_of(value);
    let mut result = String::new();
    push_char(&mut result, '"');
    let mut i: usize = 0;
    assert(value@.take(0) =~= Seq::<char>::empty());
    while i < chars.len()
        invariant
            chars@ == value@,
            i <= chars.len(),
            result@ == seq!['"'] + spec_escape(value@.take(i as int)),
        decreases chars.len() - i,
    {
        let c = chars[i];
        assert(value@.take(i + 1).drop_last() =~= value@.take(i as int));
        if c == '&' || c == '"' {
            push_char(&mut result, '&');
        }
        push_char(&mut result, c);
        i = i + 1;
    }
    assert(value@.take(chars.len() as int) =~= value@);
    push_char(&mut result, '"');
    result
}

/// The escaped form of one character: `&` before `&` and `"`.
pub open spec fn spec_escape_char(c: char) -> Seq<char> {
    if c == '&' || c == '"' {
        seq!['&', c]
    } else {
        seq![c]
    }
}

/// Escaping text that is two texts joined escapes each.
proof fn lemma_escape_concat(a: Seq<char>, b: Seq<char>)
    ensures
        spec_escape(a + b) == spec_escape(a) + spec_escape(b),
    decreases b.len(),
{
    if b.len() == 0 {
        assert(a + b =~= a);
        assert(spec_escape(b) =~= Seq::<char>::empty());
        assert(spec_escape(a) + spec_escape(b) =~= spec_escape(a));
    } else {
        lemma_escape_concat(a, b.drop_last());
        assert((a + b).drop_last() =~= a + b.drop_last());
        assert((a + b).last() == b.last());
        let c = b.last();
        if c == '&' || c == '"' {
            assert(spec_escape(a + b) =~= spec_escape(a) + spec_escape(b));
        } else {
            assert(spec_escape(a + b) =~= spec_escape(a) + spec_escape(b));
        }
    }
}

/// Unquoting escaped text followed by the closing quote gives the text.
proof fn lemma_unquote_escaped(v: Seq<char>)
    ensures
        spec_unquote(spec_escape(v) + seq!['"']) == v,
    decreases v.len(),
{
    if v.len() == 0 {
        assert(spec_escape(v) + seq!['"'] =~= seq!['"']);
    } else {
        let rest = v.skip(1);
        assert(v =~= seq![v[0]] + rest);
        lemma_escape_concat(seq![v[0]], rest);
        assert(seq![v[0]] =~= Seq::<char>::empty().push(v[0]));
        assert(Seq::<char>::empty().push(v[0]).drop_last() =~= Seq::<char>::empty());
        assert(spec_escape(Seq::<char>::empty()) =~= Seq::<char>::empty());
        assert(spec_escape(seq![v[0]]) =~= spec_escape_char(v[0]));
        lemma_unquote_escaped(rest);
        let tail = spec_escape(rest) + seq!['"'];
        let s = spec_escape(v) + seq!['"'];
        assert(s =~= spec_escape_char(v[0]) + tail);
        if v[0] == '&' || v[0] == '"' {
            assert(s[0] == '&');
            assert(s.skip(2) =~= tail);
        } else {
            assert(s[0] == v[0]);
            assert(s.skip(1) =~= tail);
        }
        assert(spec_unquote(s) =~= v);
    }
}

/// A data path that `escape_openmw_data_value` writes, `parse_path_value`
/// reads back unchanged.
pub proof fn law_escaped_data_value_reads_back(path: Seq<char>)
    ensures
        spec_parse_path_value(seq!['"'] + spec_escape(path) + seq!['"']) == path,
{
    let s = seq!['"'] + spec_escape(path) + seq!['"'];
    assert(s.skip(1) =~= spec_escape(path) + seq!['"']);
    lemma_unquote_escaped(path);
}

/// What the library learns of the system to find OpenMW's fixed
/// directories: the text of the Flatpak metadata file two directories above
/// the game path (`None` if it cannot be read), the home, config and local
/// data directories, the `HOST_XDG_CONFIG_HOME` and `HOST_XDG_DATA_HOME`
/// variables, and which of the known install locations exist.
#[derive(Default)]
pub struct SystemProbes {
    pub flatpak_metadata: Option<String>,
    pub home_dir: Option<String>,
    pub config_dir: Option<String>,
    pub data_local_dir: Option<String>,
    pub host_xdg_config_home: Option<String>,
    pub host_xdg_data_home: Option<String>,
    pub resources_vfs_exists: bool,
    pub host_etc_exists: bool,
    pub host_share_games_exists: bool,
    pub host_share_exists: bool,
    pub share_games_exists: bool,
}

/// Whether the Flatpak metadata names OpenMW's app.
pub open spec fn spec_is_flatpak_install(metadata: Option<Seq<char>>) -> bool {
    match metadata {
        Some(text) => match crate::ini::ini_parsed(text, true, true) {
            Ok(d) => spec_get_from(d, Some("Application"@), "name"@) == Some("org.openmw.OpenMW"@),
            Err(_) => false,
        },
        None => false,
    }
}

/// Whether OpenMW is a Flatpak install: its metadata file, parsed with the
/// default ini options, names the app `org.openmw.OpenMW`.
pub fn is_flatpak_install(metadata: Option<&str>) -> (res: bool)
    ensures
        res == spec_is_flatpak_install(match metadata { Some(m) => Some(m@), None => None }),
{
    match metadata {
        None => false,
        Some(text) => match crate::ini::parse_ini(text, true, true) {
            Ok(doc) => match doc.get_from(Some("Application"), "name") {
                Some(name) => str_eq(name.as_str(), "org.openmw.OpenMW"),
                None => false,
            },
            Err(_) => false,
        },
    }
}

/// An absolute path from an environment variable.
pub open spec fn absolute(value: Option<Seq<char>>) -> Option<Seq<char>> {
    match value {
        Some(v) => if !std_path_is_relative(v) { Some(v) } else { None },
        None => None,
    }
}

fn absolute_path(value: &Option<String>) -> (res: Option<String>)
    ensures
        opt_view(res) == absolute(opt_view(*value)),
{
    match value {
        Some(v) => if !is_relative(v.as_str()) { Some(v.clone()) } else { None },
        None => None,
    }
}

/// OpenMW's user config directory on Linux.
pub open spec fn spec_default_user_config_dir(is_flatpak: bool, probes: SystemProbesView) -> Option<Seq<char>> {
    if is_flatpak {
        match probes.home_dir {
            Some(h) => Some(std_path_join(h, ".var/app/org.openmw.OpenMW/config/openmw"@)),
            None => None,
        }
    } else {
        match (if absolute(probes.host_xdg_config_home) is Some { absolute(probes.host_xdg_config_home) } else { probes.config_dir }) {
            Some(d) => Some(std_path_join(d, "openmw"@)),
            None => None,
        }
    }
}

/// OpenMW's user data directory on Linux.
pub open spec fn spec_default_user_data_dir(is_flatpak: bool, probes: SystemProbesView) -> Option<Seq<char>> {
    if is_flatpak {
        match probes.home_dir {
            Some(h) => Some(std_path_join(h, ".var/app/org.openmw.OpenMW/data/openmw"@)),
            None => None,
        }
    } else {
        match (if absolute(probes.host_xdg_data_home) is Some { absolute(probes.host_xdg_data_home) } else { probes.data_local_dir }) {
            Some(d) => Some(std_path_join(d, "openmw"@)),
            None => None,
        }
    }
}

/// OpenMW's global config directory on Linux, guessed from the install.
pub open spec fn spec_default_global_config_dir(game_path: Seq<char>, is_flatpak: bool, probes: SystemProbesView) -> Seq<char> {
    if probes.resources_vfs_exists {
        game_path
    } else if is_flatpak {
        std_path_join(game_path, "../etc/openmw"@)
    } else if probes.host_etc_exists {
        "/run/host/etc/openmw"@
    } else {
        "/etc/openmw"@
    }
}

/// OpenMW's global data directory on Linux, guessed from the install.
pub open spec fn spec_default_global_data_dir(game_path: Seq<char>, is_flatpak: bool, probes: SystemProbesView) -> Seq<char> {
    if probes.resources_vfs_exists {
        game_path
    } else if is_flatpak {
        std_path_join(game_path, "../share/games/openmw"@)
    } else if probes.host_share_games_exists {
        "/run/host/usr/share/games/openmw"@
    } else if probes.host_share_exists {
        "/run/host/usr/share/openmw"@
    } else if probes.share_games_exists {
        "/usr/share/games/openmw"@
    } else {
        "/usr/share/openmw"@
    }
}

pub struct SystemProbesView {
    pub flatpak_metadata: Option<Seq<char>>,
    pub home_dir: Option<Seq<char>>,
    pub config_dir: Option<Seq<char>>,
    pub data_local_dir: Option<Seq<char>>,
    pub host_xdg_config_home: Option<Seq<char>>,
    pub host_xdg_data_home: Option<Seq<char>>,
    pub resources_vfs_exists: bool,
    pub host_etc_exists: bool,
    pub host_share_games_exists: bool,
    pub host_share_exists: bool,
    pub share_games_exists: bool,
}

impl View for SystemProbes {
    type V = SystemProbesView;

    open spec fn view(&self) -> SystemProbesView {
        SystemProbesView {
            flatpak_metadata: opt_view(self.flatpak_metadata),
            home_dir: opt_view(self.home_dir),
            config_dir: opt_view(self.config_dir),
            data_local_dir: opt_view(self.data_local_dir),
            host_xdg_config_home: opt_view(self.host_xdg_config_home),
            host_xdg_data_home: opt_view(self.host_xdg_data_home),
            resources_vfs_exists: self.resources_vfs_exists,
            host_etc_exists: self.host_etc_exists,
            host_share_games_exists: self.host_share_games_exists,
            host_share_exists: self.host_share_exists,
            share_games_exists: self.share_games_exists,
        }
    }
}

fn join_opt(base: Option<String>, path: &str) -> (res: Option<String>)
    ensures
        opt_view(res) == match opt_view(base) {
            Some(b) => Some(std_path_join(b, path@)),
            None => None,
        },
{
    match base {
        Some(b) => Some(join(b.as_str(), path)),
        None => None,
    }
}

pub fn default_user_config_dir(is_flatpak: bool, probes: &SystemProbes) -> (res: Result<String, Error>)
    ensures
        match spec_default_user_config_dir(is_flatpak, probes@) {
            Some(d) => res matches Ok(p) && p@ == d,
            None => res == Err::<String, Error>(Error::NoUserConfigPath),
        },
{
    let dir = if is_flatpak {
        join_opt(probes.home_dir.clone(), ".var/app/org.openmw.OpenMW/config/openmw")
    } else {
        let base = match absolute_path(&probes.host_xdg_config_home) {
            Some(p) => Some(p),
            None => probes.config_dir.clone(),
        };
        join_opt(base, "openmw")
    };
    match dir {
        Some(d) => Ok(d),
        None => Err(Error::NoUserConfigPath),
    }
}

pub fn default_user_data_dir(is_flatpak: bool, probes: &SystemProbes) -> (res: Result<String, Error>)
    ensures
        match spec_default_user_data_dir(is_flatpak, probes@) {
            Some(d) => res matches Ok(p) && p@ == d,
            None => res == Err::<String, Error>(Error::NoUserDataPath),
        },
{
    let dir = if is_flatpak {
        join_opt(probes.home_dir.clone(), ".var/app/org.openmw.OpenMW/data/openmw")
    } else {
        let base = match absolute_path(&probes.host_xdg_data_home) {
            Some(p) => Some(p),
            None => probes.data_local_dir.clone(),
        };
        join_opt(base, "openmw")
    };
    match dir {
        Some(d) => Ok(d),
        None => Err(Error::NoUserDataPath),
    }
}

pub fn default_global_config_dir(game_path: &str, is_flatpak: bool, probes: &SystemProbes) -> (res: String)
    ensures
        res@ == spec_default_global_config_dir(game_path@, is_flatpak, probes@),
{
    if probes.resources_vfs_exists {
        owned(game_path)
    } else if is_flatpak {
        join(game_path, "../etc/openmw")
    } else if probes.host_etc_exists {
        owned("/run/host/etc/openmw")
    } else {
        owned("/etc/openmw")
    }
}

pub fn default_global_data_dir(game_path: &str, is_flatpak: bool, probes: &SystemProbes) -> (res: String)
    ensures
        res@ == spec_default_global_data_dir(game_path@, is_flatpak, probes@),
{
    if probes.resources_vfs_exists {
        owned(game_path)
    } else if is_flatpak {
        join(game_path, "../share/games/openmw")
    } else if probes.host_share_games_exists {
        owned("/run/host/usr/share/games/openmw")
    } else if probes.host_share_exists {
        owned("/run/host/usr/share/openmw")
    } else if probes.share_games_exists {
        owned("/usr/share/games/openmw")
    } else {
        owned("/usr/share/openmw")
    }
}

impl FixedPaths {
    /// OpenMW's fixed directories on Linux for the game path: the local
    /// directory is the game path; a Flatpak app's files are one level up.
    pub fn new(game_path: &str, probes: &SystemProbes) -> (res: Result<FixedPaths, Error>)
        ensures
            ({
                let flatpak = spec_is_flatpak_install(probes@.flatpak_metadata);
                match (spec_default_user_config_dir(flatpak, probes@), spec_default_user_data_dir(flatpak, probes@)) {
                    (Some(uc), Some(ud)) => res matches Ok(f) && f@ == (FixedPathsView {
                        local: game_path@,
                        user_config: uc,
                        user_data: ud,
                        global_config: spec_default_global_config_dir(game_path@, flatpak, probes@),
                        global_data: spec_default_global_data_dir(game_path@, flatpak, probes@),
                        flatpak_app: if flatpak { Some(std_path_join(game_path@, ".."@)) } else { None },
                    }),
                    (None, _) => res == Err::<FixedPaths, Error>(Error::NoUserConfigPath),
                    (Some(_), None) => res == Err::<FixedPaths, Error>(Error::NoUserDataPath),
                }
            }),
    {
        let is_flatpak = is_flatpak_install(match &probes.flatpak_metadata {
            Some(m) => Some(m.as_str()),
            None => None,
        });
        let user_config = match default_user_config_dir(is_flatpak, probes) {
            Ok(d) => d,
            Err(e) => return Err(e),
        };
        let user_data = match default_user_data_dir(is_flatpak, probes) {
            Ok(d) => d,
            Err(e) => return Err(e),
        };
        let global_config = default_global_config_dir(game_path, is_flatpak, probes);
        let global_data = default_global_data_dir(game_path, is_flatpak, probes);
        let flatpak_app = if is_flatpak { Some(join(game_path, "..")) } else { None };
        Ok(FixedPaths { local: owned(game_path), user_config, user_data, global_config, global_data, flatpak_app })
    }
}

} // verus!
