//! Valve's KeyValues (VDF) text, as `keyvalues-parser` parses it, and the
//! lookups that the library makes in it.
use vstd::prelude::*;

use crate::seqs::{first_index, lemma_first_index_is, lemma_first_index_none};
use crate::text::{owned, push_char, str_eq};

verus! {

/// A parsed VDF value: a string, or an object whose keys (in the parser's
/// key order, each once) map to one or more values.
pub enum VdfValue {
    Str(String),
    Obj(Vec<(String, Vec<VdfValue>)>),
}

/// A VDF value as characters.
pub enum VdfTree {
    Str(Seq<char>),
    Obj(Seq<(Seq<char>, Seq<VdfTree>)>),
}

impl View for VdfValue {
    type V = VdfTree;

    open spec fn view(&self) -> VdfTree
        decreases self,
    {
        match self {
            VdfValue::Str(s) => VdfTree::Str(s@),
            VdfValue::Obj(entries) => VdfTree::Obj(Seq::new(
                entries@.len(),
                |i: int| (entries@[i].0@, Seq::new(entries@[i].1@.len(), |j: int|
                    if 0 <= i < entries@.len() && 0 <= j < entries@[i].1@.len() {
                        entries@[i].1@[j].view()
                    } else {
                        VdfTree::Str(Seq::empty())
                    })),
            )),
        }
    }
}

/// Why parsing VDF text failed, one case for each of `keyvalues-parser`'s
/// errors: the message of a parse error (of escaped or raw text) or of a
/// rendering error, or the character that raw rendering could not write.
pub enum VdfError {
    EscapedParse(String),
    RawParse(String),
    Render(String),
    RawRender(char),
}

pub enum VdfErrorView {
    EscapedParse(Seq<char>),
    RawParse(Seq<char>),
    Render(Seq<char>),
    RawRender(char),
}

impl View for VdfError {
    type V = VdfErrorView;

    open spec fn view(&self) -> VdfErrorView {
        match self {
            VdfError::EscapedParse(m) => VdfErrorView::EscapedParse(m@),
            VdfError::RawParse(m) => VdfErrorView::RawParse(m@),
            VdfError::Render(m) => VdfErrorView::Render(m@),
            VdfError::RawRender(c) => VdfErrorView::RawRender(*c),
        }
    }
}

/// What `keyvalues_parser::Vdf::parse` gives for the text: the value of its
/// top-level key, or the error.
pub uninterp spec fn vdf_parsed(text: Seq<char>) -> Result<VdfTree, VdfErrorView>;

#[verifier::external_type_specification]
#[verifier::external_body]
pub struct ExVdfParserValue<'a>(keyvalues_parser::Value<'a>);

/// Converts a value that `keyvalues-parser` parsed into a `VdfValue`, one
/// for one: a string to a string, an object to its keys in the parser's
/// order, each with its values in order.
#[verifier::external_body]
fn vdf_value(value: &keyvalues_parser::Value) -> VdfValue {
    match value {
        keyvalues_parser::Value::Str(s) => VdfValue::Str(s.to_string()),
        keyvalues_parser::Value::Obj(o) => VdfValue::Obj(
            o.iter().map(|(k, vs)| (k.to_string(), vs.iter().map(vdf_value).collect())).collect(),
        ),
    }
}

/// Parses VDF text with `keyvalues_parser::Vdf::parse`, giving the value of
/// its top-level key converted by `vdf_value`, or the error with its fields
/// moved over (a parser's error as its message). The result is named by
/// `vdf_parsed`.
#[verifier::external_body]
pub(crate) fn parse_vdf(text: &str) -> (res: Result<VdfValue, VdfError>)
    ensures
        match res {
            Ok(v) => vdf_parsed(text@) == Ok::<VdfTree, VdfErrorView>(v@),
            Err(e) => vdf_parsed(text@) == Err::<VdfTree, VdfErrorView>(e@),
        },
{
    match keyvalues_parser::Vdf::parse(text) {
        Ok(vdf) => Ok(vdf_value(&vdf.value)),
        Err(keyvalues_parser::error::Error::EscapedParseError(e)) => Err(VdfError::EscapedParse(e.to_string())),
        Err(keyvalues_parser::error::Error::RawParseError(e)) => Err(VdfError::RawParse(e.to_string())),
        Err(keyvalues_parser::error::Error::RenderError(e)) => Err(VdfError::Render(e.to_string())),
        Err(keyvalues_parser::error::Error::RawRenderError { invalid_char }) => Err(VdfError::RawRender(invalid_char)),
    }
}

/// The text that describes a VDF error: a parser's message as it is, or
/// `Invalid character "c"` for a character that could not be written.
pub open spec fn spec_vdf_error_message(e: VdfErrorView) -> Seq<char> {
    match e {
        VdfErrorView::EscapedParse(m) => m,
        VdfErrorView::RawParse(m) => m,
        VdfErrorView::Render(m) => m,
        VdfErrorView::RawRender(c) => "Invalid character \""@ + seq![c] + "\""@,
    }
}

/// The text that describes a VDF error (see `spec_vdf_error_message`).
pub fn vdf_error_message(e: &VdfError) -> (res: String)
    ensures
        res@ == spec_vdf_error_message(e@),
{
    match e {
        VdfError::EscapedParse(m) => owned(m.as_str()),
        VdfError::RawParse(m) => owned(m.as_str()),
        VdfError::Render(m) => owned(m.as_str()),
        VdfError::RawRender(c) => {
            let mut s = owned("Invalid character \"");
            push_char(&mut s, *c);
            s.append("\"");
            s
        },
    }
}

pub open spec fn pred_entry_key(key: Seq<char>) -> spec_fn((Seq<char>, Seq<VdfTree>)) -> bool {
    |e: (Seq<char>, Seq<VdfTree>)| e.0 == key
}

/// The values of the key in an object: those of its entry for the key (as
/// `Obj::get` finds it), or none; a string has no keys.
pub open spec fn obj_values(t: VdfTree, key: Seq<char>) -> Option<Seq<VdfTree>> {
    match t {
        VdfTree::Obj(es) => match first_index(es, pred_entry_key(key)) {
            Some(i) => Some(es[i].1),
            None => None,
        },
        VdfTree::Str(_) => None,
    }
}

/// The first of the values, if there are any.
pub open spec fn first_value(vs: Option<Seq<VdfTree>>) -> Option<VdfTree> {
    match vs {
        Some(s) => if s.len() > 0 { Some(s[0]) } else { None },
        None => None,
    }
}

/// The language that a Steam app manifest's top-level value holds: the
/// first value of `UserConfig`, then in it the first value of `language`,
/// where that is a string.
pub open spec fn spec_user_config_language(t: VdfTree) -> Option<Seq<char>> {
    match first_value(obj_values(t, "UserConfig"@)) {
        Some(u) => match first_value(obj_values(u, "language"@)) {
            Some(VdfTree::Str(s)) => Some(s),
            _ => None,
        },
        None => None,
    }
}

/// The first value of the key in an object (see `obj_values`).
fn first_value_of<'a>(value: &'a VdfValue, key: &str) -> (res: Option<&'a VdfValue>)
    ensures
        match res {
            Some(r) => first_value(obj_values(value@, key@)) == Some(r@),
            None => first_value(obj_values(value@, key@)) is None,
        },
{
    match value {
        VdfValue::Str(_) => None,
        VdfValue::Obj(entries) => {
            let ghost es = match value@ { VdfTree::Obj(es) => es, VdfTree::Str(_) => Seq::empty() };
            let ghost pred = pred_entry_key(key@);
            assert(es.len() == entries@.len());
            let mut i: usize = 0;
            while i < entries.len()
                invariant
                    i <= entries.len(),
                    es.len() == entries@.len(),
                    value@ == VdfTree::Obj(es),
                    *value == VdfValue::Obj(*entries),
                    pred == pred_entry_key(key@),
                    forall|j: int| 0 <= j < i ==> !(#[trigger] pred(es[j])),
                decreases entries.len() - i,
            {
                assert(es[i as int].0 == entries@[i as int].0@);
                if str_eq(entries[i].0.as_str(), key) {
                    proof { lemma_first_index_is(es, pred, i as int); }
                    let values = &entries[i].1;
                    assert(es[i as int].1.len() == values@.len());
                    if values.len() > 0 {
                        assert(es[i as int].1[0] == values@[0]@);
                        return Some(&values[0]);
                    } else {
                        return None;
                    }
                }
                i = i + 1;
            }
            proof { lemma_first_index_none(es, pred); }
            None
        },
    }
}

/// The language that a Steam app manifest's top-level value holds (see
/// `spec_user_config_language`).
pub fn user_config_language(value: &VdfValue) -> (res: Option<String>)
    ensures
        match res {
            Some(l) => spec_user_config_language(value@) == Some(l@),
            None => spec_user_config_language(value@) is None,
        },
{
    match first_value_of(value, "UserConfig") {
        Some(user_config) => match first_value_of(user_config, "language") {
            Some(VdfValue::Str(s)) => Some(owned(s.as_str())),
            _ => None,
        },
        None => None,
    }
}

} // verus!
