//! Text files in Windows-1252, and the lines of a text.
use vstd::prelude::*;

use crate::enums::Error;
use crate::seqs::{first_index, lemma_first_index_is, lemma_first_index_none};
use crate::text::{chars_of, owned, string_from_chars};

verus! {

/// What `encoding_rs::WINDOWS_1252.decode_without_bom_handling` gives for
/// the bytes.
pub uninterp spec fn windows_1252_decoded(bytes: Seq<u8>) -> Seq<char>;

/// What `encoding_rs::WINDOWS_1252.decode_without_bom_handling_and_without_replacement`
/// gives for the bytes (`None`: they are malformed).
pub uninterp spec fn windows_1252_decoded_strict(bytes: Seq<u8>) -> Option<Seq<char>>;

/// What `encoding_rs::WINDOWS_1252.encode` gives for the text: the bytes, and
/// whether some characters could not be mapped (and were written as numeric
/// character references).
pub uninterp spec fn windows_1252_encoded(text: Seq<char>) -> (Seq<u8>, bool);

/// Decodes Windows-1252 bytes with `decode_without_bom_handling`, which
/// replaces what it cannot decode; the text is named by `windows_1252_decoded`.
#[verifier::external_body]
pub(crate) fn decode_windows_1252(bytes: &[u8]) -> (res: String)
    ensures
        res@ == windows_1252_decoded(bytes@),
{
    encoding_rs::WINDOWS_1252.decode_without_bom_handling(bytes).0.into_owned()
}

/// Decodes Windows-1252 bytes with
/// `decode_without_bom_handling_and_without_replacement`, named by
/// `windows_1252_decoded_strict`.
#[verifier::external_body]
pub(crate) fn decode_windows_1252_strict(bytes: &[u8]) -> (res: Option<String>)
    ensures
        match res {
            Some(s) => windows_1252_decoded_strict(bytes@) == Some(s@),
            None => windows_1252_decoded_strict(bytes@) is None,
        },
{
    encoding_rs::WINDOWS_1252
        .decode_without_bom_handling_and_without_replacement(bytes)
        .map(|s| s.into_owned())
}

/// Encodes text as Windows-1252 with `WINDOWS_1252.encode`, returning the
/// bytes and whether some characters were unmappable, as
/// `windows_1252_encoded` names them. Windows-1252 gives one byte for each
/// character it maps, and its decoder maps each byte back to that
/// character, so where every character was mapped, strict decoding gives
/// the text back.
#[verifier::external_body]
fn encode_windows_1252(text: &str) -> (res: (Vec<u8>, bool))
    ensures
        (res.0@, res.1) == windows_1252_encoded(text@),
        !res.1 ==> windows_1252_decoded_strict(res.0@) == Some(text@),
{
    let (bytes, _, unmappable) = encoding_rs::WINDOWS_1252.encode(text);
    (bytes.into_owned(), unmappable)
}

/// The text encoded as Windows-1252, or an error if it holds a character
/// that Windows-1252 cannot represent.
pub fn strict_encode(text: &str) -> (res: Result<Vec<u8>, Error>)
    ensures
        match res {
            Ok(bytes) => windows_1252_encoded(text@) == (bytes@, false)
                && windows_1252_decoded_strict(bytes@) == Some(text@),
            Err(e) => windows_1252_encoded(text@).1 && (e matches Error::EncodeError(s) && s@ == text@),
        },
{
    let (bytes, unmappable) = encode_windows_1252(text);
    if unmappable {
        Err(Error::EncodeError(owned(text)))
    } else {
        Ok(bytes)
    }
}

/// The line without a final carriage return.
pub open spec fn without_cr(line: Seq<char>) -> Seq<char> {
    if line.len() > 0 && line.last() == '\r' {
        line.drop_last()
    } else {
        line
    }
}

pub open spec fn is_line_feed() -> spec_fn(char) -> bool {
    |c: char| c == '\n'
}

/// The lines of a text, as `str::lines` splits it: at each line feed, with
/// a carriage return before it removed, and with no empty line after a
/// final line feed.
pub open spec fn text_lines(s: Seq<char>) -> Seq<Seq<char>>
    decreases s.len(),
{
    if s.len() == 0 {
        Seq::empty()
    } else {
        match first_index(s, is_line_feed()) {
            Some(i) => if 0 <= i < s.len() {
                seq![without_cr(s.take(i))] + text_lines(s.skip(i + 1))
            } else {
                Seq::empty()
            },
            None => seq![without_cr(s)],
        }
    }
}

/// A step of `split_lines`: the line that ends at the first line feed.
proof fn lemma_text_lines_step(s: Seq<char>, i: int)
    requires
        0 <= i < s.len(),
        s[i] == '\n',
        forall|j: int| 0 <= j < i ==> s[j] != '\n',
    ensures
        text_lines(s) == seq![without_cr(s.take(i))] + text_lines(s.skip(i + 1)),
{
    lemma_first_index_is(s, is_line_feed(), i);
}

/// The last line of `split_lines`: one with no line feed.
proof fn lemma_text_lines_last(s: Seq<char>)
    requires
        s.len() > 0,
        forall|j: int| 0 <= j < s.len() ==> s[j] != '\n',
    ensures
        text_lines(s) == seq![without_cr(s)],
{
    lemma_first_index_none(s, is_line_feed());
}

/// The lines of the text, as `str::lines` gives them.
pub fn split_lines(text: &str) -> (res: Vec<String>)
    ensures
        res@.map_values(|l: String| l@) == text_lines(text@),
{
    let chars = chars_of(text);
    let n = chars.len();
    let mut lines: Vec<String> = Vec::new();
    let mut start: usize = 0;
    let mut i: usize = 0;
    proof {
        assert(text@.skip(0) =~= text@);
        assert(lines@.map_values(|l: String| l@) + text_lines(text@) =~= text_lines(text@));
    }
    while i < n
        invariant
            chars@ == text@,
            n == chars.len(),
            start <= i <= n,
            forall|j: int| start <= j < i ==> chars@[j] != '\n',
            lines@.map_values(|l: String| l@) + text_lines(text@.skip(start as int)) == text_lines(text@),
        decreases n - i,
    {
        if chars[i] == '\n' {
            let mut end = i;
            if end > start && chars[end - 1] == '\r' {
                end = end - 1;
            }
            let line = string_from_chars(&chars, start, end);
            proof {
                let rest = text@.skip(start as int);
                let k = i - start;
                assert(rest[k as int] == '\n');
                assert forall|j: int| 0 <= j < k implies rest[j] != '\n' by {
                    assert(rest[j] == chars@[start + j]);
                }
                lemma_text_lines_step(rest, k as int);
                assert(line@ =~= without_cr(rest.take(k as int)));
                assert(rest.skip(k + 1) =~= text@.skip(i + 1));
            }
            let ghost old_lines = lines@;
            lines.push(line);
            proof {
                assert(lines@.map_values(|l: String| l@) =~= old_lines.map_values(|l: String| l@).push(line@));
            }
            start = i + 1;
        }
        i = i + 1;
    }
    if start < n {
        let mut end = n;
        if chars[end - 1] == '\r' {
            end = end - 1;
        }
        let line = string_from_chars(&chars, start, end);
        proof {
            let rest = text@.skip(start as int);
            assert forall|j: int| 0 <= j < rest.len() implies rest[j] != '\n' by {
                assert(rest[j] == chars@[start + j]);
            }
            lemma_text_lines_last(rest);
            assert(line@ =~= without_cr(rest));
        }
        let ghost old_lines = lines@;
        lines.push(line);
        proof {
            assert(lines@.map_values(|l: String| l@) =~= old_lines.map_values(|l: String| l@).push(line@));
            assert(text@.skip(n as int).len() == 0);
            assert(text_lines(text@.skip(n as int)) == Seq::<Seq<char>>::empty());
            assert(lines@.map_values(|l: String| l@) =~= lines@.map_values(|l: String| l@) + Seq::<Seq<char>>::empty());
        }
    } else {
        proof {
            assert(text@.skip(start as int).len() == 0);
            assert(lines@.map_values(|l: String| l@) =~= lines@.map_values(|l: String| l@) + Seq::<Seq<char>>::empty());
        }
    }
    lines
}

/// A copy of the bytes.
pub fn copy_bytes(bytes: &[u8]) -> (res: Vec<u8>)
    ensures
        res@ == bytes@,
{
    let mut res: Vec<u8> = Vec::new();
    let mut i: usize = 0;
    while i < bytes.len()
        invariant
            i <= bytes.len(),
            res@ == bytes@.take(i as int),
        decreases bytes.len() - i,
    {
        res.push(bytes[i]);
        assert(bytes@.take(i + 1) =~= bytes@.take(i as int).push(bytes@[i as int]));
        i = i + 1;
    }
    assert(bytes@.take(bytes.len() as int) =~= bytes@);
    res
}

} // verus!
