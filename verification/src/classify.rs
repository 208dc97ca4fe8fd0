//! The info-string grammar: which language and file name a fence declares.
//!
//! An info string is a run of words. The first word is the language, or,
//! where it holds a `.` and is no attribute, a file name whose extension is
//! the language. Each later word of the form `title=..` or `filename=..` is an
//! attribute that names the file; the last one wins.

use vstd::prelude::*;
use vstd::string::StrSliceExecFns;
use crate::text::{chars_of, split_words, starts_with, words};

verus! {

/// The key of the attribute that names the file as the block's title.
pub open spec fn title_key() -> Seq<char> {
    "title="@
}

/// The key of the attribute that names the file directly.
pub open spec fn filename_key() -> Seq<char> {
    "filename="@
}

/// What follows the key in an attribute word; `None` for a word that is no
/// attribute.
pub open spec fn attribute_value(word: Seq<char>) -> Option<Seq<char>> {
    if title_key().is_prefix_of(word) {
        Some(word.skip(title_key().len() as int))
    } else if filename_key().is_prefix_of(word) {
        Some(word.skip(filename_key().len() as int))
    } else {
        None
    }
}

/// A double or a single quote.
pub open spec fn is_quote(c: char) -> bool {
    c == '"' || c == '\''
}

/// `value` without one layer of enclosing quotes: where it starts with a quote
/// and ends with the same quote, what stands between the two; else `value`
/// itself.
pub open spec fn unquoted(value: Seq<char>) -> Seq<char> {
    if value.len() >= 2 && is_quote(value.first()) && value.last() == value.first() {
        value.subrange(1, value.len() - 1)
    } else {
        value
    }
}

/// Whether a first word is taken for a file name: it holds a `.` and is no
/// attribute.
pub open spec fn names_file(word: Seq<char>) -> bool {
    word.contains('.') && attribute_value(word) is None
}

/// What follows the last `.` of `word`: its longest suffix without a `.`.
pub open spec fn extension(word: Seq<char>) -> Seq<char>
    decreases word.len(),
{
    if word.len() == 0 || word.last() == '.' {
        Seq::empty()
    } else {
        extension(word.drop_last()).push(word.last())
    }
}

/// The file name that the attributes among `attributes` declare: the unquoted
/// value of the last of them, `None` where there is none.
pub open spec fn declared_filename(attributes: Seq<Seq<char>>) -> Option<Seq<char>>
    decreases attributes.len(),
{
    if attributes.len() == 0 {
        None
    } else {
        match attribute_value(attributes.last()) {
            Some(value) => Some(unquoted(value)),
            None => declared_filename(attributes.drop_last()),
        }
    }
}

/// The language that `info` declares.
pub open spec fn info_language(info: Seq<char>) -> Option<Seq<char>> {
    let ws = words(info);
    if ws.len() == 0 {
        None
    } else if names_file(ws[0]) {
        Some(extension(ws[0]))
    } else {
        Some(ws[0])
    }
}

/// The file name that `info` declares.
pub open spec fn info_filename(info: Seq<char>) -> Option<Seq<char>> {
    let ws = words(info);
    if ws.len() == 0 {
        None
    } else {
        match declared_filename(ws.skip(1)) {
            Some(name) => Some(name),
            None => if names_file(ws[0]) {
                Some(ws[0])
            } else {
                None
            },
        }
    }
}

/// An attribute without a value declares the empty file name, which is a name
/// all the same: where the last word of an info string of two or more words
/// is a bare `title=` or `filename=`, the file name is empty and not unset.
pub proof fn lemma_attribute_without_value(info: Seq<char>)
    requires
        words(info).len() >= 2,
        words(info).last() == title_key() || words(info).last() == filename_key(),
    ensures
        info_filename(info) == Some(Seq::<char>::empty()),
{
    reveal_strlit("title=");
    reveal_strlit("filename=");
    assert(title_key()[0] != filename_key()[0]);
}

/// Removes one layer of enclosing quotes.
pub fn strip_quotes(s: &str) -> (r: String)
    ensures
        r@ == unquoted(s@),
{
    let n: usize = s.unicode_len();
    if n >= 2 {
        let first = s.get_char(0);
        let last = s.get_char(n - 1);
        if (first == '"' || first == '\'') && last == first {
            return s.substring_char(1, n - 1).to_owned();
        }
    }
    s.to_owned()
}

/// What follows `key` in `word`, where `word` starts with `key`.
fn value_after(word: &str, chars: &Vec<char>, key: &str) -> (r: Option<String>)
    requires
        chars@ == word@,
    ensures
        r.deep_view() == (if key@.is_prefix_of(word@) {
            Some(word@.skip(key@.len() as int))
        } else {
            None
        }),
{
    let key_chars = chars_of(key);
    if starts_with(chars, &key_chars) {
        Some(word.substring_char(key_chars.len(), chars.len()).to_owned())
    } else {
        None
    }
}

/// The value of `word` as an attribute.
fn attribute_of(word: &str, chars: &Vec<char>) -> (r: Option<String>)
    requires
        chars@ == word@,
    ensures
        r.deep_view() == attribute_value(word@),
{
    match value_after(word, chars, "title=") {
        Some(value) => Some(value),
        None => value_after(word, chars, "filename="),
    }
}

/// Where the extension of `chars` starts: behind its last `.`, or at 0 where
/// it holds none.
fn extension_start(chars: &Vec<char>) -> (start: usize)
    ensures
        start <= chars.len(),
        chars@.skip(start as int) == extension(chars@),
        (start > 0) == chars@.contains('.'),
{
    let n: usize = chars.len();
    let mut start: usize = n;
    assert(chars@.take(n as int) == chars@);
    while start > 0 && chars[start - 1] != '.'
        invariant
            start <= n == chars.len(),
            extension(chars@) == extension(chars@.take(start as int)) + chars@.skip(start as int),
            forall|k: int| start <= k < n ==> chars@[k] != '.',
        decreases start,
    {
        assert(chars@.take(start as int).drop_last() == chars@.take(start - 1));
        start -= 1;
    }
    start
}

/// Reads the language and the file name that `info` declares into `language`
/// and `filename`. Both are set from `info` alone: what `info` does not
/// declare is unset after the call, whatever was there before.
pub fn parse_code_block_info(
    info: &str,
    language: &mut Option<String>,
    filename: &mut Option<String>,
)
    ensures
        final(language).deep_view() == info_language(info@),
        final(filename).deep_view() == info_filename(info@),
{
    let parts = split_words(info);
    let ghost ws = words(info@);
    if parts.len() == 0 {
        *language = None;
        *filename = None;
        return;
    }
    let head = parts[0].as_str();
    let head_chars = chars_of(head);
    let dot: usize = extension_start(&head_chars);
    let as_attribute = attribute_of(head, &head_chars);
    let mut named: Option<String> = None;
    if dot > 0 && as_attribute.is_none() {
        named = Some(head.to_owned());
        *language = Some(head.substring_char(dot, head_chars.len()).to_owned());
    } else {
        *language = Some(head.to_owned());
    }
    let mut declared: Option<String> = None;
    let mut k: usize = 1;
    while k < parts.len()
        invariant
            1 <= k <= parts.len() == ws.len(),
            forall|j: int| 0 <= j < parts.len() ==> parts[j]@ == #[trigger] ws[j],
            declared.deep_view() == declared_filename(ws.subrange(1, k as int)),
        decreases parts.len() - k,
    {
        let word = parts[k].as_str();
        let word_chars = chars_of(word);
        assert(ws.subrange(1, k + 1).drop_last() == ws.subrange(1, k as int));
        match attribute_of(word, &word_chars) {
            Some(value) => {
                declared = Some(strip_quotes(value.as_str()));
            },
            None => {},
        }
        k += 1;
    }
    *filename = match declared {
        Some(name) => Some(name),
        None => named,
    };
}

/// The language and the file name that `info` declares, in this order.
pub fn classify(info: &str) -> (r: (Option<String>, Option<String>))
    ensures
        r.0.deep_view() == info_language(info@),
        r.1.deep_view() == info_filename(info@),
{
    let mut language: Option<String> = None;
    let mut filename: Option<String> = None;
    parse_code_block_info(info, &mut language, &mut filename);
    (language, filename)
}

} // verus!
