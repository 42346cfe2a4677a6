//! Text: concatenation, and the string searches of the standard library.
use vstd::prelude::*;

verus! {

/// Whether a pattern stands in a text at a position.
pub open spec fn occurs_at(text: Seq<char>, pattern: Seq<char>, at: int) -> bool {
    &&& 0 <= at <= text.len() - pattern.len()
    &&& text.subrange(at, at + pattern.len()) == pattern
}

/// Whether a pattern stands anywhere in a text.
pub open spec fn contains(text: Seq<char>, pattern: Seq<char>) -> bool {
    exists|at: int| occurs_at(text, pattern, at)
}

/// Whether a text begins with a prefix.
pub open spec fn begins_with(text: Seq<char>, prefix: Seq<char>) -> bool {
    occurs_at(text, prefix, 0)
}

/// Whether a character has the Unicode property `White_Space`.
pub open spec fn is_white_space(c: char) -> bool {
    let code = c as u32;
    ||| 0x9 <= code <= 0xD
    ||| code == 0x20
    ||| code == 0x85
    ||| code == 0xA0
    ||| code == 0x1680
    ||| 0x2000 <= code <= 0x200A
    ||| code == 0x2028
    ||| code == 0x2029
    ||| code == 0x202F
    ||| code == 0x205F
    ||| code == 0x3000
}

/// A text without its leading white space.
pub open spec fn trimmed_start(text: Seq<char>) -> Seq<char>
    decreases text.len(),
{
    if text.len() > 0 && is_white_space(text.first()) {
        trimmed_start(text.drop_first())
    } else {
        text
    }
}

/// A text without its trailing white space.
pub open spec fn trimmed_end(text: Seq<char>) -> Seq<char>
    decreases text.len(),
{
    if text.len() > 0 && is_white_space(text.last()) {
        trimmed_end(text.drop_last())
    } else {
        text
    }
}

/// A text without its leading and trailing white space.
pub open spec fn trimmed(text: Seq<char>) -> Seq<char> {
    trimmed_end(trimmed_start(text))
}

/// The texts of a list with a separator between each two.
pub open spec fn joined(texts: Seq<Seq<char>>, separator: Seq<char>) -> Seq<char>
    decreases texts.len(),
{
    if texts.len() == 0 {
        Seq::empty()
    } else if texts.len() == 1 {
        texts[0]
    } else {
        joined(texts.drop_last(), separator) + separator + texts.last()
    }
}

/// `str::trim` of the standard library: leading and trailing white space removed.
#[verifier::external_body]
pub(crate) fn trim(text: &str) -> (result: &str)
    ensures
        result@ == trimmed(text@),
{
    text.trim()
}

/// `str::eq` of the standard library.
#[verifier::external_body]
pub(crate) fn same(left: &str, right: &str) -> (result: bool)
    ensures
        result == (left@ == right@),
{
    left == right
}

/// `str::contains` of the standard library, with a string as the pattern.
#[verifier::external_body]
pub(crate) fn has(text: &str, pattern: &str) -> (result: bool)
    ensures
        result == contains(text@, pattern@),
{
    text.contains(pattern)
}

/// `str::strip_prefix` of the standard library, with a string as the prefix.
#[verifier::external_body]
pub(crate) fn without_prefix<'a>(text: &'a str, prefix: &str) -> (result: Option<&'a str>)
    ensures
        match result {
            Some(rest) => text@ == prefix@ + rest@,
            None => !begins_with(text@, prefix@),
        },
{
    text.strip_prefix(prefix)
}

/// `str::split_once` of the standard library, with a string as the delimiter: the text before and
/// after the first place where the delimiter stands.
#[verifier::external_body]
pub(crate) fn split_at_first<'a>(text: &'a str, delimiter: &str) -> (result: Option<
    (&'a str, &'a str),
>)
    ensures
        match result {
            Some((before, after)) => {
                &&& text@ == before@ + delimiter@ + after@
                &&& forall|at: int| occurs_at(text@, delimiter@, at) ==> before@.len() <= at
            },
            None => !contains(text@, delimiter@),
        },
{
    text.split_once(delimiter)
}

/// Whether a position is the first at which a pattern stands in a text.
pub open spec fn is_first(text: Seq<char>, pattern: Seq<char>, at: int) -> bool {
    &&& occurs_at(text, pattern, at)
    &&& forall|other: int| occurs_at(text, pattern, other) ==> at <= other
}

/// What stands before and after the first place of a delimiter.
pub open spec fn split_first(text: Seq<char>, delimiter: Seq<char>) -> Option<
    (Seq<char>, Seq<char>),
> {
    if contains(text, delimiter) {
        let at = choose|at: int| is_first(text, delimiter, at);
        Some((text.take(at), text.skip(at + delimiter.len())))
    } else {
        None
    }
}

/// What stands before and after the first place of a delimiter.
pub(crate) fn split_text<'a>(text: &'a str, delimiter: &str) -> (result: Option<
    (&'a str, &'a str),
>)
    ensures
        (match result {
            Some((before, after)) => Some((before@, after@)),
            None => None,
        }) == split_first(text@, delimiter@),
{
    let result = split_at_first(text, delimiter);
    proof {
        if let Some((before, after)) = result {
            let at = before@.len() as int;
            assert(text@.subrange(at, at + delimiter@.len()) =~= delimiter@);
            assert(is_first(text@, delimiter@, at));
            let chosen = choose|at: int| is_first(text@, delimiter@, at);
            assert(chosen == at);
            assert(text@.take(at) =~= before@);
            assert(text@.skip(at + delimiter@.len()) =~= after@);
        }
    }
    result
}

/// Two texts in a row.
pub(crate) fn concat(left: &str, right: &str) -> (result: String)
    ensures
        result@ == left@ + right@,
{
    let mut result = left.to_owned();
    result.append(right);
    result
}

/// The texts of a list with a separator between each two.
pub(crate) fn join(texts: &Vec<String>, separator: &str) -> (result: String)
    ensures
        result@ == joined(texts.deep_view(), separator@),
{
    let mut result = String::new();
    let mut i: usize = 0;
    while i < texts.len()
        invariant
            i <= texts.len(),
            result@ == joined(texts.deep_view().take(i as int), separator@),
        decreases texts.len() - i,
    {
        if i > 0 {
            result.append(separator);
        }
        result.append(texts[i].as_str());
        proof {
            let all = texts.deep_view();
            assert(all.take(i + 1).drop_last() =~= all.take(i as int));
        }
        i += 1;
    }
    assert(texts.deep_view().take(i as int) =~= texts.deep_view());
    result
}

/// The first characters of a text, all of it where it is shorter.
pub open spec fn clipped(text: Seq<char>, limit: int) -> Seq<char> {
    if text.len() <= limit {
        text
    } else {
        text.take(limit)
    }
}

/// At most the first `limit` characters of a text.
pub(crate) fn clip(text: &str, limit: usize) -> (result: String)
    ensures
        result@ == clipped(text@, limit as int),
{
    if text.unicode_len() <= limit {
        text.to_owned()
    } else {
        text.substring_char(0, limit).to_owned()
    }
}

} // verus!
