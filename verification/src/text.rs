//! Reading a fixed word at a place in a text.

use vstd::prelude::*;
use vstd::string::*;

verus! {

/// Whether `word` stands in `text` from position `at` on.
pub open spec fn has_at(text: Seq<char>, at: int, word: Seq<char>) -> bool {
    &&& 0 <= at
    &&& at + word.len() <= text.len()
    &&& forall|i: int| 0 <= i < word.len() ==> text[at + i] == word[i]
}

/// Whether `word` stands in `text` from character position `at` on. False
/// where the text ends before the word does.
pub fn starts_with_at(text: &str, at: usize, word: &str) -> (found: bool)
    ensures
        found == has_at(text@, at as int, word@),
{
    let len = text.unicode_len();
    let n = word.unicode_len();
    if at > len || n > len - at {
        return false;
    }
    let mut i: usize = 0;
    while i < n
        invariant
            i <= n,
            n == word@.len(),
            len == text@.len(),
            at + n <= len,
            forall|j: int| 0 <= j < i ==> text@[at + j] == word@[j],
        decreases n - i,
    {
        if text.get_char(at + i) != word.get_char(i) {
            return false;
        }
        i += 1;
    }
    true
}

/// Whether a character is white space: the space, the controls from tab to
/// carriage return, next line, and the space characters beyond ASCII.
pub open spec fn is_space(c: char) -> bool {
    c == ' ' || c == '\t' || c == '\n' || c == '\u{b}' || c == '\u{c}' || c == '\r' || c
        == '\u{85}' || c == '\u{a0}' || c == '\u{1680}' || c == '\u{2000}' || c == '\u{2001}'
        || c == '\u{2002}' || c == '\u{2003}' || c == '\u{2004}' || c == '\u{2005}' || c
        == '\u{2006}' || c == '\u{2007}' || c == '\u{2008}' || c == '\u{2009}' || c
        == '\u{200a}' || c == '\u{2028}' || c == '\u{2029}' || c == '\u{202f}' || c
        == '\u{205f}' || c == '\u{3000}'
}

/// The first position from `at` on that holds no white space, or the end of
/// the text.
pub open spec fn after_spaces(text: Seq<char>, at: int) -> int
    decreases text.len() - at,
{
    if 0 <= at < text.len() && is_space(text[at]) {
        after_spaces(text, at + 1)
    } else {
        at
    }
}

/// Whether a character is white space.
pub fn is_white_space(c: char) -> (space: bool)
    ensures
        space == is_space(c),
{
    c == ' ' || c == '\t' || c == '\n' || c == '\u{b}' || c == '\u{c}' || c == '\r' || c
        == '\u{85}' || c == '\u{a0}' || c == '\u{1680}' || c == '\u{2000}' || c == '\u{2001}'
        || c == '\u{2002}' || c == '\u{2003}' || c == '\u{2004}' || c == '\u{2005}' || c
        == '\u{2006}' || c == '\u{2007}' || c == '\u{2008}' || c == '\u{2009}' || c
        == '\u{200a}' || c == '\u{2028}' || c == '\u{2029}' || c == '\u{202f}' || c
        == '\u{205f}' || c == '\u{3000}'
}

/// The first character position from `at` on that holds no white space, or
/// the length of the text where only white space is left.
pub fn skip_spaces(text: &str, at: usize) -> (next: usize)
    requires
        at <= text@.len(),
    ensures
        next == after_spaces(text@, at as int),
        at <= next <= text@.len(),
{
    let len = text.unicode_len();
    let mut next = at;
    while next < len && is_white_space(text.get_char(next))
        invariant
            at <= next <= len,
            len == text@.len(),
            after_spaces(text@, at as int) == after_spaces(text@, next as int),
        decreases len - next,
    {
        next += 1;
    }
    next
}

} // verus!
