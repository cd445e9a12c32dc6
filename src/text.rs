//! Character-level helpers on strings.

use vstd::prelude::*;
use vstd::string::*;

use substring::Substring;

verus! {

/// Relies on `String::push`: the character is appended at the end.
pub assume_specification[ String::push ](s: &mut String, ch: char)
    ensures
        final(s)@ == old(s)@.push(ch),
;

/// Whether two strings hold the same characters.
pub fn same_text(a: &str, b: &str) -> (r: bool)
    ensures
        r == (a@ == b@),
{
    let n = a.unicode_len();
    if n != b.unicode_len() {
        return false;
    }
    let mut i: usize = 0;
    while i < n
        invariant
            n == a@.len(),
            n == b@.len(),
            i <= n,
            forall|j: int| 0 <= j < i ==> a@[j] == b@[j],
        decreases n - i,
    {
        if a.get_char(i) != b.get_char(i) {
            return false;
        }
        i += 1;
    }
    assert(a@ =~= b@);
    true
}

/// Whether the text begins with `open` and ends with `close`; a single
/// character counts as both its first and its last.
pub open spec fn wrapped_in(t: Seq<char>, open: char, close: char) -> bool {
    t.len() >= 1 && t[0] == open && t[t.len() - 1] == close
}

/// Executable form of `wrapped_in`.
pub fn is_wrapped_in(s: &str, open: char, close: char) -> (r: bool)
    ensures
        r == wrapped_in(s@, open, close),
{
    let n = s.unicode_len();
    if n == 0 {
        return false;
    }
    s.get_char(0) == open && s.get_char(n - 1) == close
}

/// The text between the first and the last character.
pub open spec fn inner_text(t: Seq<char>) -> Seq<char> {
    t.subrange(1, t.len() - 1)
}

/// Relies on `substring::Substring::substring`: for `start <= end <= len`
/// it returns the characters at positions `start` up to `end`.
#[verifier::external_body]
fn char_range(s: &str, start: usize, end: usize) -> (r: String)
    requires
        start <= end <= s@.len(),
    ensures
        r@ == s@.subrange(start as int, end as int),
{
    s.substring(start, end).to_owned()
}

/// Drops the first and the last character of a text of two or more.
pub fn strip_delimiters(s: &str) -> (r: String)
    requires
        s@.len() >= 2,
    ensures
        r@ == inner_text(s@),
{
    let n = s.unicode_len();
    char_range(s, 1, n - 1)
}

} // verus!
