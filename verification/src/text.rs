//! Comparisons of text.

use vstd::prelude::*;
use vstd::string::StrSliceExecFns;

verus! {

/// Whether two texts are the same.
pub fn same_text(a: &str, b: &str) -> (r: bool)
    ensures
        r == (a@ == b@),
{
    a.to_owned() == b.to_owned()
}

/// Whether a text begins with another.
pub fn starts_with(text: &str, prefix: &str) -> (r: bool)
    ensures
        r == prefix@.is_prefix_of(text@),
{
    let n: usize = prefix.unicode_len();
    if text.unicode_len() < n {
        return false;
    }
    for i in 0..n
        invariant
            n == prefix@.len() <= text@.len(),
            prefix@.take(i as int) == text@.take(i as int),
    {
        assert(prefix@.take(i + 1) == prefix@.take(i as int).push(prefix@[i as int]));
        assert(text@.take(i + 1) == text@.take(i as int).push(text@[i as int]));
        if prefix.get_char(i) != text.get_char(i) {
            assert(prefix@[i as int] != text@[i as int]);
            return false;
        }
    }
    assert(prefix@.take(n as int) == prefix@);
    true
}

/// Whether a text holds the given character.
pub fn contains_char(text: &str, c: char) -> (r: bool)
    ensures
        r == text@.contains(c),
{
    for d in iter: text.chars()
        invariant
            iter.seq() == text@,
            !text@.take(iter.index()).contains(c),
    {
        if c == d {
            return true;
        }
    }
    assert(text@.take(text@.len() as int) == text@);
    false
}

} // verus!
