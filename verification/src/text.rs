//! Small operations on text, stated over its characters.

use vstd::prelude::*;
use vstd::string::*;

verus! {

/// Whether `text` ends with `suffix`.
pub open spec fn has_suffix(text: Seq<char>, suffix: Seq<char>) -> bool {
    suffix.len() <= text.len() && text.subrange(text.len() - suffix.len(), text.len() as int)
        == suffix
}

/// The longest run at the end of `text` that is free of `stop`.
pub open spec fn tail_after(text: Seq<char>, stop: char) -> Seq<char>
    decreases text.len(),
{
    if text.len() == 0 || text.last() == stop {
        Seq::empty()
    } else {
        tail_after(text.drop_last(), stop).push(text.last())
    }
}

/// The characters of `text`, in order.
pub fn chars_of(text: &str) -> (v: Vec<char>)
    ensures
        v@ == text@,
{
    let mut v: Vec<char> = Vec::new();
    for c in it: text.chars()
        invariant
            it.seq() == text@,
            v@ == it.seq().take(it.index() as int),
    {
        v.push(c);
    }
    v
}

/// Whether `text` ends with `suffix`.
pub fn ends_with(text: &str, suffix: &str) -> (r: bool)
    ensures
        r == has_suffix(text@, suffix@),
{
    let t = chars_of(text);
    let s = chars_of(suffix);
    if s.len() > t.len() {
        return false;
    }
    let offset = t.len() - s.len();
    let mut i: usize = 0;
    while i < s.len()
        invariant
            i <= s.len(),
            offset + s.len() == t.len(),
            t@ == text@,
            s@ == suffix@,
            forall|j: int| 0 <= j < i ==> t@[offset + j] == s@[j],
        decreases s.len() - i,
    {
        if t[offset + i] != s[i] {
            return false;
        }
        i = i + 1;
    }
    assert(t@.subrange(offset as int, t@.len() as int) =~= s@);
    true
}

/// The end of `text` from just behind its last `stop`; all of it where it
/// holds no `stop`.
pub fn after_last(text: &str, stop: char) -> (r: String)
    ensures
        r@ == tail_after(text@, stop),
{
    let t = chars_of(text);
    let mut start: usize = t.len();
    assert(t@.take(t@.len() as int) =~= t@);
    while start > 0 && t[start - 1] != stop
        invariant
            start <= t.len(),
            tail_after(t@, stop) == tail_after(t@.take(start as int), stop) + t@.subrange(
                start as int,
                t@.len() as int,
            ),
        decreases start,
    {
        assert(t@.take(start as int).drop_last() =~= t@.take(start - 1));
        start = start - 1;
    }
    text.substring_char(start, t.len()).to_owned()
}

} // verus!
