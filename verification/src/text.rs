//! Character-level helpers shared by the registry and the renderer.

use vstd::prelude::*;
use vstd::string::*;

verus! {

/// The characters of `s`, in order.
pub fn chars_of(s: &str) -> (out: Vec<char>)
    ensures
        out@ == s@,
{
    let mut out: Vec<char> = Vec::new();
    for c in it: s.chars()
        invariant
            out@ == it.seq().take(it.index() as int),
            it.seq() == s@,
    {
        out.push(c);
    }
    out
}

/// Whether `part` occurs in `text` starting at position `at`.
pub open spec fn occurs_at(text: Seq<char>, at: int, part: Seq<char>) -> bool {
    &&& 0 <= at
    &&& at + part.len() <= text.len()
    &&& text.subrange(at, at + part.len()) == part
}

/// Decides [`occurs_at`] by comparing character by character.
pub fn has_at(text: &Vec<char>, at: usize, part: &Vec<char>) -> (found: bool)
    ensures
        found == occurs_at(text@, at as int, part@),
{
    if at > text.len() || part.len() > text.len() - at {
        return false;
    }
    let mut k: usize = 0;
    while k < part.len()
        invariant
            k <= part.len(),
            at + part.len() <= text.len(),
            forall|j: int| 0 <= j < k ==> text@[at + j] == part@[j],
        decreases part.len() - k,
    {
        if text[at + k] != part[k] {
            return false;
        }
        k += 1;
    }
    assert(text@.subrange(at as int, at + part.len()) =~= part@);
    true
}

/// Whether two strings hold the same characters.
pub fn same_text(a: &str, b: &str) -> (same: bool)
    ensures
        same == (a@ == b@),
{
    let left = chars_of(a);
    let right = chars_of(b);
    if left.len() != right.len() {
        return false;
    }
    let same = has_at(&left, 0, &right);
    assert(left@.subrange(0, left@.len() as int) =~= left@);
    same
}

/// `unit` written `count` times, for a `unit` of one character.
pub(crate) fn repeated(unit: &str, count: usize) -> (out: String)
    requires
        unit@.len() == 1,
    ensures
        out@ == Seq::new(count as nat, |i: int| unit@[0]),
{
    let mut out = String::new();
    let mut k: usize = 0;
    while k < count
        invariant
            k <= count,
            unit@.len() == 1,
            out@ == Seq::new(k as nat, |i: int| unit@[0]),
        decreases count - k,
    {
        out.append(unit);
        k += 1;
    }
    out
}

} // verus!
