//! Character-level string operations with contracts over `Seq<char>` views.

use vstd::prelude::*;

verus! {

/// `needle` occurs as a contiguous run of characters inside `haystack`.
pub open spec fn seq_contains_run(haystack: Seq<char>, needle: Seq<char>) -> bool {
    exists|start: int|
        0 <= start && start + needle.len() <= haystack.len() && #[trigger] haystack.subrange(
            start,
            start + needle.len(),
        ) == needle
}

/// `std::string::String::push` appends one character to the end of the string.
pub assume_specification[ String::push ](s: &mut String, ch: char)
    ensures
        final(s)@ == old(s)@.push(ch),
;

/// Compares two strings character by character.
pub fn str_eq(a: &str, b: &str) -> (equal: bool)
    ensures
        equal == (a@ == b@),
{
    let len = a.unicode_len();
    if len != b.unicode_len() {
        return false;
    }
    let mut i: usize = 0;
    while i < len
        invariant
            len == a@.len(),
            len == b@.len(),
            i <= len,
            forall|j: int| 0 <= j < i ==> a@[j] == b@[j],
        decreases len - i,
    {
        if a.get_char(i) != b.get_char(i) {
            return false;
        }
        i = i + 1;
    }
    assert(a@ =~= b@);
    true
}

/// Whether `needle` occurs at character position `start` of `haystack`.
fn occurs_at(haystack: &str, needle: &str, start: usize) -> (found: bool)
    requires
        start + needle@.len() <= haystack@.len(),
        haystack@.len() <= usize::MAX,
    ensures
        found == (haystack@.subrange(start as int, start + needle@.len()) == needle@),
{
    let n = needle.unicode_len();
    let mut i: usize = 0;
    while i < n
        invariant
            n == needle@.len(),
            start + n <= haystack@.len(),
            haystack@.len() <= usize::MAX,
            i <= n,
            forall|j: int| 0 <= j < i ==> haystack@[start + j] == needle@[j],
        decreases n - i,
    {
        if haystack.get_char(start + i) != needle.get_char(i) {
            assert(haystack@.subrange(start as int, start + n)[i as int] != needle@[i as int]);
            return false;
        }
        i = i + 1;
    }
    assert(haystack@.subrange(start as int, start + n) =~= needle@);
    true
}

/// Whether `needle` appears anywhere inside `haystack`, as `str::contains` does for strings.
pub fn str_contains(haystack: &str, needle: &str) -> (found: bool)
    ensures
        found == seq_contains_run(haystack@, needle@),
{
    let h = haystack.unicode_len();
    let n = needle.unicode_len();
    if n > h {
        return false;
    }
    let last = h - n;
    let mut start: usize = 0;
    loop
        invariant
            h == haystack@.len(),
            n == needle@.len(),
            n <= h,
            last == h - n,
            start <= last,
            forall|s: int|
                0 <= s < start ==> #[trigger] haystack@.subrange(s, s + n) != needle@,
        decreases last - start,
    {
        if occurs_at(haystack, needle, start) {
            return true;
        }
        if start == last {
            return false;
        }
        start = start + 1;
    }
}

/// Appends every character of `tail` to `s`.
pub fn push_all(s: &mut String, tail: &str)
    ensures
        final(s)@ == old(s)@ + tail@,
{
    s.append(tail);
}

} // verus!
