//! Character-level string predicates used by the policy rules.

use vstd::prelude::*;
use vstd::string::StrSliceExecFns;

verus! {

/// `prefix` is an initial segment of `s`.
pub open spec fn is_prefix_of(prefix: Seq<char>, s: Seq<char>) -> bool {
    prefix.len() <= s.len() && s.subrange(0, prefix.len() as int) == prefix
}

/// `needle` occurs in `s` starting at character `i`.
pub open spec fn occurs_at(s: Seq<char>, needle: Seq<char>, i: int) -> bool {
    0 <= i && i + needle.len() <= s.len() && s.subrange(i, i + needle.len()) == needle
}

/// `needle` occurs somewhere in `s`.
pub open spec fn contains_seq(s: Seq<char>, needle: Seq<char>) -> bool {
    exists|i: int| occurs_at(s, needle, i)
}

/// Whether `needle` matches `s` at character offset `start`.
fn matches_at(s: &str, s_len: usize, needle: &str, n_len: usize, start: usize) -> (r: bool)
    requires
        s_len == s@.len(),
        n_len == needle@.len(),
        start + n_len <= s_len,
    ensures
        r == occurs_at(s@, needle@, start as int),
{
    let mut j: usize = 0;
    while j < n_len
        invariant
            s_len == s@.len(),
            n_len == needle@.len(),
            start + n_len <= s_len,
            j <= n_len,
            forall|k: int| 0 <= k < j ==> s@[start + k] == needle@[k],
        decreases n_len - j,
    {
        if s.get_char(start + j) != needle.get_char(j) {
            assert(s@.subrange(start as int, start + n_len)[j as int] != needle@[j as int]);
            return false;
        }
        j = j + 1;
    }
    assert(s@.subrange(start as int, start + n_len) =~= needle@);
    true
}

/// Character-wise equality of two strings.
pub fn same_text(a: &str, b: &str) -> (r: bool)
    ensures
        r == (a@ == b@),
{
    let a_len = a.unicode_len();
    let b_len = b.unicode_len();
    if a_len != b_len {
        return false;
    }
    let r = matches_at(a, a_len, b, b_len, 0);
    assert(a@.subrange(0, a_len as int) =~= a@);
    r
}

/// Whether `s` begins with `prefix`.
pub fn starts_with_text(s: &str, prefix: &str) -> (r: bool)
    ensures
        r == is_prefix_of(prefix@, s@),
{
    let s_len = s.unicode_len();
    let p_len = prefix.unicode_len();
    if p_len > s_len {
        return false;
    }
    matches_at(s, s_len, prefix, p_len, 0)
}

/// Whether `needle` occurs anywhere in `s`.
pub fn contains_text(s: &str, needle: &str) -> (r: bool)
    ensures
        r == contains_seq(s@, needle@),
{
    let s_len = s.unicode_len();
    let n_len = needle.unicode_len();
    if n_len > s_len {
        assert(!contains_seq(s@, needle@));
        return false;
    }
    if n_len == 0 {
        assert(s@.subrange(0, 0) =~= needle@);
        assert(occurs_at(s@, needle@, 0));
        return true;
    }
    let last = s_len - n_len;
    let mut i: usize = 0;
    while i <= last
        invariant
            s_len == s@.len(),
            n_len == needle@.len(),
            last == s_len - n_len,
            last < s_len,
            i <= last + 1,
            forall|k: int| 0 <= k < i ==> !occurs_at(s@, needle@, k),
        decreases last + 1 - i,
    {
        if matches_at(s, s_len, needle, n_len, i) {
            return true;
        }
        i = i + 1;
    }
    assert forall|k: int| !occurs_at(s@, needle@, k) by {
        if 0 <= k && k + n_len <= s_len {
            assert(k < i);
        }
    }
    false
}

} // verus!
