//! Verified string searching primitives used by candidate normalization.

use vstd::prelude::*;
use vstd::string::*;

verus! {

/// `needle` occurs in `hay` starting at character position `i`.
pub open spec fn occurs_at(hay: Seq<char>, needle: Seq<char>, i: int) -> bool {
    &&& 0 <= i
    &&& i + needle.len() <= hay.len()
    &&& hay.subrange(i, i + needle.len() as int) == needle
}

/// `needle` occurs somewhere in `hay`.
pub open spec fn contains_seq(hay: Seq<char>, needle: Seq<char>) -> bool {
    exists|i: int| occurs_at(hay, needle, i)
}

/// `i` is the first position at which `needle` occurs in `hay`.
pub open spec fn first_occurs_at(hay: Seq<char>, needle: Seq<char>, i: int) -> bool {
    &&& occurs_at(hay, needle, i)
    &&& forall|j: int| j < i ==> !occurs_at(hay, needle, j)
}

/// `i` is the last position at which `needle` occurs in `hay`.
pub open spec fn last_occurs_at(hay: Seq<char>, needle: Seq<char>, i: int) -> bool {
    &&& occurs_at(hay, needle, i)
    &&& forall|j: int| j > i ==> !occurs_at(hay, needle, j)
}

/// The first position at which `needle` occurs in `hay`, meaningful only
/// when `contains_seq(hay, needle)` holds.
pub open spec fn spec_first_index(hay: Seq<char>, needle: Seq<char>) -> int {
    choose|i: int| first_occurs_at(hay, needle, i)
}

/// The last position at which `needle` occurs in `hay`, meaningful only
/// when `contains_seq(hay, needle)` holds.
pub open spec fn spec_last_index(hay: Seq<char>, needle: Seq<char>) -> int {
    choose|i: int| last_occurs_at(hay, needle, i)
}

pub proof fn lemma_first_occurs_unique(hay: Seq<char>, needle: Seq<char>, i: int, j: int)
    requires
        first_occurs_at(hay, needle, i),
        first_occurs_at(hay, needle, j),
    ensures
        i == j,
{
}

pub proof fn lemma_last_occurs_unique(hay: Seq<char>, needle: Seq<char>, i: int, j: int)
    requires
        last_occurs_at(hay, needle, i),
        last_occurs_at(hay, needle, j),
    ensures
        i == j,
{
}

/// Does `needle` occur in `hay` at character position `i`?
fn matches_at(hay: &str, needle: &str, i: usize) -> (r: bool)
    requires
        i + needle@.len() <= hay@.len(),
        hay@.len() <= usize::MAX,
    ensures
        r == occurs_at(hay@, needle@, i as int),
{
    let nl: usize = needle.unicode_len();
    let mut j: usize = 0;
    while j < nl
        invariant
            0 <= j <= nl,
            nl == needle@.len(),
            i + nl <= hay@.len() <= usize::MAX,
            forall|k: int| 0 <= k < j ==> hay@[i + k] == needle@[k],
        decreases nl - j,
    {
        if hay.get_char(i + j) != needle.get_char(j) {
            assert(hay@.subrange(i as int, i + nl as int) != needle@) by {
                assert(hay@.subrange(i as int, i + nl as int)[j as int] == hay@[i + j]);
            }
            return false;
        }
        j += 1;
    }
    proof {
        assert(hay@.subrange(i as int, i + nl as int) =~= needle@);
    }
    true
}

/// Position of the first occurrence of `needle` in `hay`, if any.
pub fn find_first(hay: &str, needle: &str) -> (r: Option<usize>)
    ensures
        r matches Some(i) ==> first_occurs_at(hay@, needle@, i as int),
        r is None ==> !contains_seq(hay@, needle@),
{
    let hl: usize = hay.unicode_len();
    let nl: usize = needle.unicode_len();
    if nl > hl {
        return None;
    }
    if nl == 0 {
        proof {
            assert(occurs_at(hay@, needle@, 0)) by {
                assert(hay@.subrange(0, 0) =~= needle@);
            }
        }
        return Some(0);
    }
    let mut i: usize = 0;
    while i <= hl - nl
        invariant
            hl == hay@.len(),
            nl == needle@.len(),
            1 <= nl <= hl,
            0 <= i <= hl - nl + 1,
            forall|j: int| 0 <= j < i ==> !occurs_at(hay@, needle@, j),
        decreases hl - nl - i + 1,
    {
        if matches_at(hay, needle, i) {
            return Some(i);
        }
        i += 1;
    }
    None
}

/// Position of the last occurrence of `needle` in `hay`, if any.
pub fn find_last(hay: &str, needle: &str) -> (r: Option<usize>)
    ensures
        r matches Some(i) ==> last_occurs_at(hay@, needle@, i as int),
        r is None ==> !contains_seq(hay@, needle@),
{
    let hl: usize = hay.unicode_len();
    let nl: usize = needle.unicode_len();
    if nl > hl {
        return None;
    }
    if nl == 0 {
        proof {
            assert(occurs_at(hay@, needle@, hl as int)) by {
                assert(hay@.subrange(hl as int, hl as int) =~= needle@);
            }
        }
        return Some(hl);
    }
    let mut i: usize = hl - nl + 1;
    while i > 0
        invariant
            hl == hay@.len(),
            nl == needle@.len(),
            1 <= nl <= hl,
            0 <= i <= hl - nl + 1,
            forall|j: int| j >= i ==> !occurs_at(hay@, needle@, j),
        decreases i,
    {
        i -= 1;
        if matches_at(hay, needle, i) {
            return Some(i);
        }
    }
    None
}

/// Are two strings equal character for character?
pub fn str_eq(a: &str, b: &str) -> (r: bool)
    ensures
        r == (a@ == b@),
{
    let al: usize = a.unicode_len();
    let bl: usize = b.unicode_len();
    if al != bl {
        return false;
    }
    let r = matches_at(a, b, 0);
    proof {
        assert(a@.subrange(0, bl as int) =~= a@);
    }
    r
}

/// Does `needle` occur anywhere in `hay`?
pub fn contains_str(hay: &str, needle: &str) -> (r: bool)
    ensures
        r == contains_seq(hay@, needle@),
{
    match find_first(hay, needle) {
        Some(_) => true,
        None => false,
    }
}

/// Some character of `s` equals `c`.
pub open spec fn has_char(s: Seq<char>, c: char) -> bool {
    exists|i: int| 0 <= i < s.len() && s[i] == c
}

/// `i` is the position of the last `c` in `s`.
pub open spec fn last_char_at(s: Seq<char>, c: char, i: int) -> bool {
    &&& 0 <= i < s.len()
    &&& s[i] == c
    &&& forall|j: int| i < j < s.len() ==> s[j] != c
}

/// `i` is the position of the first `c` in `s`.
pub open spec fn first_char_at(s: Seq<char>, c: char, i: int) -> bool {
    &&& 0 <= i < s.len()
    &&& s[i] == c
    &&& forall|j: int| 0 <= j < i ==> s[j] != c
}

/// The position of the last `c` in `s`, meaningful only when `has_char(s, c)`.
pub open spec fn spec_last_char_index(s: Seq<char>, c: char) -> int {
    choose|i: int| last_char_at(s, c, i)
}

/// The position of the first `c` in `s`, meaningful only when `has_char(s, c)`.
pub open spec fn spec_first_char_index(s: Seq<char>, c: char) -> int {
    choose|i: int| first_char_at(s, c, i)
}

pub proof fn lemma_first_char_unique(s: Seq<char>, c: char, i: int, j: int)
    requires
        first_char_at(s, c, i),
        first_char_at(s, c, j),
    ensures
        i == j,
{
}

pub proof fn lemma_last_char_unique(s: Seq<char>, c: char, i: int, j: int)
    requires
        last_char_at(s, c, i),
        last_char_at(s, c, j),
    ensures
        i == j,
{
}

/// Position of the first occurrence of character `c` in `s`, if any.
pub fn find_first_char(s: &str, c: char) -> (r: Option<usize>)
    ensures
        r matches Some(i) ==> first_char_at(s@, c, i as int),
        r is None ==> !has_char(s@, c),
{
    let l: usize = s.unicode_len();
    let mut i: usize = 0;
    while i < l
        invariant
            l == s@.len(),
            0 <= i <= l,
            forall|j: int| 0 <= j < i ==> s@[j] != c,
        decreases l - i,
    {
        if s.get_char(i) == c {
            return Some(i);
        }
        i += 1;
    }
    None
}

/// Position of the last occurrence of character `c` in `s`, if any.
pub fn find_last_char(s: &str, c: char) -> (r: Option<usize>)
    ensures
        r matches Some(i) ==> last_char_at(s@, c, i as int),
        r is None ==> !has_char(s@, c),
{
    let l: usize = s.unicode_len();
    let mut i: usize = l;
    while i > 0
        invariant
            l == s@.len(),
            0 <= i <= l,
            forall|j: int| i <= j < l ==> s@[j] != c,
        decreases i,
    {
        i -= 1;
        if s.get_char(i) == c {
            return Some(i);
        }
    }
    None
}

/// A decimal digit, as the host-port check understands it.
pub open spec fn is_digit_char(c: char) -> bool {
    '0' <= c && c <= '9'
}

/// Every character of `s` is a decimal digit (vacuously true of the empty string).
pub open spec fn all_digits(s: Seq<char>) -> bool {
    forall|i: int| 0 <= i < s.len() ==> is_digit_char(s[i])
}

/// Is every character of `s` a decimal digit?
pub fn check_all_digits(s: &str) -> (r: bool)
    ensures
        r == all_digits(s@),
{
    let l: usize = s.unicode_len();
    let mut i: usize = 0;
    while i < l
        invariant
            l == s@.len(),
            0 <= i <= l,
            forall|j: int| 0 <= j < i ==> is_digit_char(s@[j]),
        decreases l - i,
    {
        let c = s.get_char(i);
        if !(c >= '0' && c <= '9') {
            return false;
        }
        i += 1;
    }
    true
}

/// Copy the character range `[from, to)` of `s` into an owned string.
pub fn substring_string(s: &str, from: usize, to: usize) -> (r: String)
    requires
        from <= to <= s@.len(),
    ensures
        r@ == s@.subrange(from as int, to as int),
{
    s.substring_char(from, to).to_owned()
}

} // verus!
