//! Verified string helpers: prefix tests, substring extraction, whitespace
//! trimming, and character search. All contracts are stated over the
//! character-sequence view of the string.

use vstd::prelude::*;
use vstd::string::*;

verus! {

/// Whether `p` is a prefix of `s`.
pub open spec fn spec_starts_with(s: Seq<char>, p: Seq<char>) -> bool {
    p.len() <= s.len() && s.subrange(0, p.len() as int) == p
}

/// Whether `s` starts with the prefix `p`.
pub fn starts_with(s: &str, p: &str) -> (r: bool)
    ensures
        r == spec_starts_with(s@, p@),
{
    let s_len = s.unicode_len();
    let p_len = p.unicode_len();
    if p_len > s_len {
        assert(!spec_starts_with(s@, p@));
        return false;
    }
    let mut i: usize = 0;
    while i < p_len
        invariant
            i <= p_len,
            p_len <= s_len,
            s_len == s@.len(),
            p_len == p@.len(),
            forall|j: int| 0 <= j < i ==> s@[j] == p@[j],
        decreases p_len - i,
    {
        if s.get_char(i) != p.get_char(i) {
            assert(!spec_starts_with(s@, p@)) by {
                assert(s@.subrange(0, p@.len() as int)[i as int] == s@[i as int]);
            }
            return false;
        }
        i += 1;
    }
    assert(s@.subrange(0, p@.len() as int) =~= p@);
    true
}

/// The least index holding `c`, if `c` occurs in `s` at all.
pub open spec fn spec_find_char(s: Seq<char>, c: char) -> Option<int>
    decreases s.len(),
{
    if s.len() == 0 {
        None
    } else if s[0] == c {
        Some(0)
    } else {
        match spec_find_char(s.drop_first(), c) {
            Some(i) => Some(i + 1),
            None => None,
        }
    }
}

/// What `spec_find_char` returns: the least index holding the character,
/// or `None` when it is absent.
pub proof fn lemma_spec_find_char(s: Seq<char>, c: char)
    ensures
        match spec_find_char(s, c) {
            Option::Some(i) => 0 <= i < s.len() && s[i] == c && forall|j: int|
                0 <= j < i ==> s[j] != c,
            Option::None => forall|j: int| 0 <= j < s.len() ==> s[j] != c,
        },
    decreases s.len(),
{
    if s.len() > 0 && s[0] != c {
        lemma_spec_find_char(s.drop_first(), c);
        assert forall|j: int| 1 <= j < s.len() implies s[j] == s.drop_first()[j - 1] by {}
    }
}

/// An index holding `c`, before which `c` does not occur, is the one
/// `spec_find_char` names.
proof fn lemma_find_char_agrees(s: Seq<char>, c: char, i: int)
    requires
        0 <= i < s.len(),
        s[i] == c,
        forall|j: int| 0 <= j < i ==> s[j] != c,
    ensures
        spec_find_char(s, c) == Option::Some(i),
{
    lemma_spec_find_char(s, c);
    match spec_find_char(s, c) {
        Option::Some(f) => {
            if f < i {
                assert(s[f] != c);
            }
            if f > i {
                assert(s[i] != c);
            }
        },
        Option::None => {
            assert(s[i] != c);
        },
    }
}

/// The index of the first occurrence of `c` in `s`, or `None`.
pub fn find_char(s: &str, c: char) -> (r: Option<usize>)
    ensures
        match r {
            Option::Some(i) => spec_find_char(s@, c) == Option::Some(i as int),
            Option::None => spec_find_char(s@, c) is None,
        },
{
    proof {
        lemma_spec_find_char(s@, c);
    }
    let len = s.unicode_len();
    let mut i: usize = 0;
    while i < len
        invariant
            i <= len,
            len == s@.len(),
            forall|j: int| 0 <= j < i ==> s@[j] != c,
        decreases len - i,
    {
        if s.get_char(i) == c {
            proof {
                lemma_find_char_agrees(s@, c, i as int);
            }
            return Some(i);
        }
        i += 1;
    }
    None
}

/// The characters of `s` from `from` (inclusive) to `to` (exclusive), as an
/// owned string.
pub fn substring(s: &str, from: usize, to: usize) -> (r: String)
    requires
        from <= to <= s@.len(),
    ensures
        r@ == s@.subrange(from as int, to as int),
{
    let piece = s.substring_char(from, to);
    String::from_str(piece)
}

/// Whitespace, as the standard library's trim sees it: the Unicode
/// `White_Space` code points.
pub open spec fn spec_is_space(c: char) -> bool {
    c == ' ' || c == '\t' || c == '\n' || c == '\r' || c == '\u{b}' || c == '\u{c}' || c
        == '\u{85}' || c == '\u{a0}' || c == '\u{1680}' || c == '\u{2000}' || c == '\u{2001}' || c
        == '\u{2002}' || c == '\u{2003}' || c == '\u{2004}' || c == '\u{2005}' || c == '\u{2006}'
        || c == '\u{2007}' || c == '\u{2008}' || c == '\u{2009}' || c == '\u{200a}' || c
        == '\u{2028}' || c == '\u{2029}' || c == '\u{202f}' || c == '\u{205f}' || c == '\u{3000}'
}

/// Whether `c` is a whitespace character.
pub fn is_space(c: char) -> (r: bool)
    ensures
        r == spec_is_space(c),
{
    c == ' ' || c == '\t' || c == '\n' || c == '\r' || c == '\u{b}' || c == '\u{c}' || c
        == '\u{85}' || c == '\u{a0}' || c == '\u{1680}' || c == '\u{2000}' || c == '\u{2001}' || c
        == '\u{2002}' || c == '\u{2003}' || c == '\u{2004}' || c == '\u{2005}' || c == '\u{2006}'
        || c == '\u{2007}' || c == '\u{2008}' || c == '\u{2009}' || c == '\u{200a}' || c
        == '\u{2028}' || c == '\u{2029}' || c == '\u{202f}' || c == '\u{205f}' || c == '\u{3000}'
}

/// The number of leading whitespace characters of `s`.
pub open spec fn spec_leading_spaces(s: Seq<char>) -> int {
    if exists|i: int| 0 <= i < s.len() && !spec_is_space(s[i]) {
        choose|i: int|
            0 <= i < s.len() && !spec_is_space(s[i]) && forall|j: int|
                0 <= j < i ==> spec_is_space(s[j])
    } else {
        s.len() as int
    }
}

/// The number of trailing whitespace characters of `s`.
pub open spec fn spec_trailing_spaces(s: Seq<char>) -> int {
    if exists|i: int| 0 <= i < s.len() && !spec_is_space(s[i]) {
        let last = choose|i: int|
            0 <= i < s.len() && !spec_is_space(s[i]) && forall|j: int|
                i < j < s.len() ==> spec_is_space(s[j]);
        s.len() - 1 - last
    } else {
        s.len() as int
    }
}

/// `s` with leading and trailing whitespace removed: the subrange between
/// the first and the last non-whitespace character, or empty if there is
/// none.
pub open spec fn spec_trim(s: Seq<char>) -> Seq<char> {
    if exists|i: int| 0 <= i < s.len() && !spec_is_space(s[i]) {
        s.subrange(spec_leading_spaces(s), s.len() - spec_trailing_spaces(s))
    } else {
        Seq::empty()
    }
}

/// `s` with leading and trailing whitespace removed, as an owned string.
pub fn trim(s: &str) -> (r: String)
    ensures
        r@ == spec_trim(s@),
{
    let len = s.unicode_len();
    let mut start: usize = 0;
    while start < len && is_space(s.get_char(start))
        invariant
            start <= len,
            len == s@.len(),
            forall|j: int| 0 <= j < start ==> spec_is_space(s@[j]),
        decreases len - start,
    {
        start += 1;
    }
    if start == len {
        assert(forall|i: int| 0 <= i < s@.len() ==> spec_is_space(s@[i]));
        assert(spec_trim(s@) =~= Seq::<char>::empty());
        return String::new();
    }
    assert(0 <= start < s@.len() && !spec_is_space(s@[start as int]));
    let mut end: usize = len;
    while end > start + 1 && is_space(s.get_char(end - 1))
        invariant
            start < end <= len,
            len == s@.len(),
            !spec_is_space(s@[start as int]),
            forall|j: int| end <= j < len ==> spec_is_space(s@[j]),
        decreases end,
    {
        end -= 1;
    }
    assert(!spec_is_space(s@[end - 1])) by {
        if end == start + 1 {
            assert(s@[end - 1] == s@[start as int]);
        }
    }
    proof {
        let lead = spec_leading_spaces(s@);
        assert(0 <= lead < s@.len() && !spec_is_space(s@[lead]) && forall|j: int|
            0 <= j < lead ==> spec_is_space(s@[j]));
        assert(lead == start as int) by {
            if lead < start as int {
                assert(spec_is_space(s@[lead]));
            }
            if lead > start as int {
                assert(spec_is_space(s@[start as int]));
            }
        }
        let trail = spec_trailing_spaces(s@);
        let last = s@.len() - 1 - trail;
        assert(0 <= last < s@.len() && !spec_is_space(s@[last]) && forall|j: int|
            last < j < s@.len() ==> spec_is_space(s@[j]));
        assert(last == end - 1) by {
            if last < end - 1 {
                assert(spec_is_space(s@[end - 1]));
            }
            if last > end - 1 {
                assert(spec_is_space(s@[last]));
            }
        }
    }
    substring(s, start, end)
}

} // verus!
