//! Lexicographic ordering of strings and of `(host, name)` sort keys.
//!
//! The container table is kept sorted by `(host_id, name)`. This module
//! defines that order mathematically, proves it is a total ordering (which
//! the uniqueness-of-sorted-order argument needs), and provides the verified
//! executable comparison that the reducer uses.

use vstd::prelude::*;
use vstd::string::*;

verus! {

/// Result of a three-way comparison.
#[derive(Clone, Copy, Debug, PartialEq, Eq, Structural)]
pub enum Cmp {
    Less,
    Equal,
    Greater,
}

/// Strict lexicographic order on character sequences, by code point.
pub open spec fn lex_lt(a: Seq<char>, b: Seq<char>) -> bool
    decreases a.len(),
{
    if b.len() == 0 {
        false
    } else if a.len() == 0 {
        true
    } else if a[0] != b[0] {
        (a[0] as int) < (b[0] as int)
    } else {
        lex_lt(a.drop_first(), b.drop_first())
    }
}

/// Non-strict lexicographic order on character sequences.
pub open spec fn lex_le(a: Seq<char>, b: Seq<char>) -> bool {
    lex_lt(a, b) || a == b
}

/// A container's sort key: its host followed by its name.
pub type SortKey = (Seq<char>, Seq<char>);

/// Non-strict order on sort keys: host first, then name.
pub open spec fn key_le(a: SortKey, b: SortKey) -> bool {
    lex_lt(a.0, b.0) || (a.0 == b.0 && lex_le(a.1, b.1))
}

/// The sort-key order as a first-class relation, in the shape vstd's
/// sequence lemmas expect.
pub open spec fn key_le_fn() -> spec_fn(SortKey, SortKey) -> bool {
    |a: SortKey, b: SortKey| key_le(a, b)
}

pub proof fn lemma_lex_lt_connected(a: Seq<char>, b: Seq<char>)
    ensures
        lex_lt(a, b) || lex_lt(b, a) || a == b,
    decreases a.len(),
{
    if a.len() == 0 && b.len() == 0 {
        assert(a =~= b);
    } else if a.len() == 0 {
        assert(lex_lt(a, b));
    } else if b.len() == 0 {
        assert(lex_lt(b, a));
    } else if a[0] != b[0] {
        assert((a[0] as int) != (b[0] as int));
    } else if a.len() > 0 && b.len() > 0 && a[0] == b[0] {
        let x = a.drop_first();
        let y = b.drop_first();
        lemma_lex_lt_connected(x, y);
        if !lex_lt(x, y) && !lex_lt(y, x) {
            assert(x =~= y);
            assert(x.len() == y.len());
            assert forall|i: int| 0 <= i < a.len() implies a[i] == b[i] by {
                if i >= 1 {
                    assert(a[i] == x[i - 1]);
                    assert(b[i] == y[i - 1]);
                }
            }
            assert(a =~= b);
        }
    }
}

pub proof fn lemma_lex_lt_asymmetric(a: Seq<char>, b: Seq<char>)
    ensures
        !(lex_lt(a, b) && lex_lt(b, a)),
    decreases a.len(),
{
    if a.len() > 0 && b.len() > 0 && a[0] == b[0] {
        lemma_lex_lt_asymmetric(a.drop_first(), b.drop_first());
    }
}

pub proof fn lemma_lex_lt_transitive(a: Seq<char>, b: Seq<char>, c: Seq<char>)
    requires
        lex_lt(a, b),
        lex_lt(b, c),
    ensures
        lex_lt(a, c),
    decreases a.len(),
{
    if a.len() > 0 && b.len() > 0 && c.len() > 0 && a[0] == b[0] && b[0] == c[0] {
        lemma_lex_lt_transitive(a.drop_first(), b.drop_first(), c.drop_first());
    }
}

pub proof fn lemma_key_le_transitive(a: SortKey, b: SortKey, c: SortKey)
    requires
        key_le(a, b),
        key_le(b, c),
    ensures
        key_le(a, c),
{
    if lex_lt(a.0, b.0) && lex_lt(b.0, c.0) {
        lemma_lex_lt_transitive(a.0, b.0, c.0);
    } else if lex_lt(a.1, b.1) && lex_lt(b.1, c.1) {
        lemma_lex_lt_transitive(a.1, b.1, c.1);
    }
}

/// The sort-key order is a total ordering: reflexive, antisymmetric,
/// transitive, and any two keys are comparable.
pub proof fn lemma_key_le_total_ordering()
    ensures
        vstd::relations::total_ordering(key_le_fn()),
{
    let r = key_le_fn();
    assert forall|x: SortKey| #[trigger] r(x, x) by {
        assert(key_le(x, x));
    }
    assert forall|x: SortKey, y: SortKey| #[trigger] r(x, y) && #[trigger] r(y, x) implies x == y by {
        lemma_lex_lt_asymmetric(x.0, y.0);
        lemma_lex_lt_asymmetric(x.1, y.1);
        assert(x.0 == y.0 && x.1 == y.1);
        assert(x =~= y);
    }
    assert forall|x: SortKey, y: SortKey, z: SortKey|
        #[trigger] r(x, y) && #[trigger] r(y, z) implies r(x, z) by {
        lemma_key_le_transitive(x, y, z);
    }
    assert forall|x: SortKey, y: SortKey| #[trigger] r(x, y) || #[trigger] r(y, x) by {
        lemma_lex_lt_connected(x.0, y.0);
        lemma_lex_lt_connected(x.1, y.1);
    }
}

/// The recursive order definition, restated one position at a time: if two
/// sequences agree on a prefix, their order is decided past that prefix.
pub proof fn lemma_lex_lt_skip(a: Seq<char>, b: Seq<char>, i: int)
    requires
        0 <= i <= a.len(),
        0 <= i <= b.len(),
        forall|j: int| 0 <= j < i ==> a[j] == b[j],
    ensures
        lex_lt(a, b) == lex_lt(a.skip(i), b.skip(i)),
    decreases i,
{
    if i > 0 && a.len() > 0 && b.len() > 0 {
        assert(a.drop_first().skip(i - 1) =~= a.skip(i));
        assert(b.drop_first().skip(i - 1) =~= b.skip(i));
        lemma_lex_lt_skip(a.drop_first(), b.drop_first(), i - 1);
    } else {
        assert(a.skip(0) =~= a);
        assert(b.skip(0) =~= b);
    }
}

/// Three-way comparison of two strings by the lexicographic order on their
/// characters.
pub fn compare_str(a: &str, b: &str) -> (r: Cmp)
    ensures
        r == Cmp::Less <==> lex_lt(a@, b@),
        r == Cmp::Equal <==> a@ == b@,
{
    let a_len = a.unicode_len();
    let b_len = b.unicode_len();
    let n = if a_len < b_len {
        a_len
    } else {
        b_len
    };
    let mut i: usize = 0;
    while i < n
        invariant
            i <= n,
            n == if a_len < b_len {
                a_len
            } else {
                b_len
            },
            a_len == a@.len(),
            b_len == b@.len(),
            forall|j: int| 0 <= j < i ==> a@[j] == b@[j],
        decreases n - i,
    {
        let ca = a.get_char(i);
        let cb = b.get_char(i);
        if (ca as u32) < (cb as u32) {
            proof {
                lemma_lex_lt_skip(a@, b@, i as int);
                lemma_lex_lt_skip(b@, a@, i as int);
                assert(a@.skip(i as int)[0] == ca && b@.skip(i as int)[0] == cb);
                assert(a@ != b@) by {
                    assert(a@[i as int] != b@[i as int]);
                }
            }
            return Cmp::Less;
        }
        if (cb as u32) < (ca as u32) {
            proof {
                lemma_lex_lt_skip(a@, b@, i as int);
                lemma_lex_lt_skip(b@, a@, i as int);
                assert(a@.skip(i as int)[0] == ca && b@.skip(i as int)[0] == cb);
                assert(a@ != b@) by {
                    assert(a@[i as int] != b@[i as int]);
                }
            }
            return Cmp::Greater;
        }
        assert(ca == cb) by {
            assert(ca as u32 == cb as u32);
        }
        i += 1;
    }
    proof {
        lemma_lex_lt_skip(a@, b@, n as int);
        lemma_lex_lt_skip(b@, a@, n as int);
    }
    if a_len < b_len {
        assert(a@ != b@) by {
            assert(a@.len() != b@.len());
        }
        Cmp::Less
    } else if b_len < a_len {
        assert(a@ != b@) by {
            assert(a@.len() != b@.len());
        }
        Cmp::Greater
    } else {
        assert(a@ =~= b@);
        Cmp::Equal
    }
}

/// Non-strict comparison of two `(host, name)` sort keys.
pub fn key_le_exec(host_a: &str, name_a: &str, host_b: &str, name_b: &str) -> (r: bool)
    ensures
        r == key_le((host_a@, name_a@), (host_b@, name_b@)),
{
    match compare_str(host_a, host_b) {
        Cmp::Less => true,
        Cmp::Greater => {
            proof {
                lemma_lex_lt_connected(host_a@, host_b@);
            }
            false
        },
        Cmp::Equal => match compare_str(name_a, name_b) {
            Cmp::Less => true,
            Cmp::Equal => true,
            Cmp::Greater => {
                proof {
                    lemma_lex_lt_connected(name_a@, name_b@);
                }
                false
            },
        },
    }
}

} // verus!
