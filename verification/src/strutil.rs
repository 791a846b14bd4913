//! Small string helpers shared by the shortcut grammar: locating separator
//! characters and comparing a slice of the input against a fixed name.

use vstd::prelude::*;

verus! {

/// First index of `c` in `s`, or -1 when `c` does not occur.
pub open spec fn find_first(s: Seq<char>, c: char) -> int
    decreases s.len(),
{
    if s.len() == 0 {
        -1
    } else if s[0] == c {
        0
    } else {
        let r = find_first(s.subrange(1, s.len() as int), c);
        if r < 0 {
            -1
        } else {
            1 + r
        }
    }
}

/// Last index of `c` in `s`, or -1 when `c` does not occur.
pub open spec fn find_last(s: Seq<char>, c: char) -> int
    decreases s.len(),
{
    if s.len() == 0 {
        -1
    } else if s[s.len() - 1] == c {
        s.len() - 1
    } else {
        find_last(s.drop_last(), c)
    }
}

/// `find_first` returns exactly the index whose earlier positions all differ
/// from `c`.
pub proof fn lemma_find_first_is(s: Seq<char>, c: char, j: int)
    requires
        0 <= j < s.len(),
        s[j] == c,
        forall|k: int| 0 <= k < j ==> s[k] != c,
    ensures
        find_first(s, c) == j,
    decreases s.len(),
{
    if j == 0 {
    } else {
        let t = s.subrange(1, s.len() as int);
        assert(forall|k: int| 0 <= k < j - 1 ==> t[k] == s[k + 1]);
        lemma_find_first_is(t, c, j - 1);
    }
}

/// When `c` occurs nowhere in `s`, `find_first` reports -1.
pub proof fn lemma_find_first_none(s: Seq<char>, c: char)
    requires
        forall|k: int| 0 <= k < s.len() ==> s[k] != c,
    ensures
        find_first(s, c) == -1,
    decreases s.len(),
{
    if s.len() == 0 {
    } else {
        lemma_find_first_none(s.subrange(1, s.len() as int), c);
    }
}

/// `find_last` returns exactly the index whose later positions all differ
/// from `c`.
pub proof fn lemma_find_last_is(s: Seq<char>, c: char, j: int)
    requires
        0 <= j < s.len(),
        s[j] == c,
        forall|k: int| j < k < s.len() ==> s[k] != c,
    ensures
        find_last(s, c) == j,
    decreases s.len(),
{
    if j == s.len() - 1 {
    } else {
        lemma_find_last_is(s.drop_last(), c, j);
    }
}

/// When `c` occurs nowhere in `s`, `find_last` reports -1.
pub proof fn lemma_find_last_none(s: Seq<char>, c: char)
    requires
        forall|k: int| 0 <= k < s.len() ==> s[k] != c,
    ensures
        find_last(s, c) == -1,
    decreases s.len(),
{
    if s.len() == 0 {
    } else {
        lemma_find_last_none(s.drop_last(), c);
    }
}

/// Whether the character range `[from, to)` of `s` spells exactly `lit`.
pub fn range_eq(s: &str, from: usize, to: usize, lit: &str) -> (r: bool)
    requires
        from <= to <= s@.len(),
    ensures
        r == (s@.subrange(from as int, to as int) == lit@),
{
    let n = lit.unicode_len();
    if to - from != n {
        proof {
            assert(s@.subrange(from as int, to as int).len() == to - from);
        }
        return false;
    }
    let mut i: usize = 0;
    while i < n
        invariant
            from <= to <= s@.len(),
            to - from == n,
            n == lit@.len(),
            i <= n,
            forall|j: int| 0 <= j < i ==> s@[from + j] == lit@[j],
        decreases n - i,
    {
        if s.get_char(from + i) != lit.get_char(i) {
            proof {
                assert(s@.subrange(from as int, to as int)[i as int] == s@[from + i]);
            }
            return false;
        }
        i = i + 1;
    }
    proof {
        assert(s@.subrange(from as int, to as int) =~= lit@);
    }
    true
}

/// Relies on `String::push`: appends exactly the one given character.
#[verifier::external_body]
pub(crate) fn push_char(s: &mut String, c: char)
    ensures
        final(s)@ == old(s)@.push(c),
{
    s.push(c);
}

} // verus!
