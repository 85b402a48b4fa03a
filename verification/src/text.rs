//! Verified character and string helpers shared by the case transcoder,
//! the lookup tables and the pretty-printer.

use vstd::prelude::*;
use vstd::string::StrSliceExecFns;

verus! {

/// Relies on `String::push`: appends the given character to the end of the string.
pub assume_specification[ String::push ](s: &mut String, c: char)
    ensures
        final(s)@ == old(s)@.push(c),
;

/// An ASCII uppercase letter.
pub open spec fn is_ascii_upper(c: char) -> bool {
    'A' <= c && c <= 'Z'
}

/// An ASCII lowercase letter.
pub open spec fn is_ascii_lower(c: char) -> bool {
    'a' <= c && c <= 'z'
}

/// ASCII lowercasing: uppercase letters shift into the lowercase range,
/// every other character is left alone.
pub open spec fn to_lower(c: char) -> char {
    if is_ascii_upper(c) {
        (c as u8 + 32) as char
    } else {
        c
    }
}

/// A lowered character is never an ASCII uppercase letter, lowering is
/// idempotent, and lowering an uppercase letter yields a lowercase one.
pub proof fn lemma_to_lower_idempotent(c: char)
    ensures
        !is_ascii_upper(to_lower(c)),
        to_lower(to_lower(c)) == to_lower(c),
        is_ascii_upper(c) ==> is_ascii_lower(to_lower(c)),
{
}

/// Executable ASCII lowercasing.
pub fn lower_char(c: char) -> (r: char)
    ensures
        r == to_lower(c),
{
    if c >= 'A' && c <= 'Z' {
        (c as u8 + 32) as char
    } else {
        c
    }
}

/// Character-wise string equality.
pub fn str_eq(a: &str, b: &str) -> (r: bool)
    ensures
        r == (a@ == b@),
{
    let alen = a.unicode_len();
    let blen = b.unicode_len();
    if alen != blen {
        return false;
    }
    let mut i: usize = 0;
    while i < alen
        invariant
            i <= alen,
            alen == a@.len(),
            alen == b@.len(),
            forall|j: int| 0 <= j < i ==> a@[j] == b@[j],
        decreases alen - i,
    {
        if a.get_char(i) != b.get_char(i) {
            return false;
        }
        i = i + 1;
    }
    proof {
        assert(a@ =~= b@);
    }
    true
}

/// Whether `p` occurs in `s` as the contiguous block starting at `at`.
pub open spec fn match_at(s: Seq<char>, p: Seq<char>, at: int) -> bool {
    0 <= at && at + p.len() <= s.len() && s.subrange(at, at + p.len() as int) == p
}

/// Whether `s` starts with `p`.
pub open spec fn has_prefix(s: Seq<char>, p: Seq<char>) -> bool {
    match_at(s, p, 0)
}

/// Whether `s` ends with `p`.
pub open spec fn has_suffix(s: Seq<char>, p: Seq<char>) -> bool {
    p.len() <= s.len() && match_at(s, p, s.len() - p.len())
}

/// Whether `p` occurs somewhere in `s`.
pub open spec fn contains_sub(s: Seq<char>, p: Seq<char>) -> bool {
    exists|i: int| match_at(s, p, i)
}

/// Executable test for `match_at`.
pub fn str_match_at(s: &str, p: &str, at: usize) -> (r: bool)
    requires
        at <= s@.len(),
    ensures
        r == match_at(s@, p@, at as int),
{
    let slen = s.unicode_len();
    let plen = p.unicode_len();
    if plen > slen - at {
        return false;
    }
    let mut j: usize = 0;
    while j < plen
        invariant
            j <= plen,
            at + plen <= slen,
            slen == s@.len(),
            plen == p@.len(),
            forall|k: int| 0 <= k < j ==> s@[at + k] == p@[k],
        decreases plen - j,
    {
        if s.get_char(at + j) != p.get_char(j) {
            assert(s@.subrange(at as int, at + p@.len() as int)[j as int] != p@[j as int]);
            return false;
        }
        j = j + 1;
    }
    proof {
        assert(s@.subrange(at as int, at + p@.len() as int) =~= p@);
    }
    true
}

/// Executable test for `has_prefix`.
pub fn str_has_prefix(s: &str, p: &str) -> (r: bool)
    ensures
        r == has_prefix(s@, p@),
{
    str_match_at(s, p, 0)
}

/// Executable test for `has_suffix`.
pub fn str_has_suffix(s: &str, p: &str) -> (r: bool)
    ensures
        r == has_suffix(s@, p@),
{
    let slen = s.unicode_len();
    let plen = p.unicode_len();
    if plen > slen {
        return false;
    }
    str_match_at(s, p, slen - plen)
}

/// Executable test for `contains_sub`.
pub fn str_contains(s: &str, p: &str) -> (r: bool)
    ensures
        r == contains_sub(s@, p@),
{
    let slen = s.unicode_len();
    let plen = p.unicode_len();
    if plen > slen {
        assert(forall|i: int| !match_at(s@, p@, i));
        return false;
    }
    if plen == 0 {
        proof {
            assert(s@.subrange(0, 0) =~= p@);
            assert(match_at(s@, p@, 0));
        }
        return true;
    }
    let mut at: usize = 0;
    while at <= slen - plen
        invariant
            0 < plen <= slen,
            slen == s@.len(),
            plen == p@.len(),
            at <= slen - plen + 1,
            forall|k: int| 0 <= k < at ==> !match_at(s@, p@, k),
        decreases slen + 1 - plen - at,
    {
        if str_match_at(s, p, at) {
            assert(contains_sub(s@, p@));
            return true;
        }
        at = at + 1;
    }
    assert(forall|i: int| !match_at(s@, p@, i));
    false
}

/// The decimal digit character for a value below ten.
pub open spec fn digit_char(d: int) -> char {
    (48 + d) as char
}

/// The decimal representation of a natural number, most significant digit
/// first, with no leading zeros (except for the number zero itself).
pub open spec fn dec_rep(n: nat) -> Seq<char>
    decreases n,
{
    if n < 10 {
        seq![digit_char(n as int)]
    } else {
        dec_rep(n / 10).push(digit_char((n % 10) as int))
    }
}

/// Appends the decimal representation of `n` to `out`.
pub fn push_decimal(out: &mut String, n: u128)
    ensures
        final(out)@ == old(out)@ + dec_rep(n as nat),
    decreases n,
{
    if n < 10 {
        out.push((48 + n as u8) as char);
        proof {
            assert(final(out)@ =~= old(out)@ + dec_rep(n as nat));
        }
    } else {
        proof {
            assert(n / 10 < n) by (nonlinear_arith)
                requires
                    n >= 10,
            ;
        }
        push_decimal(out, n / 10);
        let d = (n % 10) as u8;
        out.push((48 + d) as char);
        proof {
            assert(final(out)@ =~= old(out)@ + dec_rep(n as nat));
        }
    }
}

} // verus!
