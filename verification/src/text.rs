//! Case-insensitive text matching.
//!
//! The catalog treats names and tag values as case-insensitive. Matching is
//! defined through an ASCII case fold: an uppercase ASCII letter folds to its
//! lowercase counterpart and every other character is left alone. Two strings
//! are equal, a prefix, or a substring "case-insensitively" exactly when their
//! folded images are.

use vstd::prelude::*;

verus! {

/// The case fold of one character: 'A'..='Z' fold to 'a'..='z',
/// everything else is unchanged.
pub open spec fn fold_char(c: char) -> char {
    if c == 'A' {
        'a'
    } else if c == 'B' {
        'b'
    } else if c == 'C' {
        'c'
    } else if c == 'D' {
        'd'
    } else if c == 'E' {
        'e'
    } else if c == 'F' {
        'f'
    } else if c == 'G' {
        'g'
    } else if c == 'H' {
        'h'
    } else if c == 'I' {
        'i'
    } else if c == 'J' {
        'j'
    } else if c == 'K' {
        'k'
    } else if c == 'L' {
        'l'
    } else if c == 'M' {
        'm'
    } else if c == 'N' {
        'n'
    } else if c == 'O' {
        'o'
    } else if c == 'P' {
        'p'
    } else if c == 'Q' {
        'q'
    } else if c == 'R' {
        'r'
    } else if c == 'S' {
        's'
    } else if c == 'T' {
        't'
    } else if c == 'U' {
        'u'
    } else if c == 'V' {
        'v'
    } else if c == 'W' {
        'w'
    } else if c == 'X' {
        'x'
    } else if c == 'Y' {
        'y'
    } else if c == 'Z' {
        'z'
    } else {
        c
    }
}

/// The case fold of a character sequence, character by character.
pub open spec fn fold_chars(s: Seq<char>) -> Seq<char> {
    s.map_values(|c: char| fold_char(c))
}

/// Case-insensitive equality: the folded images coincide.
pub open spec fn eq_fold(a: Seq<char>, b: Seq<char>) -> bool {
    fold_chars(a) == fold_chars(b)
}

/// Case-insensitive "starts with": the folded prefix is a prefix of the
/// folded string.
pub open spec fn prefix_fold(p: Seq<char>, s: Seq<char>) -> bool {
    fold_chars(p).is_prefix_of(fold_chars(s))
}

/// The needle's folded image occurs in the haystack's folded image at
/// offset `k`.
pub open spec fn match_at(h: Seq<char>, n: Seq<char>, k: int) -> bool {
    forall|i: int| 0 <= i < n.len() ==> fold_char(h[k + i]) == fold_char(n[i])
}

/// Case-insensitive "contains": the folded needle occurs somewhere in the
/// folded haystack. An empty needle occurs in every string.
pub open spec fn contains_fold(h: Seq<char>, n: Seq<char>) -> bool {
    exists|k: int| 0 <= k <= h.len() - n.len() && #[trigger] match_at(h, n, k)
}

/// Executable case fold of one character.
pub fn fold_char_exec(c: char) -> (r: char)
    ensures
        r == fold_char(c),
{
    if c == 'A' {
        'a'
    } else if c == 'B' {
        'b'
    } else if c == 'C' {
        'c'
    } else if c == 'D' {
        'd'
    } else if c == 'E' {
        'e'
    } else if c == 'F' {
        'f'
    } else if c == 'G' {
        'g'
    } else if c == 'H' {
        'h'
    } else if c == 'I' {
        'i'
    } else if c == 'J' {
        'j'
    } else if c == 'K' {
        'k'
    } else if c == 'L' {
        'l'
    } else if c == 'M' {
        'm'
    } else if c == 'N' {
        'n'
    } else if c == 'O' {
        'o'
    } else if c == 'P' {
        'p'
    } else if c == 'Q' {
        'q'
    } else if c == 'R' {
        'r'
    } else if c == 'S' {
        's'
    } else if c == 'T' {
        't'
    } else if c == 'U' {
        'u'
    } else if c == 'V' {
        'v'
    } else if c == 'W' {
        'w'
    } else if c == 'X' {
        'x'
    } else if c == 'Y' {
        'y'
    } else if c == 'Z' {
        'z'
    } else {
        c
    }
}

/// Case-insensitive string equality.
pub fn eq_ci(a: &str, b: &str) -> (r: bool)
    ensures
        r == eq_fold(a@, b@),
{
    let alen = a.unicode_len();
    let blen = b.unicode_len();
    if alen != blen {
        return false;
    }
    let mut i: usize = 0;
    while i < alen
        invariant
            0 <= i <= alen,
            alen == a@.len(),
            alen == b@.len(),
            forall|j: int| 0 <= j < i ==> fold_char(a@[j]) == fold_char(b@[j]),
        decreases alen - i,
    {
        let ca = fold_char_exec(a.get_char(i));
        let cb = fold_char_exec(b.get_char(i));
        if ca != cb {
            assert(fold_chars(a@)[i as int] != fold_chars(b@)[i as int]);
            return false;
        }
        i += 1;
    }
    assert(fold_chars(a@) =~= fold_chars(b@));
    true
}

/// Case-insensitive "does `s` start with `p`".
pub fn starts_with_ci(s: &str, p: &str) -> (r: bool)
    ensures
        r == prefix_fold(p@, s@),
{
    let slen = s.unicode_len();
    let plen = p.unicode_len();
    if plen > slen {
        return false;
    }
    let mut i: usize = 0;
    while i < plen
        invariant
            0 <= i <= plen,
            plen == p@.len(),
            slen == s@.len(),
            plen <= slen,
            forall|j: int| 0 <= j < i ==> fold_char(p@[j]) == fold_char(s@[j]),
        decreases plen - i,
    {
        let cp = fold_char_exec(p.get_char(i));
        let cs = fold_char_exec(s.get_char(i));
        if cp != cs {
            assert(!prefix_fold(p@, s@)) by {
                if fold_chars(p@).is_prefix_of(fold_chars(s@)) {
                    assert(fold_chars(p@)[i as int] == fold_chars(s@).subrange(
                        0,
                        p@.len() as int,
                    )[i as int]);
                }
            }
            return false;
        }
        i += 1;
    }
    assert(fold_chars(p@) =~= fold_chars(s@).subrange(0, p@.len() as int));
    true
}

/// Exact (case-sensitive) "does `s` start with `p`".
pub fn starts_with_exact(s: &str, p: &str) -> (r: bool)
    ensures
        r == p@.is_prefix_of(s@),
{
    let slen = s.unicode_len();
    let plen = p.unicode_len();
    if plen > slen {
        return false;
    }
    let mut i: usize = 0;
    while i < plen
        invariant
            0 <= i <= plen,
            plen == p@.len(),
            slen == s@.len(),
            plen <= slen,
            forall|j: int| 0 <= j < i ==> p@[j] == s@[j],
        decreases plen - i,
    {
        if p.get_char(i) != s.get_char(i) {
            assert(!p@.is_prefix_of(s@)) by {
                if p@.is_prefix_of(s@) {
                    assert(p@[i as int] == s@.subrange(0, p@.len() as int)[i as int]);
                }
            }
            return false;
        }
        i += 1;
    }
    assert(p@ =~= s@.subrange(0, p@.len() as int));
    true
}

/// Exact (case-sensitive) string equality.
pub fn str_eq(a: &str, b: &str) -> (r: bool)
    ensures
        r == (a@ == b@),
{
    let alen = a.unicode_len();
    let blen = b.unicode_len();
    if alen != blen {
        return false;
    }
    let mut i: usize = 0;
    while i < alen
        invariant
            0 <= i <= alen,
            alen == a@.len(),
            alen == b@.len(),
            forall|j: int| 0 <= j < i ==> a@[j] == b@[j],
        decreases alen - i,
    {
        if a.get_char(i) != b.get_char(i) {
            return false;
        }
        i += 1;
    }
    assert(a@ =~= b@);
    true
}

/// Does the folded needle occur in the folded haystack at offset `k`.
fn match_at_exec(h: &str, n: &str, k: usize) -> (r: bool)
    requires
        k + n@.len() <= h@.len(),
    ensures
        r == match_at(h@, n@, k as int),
{
    let hlen = h.unicode_len();
    let nlen = n.unicode_len();
    let mut i: usize = 0;
    while i < nlen
        invariant
            0 <= i <= nlen,
            nlen == n@.len(),
            hlen == h@.len(),
            k + nlen <= hlen,
            forall|j: int| 0 <= j < i ==> fold_char(h@[k + j]) == fold_char(n@[j]),
        decreases nlen - i,
    {
        let ch = fold_char_exec(h.get_char(k + i));
        let cn = fold_char_exec(n.get_char(i));
        if ch != cn {
            assert(fold_char(h@[k + i]) != fold_char(n@[i as int]));
            return false;
        }
        i += 1;
    }
    true
}

/// Case-insensitive "does `h` contain `n`".
pub fn contains_ci(h: &str, n: &str) -> (r: bool)
    ensures
        r == contains_fold(h@, n@),
{
    let hlen = h.unicode_len();
    let nlen = n.unicode_len();
    if nlen > hlen {
        assert(!contains_fold(h@, n@));
        return false;
    }
    let mut k: usize = 0;
    while k <= hlen - nlen
        invariant
            0 <= k <= hlen - nlen + 1,
            nlen <= hlen,
            hlen == h@.len(),
            nlen == n@.len(),
            forall|m: int| 0 <= m < k ==> !#[trigger] match_at(h@, n@, m),
        decreases hlen - nlen - k + 1,
    {
        if match_at_exec(h, n, k) {
            return true;
        }
        k += 1;
    }
    assert(!contains_fold(h@, n@));
    false
}

} // verus!
