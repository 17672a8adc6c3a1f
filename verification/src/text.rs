//! Verified string utilities shared by the rest of the library.
//!
//! Everything here works on `&str` / `String` values whose mathematical
//! model is a `Seq<char>`.

use vstd::prelude::*;

verus! {

/// ASCII lowercasing of a single character; anything outside `A..Z`
/// is left alone.
pub open spec fn lower_char(c: char) -> char {
    if 'A' <= c && c <= 'Z' {
        (((c as u8) + 32) as char)
    } else {
        c
    }
}

/// ASCII lowercasing of a whole string.
pub open spec fn lower(s: Seq<char>) -> Seq<char> {
    s.map_values(|c: char| lower_char(c))
}

/// Executable ASCII lowercasing of one character.
pub fn char_lower(c: char) -> (r: char)
    ensures
        r == lower_char(c),
{
    if 'A' <= c && c <= 'Z' {
        ((c as u8) + 32) as char
    } else {
        c
    }
}

/// Exact equality of two string slices.
pub fn str_eq(a: &str, b: &str) -> (r: bool)
    ensures
        r == (a@ == b@),
{
    let alen = a.unicode_len();
    let blen = b.unicode_len();
    if alen != blen {
        assert(a@ != b@) by {
            assert(a@.len() != b@.len());
        }
        return false;
    }
    let mut i: usize = 0;
    while i < alen
        invariant
            i <= alen,
            alen == a@.len(),
            alen == b@.len(),
            forall|j: int| 0 <= j < i ==> a@[j] == b@[j],
        decreases alen - i,
    {
        if a.get_char(i) != b.get_char(i) {
            return false;
        }
        i += 1;
    }
    proof {
        assert(a@ =~= b@);
    }
    true
}

/// Case-insensitive (ASCII) equality of two string slices.
pub fn eq_ignore_ascii(a: &str, b: &str) -> (r: bool)
    ensures
        r == (lower(a@) == lower(b@)),
{
    let alen = a.unicode_len();
    let blen = b.unicode_len();
    if alen != blen {
        assert(lower(a@) != lower(b@)) by {
            assert(lower(a@).len() != lower(b@).len());
        }
        return false;
    }
    let mut i: usize = 0;
    while i < alen
        invariant
            i <= alen,
            alen == a@.len(),
            alen == b@.len(),
            forall|j: int| 0 <= j < i ==> lower_char(a@[j]) == lower_char(b@[j]),
        decreases alen - i,
    {
        if char_lower(a.get_char(i)) != char_lower(b.get_char(i)) {
            assert(lower(a@)[i as int] != lower(b@)[i as int]);
            return false;
        }
        i += 1;
    }
    proof {
        assert(lower(a@) =~= lower(b@));
    }
    true
}

/// Does the ASCII-lowercased `s` end with `suffix` (given as-is)?
pub fn ends_with_lower(s: &str, suffix: &str) -> (r: bool)
    ensures
        r == suffix@.is_suffix_of(lower(s@)),
{
    let n = s.unicode_len();
    let m = suffix.unicode_len();
    if m > n {
        return false;
    }
    let mut j: usize = 0;
    while j < m
        invariant
            j <= m,
            m <= n,
            n == s@.len(),
            m == suffix@.len(),
            forall|k: int| 0 <= k < j ==> lower_char(s@[n - m + k]) == suffix@[k],
        decreases m - j,
    {
        if char_lower(s.get_char(n - m + j)) != suffix.get_char(j) {
            assert(!suffix@.is_suffix_of(lower(s@))) by {
                assert(lower(s@).subrange(n - m, n as int)[j as int] == lower_char(
                    s@[n - m + j],
                ));
            }
            return false;
        }
        j += 1;
    }
    proof {
        assert(suffix@ =~= lower(s@).subrange(n - m, n as int));
    }
    true
}

/// Does `s` start with `prefix`?
pub fn starts_with_str(s: &str, prefix: &str) -> (r: bool)
    ensures
        r == prefix@.is_prefix_of(s@),
{
    let n = s.unicode_len();
    let m = prefix.unicode_len();
    if m > n {
        return false;
    }
    let mut j: usize = 0;
    while j < m
        invariant
            j <= m,
            m <= n,
            n == s@.len(),
            m == prefix@.len(),
            forall|k: int| 0 <= k < j ==> s@[k] == prefix@[k],
        decreases m - j,
    {
        if s.get_char(j) != prefix.get_char(j) {
            assert(!prefix@.is_prefix_of(s@)) by {
                assert(s@.subrange(0, m as int)[j as int] == s@[j as int]);
            }
            return false;
        }
        j += 1;
    }
    proof {
        assert(prefix@ =~= s@.subrange(0, m as int));
    }
    true
}

/// Does `s` end with `suffix` (exactly)?
pub fn ends_with_str(s: &str, suffix: &str) -> (r: bool)
    ensures
        r == suffix@.is_suffix_of(s@),
{
    let n = s.unicode_len();
    let m = suffix.unicode_len();
    if m > n {
        return false;
    }
    let mut j: usize = 0;
    while j < m
        invariant
            j <= m,
            m <= n,
            n == s@.len(),
            m == suffix@.len(),
            forall|k: int| 0 <= k < j ==> s@[n - m + k] == suffix@[k],
        decreases m - j,
    {
        if s.get_char(n - m + j) != suffix.get_char(j) {
            assert(!suffix@.is_suffix_of(s@)) by {
                assert(s@.subrange(n - m, n as int)[j as int] == s@[n - m + j]);
            }
            return false;
        }
        j += 1;
    }
    proof {
        assert(suffix@ =~= s@.subrange(n - m, n as int));
    }
    true
}

/// `pat` occurs in `s` starting at position `i`.
pub open spec fn match_at(s: Seq<char>, pat: Seq<char>, i: int) -> bool {
    0 <= i && i + pat.len() <= s.len() && s.subrange(i, i + pat.len() as int) == pat
}

/// `pat` occurs somewhere in `s`.
pub open spec fn contains_seq(s: Seq<char>, pat: Seq<char>) -> bool {
    exists|i: int| match_at(s, pat, i)
}

pub(crate) fn matches_at(s: &str, pat: &str, i: usize) -> (r: bool)
    requires
        i + pat@.len() <= s@.len(),
    ensures
        r == match_at(s@, pat@, i as int),
{
    let n = s.unicode_len();
    let m = pat.unicode_len();
    let mut j: usize = 0;
    while j < m
        invariant
            j <= m,
            m == pat@.len(),
            n == s@.len(),
            i + m <= n,
            forall|k: int| 0 <= k < j ==> s@[i + k] == pat@[k],
        decreases m - j,
    {
        if s.get_char(i + j) != pat.get_char(j) {
            assert(!match_at(s@, pat@, i as int)) by {
                assert(s@.subrange(i as int, i + m)[j as int] == s@[i + j]);
            }
            return false;
        }
        j += 1;
    }
    proof {
        assert(pat@ =~= s@.subrange(i as int, i + m));
    }
    true
}

/// Position of the first occurrence of `pat` in `s` at or after `i`.
pub open spec fn spec_find_from(s: Seq<char>, pat: Seq<char>, i: nat) -> Option<int>
    decreases s.len() - i,
        when i <= s.len()
{
    if pat.len() == 0 || i + pat.len() > s.len() {
        None
    } else if match_at(s, pat, i as int) {
        Some(i as int)
    } else {
        spec_find_from(s, pat, i + 1)
    }
}

/// Position of the first occurrence of `pat` in `s`.
pub open spec fn spec_find(s: Seq<char>, pat: Seq<char>) -> Option<int> {
    spec_find_from(s, pat, 0)
}

/// What `spec_find_from` returns: the least match position at or after
/// `i`, or `None` exactly when there is no match at or after `i`.
pub proof fn lemma_find_from(s: Seq<char>, pat: Seq<char>, i: nat)
    requires
        i <= s.len(),
        pat.len() > 0,
    ensures
        match spec_find_from(s, pat, i) {
            Some(j) => i <= j && match_at(s, pat, j) && forall|k: int|
                i <= k < j ==> !match_at(s, pat, k),
            None => forall|k: int| i <= k ==> !match_at(s, pat, k),
        },
    decreases s.len() - i,
{
    if i + pat.len() > s.len() {
        assert(forall|k: int| i <= k ==> !match_at(s, pat, k));
    } else if match_at(s, pat, i as int) {
    } else {
        lemma_find_from(s, pat, i + 1);
    }
}

/// What `spec_find` returns, for a non-empty pattern: the least match
/// position, or `None` exactly when the pattern occurs nowhere.
pub proof fn lemma_find(s: Seq<char>, pat: Seq<char>)
    requires
        pat.len() > 0,
    ensures
        match spec_find(s, pat) {
            Some(j) => match_at(s, pat, j) && forall|k: int| 0 <= k < j ==> !match_at(s, pat, k),
            None => !contains_seq(s, pat),
        },
{
    lemma_find_from(s, pat, 0);
    if spec_find(s, pat) is None {
        assert forall|i: int| !match_at(s, pat, i) by {
            if i < 0 {
            } else {
                assert(!match_at(s, pat, i));
            }
        }
    }
}

/// First occurrence of `pat` in `s`, as `str::find` computes it for
/// non-empty patterns (the index counts characters, not bytes).
pub fn find_sub(s: &str, pat: &str) -> (r: Option<usize>)
    requires
        pat@.len() > 0,
    ensures
        match r {
            Some(j) => spec_find(s@, pat@) == Some(j as int),
            None => spec_find(s@, pat@) is None,
        },
{
    let n = s.unicode_len();
    let m = pat.unicode_len();
    if m > n {
        return None;
    }
    let mut i: usize = 0;
    loop
        invariant
            i <= n - m + 1,
            m <= n,
            0 < m,
            n == s@.len(),
            m == pat@.len(),
            spec_find(s@, pat@) == spec_find_from(s@, pat@, i as nat),
        decreases n - m - i + 1,
    {
        if i > n - m {
            return None;
        }
        if matches_at(s, pat, i) {
            return Some(i);
        }
        i += 1;
    }
}

/// Position of the last occurrence of `pat` in `s` at or before `i`.
pub open spec fn spec_rfind_from(s: Seq<char>, pat: Seq<char>, i: int) -> Option<int>
    decreases i + 1,
{
    if i < 0 {
        None
    } else if match_at(s, pat, i) {
        Some(i)
    } else {
        spec_rfind_from(s, pat, i - 1)
    }
}

/// Position of the last occurrence of `pat` in `s`.
pub open spec fn spec_rfind(s: Seq<char>, pat: Seq<char>) -> Option<int> {
    spec_rfind_from(s, pat, s.len() - pat.len())
}

/// What `spec_rfind_from` returns: the greatest match position at or
/// below `i`, or `None` exactly when there is no match at or below `i`.
pub proof fn lemma_rfind_from(s: Seq<char>, pat: Seq<char>, i: int)
    ensures
        match spec_rfind_from(s, pat, i) {
            Some(j) => j <= i && match_at(s, pat, j) && forall|k: int|
                j < k <= i ==> !match_at(s, pat, k),
            None => forall|k: int| k <= i ==> !match_at(s, pat, k),
        },
    decreases i + 1,
{
    if i < 0 {
    } else if match_at(s, pat, i) {
    } else {
        lemma_rfind_from(s, pat, i - 1);
    }
}

/// What `spec_rfind` returns: the greatest match position, or `None`
/// exactly when the pattern occurs nowhere.
pub proof fn lemma_rfind(s: Seq<char>, pat: Seq<char>)
    ensures
        match spec_rfind(s, pat) {
            Some(j) => match_at(s, pat, j) && forall|k: int| k > j ==> !match_at(s, pat, k),
            None => !contains_seq(s, pat),
        },
{
    lemma_rfind_from(s, pat, s.len() - pat.len());
    assert(forall|k: int| k > s.len() - pat.len() ==> !match_at(s, pat, k));
}

/// Last occurrence of `pat` in `s`, as `str::rfind` computes it for
/// non-empty patterns (the index counts characters, not bytes).
pub fn rfind_sub(s: &str, pat: &str) -> (r: Option<usize>)
    requires
        pat@.len() > 0,
    ensures
        match r {
            Some(j) => spec_rfind(s@, pat@) == Some(j as int),
            None => spec_rfind(s@, pat@) is None,
        },
{
    let n = s.unicode_len();
    let m = pat.unicode_len();
    if m > n {
        proof {
            lemma_rfind_from(s@, pat@, n - m);
        }
        return None;
    }
    let mut i: usize = n - m;
    loop
        invariant
            i <= n - m,
            m <= n,
            n == s@.len(),
            m == pat@.len(),
            spec_rfind(s@, pat@) == spec_rfind_from(s@, pat@, i as int),
        decreases i + 1,
    {
        if matches_at(s, pat, i) {
            return Some(i);
        }
        if i == 0 {
            proof {
                assert(spec_rfind_from(s@, pat@, -1) is None);
            }
            return None;
        }
        i -= 1;
    }
}

/// Does `pat` occur in `s`?
pub fn contains_sub(s: &str, pat: &str) -> (r: bool)
    requires
        pat@.len() > 0,
    ensures
        r == contains_seq(s@, pat@),
{
    let r = find_sub(s, pat);
    proof {
        lemma_find(s@, pat@);
    }
    match r {
        Some(_) => true,
        None => false,
    }
}

/// Every occurrence of a non-empty `pat` replaced by `repl`, scanning
/// left to right without overlap, as `str::replace` does.
pub open spec fn spec_replace(s: Seq<char>, pat: Seq<char>, repl: Seq<char>) -> Seq<char>
    decreases s.len(),
        when pat.len() > 0
{
    if s.len() == 0 {
        s
    } else if pat.len() <= s.len() && s.take(pat.len() as int) == pat {
        repl + spec_replace(s.skip(pat.len() as int), pat, repl)
    } else {
        seq![s[0]] + spec_replace(s.skip(1), pat, repl)
    }
}

/// Replace every occurrence of `pat` in `s` by `repl`.
pub fn replace_all(s: &str, pat: &str, repl: &str) -> (r: String)
    requires
        pat@.len() > 0,
    ensures
        r@ == spec_replace(s@, pat@, repl@),
{
    let n = s.unicode_len();
    let m = pat.unicode_len();
    let mut out = String::new();
    let mut i: usize = 0;
    proof {
        assert(s@.skip(0) =~= s@);
        assert(out@ + spec_replace(s@, pat@, repl@) =~= spec_replace(s@, pat@, repl@));
    }
    while i < n
        invariant
            i <= n,
            n == s@.len(),
            m == pat@.len(),
            m > 0,
            spec_replace(s@, pat@, repl@) == out@ + spec_replace(
                s@.skip(i as int),
                pat@,
                repl@,
            ),
        decreases n - i,
    {
        let ghost rest = s@.skip(i as int);
        let ghost out0 = out@;
        if m <= n - i && matches_at(s, pat, i) {
            out.append(repl);
            proof {
                assert(rest.take(m as int) =~= s@.subrange(i as int, i + m));
                assert(rest.skip(m as int) =~= s@.skip(i + m));
                assert(out0 + (repl@ + spec_replace(s@.skip(i + m), pat@, repl@)) =~= (out0
                    + repl@) + spec_replace(s@.skip(i + m), pat@, repl@));
            }
            i += m;
        } else {
            let piece = s.substring_char(i, i + 1);
            out.append(piece);
            proof {
                assert(rest.len() > 0);
                if m <= rest.len() && rest.take(m as int) == pat@ {
                    assert(match_at(s@, pat@, i as int)) by {
                        assert(rest.take(m as int) =~= s@.subrange(i as int, i + m));
                    }
                    assert(false);
                }
                assert(seq![rest[0]] =~= s@.subrange(i as int, i + 1));
                assert(rest.skip(1) =~= s@.skip(i + 1));
                assert(out0 + (seq![rest[0]] + spec_replace(s@.skip(i + 1), pat@, repl@)) =~= (
                out0 + piece@) + spec_replace(s@.skip(i + 1), pat@, repl@));
            }
            i += 1;
        }
    }
    proof {
        assert(s@.skip(n as int) =~= Seq::<char>::empty());
        assert(out@ =~= out@ + s@.skip(n as int));
    }
    out
}

} // verus!
