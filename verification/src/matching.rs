//! Glob matching (`*`, `?`, `[abc]`) and did-you-mean suggestions by edit
//! distance.

use vstd::prelude::*;
use crate::strutil::chars_of;
use vstd::string::StringSliceAdditionalSpecFns;

verus! {

broadcast use vstd::string::group_string_axioms;

// ── glob ─────────────────────────────────────────────────────────────────────

/// Index of the first `]` in `pat` at or after `from`, or `pat.len()`.
pub open spec fn close_bracket(pat: Seq<u8>, from: int) -> int
    decreases pat.len() - from,
{
    if from >= pat.len() {
        pat.len() as int
    } else if pat[from] == 93u8 {
        from
    } else {
        close_bracket(pat, from + 1)
    }
}

/// Glob semantics: `*` matches any run of bytes, `?` one byte, `[abc]` one
/// byte from the class, and any other byte itself.
pub open spec fn glob(pat: Seq<u8>, s: Seq<u8>) -> bool
    decreases pat.len(), s.len(),
{
    if pat.len() == 0 {
        s.len() == 0
    } else if pat[0] == 42u8 {
        glob(pat.drop_first(), s) || (s.len() > 0 && glob(pat, s.drop_first()))
    } else if pat[0] == 63u8 && s.len() > 0 {
        glob(pat.drop_first(), s.drop_first())
    } else if pat[0] == 91u8 {
        let end = close_bracket(pat, 0);
        proof {
            lemma_close_bracket(pat, 0);
        }
        if s.len() == 0 {
            false
        } else if pat.subrange(1, end).contains(s[0]) && end < pat.len() {
            glob(pat.subrange(end + 1, pat.len() as int), s.drop_first())
        } else {
            false
        }
    } else {
        s.len() > 0 && pat[0] == s[0] && glob(pat.drop_first(), s.drop_first())
    }
}

/// The matcher runs without slicing past the end of the pattern: a `[` class
/// with no closing `]` is never asked to match a byte that it contains.
pub open spec fn glob_defined(pat: Seq<u8>, s: Seq<u8>) -> bool
    decreases pat.len(), s.len(),
{
    if pat.len() == 0 {
        true
    } else if pat[0] == 42u8 {
        glob_defined(pat.drop_first(), s) && (glob(pat.drop_first(), s) || s.len() == 0
            || glob_defined(pat, s.drop_first()))
    } else if pat[0] == 63u8 && s.len() > 0 {
        glob_defined(pat.drop_first(), s.drop_first())
    } else if pat[0] == 91u8 {
        let end = close_bracket(pat, 0);
        proof {
            lemma_close_bracket(pat, 0);
        }
        if s.len() == 0 {
            true
        } else if pat.subrange(1, end).contains(s[0]) {
            end < pat.len() && glob_defined(pat.subrange(end + 1, pat.len() as int), s.drop_first())
        } else {
            true
        }
    } else if s.len() > 0 && pat[0] == s[0] {
        glob_defined(pat.drop_first(), s.drop_first())
    } else {
        true
    }
}

pub proof fn lemma_close_bracket(pat: Seq<u8>, from: int)
    requires
        0 <= from,
    ensures
        from <= close_bracket(pat, from) <= pat.len() || (from > pat.len()
            && close_bracket(pat, from) == pat.len()),
        close_bracket(pat, from) < pat.len() ==> pat[close_bracket(pat, from)] == 93u8,
        forall|k: int| from <= k < close_bracket(pat, from) ==> pat[k] != 93u8,
    decreases pat.len() - from,
{
    if from < pat.len() && pat[from] != 93u8 {
        lemma_close_bracket(pat, from + 1);
    }
}

fn find_close(pat: &[u8], from: usize) -> (r: usize)
    requires
        from <= pat@.len(),
    ensures
        r == close_bracket(pat@, from as int),
    decreases pat@.len() - from,
{
    if from >= pat.len() {
        pat.len()
    } else if pat[from] == 93u8 {
        from
    } else {
        find_close(pat, from + 1)
    }
}

fn class_contains(pat: &[u8], from: usize, to: usize, b: u8) -> (r: bool)
    requires
        from <= to <= pat@.len(),
    ensures
        r == pat@.subrange(from as int, to as int).contains(b),
{
    let mut i = from;
    while i < to
        invariant
            from <= i <= to <= pat@.len(),
            forall|k: int| from <= k < i ==> pat@[k] != b,
        decreases to - i,
    {
        if pat[i] == b {
            assert(pat@.subrange(from as int, to as int)[i - from] == b);
            return true;
        }
        i += 1;
    }
    proof {
        let sub = pat@.subrange(from as int, to as int);
        assert forall|k: int| 0 <= k < sub.len() implies sub[k] != b by {
            assert(sub[k] == pat@[from + k]);
        }
    }
    false
}

/// Matching on the suffixes `pat[pi..]` and `s[si..]`.
fn glob_match_inner(pat: &[u8], pi: usize, s: &[u8], si: usize) -> (r: bool)
    requires
        pi <= pat@.len(),
        si <= s@.len(),
        glob_defined(pat@.subrange(pi as int, pat@.len() as int), s@.subrange(si as int, s@.len() as int)),
    ensures
        r == glob(pat@.subrange(pi as int, pat@.len() as int), s@.subrange(si as int, s@.len() as int)),
    decreases pat@.len() - pi, s@.len() - si,
{
    let ghost p = pat@.subrange(pi as int, pat@.len() as int);
    let ghost t = s@.subrange(si as int, s@.len() as int);
    proof {
        assert(p.len() > 0 ==> p.drop_first() =~= pat@.subrange(pi + 1, pat@.len() as int));
        assert(t.len() > 0 ==> t.drop_first() =~= s@.subrange(si + 1, s@.len() as int));
    }
    if pi == pat.len() {
        return si == s.len();
    }
    let c = pat[pi];
    assert(c == p[0]);
    if c == 42u8 {
        if glob_match_inner(pat, pi + 1, s, si) {
            return true;
        }
        if si == s.len() {
            return false;
        }
        return glob_match_inner(pat, pi, s, si + 1);
    }
    if c == 63u8 && si < s.len() {
        return glob_match_inner(pat, pi + 1, s, si + 1);
    }
    if c == 91u8 {
        let end = find_close(pat, pi);
        proof {
            lemma_close_bracket(pat@, pi as int);
            lemma_close_shift(pat@, pi as int);
        }
        if si == s.len() {
            return false;
        }
        let first = if pi + 1 <= end { pi + 1 } else { end };
        let matched = class_contains(pat, first, end, s[si]);
        proof {
            let e = end - pi;
            assert(e >= 1);
            assert(p.subrange(1, e) =~= pat@.subrange(pi + 1, end as int));
            assert(s[si as int] == t[0]);
        }
        if matched {
            proof {
                let e = end - pi;
                assert(p.subrange(e + 1, p.len() as int) =~= pat@.subrange(end + 1, pat@.len() as int));
            }
            return glob_match_inner(pat, end + 1, s, si + 1);
        } else {
            return false;
        }
    }
    if si < s.len() && c == s[si] {
        return glob_match_inner(pat, pi + 1, s, si + 1);
    }
    false
}

/// Matching on the suffixes `pat[pi..]` and `s[si..]` that first checks
/// that the matcher stays inside the pattern: `None` where it would not.
fn glob_try(pat: &[u8], pi: usize, s: &[u8], si: usize) -> (r: Option<bool>)
    requires
        pi <= pat@.len(),
        si <= s@.len(),
    ensures
        r is Some == glob_defined(
            pat@.subrange(pi as int, pat@.len() as int),
            s@.subrange(si as int, s@.len() as int),
        ),
        r matches Some(b) ==> b == glob(
            pat@.subrange(pi as int, pat@.len() as int),
            s@.subrange(si as int, s@.len() as int),
        ),
    decreases pat@.len() - pi, s@.len() - si,
{
    let ghost p = pat@.subrange(pi as int, pat@.len() as int);
    let ghost t = s@.subrange(si as int, s@.len() as int);
    proof {
        assert(p.len() > 0 ==> p.drop_first() =~= pat@.subrange(pi + 1, pat@.len() as int));
        assert(t.len() > 0 ==> t.drop_first() =~= s@.subrange(si + 1, s@.len() as int));
    }
    if pi == pat.len() {
        return Some(si == s.len());
    }
    let c = pat[pi];
    assert(c == p[0]);
    if c == 42u8 {
        match glob_try(pat, pi + 1, s, si) {
            None => return None,
            Some(true) => return Some(true),
            Some(false) => {},
        }
        if si == s.len() {
            return Some(false);
        }
        return glob_try(pat, pi, s, si + 1);
    }
    if c == 63u8 && si < s.len() {
        return glob_try(pat, pi + 1, s, si + 1);
    }
    if c == 91u8 {
        let end = find_close(pat, pi);
        proof {
            lemma_close_bracket(pat@, pi as int);
            lemma_close_shift(pat@, pi as int);
        }
        if si == s.len() {
            return Some(false);
        }
        let first = if pi + 1 <= end { pi + 1 } else { end };
        let matched = class_contains(pat, first, end, s[si]);
        proof {
            let e = end - pi;
            assert(e >= 1);
            assert(p.subrange(1, e) =~= pat@.subrange(pi + 1, end as int));
            assert(s[si as int] == t[0]);
        }
        if matched {
            if end == pat.len() {
                return None;
            }
            proof {
                let e = end - pi;
                assert(p.subrange(e + 1, p.len() as int) =~= pat@.subrange(end + 1, pat@.len() as int));
            }
            return glob_try(pat, end + 1, s, si + 1);
        } else {
            return Some(false);
        }
    }
    if si < s.len() && c == s[si] {
        return glob_try(pat, pi + 1, s, si + 1);
    }
    Some(false)
}

/// Whether [`glob_match`] can run on these arguments: `false` exactly when
/// matching would reach a `[` class with no closing `]` that holds the
/// byte to match.
pub fn glob_is_defined(pattern: &str, input: &str) -> (r: bool)
    ensures
        r == glob_defined(pattern.spec_bytes(), input.spec_bytes()),
{
    let p = pattern.as_bytes();
    let s = input.as_bytes();
    assert(p@.subrange(0, p@.len() as int) =~= p@);
    assert(s@.subrange(0, s@.len() as int) =~= s@);
    glob_try(p, 0, s, 0).is_some()
}

proof fn lemma_close_shift(pat: Seq<u8>, pi: int)
    requires
        0 <= pi < pat.len(),
        pat[pi] == 91u8,
    ensures
        close_bracket(pat.subrange(pi, pat.len() as int), 0) == close_bracket(pat, pi) - pi,
{
    lemma_close_shift_from(pat, pi, 0);
}

proof fn lemma_close_shift_from(pat: Seq<u8>, pi: int, k: int)
    requires
        0 <= pi <= pat.len(),
        0 <= k,
    ensures
        close_bracket(pat.subrange(pi, pat.len() as int), k) == close_bracket(pat, pi + k) - pi,
    decreases pat.len() - pi - k,
{
    let p = pat.subrange(pi, pat.len() as int);
    if pi + k < pat.len() {
        assert(p[k] == pat[pi + k]);
        if pat[pi + k] != 93u8 {
            lemma_close_shift_from(pat, pi, k + 1);
        }
    }
}

/// Simple glob matching — supports `*`, `?` and `[abc]` — over the UTF-8
/// bytes of `pattern` and `input`.
pub fn glob_match(pattern: &str, input: &str) -> (r: bool)
    requires
        glob_defined(pattern.spec_bytes(), input.spec_bytes()),
    ensures
        r == glob(pattern.spec_bytes(), input.spec_bytes()),
{
    let p = pattern.as_bytes();
    let s = input.as_bytes();
    assert(p@.subrange(0, p@.len() as int) =~= p@);
    assert(s@.subrange(0, s@.len() as int) =~= s@);
    glob_match_inner(p, 0, s, 0)
}

// ── edit distance ────────────────────────────────────────────────────────────

pub open spec fn min_nat(x: nat, y: nat) -> nat {
    if x <= y {
        x
    } else {
        y
    }
}

/// Levenshtein distance between the prefixes `a[..i]` and `b[..j]`.
pub open spec fn lev(a: Seq<char>, b: Seq<char>, i: nat, j: nat) -> nat
    decreases i + j,
{
    if i == 0 {
        j
    } else if j == 0 {
        i
    } else if a[i - 1] == b[j - 1] {
        lev(a, b, (i - 1) as nat, (j - 1) as nat)
    } else {
        1 + min_nat(
            min_nat(lev(a, b, (i - 1) as nat, j), lev(a, b, i, (j - 1) as nat)),
            lev(a, b, (i - 1) as nat, (j - 1) as nat),
        )
    }
}

/// Levenshtein distance between two character sequences.
pub open spec fn edit_dist(a: Seq<char>, b: Seq<char>) -> nat {
    lev(a, b, a.len(), b.len())
}

proof fn lemma_lev_bound(a: Seq<char>, b: Seq<char>, i: nat, j: nat)
    ensures
        lev(a, b, i, j) <= if i >= j { i } else { j },
    decreases i + j,
{
    if i > 0 && j > 0 {
        lemma_lev_bound(a, b, (i - 1) as nat, (j - 1) as nat);
    }
}

proof fn lemma_lev_symmetric(a: Seq<char>, b: Seq<char>, i: nat, j: nat)
    ensures
        lev(a, b, i, j) == lev(b, a, j, i),
    decreases i + j,
{
    if i > 0 && j > 0 {
        lemma_lev_symmetric(a, b, (i - 1) as nat, (j - 1) as nat);
        lemma_lev_symmetric(a, b, (i - 1) as nat, j);
        lemma_lev_symmetric(a, b, i, (j - 1) as nat);
    }
}

proof fn lemma_lev_same(a: Seq<char>, i: nat)
    ensures
        lev(a, a, i, i) == 0,
    decreases i,
{
    if i > 0 {
        lemma_lev_same(a, (i - 1) as nat);
    }
}

proof fn lemma_lev_step(a: Seq<char>, b: Seq<char>, i: nat, j: nat)
    ensures
        j > 0 ==> lev(a, b, i, j) <= lev(a, b, i, (j - 1) as nat) + 1,
        j > 0 ==> lev(a, b, i, (j - 1) as nat) <= lev(a, b, i, j) + 1,
        i > 0 ==> lev(a, b, i, j) <= lev(a, b, (i - 1) as nat, j) + 1,
        i > 0 ==> lev(a, b, (i - 1) as nat, j) <= lev(a, b, i, j) + 1,
    decreases i + j,
{
    if i > 0 && j > 0 {
        let i1 = (i - 1) as nat;
        let j1 = (j - 1) as nat;
        lemma_lev_step(a, b, i1, j);
        lemma_lev_step(a, b, i, j1);
        if a[i - 1] == b[j - 1] {
            assert(lev(a, b, i, j) == lev(a, b, i1, j1));
        } else {
            assert(lev(a, b, i, j) == 1 + min_nat(
                min_nat(lev(a, b, i1, j), lev(a, b, i, j1)),
                lev(a, b, i1, j1),
            ));
        }
    }
}

proof fn lemma_lev_lower(a: Seq<char>, b: Seq<char>, i: nat, j: nat)
    ensures
        lev(a, b, i, j) >= i - j,
        lev(a, b, i, j) >= j - i,
    decreases i + j,
{
    if i > 0 && j > 0 {
        lemma_lev_lower(a, b, (i - 1) as nat, (j - 1) as nat);
        lemma_lev_lower(a, b, (i - 1) as nat, j);
        lemma_lev_lower(a, b, i, (j - 1) as nat);
    }
}

proof fn lemma_lev_prefix(a: Seq<char>, b1: Seq<char>, b2: Seq<char>, i: nat, j: nat)
    requires
        j <= b1.len(),
        j <= b2.len(),
        forall|m: int| 0 <= m < j ==> b1[m] == b2[m],
    ensures
        lev(a, b1, i, j) == lev(a, b2, i, j),
    decreases i + j,
{
    if i > 0 && j > 0 {
        lemma_lev_prefix(a, b1, b2, (i - 1) as nat, (j - 1) as nat);
        lemma_lev_prefix(a, b1, b2, (i - 1) as nat, j);
        lemma_lev_prefix(a, b1, b2, i, (j - 1) as nat);
    }
}

proof fn lemma_lev_insert(a: Seq<char>, b: Seq<char>, k: int, c: char, i: nat, j: nat)
    requires
        0 <= k <= j <= b.len(),
    ensures
        lev(a, b.insert(k, c), i, j + 1) <= lev(a, b, i, j) + 1,
    decreases i + j,
{
    let t = b.insert(k, c);
    if j == k {
        lemma_lev_step(a, t, i, (j + 1) as nat);
        lemma_lev_prefix(a, b, t, i, j);
    } else if i > 0 {
        assert(t[j as int] == b[j - 1]);
        lemma_lev_insert(a, b, k, c, (i - 1) as nat, (j - 1) as nat);
        lemma_lev_insert(a, b, k, c, (i - 1) as nat, j);
        lemma_lev_insert(a, b, k, c, i, (j - 1) as nat);
    }
}

proof fn lemma_lev_diagonal(a: Seq<char>, b: Seq<char>, i: nat, j: nat)
    requires
        i > 0,
        j > 0,
    ensures
        lev(a, b, (i - 1) as nat, (j - 1) as nat) <= lev(a, b, i, j),
{
    lemma_lev_step(a, b, (i - 1) as nat, j);
    lemma_lev_step(a, b, i, (j - 1) as nat);
}

proof fn lemma_lev_update(a: Seq<char>, b: Seq<char>, k: int, c: char, i: nat, j: nat)
    requires
        0 <= k < b.len(),
        j <= b.len(),
    ensures
        lev(a, b.update(k, c), i, j) <= lev(a, b, i, j) + 1,
    decreases i + j,
{
    let t = b.update(k, c);
    if j <= k {
        lemma_lev_prefix(a, b, t, i, j);
    } else if i > 0 {
        let i1 = (i - 1) as nat;
        let j1 = (j - 1) as nat;
        if j1 == k {
            lemma_lev_prefix(a, b, t, i1, j1);
            lemma_lev_diagonal(a, b, i, j);
        } else {
            assert(t[j1 as int] == b[j1 as int]);
            lemma_lev_update(a, b, k, c, i1, j1);
            lemma_lev_update(a, b, k, c, i1, j);
            lemma_lev_update(a, b, k, c, i, j1);
        }
    }
}

proof fn lemma_lev_zero(a: Seq<char>, b: Seq<char>, i: nat, j: nat)
    requires
        lev(a, b, i, j) == 0,
    ensures
        i == j,
        forall|m: int| 0 <= m < i ==> a[m] == b[m],
    decreases i + j,
{
    if i > 0 && j > 0 {
        if a[i - 1] == b[j - 1] {
            lemma_lev_zero(a, b, (i - 1) as nat, (j - 1) as nat);
        }
    }
}

/// Changing one character of either string moves the edit distance by at
/// most one.
pub proof fn law_edit_distance_update(a: Seq<char>, b: Seq<char>, k: int, c: char)
    requires
        0 <= k < b.len(),
    ensures
        edit_dist(a, b.update(k, c)) <= edit_dist(a, b) + 1,
        edit_dist(b.update(k, c), a) <= edit_dist(b, a) + 1,
{
    let t = b.update(k, c);
    lemma_lev_update(a, b, k, c, a.len(), b.len());
    lemma_lev_symmetric(a, b, a.len(), b.len());
    lemma_lev_symmetric(a, t, a.len(), t.len());
}

/// Two strings are at edit distance zero exactly when they are equal.
pub proof fn law_edit_distance_zero(a: Seq<char>, b: Seq<char>)
    ensures
        edit_dist(a, b) == 0 <==> a == b,
{
    lemma_lev_same(a, a.len());
    if edit_dist(a, b) == 0 {
        lemma_lev_zero(a, b, a.len(), b.len());
        assert(a =~= b);
    }
}

/// Inserting one character into either string moves the edit distance by
/// at most one, and a string is at distance exactly one from itself with
/// one character inserted.
pub proof fn law_edit_distance_insert(a: Seq<char>, b: Seq<char>, k: int, c: char)
    requires
        0 <= k <= b.len(),
    ensures
        edit_dist(a, b.insert(k, c)) <= edit_dist(a, b) + 1,
        edit_dist(b.insert(k, c), a) <= edit_dist(b, a) + 1,
        edit_dist(b, b.insert(k, c)) == 1,
        edit_dist(b.insert(k, c), b) == 1,
{
    let t = b.insert(k, c);
    lemma_lev_insert(a, b, k, c, a.len(), b.len());
    lemma_lev_symmetric(a, b, a.len(), b.len());
    lemma_lev_symmetric(a, t, a.len(), t.len());
    lemma_lev_insert(b, b, k, c, b.len(), b.len());
    lemma_lev_same(b, b.len());
    lemma_lev_lower(b, t, b.len(), t.len());
    lemma_lev_symmetric(b, t, b.len(), t.len());
}

/// Edit distance is symmetric, is zero from a string to itself, and is at
/// most the longer length.
pub proof fn law_edit_distance(a: Seq<char>, b: Seq<char>)
    ensures
        edit_dist(a, b) == edit_dist(b, a),
        edit_dist(a, a) == 0,
        edit_dist(a, b) <= if a.len() >= b.len() { a.len() } else { b.len() },
{
    lemma_lev_symmetric(a, b, a.len(), b.len());
    lemma_lev_same(a, a.len());
    lemma_lev_bound(a, b, a.len(), b.len());
}

/// No byte of `p` is a wildcard: `*`, `?` or `[`.
pub open spec fn literal_pattern(p: Seq<u8>) -> bool {
    forall|k: int| 0 <= k < p.len() ==> #[trigger] p[k] != 42u8 && p[k] != 63u8 && p[k] != 91u8
}

/// A pattern without wildcards matches exactly the input equal to it, and
/// matching it is always defined.
pub proof fn law_literal_pattern_matches_itself(p: Seq<u8>, s: Seq<u8>)
    requires
        literal_pattern(p),
    ensures
        glob(p, s) <==> s == p,
        glob_defined(p, s),
    decreases p.len(),
{
    if p.len() > 0 {
        assert(p[0] != 42u8 && p[0] != 63u8 && p[0] != 91u8);
        let q = p.drop_first();
        assert forall|k: int| 0 <= k < q.len() implies #[trigger] q[k] != 42u8 && q[k] != 63u8
            && q[k] != 91u8 by {
            assert(q[k] == p[k + 1]);
        }
        if s.len() > 0 {
            law_literal_pattern_matches_itself(q, s.drop_first());
            if s == p {
                assert(s.drop_first() =~= q);
            }
            if glob(p, s) {
                assert(s =~= seq![p[0]] + q);
                assert(p =~= seq![p[0]] + q);
            }
        }
    } else {
        if s == p {
        } else {
            assert(s.len() != 0) by {
                if s.len() == 0 {
                    assert(s =~= p);
                }
            }
        }
    }
}

/// `*` followed by a pattern without wildcards matches exactly the inputs
/// that end with that pattern.
pub proof fn law_star_then_literal_matches_suffix(p: Seq<u8>, s: Seq<u8>)
    requires
        literal_pattern(p),
    ensures
        glob(seq![42u8] + p, s) <==> (p.len() <= s.len() && s.subrange(
            s.len() - p.len(),
            s.len() as int,
        ) == p),
    decreases s.len(),
{
    let sp = seq![42u8] + p;
    assert(sp[0] == 42u8);
    assert(sp.drop_first() =~= p);
    law_literal_pattern_matches_itself(p, s);
    if s.len() > 0 {
        law_star_then_literal_matches_suffix(p, s.drop_first());
        let t = s.drop_first();
        if p.len() <= t.len() {
            assert(t.subrange(t.len() - p.len(), t.len() as int) =~= s.subrange(
                s.len() - p.len(),
                s.len() as int,
            ));
        }
        if p.len() == s.len() {
            assert(s.subrange(0, s.len() as int) =~= s);
        }
    } else {
        if p.len() == 0 {
            assert(s.subrange(0, 0) =~= p);
        }
    }
}

/// `?` followed by a pattern without wildcards matches exactly the inputs
/// of one byte more whose rest is that pattern.
pub proof fn law_question_then_literal(p: Seq<u8>, s: Seq<u8>)
    requires
        literal_pattern(p),
    ensures
        glob(seq![63u8] + p, s) <==> (s.len() > 0 && s.drop_first() == p),
{
    let qp = seq![63u8] + p;
    assert(qp[0] == 63u8);
    assert(qp.drop_first() =~= p);
    if s.len() > 0 {
        law_literal_pattern_matches_itself(p, s.drop_first());
    }
}

proof fn lemma_class_close(pat: Seq<u8>, n: int, from: int)
    requires
        1 <= from <= n + 1,
        n + 1 < pat.len(),
        forall|k: int| 1 <= k <= n ==> pat[k] != 93u8,
        pat[n + 1] == 93u8,
    ensures
        close_bracket(pat, from) == n + 1,
    decreases n + 1 - from,
{
    if from < n + 1 {
        lemma_class_close(pat, n, from + 1);
    }
}

/// A class `[...]` whose bytes hold no `]`, followed by a pattern without
/// wildcards, matches exactly the inputs whose first byte is in the class
/// and whose rest is that pattern.
pub proof fn law_class_then_literal(cls: Seq<u8>, p: Seq<u8>, s: Seq<u8>)
    requires
        !cls.contains(93u8),
        literal_pattern(p),
    ensures
        glob(seq![91u8] + cls + seq![93u8] + p, s) <==> (s.len() > 0 && cls.contains(s[0])
            && s.drop_first() == p),
{
    let pat = seq![91u8] + cls + seq![93u8] + p;
    let n = cls.len() as int;
    assert(pat[0] == 91u8);
    assert(pat[n + 1] == 93u8);
    assert forall|k: int| 1 <= k <= n implies pat[k] != 93u8 by {
        assert(pat[k] == cls[k - 1]);
    }
    lemma_class_close(pat, n, 1);
    assert(pat[0] != 93u8);
    assert(close_bracket(pat, 0) == n + 1);
    assert(pat.subrange(1, n + 1) =~= cls);
    assert(pat.subrange(n + 2, pat.len() as int) =~= p);
    if s.len() > 0 {
        law_literal_pattern_matches_itself(p, s.drop_first());
    }
}

/// A lone `*` matches every input, and `?` matches exactly the one-byte
/// inputs.
pub proof fn law_star_matches_all(s: Seq<u8>)
    ensures
        glob(seq![42u8], s),
        glob(seq![63u8], s) <==> s.len() == 1,
    decreases s.len(),
{
    let star = seq![42u8];
    let q = seq![63u8];
    assert(star[0] == 42u8 && star.len() == 1);
    assert(q[0] == 63u8 && q.len() == 1);
    assert(star.drop_first() =~= Seq::<u8>::empty());
    assert(q.drop_first() =~= Seq::<u8>::empty());
    if s.len() > 0 {
        law_star_matches_all(s.drop_first());
        assert(glob(star, s) == (glob(Seq::<u8>::empty(), s) || glob(star, s.drop_first())));
        assert(glob(q, s) == glob(Seq::<u8>::empty(), s.drop_first()));
    } else {
        assert(glob(star, s) == (glob(Seq::<u8>::empty(), s) || false));
    }
}

/// Levenshtein distance between `a` and `b`, counted in characters.
pub fn edit_distance(a: &str, b: &str) -> (r: usize)
    ensures
        r == edit_dist(a@, b@),
{
    let a = chars_of(a);
    let b = chars_of(b);
    let m = a.len();
    let n = b.len();
    // prev[k] == lev(i, k) for the rows built so far.
    let mut prev: Vec<usize> = Vec::new();
    prev.push(0);
    let mut j: usize = 0;
    while j < n
        invariant
            j <= n,
            n == b@.len(),
            prev@.len() == j + 1,
            forall|k: int| 0 <= k <= j ==> prev@[k] == lev(a@, b@, 0, k as nat),
        decreases n - j,
    {
        prev.push(j + 1);
        j += 1;
    }
    let mut i: usize = 0;
    while i < m
        invariant
            i <= m,
            m == a@.len(),
            n == b@.len(),
            prev@.len() == n + 1,
            forall|k: int| 0 <= k <= n ==> prev@[k] == lev(a@, b@, i as nat, k as nat),
        decreases m - i,
    {
        let mut row: Vec<usize> = Vec::new();
        row.push(i + 1);
        let mut j: usize = 0;
        while j < n
            invariant
                i < m,
                j <= n,
                m == a@.len(),
                n == b@.len(),
                prev@.len() == n + 1,
                row@.len() == j + 1,
                forall|k: int| 0 <= k <= n ==> prev@[k] == lev(a@, b@, i as nat, k as nat),
                forall|k: int| 0 <= k <= j ==> row@[k] == lev(a@, b@, (i + 1) as nat, k as nat),
            decreases n - j,
        {
            let v: usize = if a[i] == b[j] {
                prev[j]
            } else {
                proof {
                    lemma_lev_bound(a@, b@, i as nat, j as nat);
                }
                let x = if prev[j + 1] <= row[j] { prev[j + 1] } else { row[j] };
                let y = if x <= prev[j] { x } else { prev[j] };
                assert(y <= prev@[j as int]);
                1 + y
            };
            row.push(v);
            j += 1;
        }
        prev = row;
        i += 1;
    }
    prev[n]
}

/// The candidate closest to `input` by edit distance, if some candidate is
/// within distance 2; ties go to the earliest candidate.
pub fn did_you_mean<'a>(input: &str, candidates: &[&'a str]) -> (r: Option<&'a str>)
    ensures
        r is None <==> forall|k: int|
            0 <= k < candidates@.len() ==> edit_dist(input@, candidates@[k]@) > 2,
        r matches Some(c) ==> exists|k: int|
            #![trigger candidates@[k]]
            0 <= k < candidates@.len() && c == candidates@[k] && edit_dist(input@, c@) <= 2
                && (forall|j: int|
                0 <= j < candidates@.len() && edit_dist(input@, candidates@[j]@) <= 2
                    ==> edit_dist(input@, c@) <= edit_dist(input@, candidates@[j]@)) && (forall|
                j: int,
            |
                0 <= j < k && edit_dist(input@, candidates@[j]@) <= 2 ==> edit_dist(
                    input@,
                    c@,
                ) < edit_dist(input@, candidates@[j]@)),
{
    let mut best: Option<(usize, usize)> = None;
    let mut i: usize = 0;
    while i < candidates.len()
        invariant
            0 <= i <= candidates@.len(),
            best is None <==> forall|k: int|
                0 <= k < i ==> edit_dist(input@, candidates@[k]@) > 2,
            best matches Some(p) ==> ({
                let (d, k) = p;
                &&& k < i
                &&& d == edit_dist(input@, candidates@[k as int]@)
                &&& d <= 2
                &&& forall|j: int|
                    0 <= j < i && edit_dist(input@, candidates@[j]@) <= 2 ==> d <= edit_dist(
                        input@,
                        candidates@[j]@,
                    )
                &&& forall|j: int|
                    0 <= j < k && edit_dist(input@, candidates@[j]@) <= 2 ==> d < edit_dist(
                        input@,
                        candidates@[j]@,
                    )
            }),
        decreases candidates@.len() - i,
    {
        let d = edit_distance(input, candidates[i]);
        if d <= 2 {
            match best {
                None => {
                    best = Some((d, i));
                },
                Some((bd, _)) => {
                    if d < bd {
                        best = Some((d, i));
                    }
                },
            }
        }
        i += 1;
    }
    match best {
        None => None,
        Some((_, k)) => Some(candidates[k]),
    }
}

} // verus!
