//! Character-level string helpers shared by every renderer: conversion
//! between `String` and `Vec<char>`, decimal formatting, padding and
//! repetition.

use vstd::prelude::*;

verus! {

broadcast use vstd::string::group_string_axioms;

// ── specifications ───────────────────────────────────────────────────────────

/// The ASCII digit for `d` (`d < 10`).
pub open spec fn digit_char(d: nat) -> char {
    (48 + d) as char
}

/// Decimal representation of a natural number, without leading zeros.
pub open spec fn decimal(n: nat) -> Seq<char>
    decreases n,
{
    if n < 10 {
        seq![digit_char(n)]
    } else {
        decimal(n / 10).push(digit_char(n % 10))
    }
}

/// Decimal representation of an integer: a `-` sign, then the digits of
/// the magnitude.
pub open spec fn signed_decimal(n: int) -> Seq<char> {
    if n < 0 {
        seq!['-'] + decimal((-n) as nat)
    } else {
        decimal(n as nat)
    }
}

/// `n` copies of `c`.
pub open spec fn fill(c: char, n: nat) -> Seq<char> {
    Seq::new(n, |i: int| c)
}

/// `n` copies of `s`, concatenated.
pub open spec fn repeat(s: Seq<char>, n: nat) -> Seq<char>
    decreases n,
{
    if n == 0 {
        Seq::empty()
    } else {
        repeat(s, (n - 1) as nat) + s
    }
}

/// `n` spaces.
pub open spec fn spaces(n: nat) -> Seq<char> {
    fill(' ', n)
}

/// The number of characters needed to reach width `w` from length `len`.
pub open spec fn pad_len(w: nat, len: nat) -> nat {
    if len < w {
        (w - len) as nat
    } else {
        0
    }
}

/// `s` left-aligned in a field of width `w` (Rust's `{:<w}`).
pub open spec fn pad_right(s: Seq<char>, w: nat) -> Seq<char> {
    s + spaces(pad_len(w, s.len()))
}

/// `n` zero-padded to width `w`, the sign counting toward the width
/// (Rust's `{:0w}`).
pub open spec fn zero_padded(n: int, w: nat) -> Seq<char> {
    if n < 0 {
        let digits = decimal((-n) as nat);
        seq!['-'] + fill('0', pad_len(w, (digits.len() + 1) as nat)) + digits
    } else {
        let digits = decimal(n as nat);
        fill('0', pad_len(w, digits.len())) + digits
    }
}

pub proof fn lemma_decimal_nonempty(n: nat)
    ensures
        decimal(n).len() >= 1,
    decreases n,
{
    if n >= 10 {
        lemma_decimal_nonempty(n / 10);
    }
}

// ── conversions ──────────────────────────────────────────────────────────────

/// Appends one character with `String::push`.
#[verifier::external_body]
pub(crate) fn push_char(s: &mut String, c: char)
    ensures
        final(s)@ == old(s)@.push(c),
{
    s.push(c);
}

/// The characters of `s`, in order.
pub fn chars_of(s: &str) -> (r: Vec<char>)
    ensures
        r@ == s@,
{
    let mut out: Vec<char> = Vec::new();
    for c in it: s.chars()
        invariant
            it.seq() == s@,
            out@ == it.seq().take(it.index() as int),
    {
        out.push(c);
    }
    out
}

/// The string made of the characters `v[from..to]`.
pub fn string_of_range(v: &Vec<char>, from: usize, to: usize) -> (r: String)
    requires
        from <= to <= v.len(),
    ensures
        r@ == v@.subrange(from as int, to as int),
{
    let mut out = String::new();
    let mut i: usize = from;
    while i < to
        invariant
            from <= i <= to <= v.len(),
            out@ == v@.subrange(from as int, i as int),
        decreases to - i,
    {
        push_char(&mut out, v[i]);
        i += 1;
        assert(out@ =~= v@.subrange(from as int, i as int));
    }
    out
}

/// The string made of all the characters of `v`.
pub fn string_of(v: &Vec<char>) -> (r: String)
    ensures
        r@ == v@,
{
    let r = string_of_range(v, 0, v.len());
    assert(v@.subrange(0, v@.len() as int) =~= v@);
    r
}

/// A fresh copy of `s`.
pub fn owned(s: &str) -> (r: String)
    ensures
        r@ == s@,
{
    let mut out = String::new();
    out.append(s);
    out
}

/// `true` when the two strings hold the same characters.
pub fn str_eq(a: &str, b: &str) -> (r: bool)
    ensures
        r == (a@ == b@),
{
    let va = chars_of(a);
    let vb = chars_of(b);
    if va.len() != vb.len() {
        return false;
    }
    let mut i: usize = 0;
    while i < va.len()
        invariant
            va@ == a@,
            vb@ == b@,
            va.len() == vb.len(),
            0 <= i <= va.len(),
            forall|k: int| 0 <= k < i ==> va@[k] == vb@[k],
        decreases va.len() - i,
    {
        if va[i] != vb[i] {
            return false;
        }
        i += 1;
    }
    assert(a@ =~= b@);
    true
}

// ── numbers ──────────────────────────────────────────────────────────────────

fn digit(d: u64) -> (c: char)
    requires
        d < 10,
    ensures
        c == digit_char(d as nat),
{
    ((48 + d) as u8) as char
}

/// Decimal text of `n`.
pub fn fmt_u64(n: u64) -> (r: String)
    ensures
        r@ == decimal(n as nat),
    decreases n,
{
    if n < 10 {
        let mut s = String::new();
        push_char(&mut s, digit(n));
        s
    } else {
        let mut s = fmt_u64(n / 10);
        push_char(&mut s, digit(n % 10));
        s
    }
}

/// Decimal text of `n`.
pub fn fmt_usize(n: usize) -> (r: String)
    ensures
        r@ == decimal(n as nat),
{
    fmt_u64(n as u64)
}

/// Decimal text of a signed number.
pub fn fmt_i64(n: i64) -> (r: String)
    ensures
        r@ == signed_decimal(n as int),
{
    if n < 0 {
        let mag: u64 = ((-(n + 1)) as u64) + 1;
        let digits = fmt_u64(mag);
        let mut s = String::new();
        push_char(&mut s, '-');
        s.append(digits.as_str());
        s
    } else {
        fmt_u64(n as u64)
    }
}

/// `n` copies of `c`.
pub fn fill_string(c: char, n: usize) -> (r: String)
    ensures
        r@ == fill(c, n as nat),
{
    let mut s = String::new();
    let mut i: usize = 0;
    while i < n
        invariant
            0 <= i <= n,
            s@ == fill(c, i as nat),
        decreases n - i,
    {
        push_char(&mut s, c);
        i += 1;
        assert(s@ =~= fill(c, i as nat));
    }
    s
}

/// `n` spaces.
pub fn spaces_string(n: usize) -> (r: String)
    ensures
        r@ == spaces(n as nat),
{
    fill_string(' ', n)
}

/// `n` copies of `s`, concatenated.
pub fn repeat_string(s: &str, n: usize) -> (r: String)
    ensures
        r@ == repeat(s@, n as nat),
{
    let mut out = String::new();
    let mut i: usize = 0;
    while i < n
        invariant
            0 <= i <= n,
            out@ == repeat(s@, i as nat),
        decreases n - i,
    {
        out.append(s);
        i += 1;
    }
    out
}

/// `n` zero-padded to width `w` (Rust's `{:0w}`).
pub fn fmt_zero_padded(n: i64, w: usize) -> (r: String)
    ensures
        r@ == zero_padded(n as int, w as nat),
{
    if n < 0 {
        let mag: u64 = ((-(n + 1)) as u64) + 1;
        let digits = fmt_u64(mag);
        let len: usize = chars_of(digits.as_str()).len();
        let pad: usize = if len < w && w - len > 1 { w - len - 1 } else { 0 };
        let mut s = String::new();
        push_char(&mut s, '-');
        let zeros = fill_string('0', pad);
        s.append(zeros.as_str());
        s.append(digits.as_str());
        s
    } else {
        let digits = fmt_u64(n as u64);
        let len: usize = chars_of(digits.as_str()).len();
        let pad: usize = if len < w { w - len } else { 0 };
        let mut s = fill_string('0', pad);
        s.append(digits.as_str());
        s
    }
}

/// `s` left-aligned in a field of `w` characters (Rust's `{:<w}`).
pub fn fmt_pad_right(s: &str, w: usize) -> (r: String)
    ensures
        r@ == pad_right(s@, w as nat),
{
    let len: usize = chars_of(s).len();
    let pad: usize = if len < w { w - len } else { 0 };
    let mut out = owned(s);
    let sp = spaces_string(pad);
    out.append(sp.as_str());
    out
}

} // verus!

verus! {

// ── Unicode character classes ────────────────────────────────────────────────

/// Unicode `White_Space` property, as decided by `char::is_whitespace`:
/// tab through carriage return, space, next line, no-break space, ogham
/// space mark, the spaces from en quad to hair space, the line and
/// paragraph separators, narrow no-break space, medium mathematical space
/// and ideographic space.
#[verifier::opaque]
pub open spec fn is_white_space(c: char) -> bool {
    let n = c as u32;
    ||| 0x09 <= n <= 0x0d
    ||| n == 0x20
    ||| n == 0x85
    ||| n == 0xa0
    ||| n == 0x1680
    ||| 0x2000 <= n <= 0x200a
    ||| n == 0x2028
    ||| n == 0x2029
    ||| n == 0x202f
    ||| n == 0x205f
    ||| n == 0x3000
}

/// Unicode `Alphabetic` property, as decided by `char::is_alphabetic`.
pub uninterp spec fn is_alphabetic(c: char) -> bool;

/// Unicode `Alphabetic` or `Numeric`, as decided by `char::is_alphanumeric`.
pub uninterp spec fn is_alphanumeric(c: char) -> bool;

/// Unicode lowercase mapping of a string, as computed by `str::to_lowercase`.
pub uninterp spec fn lowercase(s: Seq<char>) -> Seq<char>;

/// Calls `char::is_whitespace`, which decides [`is_white_space`].
#[verifier::external_body]
pub(crate) fn char_is_whitespace(c: char) -> (r: bool)
    ensures
        r == is_white_space(c),
{
    c.is_whitespace()
}

/// Calls `char::is_alphabetic`; the result is the name `is_alphabetic`.
#[verifier::external_body]
pub(crate) fn char_is_alphabetic(c: char) -> (r: bool)
    ensures
        r == is_alphabetic(c),
{
    c.is_alphabetic()
}

/// Calls `char::is_alphanumeric`; the result is the name `is_alphanumeric`.
#[verifier::external_body]
pub(crate) fn char_is_alphanumeric(c: char) -> (r: bool)
    ensures
        r == is_alphanumeric(c),
{
    c.is_alphanumeric()
}

/// Calls `str::to_lowercase`; the result is the name `lowercase`.
#[verifier::external_body]
pub(crate) fn to_lowercase(s: &str) -> (r: String)
    ensures
        r@ == lowercase(s@),
{
    s.to_lowercase()
}

} // verus!

verus! {

// ── searching and splitting ──────────────────────────────────────────────────

/// `true` when `sep` occurs in `s` starting at `i`.
pub open spec fn occurs_at(s: Seq<char>, sep: Seq<char>, i: int) -> bool {
    0 <= i && i + sep.len() <= s.len() && s.subrange(i, i + sep.len()) == sep
}

/// The first index `j >= i` where `sep` occurs in `s`, or `-1`.
pub open spec fn find_from(s: Seq<char>, sep: Seq<char>, i: int) -> int
    decreases s.len() + 1 - i,
{
    if i < 0 || i + sep.len() > s.len() {
        -1
    } else if occurs_at(s, sep, i) {
        i
    } else {
        find_from(s, sep, i + 1)
    }
}

/// The last index where `sep` occurs in `s`, or `-1`.
pub open spec fn rfind_before(s: Seq<char>, sep: Seq<char>, i: int) -> int
    decreases i + 1,
{
    if i < 0 {
        -1
    } else if occurs_at(s, sep, i) {
        i
    } else {
        rfind_before(s, sep, i - 1)
    }
}

/// The last index where `sep` occurs in `s`, or `-1` (Rust's `rfind`).
pub open spec fn rfind(s: Seq<char>, sep: Seq<char>) -> int {
    rfind_before(s, sep, s.len() - sep.len())
}

/// `true` when `sep` occurs somewhere in `s` (Rust's `contains`).
pub open spec fn contains_seq(s: Seq<char>, sep: Seq<char>) -> bool {
    find_from(s, sep, 0) >= 0
}

/// `s` starts with `p`.
pub open spec fn has_prefix(s: Seq<char>, p: Seq<char>) -> bool {
    p.len() <= s.len() && s.subrange(0, p.len() as int) == p
}

/// `s` ends with `p`.
pub open spec fn has_suffix(s: Seq<char>, p: Seq<char>) -> bool {
    p.len() <= s.len() && s.subrange(s.len() - p.len(), s.len() as int) == p
}

pub proof fn lemma_find_from(s: Seq<char>, sep: Seq<char>, i: int)
    requires
        0 <= i,
    ensures
        find_from(s, sep, i) == -1 || (i <= find_from(s, sep, i) && occurs_at(
            s,
            sep,
            find_from(s, sep, i),
        )),
        find_from(s, sep, i) >= 0 ==> find_from(s, sep, i) + sep.len() <= s.len(),
        forall|k: int|
            i <= k < (if find_from(s, sep, i) >= 0 { find_from(s, sep, i) } else { s.len() as int })
                ==> !occurs_at(s, sep, k),
    decreases s.len() + 1 - i,
{
    if !(i < 0 || i + sep.len() > s.len()) && !occurs_at(s, sep, i) {
        lemma_find_from(s, sep, i + 1);
    }
}

/// The pieces of `s` between the occurrences of the non-empty separator
/// `sep` (Rust's `str::split` with a string pattern).
pub open spec fn split_on(s: Seq<char>, sep: Seq<char>) -> Seq<Seq<char>>
    decreases s.len(),
{
    if sep.len() == 0 {
        seq![s]
    } else {
        let j = find_from(s, sep, 0);
        proof {
            lemma_find_from(s, sep, 0);
        }
        if j < 0 {
            seq![s]
        } else {
            seq![s.subrange(0, j)] + split_on(s.subrange(j + sep.len(), s.len() as int), sep)
        }
    }
}

/// `s` without one trailing carriage return.
pub open spec fn strip_cr(s: Seq<char>) -> Seq<char> {
    if s.len() > 0 && s.last() == '\r' {
        s.drop_last()
    } else {
        s
    }
}

/// The lines of `s` as `str::lines` yields them: split at `\n`, each
/// terminated line loses a trailing `\r`, and a final empty piece is dropped.
pub open spec fn lines_of(s: Seq<char>) -> Seq<Seq<char>> {
    let parts = split_on(s, seq!['\n']);
    let n = parts.len();
    parts.take(n - 1).map_values(|p: Seq<char>| strip_cr(p)) + if parts.last().len() > 0 {
        seq![parts.last()]
    } else {
        Seq::<Seq<char>>::empty()
    }
}

pub proof fn lemma_split_nonempty(s: Seq<char>, sep: Seq<char>)
    ensures
        split_on(s, sep).len() >= 1,
    decreases s.len(),
{
    if sep.len() > 0 {
        lemma_find_from(s, sep, 0);
        let j = find_from(s, sep, 0);
        if j >= 0 {
            lemma_split_nonempty(s.subrange(j + sep.len(), s.len() as int), sep);
        }
    }
}

/// `true` when `sep` occurs in `v` at `pos`.
pub fn occurs_at_exec(v: &Vec<char>, sep: &Vec<char>, pos: usize) -> (r: bool)
    ensures
        r == occurs_at(v@, sep@, pos as int),
{
    if pos > v.len() || sep.len() > v.len() - pos {
        return false;
    }
    let mut k: usize = 0;
    while k < sep.len()
        invariant
            pos + sep.len() <= v.len(),
            0 <= k <= sep.len(),
            forall|t: int| 0 <= t < k ==> v@[pos + t] == sep@[t],
        decreases sep.len() - k,
    {
        if v[pos + k] != sep[k] {
            assert(v@.subrange(pos as int, pos + sep.len())[k as int] != sep@[k as int]);
            return false;
        }
        k += 1;
    }
    assert(v@.subrange(pos as int, pos + sep.len()) =~= sep@);
    true
}

/// First occurrence of `sep` in `v` at or after `from`, as an index.
pub fn find_from_exec(v: &Vec<char>, sep: &Vec<char>, from: usize) -> (r: Option<usize>)
    ensures
        match r {
            Some(j) => find_from(v@, sep@, from as int) == j,
            None => find_from(v@, sep@, from as int) == -1,
        },
    decreases v.len() - from,
{
    if from > v.len() || sep.len() > v.len() - from {
        return None;
    }
    if sep.len() == 0 {
        assert(v@.subrange(from as int, from as int) =~= sep@);
        return Some(from);
    }
    if occurs_at_exec(v, sep, from) {
        Some(from)
    } else {
        find_from_exec(v, sep, from + 1)
    }
}

/// Last occurrence of `sep` in `s` (Rust's `rfind`), as a character index.
pub fn rfind_exec(v: &Vec<char>, sep: &Vec<char>) -> (r: Option<usize>)
    ensures
        match r {
            Some(j) => rfind(v@, sep@) == j,
            None => rfind(v@, sep@) == -1,
        },
{
    if sep.len() > v.len() {
        return None;
    }
    let mut i: usize = v.len() - sep.len();
    loop
        invariant
            i + sep.len() <= v.len(),
            rfind(v@, sep@) == rfind_before(v@, sep@, i as int),
        decreases i,
    {
        if occurs_at_exec(v, sep, i) {
            return Some(i);
        }
        if i == 0 {
            assert(rfind_before(v@, sep@, -1) == -1);
            return None;
        }
        i = i - 1;
    }
}

fn split_suffix(v: &Vec<char>, start: usize, sep: &Vec<char>) -> (r: Vec<String>)
    requires
        start <= v.len(),
        sep.len() > 0,
    ensures
        r@.map_values(|x: String| x@) == split_on(v@.subrange(start as int, v.len() as int), sep@),
    decreases v.len() - start,
{
    let ghost t = v@.subrange(start as int, v.len() as int);
    let found = find_from_exec(v, sep, start);
    proof {
        lemma_find_from(v@, sep@, start as int);
        lemma_find_shift(v@, sep@, start as int, 0);
    }
    match found {
        None => {
            let piece = string_of_range(v, start, v.len());
            let mut out: Vec<String> = Vec::new();
            out.push(piece);
            assert(out@.map_values(|x: String| x@) =~= seq![t]);
            out
        },
        Some(j) => {
            let piece = string_of_range(v, start, j);
            let mut rest = split_suffix(v, j + sep.len(), sep);
            proof {
                let jj = j - start;
                assert(t.subrange(0, jj) =~= v@.subrange(start as int, j as int));
                assert(t.subrange(jj + sep@.len(), t.len() as int) =~= v@.subrange(
                    j + sep@.len(),
                    v@.len() as int,
                ));
            }
            rest.insert(0, piece);
            assert(rest@.map_values(|x: String| x@) =~= split_on(t, sep@));
            rest
        },
    }
}

proof fn lemma_find_shift(s: Seq<char>, sep: Seq<char>, start: int, k: int)
    requires
        0 <= start <= s.len(),
        0 <= k,
    ensures
        ({
            let t = s.subrange(start, s.len() as int);
            let a = find_from(t, sep, k);
            let b = find_from(s, sep, start + k);
            (a == -1 && b == -1) || (a >= 0 && b == a + start)
        }),
    decreases s.len() + 1 - start - k,
{
    let t = s.subrange(start, s.len() as int);
    if !(k + sep.len() > t.len()) {
        assert(occurs_at(t, sep, k) == occurs_at(s, sep, start + k)) by {
            if k + sep.len() <= t.len() {
                assert(t.subrange(k, k + sep.len()) =~= s.subrange(start + k, start + k + sep.len()));
            }
        }
        if !occurs_at(t, sep, k) {
            lemma_find_shift(s, sep, start, k + 1);
        }
    }
}

/// The pieces of `s` between occurrences of the non-empty `sep`.
pub fn split_str(s: &str, sep: &str) -> (r: Vec<String>)
    requires
        sep@.len() > 0,
    ensures
        r@.map_values(|x: String| x@) == split_on(s@, sep@),
{
    let v = chars_of(s);
    let p = chars_of(sep);
    assert(v@.subrange(0, v@.len() as int) =~= v@);
    split_suffix(&v, 0, &p)
}

/// `true` when `s` starts with `p`.
pub fn starts_with_exec(s: &str, p: &str) -> (r: bool)
    ensures
        r == has_prefix(s@, p@),
{
    let v = chars_of(s);
    let q = chars_of(p);
    let r = occurs_at_exec(&v, &q, 0);
    proof {
        if r {
            assert(has_prefix(s@, p@));
        }
    }
    r
}

/// `true` when `s` ends with `p`.
pub fn ends_with_exec(s: &str, p: &str) -> (r: bool)
    ensures
        r == has_suffix(s@, p@),
{
    let v = chars_of(s);
    let q = chars_of(p);
    if q.len() > v.len() {
        return false;
    }
    occurs_at_exec(&v, &q, v.len() - q.len())
}

/// `true` when `p` occurs in `s`.
pub fn contains_exec(s: &str, p: &str) -> (r: bool)
    ensures
        r == contains_seq(s@, p@),
{
    let v = chars_of(s);
    let q = chars_of(p);
    find_from_exec(&v, &q, 0).is_some()
}

/// `true` when the character `c` occurs in `s`.
pub fn has_char(s: &str, c: char) -> (r: bool)
    ensures
        r == s@.contains(c),
{
    let v = chars_of(s);
    let mut i: usize = 0;
    while i < v.len()
        invariant
            v@ == s@,
            0 <= i <= v.len(),
            forall|k: int| 0 <= k < i ==> v@[k] != c,
        decreases v.len() - i,
    {
        if v[i] == c {
            return true;
        }
        i += 1;
    }
    false
}

/// The lines of `s`, as `str::lines` yields them.
pub fn lines(s: &str) -> (r: Vec<String>)
    ensures
        r@.map_values(|x: String| x@) == lines_of(s@),
{
    let ghost nl = seq!['\n'];
    let mut sep = String::new();
    push_char(&mut sep, '\n');
    let parts = split_str(s, sep.as_str());
    proof {
        lemma_split_nonempty(s@, nl);
    }
    let n = parts.len();
    let mut out: Vec<String> = Vec::new();
    let mut i: usize = 0;
    while i + 1 < n
        invariant
            n == parts@.len(),
            n >= 1,
            i < n,
            parts@.map_values(|x: String| x@) == split_on(s@, nl),
            out@.map_values(|x: String| x@) == split_on(s@, nl).take(i as int).map_values(
                |p: Seq<char>| strip_cr(p),
            ),
        decreases n - i,
    {
        let v = chars_of(parts[i].as_str());
        let end = if v.len() > 0 && v[v.len() - 1] == '\r' { v.len() - 1 } else { v.len() };
        let piece = string_of_range(&v, 0, end);
        proof {
            let p = parts@[i as int]@;
            assert(split_on(s@, nl)[i as int] == p);
            assert(piece@ =~= strip_cr(p));
        }
        let ghost prev = out@;
        out.push(piece);
        i += 1;
        proof {
            let a = out@.map_values(|x: String| x@);
            let b = split_on(s@, nl).take(i as int).map_values(|p: Seq<char>| strip_cr(p));
            let b0 = split_on(s@, nl).take(i - 1).map_values(|p: Seq<char>| strip_cr(p));
            assert(prev.map_values(|x: String| x@) == b0);
            assert(prev.map_values(|x: String| x@).len() == prev.len());
            assert(b0.len() == i - 1);
            assert(prev.len() == i - 1);
            assert(out@ == prev.push(piece));
            assert forall|k: int| 0 <= k < i implies a[k] == b[k] by {
                if k < i - 1 {
                    assert(out@[k] == prev[k]);
                    assert(a[k] == prev.map_values(|x: String| x@)[k]);
                    assert(b[k] == b0[k]);
                }
            }
            assert(a =~= b);
        }
    }
    let last_len = chars_of(parts[n - 1].as_str()).len();
    if last_len > 0 {
        let last = owned(parts[n - 1].as_str());
        out.push(last);
    }
    proof {
        let parts_v = split_on(s@, nl);
        assert(parts_v.last() == parts@[n - 1]@);
        assert(out@.map_values(|x: String| x@) =~= lines_of(s@));
    }
    out
}

} // verus!

verus! {

pub proof fn lemma_split_piece_len(s: Seq<char>, sep: Seq<char>, k: int)
    requires
        0 <= k < split_on(s, sep).len(),
    ensures
        split_on(s, sep)[k].len() <= s.len(),
    decreases s.len(),
{
    if sep.len() > 0 {
        lemma_find_from(s, sep, 0);
        let j = find_from(s, sep, 0);
        if j >= 0 && k > 0 {
            lemma_split_piece_len(s.subrange(j + sep.len(), s.len() as int), sep, k - 1);
        }
    }
}

pub proof fn lemma_lines_len(s: Seq<char>, k: int)
    requires
        0 <= k < lines_of(s).len(),
    ensures
        lines_of(s)[k].len() <= s.len(),
{
    let parts = split_on(s, seq!['\n']);
    lemma_split_nonempty(s, seq!['\n']);
    let n = parts.len();
    if k < n - 1 {
        lemma_split_piece_len(s, seq!['\n'], k);
        assert(lines_of(s)[k] == strip_cr(parts[k]));
    } else {
        lemma_split_piece_len(s, seq!['\n'], n - 1);
    }
}

} // verus!

verus! {

// ── trimming, words, joining ────────────────────────────────────────────────

/// Index of the first non-whitespace character at or after `i`.
pub open spec fn skip_ws_fwd(s: Seq<char>, i: int) -> int
    decreases s.len() - i,
{
    if i >= s.len() {
        s.len() as int
    } else if is_white_space(s[i]) {
        skip_ws_fwd(s, i + 1)
    } else {
        i
    }
}

/// Index just past the last non-whitespace character before `i`.
pub open spec fn skip_ws_back(s: Seq<char>, i: int) -> int
    decreases i,
{
    if i <= 0 {
        0
    } else if is_white_space(s[i - 1]) {
        skip_ws_back(s, i - 1)
    } else {
        i
    }
}

/// `s` without leading and trailing Unicode whitespace (Rust's `trim`).
pub open spec fn trimmed(s: Seq<char>) -> Seq<char> {
    let a = skip_ws_fwd(s, 0);
    let b = skip_ws_back(s, s.len() as int);
    if a < b {
        s.subrange(a, b)
    } else {
        Seq::empty()
    }
}

/// `s` without trailing Unicode whitespace (Rust's `trim_end`).
pub open spec fn trimmed_end(s: Seq<char>) -> Seq<char> {
    s.subrange(0, skip_ws_back(s, s.len() as int))
}

/// `s` without leading Unicode whitespace (Rust's `trim_start`).
pub open spec fn trimmed_start(s: Seq<char>) -> Seq<char> {
    s.subrange(skip_ws_fwd(s, 0), s.len() as int)
}

pub proof fn lemma_skip_ws_fwd(s: Seq<char>, i: int)
    requires
        0 <= i <= s.len(),
    ensures
        i <= skip_ws_fwd(s, i) <= s.len(),
        forall|k: int| i <= k < skip_ws_fwd(s, i) ==> is_white_space(s[k]),
        skip_ws_fwd(s, i) < s.len() ==> !is_white_space(s[skip_ws_fwd(s, i)]),
    decreases s.len() - i,
{
    if i < s.len() && is_white_space(s[i]) {
        lemma_skip_ws_fwd(s, i + 1);
    }
}

pub proof fn lemma_skip_ws_back(s: Seq<char>, i: int)
    requires
        0 <= i <= s.len(),
    ensures
        0 <= skip_ws_back(s, i) <= i,
        forall|k: int| skip_ws_back(s, i) <= k < i ==> is_white_space(s[k]),
        skip_ws_back(s, i) > 0 ==> !is_white_space(s[skip_ws_back(s, i) - 1]),
    decreases i,
{
    if i > 0 && is_white_space(s[i - 1]) {
        lemma_skip_ws_back(s, i - 1);
    }
}

fn ws_fwd(v: &Vec<char>) -> (r: usize)
    ensures
        r == skip_ws_fwd(v@, 0),
        r <= v.len(),
{
    let mut i: usize = 0;
    while i < v.len()
        invariant
            0 <= i <= v.len(),
            skip_ws_fwd(v@, 0) == skip_ws_fwd(v@, i as int),
        decreases v.len() - i,
    {
        if !char_is_whitespace(v[i]) {
            return i;
        }
        i += 1;
    }
    i
}

fn ws_back(v: &Vec<char>) -> (r: usize)
    ensures
        r == skip_ws_back(v@, v@.len() as int),
        r <= v.len(),
{
    let mut i: usize = v.len();
    while i > 0
        invariant
            0 <= i <= v.len(),
            skip_ws_back(v@, v@.len() as int) == skip_ws_back(v@, i as int),
        decreases i,
    {
        if !char_is_whitespace(v[i - 1]) {
            return i;
        }
        i -= 1;
    }
    i
}

/// `s` without leading and trailing whitespace.
pub fn trim(s: &str) -> (r: String)
    ensures
        r@ == trimmed(s@),
{
    let v = chars_of(s);
    let a = ws_fwd(&v);
    let b = ws_back(&v);
    if a < b {
        string_of_range(&v, a, b)
    } else {
        String::new()
    }
}

/// `s` without trailing whitespace.
pub fn trim_end(s: &str) -> (r: String)
    ensures
        r@ == trimmed_end(s@),
{
    let v = chars_of(s);
    let b = ws_back(&v);
    string_of_range(&v, 0, b)
}

/// `s` without leading whitespace.
pub fn trim_start(s: &str) -> (r: String)
    ensures
        r@ == trimmed_start(s@),
{
    let v = chars_of(s);
    let a = ws_fwd(&v);
    string_of_range(&v, a, v.len())
}

/// Number of whitespace-separated words in `s[..n]` (what
/// `split_whitespace().count()` counts).
pub open spec fn words_upto(s: Seq<char>, n: int) -> nat
    decreases n,
{
    if n <= 0 {
        0
    } else {
        words_upto(s, n - 1) + if !is_white_space(s[n - 1]) && (n == 1 || is_white_space(
            s[n - 2],
        )) {
            1nat
        } else {
            0nat
        }
    }
}

/// Number of whitespace-separated words in `s`.
pub open spec fn words_in(s: Seq<char>) -> nat {
    words_upto(s, s.len() as int)
}

proof fn lemma_words_upto_le(s: Seq<char>, n: int)
    requires
        0 <= n,
    ensures
        words_upto(s, n) <= n,
    decreases n,
{
    if n > 0 {
        lemma_words_upto_le(s, n - 1);
    }
}

/// Number of whitespace-separated words in `s`.
pub fn count_words(s: &str) -> (r: usize)
    ensures
        r == words_in(s@),
{
    let v = chars_of(s);
    let mut n: usize = 0;
    let mut i: usize = 0;
    while i < v.len()
        invariant
            v@ == s@,
            0 <= i <= v.len(),
            n == words_upto(v@, i as int),
        decreases v.len() - i,
    {
        proof {
            lemma_words_upto_le(v@, i as int);
        }
        let here = !char_is_whitespace(v[i]);
        let starts = here && (i == 0 || char_is_whitespace(v[i - 1]));
        if starts {
            n += 1;
        }
        i += 1;
    }
    n
}

/// The whitespace-separated words of `s[..n]` (what `split_whitespace`
/// yields), built one character at a time.
pub open spec fn words_prefix(s: Seq<char>, n: int) -> Seq<Seq<char>>
    decreases n,
{
    if n <= 0 {
        Seq::empty()
    } else {
        let prev = words_prefix(s, n - 1);
        let c = s[n - 1];
        if is_white_space(c) {
            prev
        } else if n == 1 || is_white_space(s[n - 2]) {
            prev.push(seq![c])
        } else {
            prev.update(prev.len() - 1, prev.last().push(c))
        }
    }
}

/// The whitespace-separated words of `s`.
pub open spec fn words_of(s: Seq<char>) -> Seq<Seq<char>> {
    words_prefix(s, s.len() as int)
}

/// The whitespace-separated words of `s`, in order.
pub fn split_words(s: &str) -> (r: Vec<String>)
    ensures
        r@.map_values(|x: String| x@) == words_of(s@),
{
    let v = chars_of(s);
    let mut out: Vec<String> = Vec::new();
    let mut cur = String::new();
    let mut in_word = false;
    let mut i: usize = 0;
    while i < v.len()
        invariant
            v@ == s@,
            0 <= i <= v.len(),
            in_word <==> (i > 0 && !is_white_space(v@[i - 1])),
            in_word ==> out@.map_values(|x: String| x@).push(cur@) == words_prefix(v@, i as int),
            !in_word ==> out@.map_values(|x: String| x@) == words_prefix(v@, i as int),
        decreases v.len() - i,
    {
        let c = v[i];
        let ghost prev = words_prefix(v@, i as int);
        if char_is_whitespace(c) {
            if in_word {
                let w = cur;
                cur = String::new();
                out.push(w);
                proof {
                    assert(out@.map_values(|x: String| x@) =~= prev);
                }
                in_word = false;
            }
        } else {
            if in_word {
                let ghost old_cur = cur@;
                push_char(&mut cur, c);
                proof {
                    let o = out@.map_values(|x: String| x@);
                    assert(prev == o.push(old_cur));
                    assert(o.push(cur@) =~= prev.update(prev.len() - 1, prev.last().push(c)));
                }
            } else {
                cur = String::new();
                push_char(&mut cur, c);
                proof {
                    assert(cur@ =~= seq![c]);
                }
                in_word = true;
            }
        }
        i += 1;
    }
    if in_word {
        out.push(cur);
        proof {
            assert(out@.map_values(|x: String| x@) =~= words_prefix(v@, v@.len() as int));
        }
    }
    proof {
        assert(v@.len() == s@.len());
    }
    out
}

/// The items of `parts` joined with `sep` between them.
pub open spec fn joined(parts: Seq<Seq<char>>, sep: Seq<char>) -> Seq<char>
    decreases parts.len(),
{
    if parts.len() == 0 {
        Seq::empty()
    } else if parts.len() == 1 {
        parts[0]
    } else {
        joined(parts.drop_last(), sep) + sep + parts.last()
    }
}

/// The strings of `parts` joined with `sep` between them.
pub fn join(parts: &Vec<String>, sep: &str) -> (r: String)
    ensures
        r@ == joined(parts@.map_values(|x: String| x@), sep@),
{
    let ghost ps = parts@.map_values(|x: String| x@);
    let mut out = String::new();
    let mut i: usize = 0;
    while i < parts.len()
        invariant
            ps == parts@.map_values(|x: String| x@),
            0 <= i <= parts.len(),
            out@ == joined(ps.take(i as int), sep@),
        decreases parts.len() - i,
    {
        if i > 0 {
            out.append(sep);
        }
        out.append(parts[i].as_str());
        proof {
            assert(ps.take(i + 1).drop_last() =~= ps.take(i as int));
            assert(ps[i as int] == parts@[i as int]@);
        }
        i += 1;
    }
    proof {
        assert(ps.take(parts.len() as int) =~= ps);
    }
    out
}

// ── ASCII classes ────────────────────────────────────────────────────────────

pub open spec fn is_ascii_upper(c: char) -> bool {
    'A' <= c && c <= 'Z'
}

pub open spec fn is_ascii_lower(c: char) -> bool {
    'a' <= c && c <= 'z'
}

pub open spec fn is_ascii_digit(c: char) -> bool {
    '0' <= c && c <= '9'
}

/// ASCII punctuation: `!`..`/`, `:`..`@`, `[`..`` ` ``, `{`..`~`.
pub open spec fn is_ascii_punct(c: char) -> bool {
    ('!' <= c && c <= '/') || (':' <= c && c <= '@') || ('[' <= c && c <= '`') || ('{' <= c
        && c <= '~')
}

// ── integer parsing ─────────────────────────────────────────────────────────

/// Value of a run of ASCII digits.
pub open spec fn digits_value(ds: Seq<char>) -> int
    decreases ds.len(),
{
    if ds.len() == 0 {
        0
    } else {
        digits_value(ds.drop_last()) * 10 + (ds.last() as int - 48)
    }
}

/// What `str::parse::<i64>` accepts: an optional `+` or `-`, then one or
/// more ASCII digits, denoting a value that fits in `i64`.
pub open spec fn parsed_i64(s: Seq<char>) -> Option<i64> {
    if s.len() == 0 {
        None
    } else {
        let neg = s[0] == '-';
        let ds = if s[0] == '-' || s[0] == '+' { s.drop_first() } else { s };
        if ds.len() == 0 || !(forall|k: int| 0 <= k < ds.len() ==> is_ascii_digit(ds[k])) {
            None
        } else {
            let v = if neg { -digits_value(ds) } else { digits_value(ds) };
            if i64::MIN <= v <= i64::MAX {
                Some(v as i64)
            } else {
                None
            }
        }
    }
}

/// What `str::parse::<usize>` accepts: an optional `+`, then one or more
/// ASCII digits, denoting a value that fits in `usize`.
pub open spec fn parsed_usize(s: Seq<char>) -> Option<usize> {
    let ds = if s.len() > 0 && s[0] == '+' { s.drop_first() } else { s };
    if ds.len() == 0 || !(forall|k: int| 0 <= k < ds.len() ==> is_ascii_digit(ds[k])) {
        None
    } else if digits_value(ds) <= usize::MAX {
        Some(digits_value(ds) as usize)
    } else {
        None
    }
}

/// Parses a decimal `usize` with `str::parse`, which accepts exactly an
/// optional `+` followed by ASCII digits whose value fits in `usize`.
#[verifier::external_body]
pub(crate) fn parse_usize(s: &str) -> (r: Option<usize>)
    ensures
        r == parsed_usize(s@),
{
    s.parse::<usize>().ok()
}

/// What `str::parse::<i32>` accepts: what `parse::<i64>` accepts, with a
/// value that fits in `i32`.
pub open spec fn parsed_i32(s: Seq<char>) -> Option<i32> {
    match parsed_i64(s) {
        Some(v) => if i32::MIN <= v <= i32::MAX {
            Some(v as i32)
        } else {
            None
        },
        None => None,
    }
}

/// What `str::parse::<u32>` accepts: what `parse::<usize>` accepts, with a
/// value that fits in `u32`.
pub open spec fn parsed_u32(s: Seq<char>) -> Option<u32> {
    let ds = if s.len() > 0 && s[0] == '+' { s.drop_first() } else { s };
    if ds.len() == 0 || !(forall|k: int| 0 <= k < ds.len() ==> is_ascii_digit(ds[k])) {
        None
    } else if digits_value(ds) <= u32::MAX {
        Some(digits_value(ds) as u32)
    } else {
        None
    }
}

/// Parses a decimal `i32` with `str::parse`: an optional sign, then ASCII
/// digits whose value fits in `i32`.
#[verifier::external_body]
pub(crate) fn parse_i32(s: &str) -> (r: Option<i32>)
    ensures
        r == parsed_i32(s@),
{
    s.parse::<i32>().ok()
}

/// Parses a decimal `u32` with `str::parse`: an optional `+`, then ASCII
/// digits whose value fits in `u32`.
#[verifier::external_body]
pub(crate) fn parse_u32(s: &str) -> (r: Option<u32>)
    ensures
        r == parsed_u32(s@),
{
    s.parse::<u32>().ok()
}

/// `a` sorts strictly before `b`, character by character, a proper prefix
/// first (the order of `str`'s `<`).
pub open spec fn lex_less(a: Seq<char>, b: Seq<char>) -> bool
    decreases a.len(),
{
    if a.len() == 0 {
        b.len() > 0
    } else if b.len() == 0 {
        false
    } else if a[0] != b[0] {
        a[0] < b[0]
    } else {
        lex_less(a.drop_first(), b.drop_first())
    }
}

/// Parses a decimal `i64` with `str::parse`, which accepts exactly an
/// optional sign followed by ASCII digits whose value fits in `i64`.
#[verifier::external_body]
pub(crate) fn parse_i64(s: &str) -> (r: Option<i64>)
    ensures
        r == parsed_i64(s@),
{
    s.parse::<i64>().ok()
}

/// Whether `a` sorts strictly before `b` (`str`'s `<`).
pub fn str_less(a: &str, b: &str) -> (r: bool)
    ensures
        r == lex_less(a@, b@),
{
    let va = chars_of(a);
    let vb = chars_of(b);
    let mut i: usize = 0;
    proof {
        assert(a@.subrange(0, a@.len() as int) =~= a@);
        assert(b@.subrange(0, b@.len() as int) =~= b@);
    }
    while i < va.len() && i < vb.len()
        invariant
            va@ == a@,
            vb@ == b@,
            0 <= i <= va@.len(),
            i <= vb@.len(),
            lex_less(a@, b@) == lex_less(a@.subrange(i as int, a@.len() as int), b@.subrange(
                i as int,
                b@.len() as int,
            )),
        decreases va@.len() - i,
    {
        let ghost sa = a@.subrange(i as int, a@.len() as int);
        let ghost sb = b@.subrange(i as int, b@.len() as int);
        if va[i] != vb[i] {
            return va[i] < vb[i];
        }
        proof {
            assert(sa.drop_first() =~= a@.subrange(i + 1, a@.len() as int));
            assert(sb.drop_first() =~= b@.subrange(i + 1, b@.len() as int));
        }
        i += 1;
    }
    i < vb.len()
}

/// `lex_less` is a strict total order: irreflexive, transitive, and any
/// two different sequences are ordered one way or the other.
pub proof fn lemma_lex_less_order(a: Seq<char>, b: Seq<char>, c: Seq<char>)
    ensures
        !lex_less(a, a),
        lex_less(a, b) ==> !lex_less(b, a),
        lex_less(a, b) && lex_less(b, c) ==> lex_less(a, c),
        a != b ==> lex_less(a, b) || lex_less(b, a),
    decreases a.len(),
{
    if a.len() > 0 {
        lemma_lex_less_order(a.drop_first(), a.drop_first(), a.drop_first());
        if b.len() > 0 {
            if c.len() > 0 {
                lemma_lex_less_order(a.drop_first(), b.drop_first(), c.drop_first());
            } else {
                lemma_lex_less_order(a.drop_first(), b.drop_first(), c);
            }
            if a != b && a[0] == b[0] {
                assert(a.drop_first() != b.drop_first()) by {
                    if a.drop_first() == b.drop_first() {
                        assert(a =~= seq![a[0]] + a.drop_first());
                        assert(b =~= seq![b[0]] + b.drop_first());
                    }
                }
            }
        }
    } else {
        if b.len() == 0 {
            assert(a =~= b);
        }
    }
}

proof fn lemma_rfind_before_bounds(s: Seq<char>, sep: Seq<char>, i: int)
    ensures
        rfind_before(s, sep, i) >= -1,
        rfind_before(s, sep, i) >= 0 ==> occurs_at(s, sep, rfind_before(s, sep, i)),
    decreases i + 1,
{
    if i >= 0 && !occurs_at(s, sep, i) {
        lemma_rfind_before_bounds(s, sep, i - 1);
    }
}

/// A found last occurrence is an occurrence.
pub proof fn lemma_rfind_bounds(s: Seq<char>, sep: Seq<char>)
    ensures
        rfind(s, sep) >= -1,
        rfind(s, sep) >= 0 ==> occurs_at(s, sep, rfind(s, sep)),
{
    lemma_rfind_before_bounds(s, sep, s.len() - sep.len());
}

/// Every string is not after any later one (`str` order).
pub open spec fn sorted_lex(s: Seq<Seq<char>>) -> bool {
    forall|i: int, j: int| 0 <= i < j < s.len() ==> !lex_less(#[trigger] s[j], #[trigger] s[i])
}

/// Two sorted sequences of the same strings, counted with repeats, are
/// the same sequence.
pub proof fn lemma_sorted_unique(a: Seq<Seq<char>>, b: Seq<Seq<char>>)
    requires
        sorted_lex(a),
        sorted_lex(b),
        a.to_multiset() == b.to_multiset(),
    ensures
        a == b,
    decreases a.len(),
{
    a.to_multiset_ensures();
    b.to_multiset_ensures();
    if a.len() == 0 {
        assert(a =~= b);
    } else {
        assert(a.contains(a[0]));
        assert(a.to_multiset().count(a[0]) > 0);
        assert(b.to_multiset().count(a[0]) > 0);
        assert(b.contains(a[0]));
        let j = choose|j: int| 0 <= j < b.len() && b[j] == a[0];
        assert(b.contains(b[0]));
        assert(b.to_multiset().count(b[0]) > 0);
        assert(a.to_multiset().count(b[0]) > 0);
        assert(a.contains(b[0]));
        let i = choose|i: int| 0 <= i < a.len() && a[i] == b[0];
        lemma_lex_less_order(a[0], b[0], a[0]);
        if j > 0 {
            assert(!lex_less(b[j], b[0]));
        }
        if i > 0 {
            assert(!lex_less(a[i], a[0]));
        }
        assert(a[0] == b[0]);
        let a1 = a.remove(0);
        let b1 = b.remove(0);
        assert(sorted_lex(a1)) by {
            assert forall|x: int, y: int| 0 <= x < y < a1.len() implies !lex_less(
                #[trigger] a1[y],
                #[trigger] a1[x],
            ) by {
                assert(a1[x] == a[x + 1]);
                assert(a1[y] == a[y + 1]);
            }
        }
        assert(sorted_lex(b1)) by {
            assert forall|x: int, y: int| 0 <= x < y < b1.len() implies !lex_less(
                #[trigger] b1[y],
                #[trigger] b1[x],
            ) by {
                assert(b1[x] == b[x + 1]);
                assert(b1[y] == b[y + 1]);
            }
        }
        lemma_sorted_unique(a1, b1);
        assert forall|k: int| 0 <= k < a.len() implies a[k] == b[k] by {
            if k > 0 {
                assert(a[k] == a1[k - 1]);
                assert(b[k] == b1[k - 1]);
            }
        }
        assert(a =~= b);
    }
}

fn insert_sorted(out: &mut Vec<String>, x: String)
    requires
        sorted_lex(old(out)@.map_values(|e: String| e@)),
    ensures
        sorted_lex(final(out)@.map_values(|e: String| e@)),
        final(out)@.map_values(|e: String| e@).to_multiset() == old(out)@.map_values(
            |e: String| e@,
        ).to_multiset().insert(x@),
{
    let ghost s = out@.map_values(|e: String| e@);
    let ghost xv = x@;
    let mut k: usize = 0;
    while k < out.len() && !str_less(x.as_str(), out[k].as_str())
        invariant
            s == out@.map_values(|e: String| e@),
            xv == x@,
            sorted_lex(s),
            0 <= k <= s.len(),
            forall|j: int| 0 <= j < k ==> !lex_less(xv, #[trigger] s[j]),
        decreases s.len() - k,
    {
        proof {
            assert(out@[k as int]@ == s[k as int]);
        }
        k += 1;
    }
    proof {
        assert forall|j: int| k <= j < s.len() implies !lex_less(#[trigger] s[j], xv) by {
            assert(out@[k as int]@ == s[k as int]);
            lemma_lex_less_order(xv, s[k as int], s[j]);
            lemma_lex_less_order(s[j], s[k as int], xv);
            lemma_lex_less_order(s[k as int], s[j], xv);
        }
    }
    out.insert(k, x);
    proof {
        let t = out@.map_values(|e: String| e@);
        assert(t =~= s.insert(k as int, xv));
        assert forall|i: int, j: int| 0 <= i < j < t.len() implies !lex_less(
            #[trigger] t[j],
            #[trigger] t[i],
        ) by {
            if i < k && j < k {
            } else if i < k && j == k {
            } else if i < k && j > k {
                assert(t[j] == s[j - 1]);
                lemma_lex_less_order(s[j - 1], xv, s[i]);
                lemma_lex_less_order(s[i], xv, s[j - 1]);
                lemma_lex_less_order(s[j - 1], s[i], xv);
            } else if i == k {
                assert(t[j] == s[j - 1]);
            } else {
                assert(t[i] == s[i - 1]);
                assert(t[j] == s[j - 1]);
            }
        }
        assert(t.remove(k as int) =~= s);
        vstd::seq_lib::to_multiset_remove(t, k as int);
        assert(t.to_multiset().count(xv) > 0) by {
            assert(t.contains(xv)) by {
                assert(t[k as int] == xv);
            }
            t.to_multiset_ensures();
        }
        assert(t.to_multiset() =~= s.to_multiset().insert(xv));
    }
}

/// The strings of `v` in `str` order.
pub fn sort_strings(v: Vec<String>) -> (r: Vec<String>)
    ensures
        sorted_lex(r@.map_values(|e: String| e@)),
        r@.map_values(|e: String| e@).to_multiset() == v@.map_values(|e: String| e@).to_multiset(),
{
    let ghost vv = v@.map_values(|e: String| e@);
    let mut out: Vec<String> = Vec::new();
    let mut i: usize = 0;
    proof {
        assert(vv.take(0) =~= Seq::<Seq<char>>::empty());
        assert(out@.map_values(|e: String| e@) =~= Seq::<Seq<char>>::empty());
    }
    while i < v.len()
        invariant
            vv == v@.map_values(|e: String| e@),
            0 <= i <= vv.len(),
            sorted_lex(out@.map_values(|e: String| e@)),
            out@.map_values(|e: String| e@).to_multiset() == vv.take(i as int).to_multiset(),
        decreases vv.len() - i,
    {
        let x = v[i].clone();
        proof {
            assert(x@ == vv[i as int]);
            assert(vv.take(i + 1) =~= vv.take(i as int).push(vv[i as int]));
            vstd::seq_lib::to_multiset_build(vv.take(i as int), vv[i as int]);
        }
        insert_sorted(&mut out, x);
        i += 1;
    }
    proof {
        assert(vv.take(vv.len() as int) =~= vv);
    }
    out
}

} // verus!
