//! Shell-completion candidates: files filtered by extension, directories,
//! and the extensions a glob pattern allows.
//!
//! The directory listing is read by the caller and handed in; the
//! candidates are picked, joined to the typed directory and sorted here.

use vstd::prelude::*;
use crate::prompt::select_key::ascii_lower;
use crate::strutil::{
    chars_of, has_prefix, owned, push_char, rfind, rfind_exec, sort_strings, sorted_lex, split_on,
    split_str, starts_with_exec, str_eq, string_of_range, trim, trimmed,
};

verus! {

broadcast use vstd::string::group_string_axioms;

// ── splitting and joining ────────────────────────────────────────────────────

/// `s` without its trailing `c`s (`trim_end_matches`).
pub open spec fn trim_end_char(s: Seq<char>, c: char) -> Seq<char>
    decreases s.len(),
{
    if s.len() > 0 && s.last() == c {
        trim_end_char(s.drop_last(), c)
    } else {
        s
    }
}

fn trim_end_char_exec(s: &str, c: char) -> (r: String)
    ensures
        r@ == trim_end_char(s@, c),
{
    let v = chars_of(s);
    let mut n: usize = v.len();
    proof {
        assert(v@.subrange(0, n as int) =~= v@);
    }
    while n > 0 && v[n - 1] == c
        invariant
            v@ == s@,
            n <= v@.len(),
            trim_end_char(s@, c) == trim_end_char(v@.subrange(0, n as int), c),
        decreases n,
    {
        proof {
            assert(v@.subrange(0, n as int).drop_last() =~= v@.subrange(0, n - 1));
        }
        n -= 1;
    }
    string_of_range(&v, 0, n)
}

/// A path that every platform splits at its `/`s alone: no `\` or `:`
/// (a separator or a prefix on some platforms) and no leading `//` (a
/// network prefix there).
pub open spec fn portable_path(p: Seq<char>) -> bool {
    &&& forall|k: int| 0 <= k < p.len() ==> p[k] != '\\' && p[k] != ':'
    &&& !(p.len() >= 2 && p[0] == '/' && p[1] == '/')
}

/// The directory part of a path, as `Path` leaves it when the last
/// component goes: not empty, not ending in `/`, and not ending in a `.`
/// component (which paths drop) unless it is that `.` alone.
pub open spec fn kept_dir(d: Seq<char>) -> bool {
    let j = rfind(d, seq!['/']);
    &&& d.len() > 0
    &&& d.last() != '/'
    &&& j >= 0 ==> d.subrange(j + 1, d.len() as int) != seq!['.']
}

/// `p` is `dir/name`: a last component that is a plain name, after a
/// directory part that paths keep as it is written (such as `./src/ma`).
pub open spec fn dir_and_name(p: Seq<char>) -> bool {
    let k = rfind(p, seq!['/']);
    &&& k > 0
    &&& portable_path(p)
    &&& kept_dir(p.subrange(0, k))
    &&& plain_name(p.subrange(k + 1, p.len() as int))
}

/// `p` is `/name`: a plain name under the root.
pub open spec fn rooted_name(p: Seq<char>) -> bool {
    p.len() > 1 && p[0] == '/' && plain_name(p.subrange(1, p.len() as int))
}

/// The parent directory of a path, from `Path::parent` (the path without
/// its final component): empty for a plain name, `/` for `/name`, `dir`
/// for `dir/name`. Of other paths nothing is stated: there the parent is
/// the path with repeated separators, `.` components and a trailing `..`
/// normalized as the platform does it.
#[verifier::external_body]
fn path_parent(p: &str) -> (r: Option<String>)
    ensures
        plain_name(p@) ==> r.is_some() && r.unwrap()@ == Seq::<char>::empty(),
        rooted_name(p@) ==> r.is_some() && r.unwrap()@ == seq!['/'],
        dir_and_name(p@) ==> r.is_some() && r.unwrap()@ == p@.subrange(0, rfind(p@, seq!['/'])),
{
    std::path::Path::new(p).parent().map(|d| d.to_string_lossy().to_string())
}

/// The last component of a path, from `Path::file_name`: a plain name
/// itself, `name` for `/name` and for `dir/name`. Of other paths nothing
/// is stated.
#[verifier::external_body]
fn path_file_name(p: &str) -> (r: Option<String>)
    ensures
        plain_name(p@) ==> r.is_some() && r.unwrap()@ == p@,
        rooted_name(p@) ==> r.is_some() && r.unwrap()@ == p@.subrange(1, p@.len() as int),
        dir_and_name(p@) ==> r.is_some() && r.unwrap()@ == p@.subrange(
            rfind(p@, seq!['/']) + 1,
            p@.len() as int,
        ),
{
    std::path::Path::new(p).file_name().map(|f| f.to_string_lossy().to_string())
}

/// A file name as a directory lists it: not empty, not `.` or `..`, and
/// without `/`, `\` or `:` (so it is one path component on every
/// platform).
pub open spec fn plain_name(n: Seq<char>) -> bool {
    &&& n.len() > 0
    &&& n != seq!['.']
    &&& n != seq!['.', '.']
    &&& forall|k: int| 0 <= k < n.len() ==> n[k] != '/' && n[k] != '\\' && n[k] != ':'
}

/// The extension of a plain name: what follows its last `.`, unless there
/// is no `.` or the only one starts the name.
pub open spec fn name_ext(n: Seq<char>) -> Option<Seq<char>> {
    let k = rfind(n, seq!['.']);
    if k <= 0 {
        None
    } else {
        Some(n.subrange(k + 1, n.len() as int))
    }
}

/// The stem of a plain name: what comes before its last `.`, or the whole
/// name when it has no extension.
pub open spec fn name_stem(n: Seq<char>) -> Seq<char> {
    let k = rfind(n, seq!['.']);
    if k <= 0 {
        n
    } else {
        n.subrange(0, k)
    }
}

/// A path whose last component is stated: a plain name, `/name` or
/// `dir/name` (see [`dir_and_name`]).
pub open spec fn path_known(p: Seq<char>) -> bool {
    plain_name(p) || rooted_name(p) || dir_and_name(p)
}

/// The last component of such a path.
pub open spec fn last_component(p: Seq<char>) -> Seq<char> {
    if plain_name(p) {
        p
    } else if rooted_name(p) {
        p.subrange(1, p.len() as int)
    } else {
        p.subrange(rfind(p, seq!['/']) + 1, p.len() as int)
    }
}

/// The extension of a path, from `Path::extension` (the extension of its
/// file name): for a path whose last component is stated (see
/// [`path_known`]), the part of that component after its last `.` (see
/// [`name_ext`]); for other paths nothing is stated, as how they split
/// depends on the platform.
#[verifier::external_body]
pub(crate) fn path_extension(name: &str) -> (r: Option<String>)
    ensures
        path_known(name@) ==> match r {
            Some(e) => name_ext(last_component(name@)) == Some(e@),
            None => name_ext(last_component(name@)) is None,
        },
{
    std::path::Path::new(name).extension().map(|e| e.to_string_lossy().to_string())
}

/// The name without its extension, from `Path::file_stem`: for a plain
/// name, the part before the last `.` (see [`name_stem`]); for other paths
/// nothing is stated.
#[verifier::external_body]
fn path_file_stem(name: &str) -> (r: Option<String>)
    ensures
        plain_name(name@) ==> r.is_some() && r.unwrap()@ == name_stem(name@),
{
    std::path::Path::new(name).file_stem().map(|s| s.to_string_lossy().to_string())
}

fn or_empty(o: Option<String>) -> (r: String)
    ensures
        r@ == match o {
            Some(s) => s@,
            None => Seq::<char>::empty(),
        },
{
    match o {
        Some(s) => s,
        None => String::new(),
    }
}

/// A split of what the user typed into the directory to list and the
/// start of the name: nothing for an empty prefix; the prefix without its
/// trailing slashes (and an empty name) when it ends in `/`; no directory
/// and the whole prefix for a plain name; `/` and `name` for `/name`;
/// `dir` and `name` for `dir/name` (so `./src/ma` splits into `./src` and
/// `ma`). Other prefixes split into the path's parent and last component
/// as the platform normalizes paths.
pub open spec fn split_ok(prefix: Seq<char>, dir: Seq<char>, start: Seq<char>) -> bool {
    &&& prefix.len() == 0 ==> dir == Seq::<char>::empty() && start == Seq::<char>::empty()
    &&& prefix.len() > 0 && prefix.last() == '/' ==> dir == trim_end_char(prefix, '/') && start
        == Seq::<char>::empty()
    &&& plain_name(prefix) ==> dir == Seq::<char>::empty() && start == prefix
    &&& rooted_name(prefix) ==> dir == seq!['/'] && start == prefix.subrange(1, prefix.len() as int)
    &&& dir_and_name(prefix) ==> dir == prefix.subrange(0, rfind(prefix, seq!['/'])) && start
        == prefix.subrange(rfind(prefix, seq!['/']) + 1, prefix.len() as int)
}

/// Split what the user typed into the directory to list and the start of
/// the name (see [`split_ok`]).
pub fn split_prefix(prefix: &str) -> (r: (String, String))
    ensures
        split_ok(prefix@, r.0@, r.1@),
{
    if prefix.is_empty() {
        return (String::new(), String::new());
    }
    let v = chars_of(prefix);
    if v[v.len() - 1] == '/' {
        proof {
            let n = prefix@.len() as int;
            assert(prefix@[n - 1] == '/');
            if dir_and_name(prefix@) {
                crate::strutil::lemma_rfind_bounds(prefix@, seq!['/']);
                let k = rfind(prefix@, seq!['/']);
                let name = prefix@.subrange(k + 1, n);
                assert(name[name.len() - 1] == prefix@[n - 1]);
            }
            if rooted_name(prefix@) {
                let name = prefix@.subrange(1, n);
                assert(name[name.len() - 1] == prefix@[n - 1]);
            }
        }
        return (trim_end_char_exec(prefix, '/'), String::new());
    }
    let dir = or_empty(path_parent(prefix));
    let file = or_empty(path_file_name(prefix));
    (dir, file)
}

/// `name` under `dir`: the name alone for an empty or `.` directory,
/// otherwise the directory without trailing slashes, `/`, the name.
pub open spec fn joined_path(dir: Seq<char>, name: Seq<char>) -> Seq<char> {
    if dir.len() == 0 || dir == seq!['.'] {
        name
    } else {
        trim_end_char(dir, '/') + seq!['/'] + name
    }
}

/// Put `name` under `dir` (see [`joined_path`]).
pub fn join_prefix(dir: &str, name: &str) -> (r: String)
    ensures
        r@ == joined_path(dir@, name@),
{
    let mut dot = String::new();
    push_char(&mut dot, '.');
    proof {
        assert(dot@ =~= seq!['.']);
    }
    if dir.is_empty() || str_eq(dir, dot.as_str()) {
        return owned(name);
    }
    let mut out = trim_end_char_exec(dir, '/');
    push_char(&mut out, '/');
    out.append(name);
    out
}

// ── extensions ───────────────────────────────────────────────────────────────

/// Equal up to ASCII case (`str::eq_ignore_ascii_case`).
pub open spec fn eq_ignore_case(a: Seq<char>, b: Seq<char>) -> bool {
    a.len() == b.len() && forall|i: int| 0 <= i < a.len() ==> ascii_lower(#[trigger] a[i]) == ascii_lower(b[i])
}

pub(crate) fn eq_ignore_case_exec(a: &str, b: &str) -> (r: bool)
    ensures
        r == eq_ignore_case(a@, b@),
{
    let va = chars_of(a);
    let vb = chars_of(b);
    if va.len() != vb.len() {
        return false;
    }
    let mut i: usize = 0;
    while i < va.len()
        invariant
            va@ == a@,
            vb@ == b@,
            va@.len() == vb@.len(),
            0 <= i <= va@.len(),
            forall|k: int| 0 <= k < i ==> ascii_lower(#[trigger] va@[k]) == ascii_lower(vb@[k]),
        decreases va@.len() - i,
    {
        if !crate::prompt::select_key::same_key(va[i], vb[i], false) {
            return false;
        }
        i += 1;
    }
    true
}

/// The extension is one of `exts`, ignoring ASCII case.
pub open spec fn ext_allowed(ext: Seq<char>, exts: Seq<Seq<char>>) -> bool {
    exists|k: int| 0 <= k < exts.len() && eq_ignore_case(#[trigger] exts[k], ext)
}

fn ext_allowed_exec(ext: &str, exts: &Vec<String>) -> (r: bool)
    ensures
        r == ext_allowed(ext@, exts@.map_values(|e: String| e@)),
{
    let ghost es = exts@.map_values(|e: String| e@);
    let mut k: usize = 0;
    while k < exts.len()
        invariant
            es == exts@.map_values(|e: String| e@),
            0 <= k <= es.len(),
            forall|j: int| 0 <= j < k ==> !eq_ignore_case(#[trigger] es[j], ext@),
        decreases es.len() - k,
    {
        if eq_ignore_case_exec(exts[k].as_str(), ext) {
            proof {
                assert(es[k as int] == exts@[k as int]@);
            }
            return true;
        }
        proof {
            assert(es[k as int] == exts@[k as int]@);
        }
        k += 1;
    }
    false
}

/// The extensions a glob pattern allows: after its last `.`, a brace
/// list `{a,b}` gives its items (trimmed), a plain extension gives itself,
/// and anything else (wildcards, or no `.`) gives none.
pub open spec fn glob_exts(pattern: Seq<char>) -> Seq<Seq<char>> {
    let dot = rfind(pattern, seq!['.']);
    if dot < 0 {
        Seq::empty()
    } else {
        let after = pattern.subrange(dot + 1, pattern.len() as int);
        if after.len() > 0 && after[0] == '{' && after.last() == '}' && after.len() >= 2 {
            split_on(after.subrange(1, after.len() - 1), seq![',']).map_values(
                |s: Seq<char>| trimmed(s),
            )
        } else if after.len() > 0 && after[0] == '{' && after.last() == '}' {
            Seq::empty()
        } else if exists|k: int|
            0 <= k < after.len() && "*?[]{"@.contains(#[trigger] after[k]) {
            Seq::empty()
        } else {
            seq![after]
        }
    }
}

/// The documented patterns: `*.csv` allows `csv`, `*.{rs,toml}` allows
/// `rs` and `toml`.
pub proof fn lemma_documented_glob_patterns()
    ensures
        glob_exts("*.csv"@) == seq!["csv"@],
        glob_exts("*.{rs,toml}"@) == seq!["rs"@, "toml"@],
{
    reveal_strlit("*.csv");
    reveal_strlit("csv");
    reveal_strlit("*?[]{");
    reveal_strlit("*.{rs,toml}");
    reveal_strlit("rs");
    reveal_strlit("toml");
    reveal(crate::strutil::is_white_space);
    let p = "*.csv"@;
    assert(p.subrange(4, 5)[0] != '.');
    assert(p.subrange(3, 4)[0] != '.');
    assert(p.subrange(2, 3)[0] != '.');
    assert(p.subrange(1, 2) =~= seq!['.']);
    assert(crate::strutil::rfind_before(p, seq!['.'], 1) == 1);
    assert(crate::strutil::rfind_before(p, seq!['.'], 2) == 1);
    assert(crate::strutil::rfind_before(p, seq!['.'], 3) == 1);
    assert(crate::strutil::rfind_before(p, seq!['.'], 4) == 1);
    assert(rfind(p, seq!['.']) == 1);
    let after = p.subrange(2, 5);
    assert(after =~= "csv"@);
    assert(!"*?[]{"@.contains('c'));
    assert(!"*?[]{"@.contains('s'));
    assert(!"*?[]{"@.contains('v'));
    assert forall|k: int| 0 <= k < after.len() implies !"*?[]{"@.contains(#[trigger] after[k]) by {
        assert(after[k] == 'c' || after[k] == 's' || after[k] == 'v');
    }
    let q = "*.{rs,toml}"@;
    assert(q.len() == 11);
    assert forall|i: int| 2 <= i <= 10 implies !crate::strutil::occurs_at(q, seq!['.'], i) by {
        assert(q.subrange(i, i + 1)[0] == q[i]);
    }
    assert(crate::strutil::rfind_before(q, seq!['.'], 1) == 1) by {
        assert(q.subrange(1, 2) =~= seq!['.']);
    }
    assert(crate::strutil::rfind_before(q, seq!['.'], 2) == 1);
    assert(crate::strutil::rfind_before(q, seq!['.'], 3) == 1);
    assert(crate::strutil::rfind_before(q, seq!['.'], 4) == 1);
    assert(crate::strutil::rfind_before(q, seq!['.'], 5) == 1);
    assert(crate::strutil::rfind_before(q, seq!['.'], 6) == 1);
    assert(crate::strutil::rfind_before(q, seq!['.'], 7) == 1);
    assert(crate::strutil::rfind_before(q, seq!['.'], 8) == 1);
    assert(crate::strutil::rfind_before(q, seq!['.'], 9) == 1);
    assert(crate::strutil::rfind_before(q, seq!['.'], 10) == 1);
    assert(rfind(q, seq!['.']) == 1);
    let a2 = q.subrange(2, 11);
    let inner = a2.subrange(1, a2.len() - 1);
    assert(inner =~= seq!['r', 's', ',', 't', 'o', 'm', 'l']);
    assert(crate::strutil::find_from(inner, seq![','], 2) == 2) by {
        assert(inner.subrange(2, 3) =~= seq![',']);
    }
    assert(crate::strutil::find_from(inner, seq![','], 1) == 2) by {
        assert(inner.subrange(1, 2)[0] != ',');
    }
    assert(crate::strutil::find_from(inner, seq![','], 0) == 2) by {
        assert(inner.subrange(0, 1)[0] != ',');
    }
    let rest = inner.subrange(3, 7);
    assert(rest =~= seq!['t', 'o', 'm', 'l']);
    assert(crate::strutil::find_from(rest, seq![','], 4) == -1);
    assert(crate::strutil::find_from(rest, seq![','], 3) == -1) by {
        assert(rest.subrange(3, 4)[0] != ',');
    }
    assert(crate::strutil::find_from(rest, seq![','], 2) == -1) by {
        assert(rest.subrange(2, 3)[0] != ',');
    }
    assert(crate::strutil::find_from(rest, seq![','], 1) == -1) by {
        assert(rest.subrange(1, 2)[0] != ',');
    }
    assert(crate::strutil::find_from(rest, seq![','], 0) == -1) by {
        assert(rest.subrange(0, 1)[0] != ',');
    }
    let parts = split_on(inner, seq![',']);
    assert(split_on(rest, seq![',']) == seq![rest]);
    assert(parts == seq![inner.subrange(0, 2)] + seq![rest]);
    let rs = inner.subrange(0, 2);
    assert(rs =~= "rs"@);
    assert(trimmed(rs) =~= rs) by {
        assert(crate::strutil::skip_ws_fwd(rs, 0) == 0);
        assert(crate::strutil::skip_ws_back(rs, 2) == 2);
    }
    assert(trimmed(rest) =~= rest) by {
        assert(crate::strutil::skip_ws_fwd(rest, 0) == 0);
        assert(crate::strutil::skip_ws_back(rest, 4) == 4);
    }
    assert(rest =~= "toml"@);
    assert(parts.map_values(|s: Seq<char>| trimmed(s)) =~= seq!["rs"@, "toml"@]);
    assert(a2.len() >= 2 && a2[0] == '{' && a2.last() == '}');
}

/// The extensions a glob pattern allows (see [`glob_exts`]).
pub fn extract_exts_from_glob(pattern: &str) -> (r: Vec<String>)
    ensures
        r@.map_values(|e: String| e@) == glob_exts(pattern@),
{
    let v = chars_of(pattern);
    let mut dotv: Vec<char> = Vec::new();
    dotv.push('.');
    proof {
        assert(dotv@ =~= seq!['.']);
    }
    let mut out: Vec<String> = Vec::new();
    match rfind_exec(&v, &dotv) {
        None => {
            proof {
                assert(out@.map_values(|e: String| e@) =~= Seq::<Seq<char>>::empty());
            }
            out
        },
        Some(dot) => {
            let n = v.len();
            proof {
                crate::strutil::lemma_rfind_bounds(v@, dotv@);
            }
            let after = string_of_range(&v, dot + 1, n);
            let av = chars_of(after.as_str());
            if av.len() > 0 && av[0] == '{' && av[av.len() - 1] == '}' {
                if av.len() < 2 {
                    proof {
                        assert(out@.map_values(|e: String| e@) =~= Seq::<Seq<char>>::empty());
                    }
                    return out;
                }
                let inner = string_of_range(&av, 1, av.len() - 1);
                let mut comma = String::new();
                push_char(&mut comma, ',');
                proof {
                    assert(comma@ =~= seq![',']);
                }
                let parts = split_str(inner.as_str(), comma.as_str());
                let ghost ps = parts@.map_values(|e: String| e@);
                let mut i: usize = 0;
                while i < parts.len()
                    invariant
                        ps == parts@.map_values(|e: String| e@),
                        0 <= i <= ps.len(),
                        out@.map_values(|e: String| e@) == ps.take(i as int).map_values(
                            |s: Seq<char>| trimmed(s),
                        ),
                    decreases ps.len() - i,
                {
                    let t = trim(parts[i].as_str());
                    let ghost prev = out@;
                    out.push(t);
                    proof {
                        assert(ps[i as int] == parts@[i as int]@);
                        assert(out@.map_values(|e: String| e@) =~= prev.map_values(|e: String| e@).push(
                            t@,
                        ));
                        assert(ps.take(i + 1) =~= ps.take(i as int).push(ps[i as int]));
                    }
                    i += 1;
                }
                proof {
                    assert(ps.take(ps.len() as int) =~= ps);
                }
                return out;
            }
            let wild = "*?[]{";
            proof {
                reveal_strlit("*?[]{");
            }
            let mut k: usize = 0;
            let mut found = false;
            while k < av.len()
                invariant
                    0 <= k <= av@.len(),
                    wild@ == "*?[]{"@,
                    found <==> exists|j: int| 0 <= j < k && "*?[]{"@.contains(#[trigger] av@[j]),
                decreases av@.len() - k,
            {
                if crate::strutil::has_char(wild, av[k]) {
                    found = true;
                }
                k += 1;
            }
            if found {
                proof {
                    assert(out@.map_values(|e: String| e@) =~= Seq::<Seq<char>>::empty());
                }
                return out;
            }
            out.push(after);
            proof {
                assert(out@.map_values(|e: String| e@) =~= seq![av@]);
            }
            out
        },
    }
}

// ── candidates ───────────────────────────────────────────────────────────────

/// One entry of a directory listing.
pub struct DirItem {
    /// File name.
    pub name: String,
    /// The entry is a directory.
    pub is_dir: bool,
}

/// What completion knows of a file: its name, whether it is a directory,
/// its extension (empty when it has none) and its stem (when it has one).
pub type FileFacts = (Seq<char>, bool, Seq<char>, Option<Seq<char>>);

/// The candidate an entry gives, if any: a directory (with a `/`) when its
/// name starts with the typed start, a file when its extension is allowed
/// (any, for no extensions), shown without its extension when asked.
pub open spec fn candidate(
    dir: Seq<char>,
    start: Seq<char>,
    f: FileFacts,
    exts: Seq<Seq<char>>,
    strip_ext: bool,
) -> Option<Seq<char>> {
    if !has_prefix(f.0, start) {
        None
    } else if f.1 {
        Some(joined_path(dir, f.0 + seq!['/']))
    } else if exts.len() > 0 && !ext_allowed(f.2, exts) {
        None
    } else {
        let shown = if strip_ext {
            match f.3 {
                Some(s) => s,
                None => f.0,
            }
        } else {
            f.0
        };
        Some(joined_path(dir, shown))
    }
}

/// The candidates of `fs[..n]`, in listing order.
pub open spec fn candidates(
    dir: Seq<char>,
    start: Seq<char>,
    fs: Seq<FileFacts>,
    exts: Seq<Seq<char>>,
    strip_ext: bool,
    n: int,
) -> Seq<Seq<char>>
    decreases n,
{
    if n <= 0 {
        Seq::empty()
    } else {
        let prev = candidates(dir, start, fs, exts, strip_ext, n - 1);
        match candidate(dir, start, fs[n - 1], exts, strip_ext) {
            Some(c) => prev.push(c),
            None => prev,
        }
    }
}

/// The candidates for the entries `facts`, sorted.
pub fn pick_files(
    dir: &str,
    start: &str,
    facts: &Vec<(String, bool, String, Option<String>)>,
    exts: &Vec<String>,
    strip_ext: bool,
) -> (r: Vec<String>)
    ensures
        sorted_lex(r@.map_values(|e: String| e@)),
        r@.map_values(|e: String| e@).to_multiset() == candidates(
            dir@,
            start@,
            facts@.map_values(|f: (String, bool, String, Option<String>)| facts_view(f)),
            exts@.map_values(|e: String| e@),
            strip_ext,
            facts@.len() as int,
        ).to_multiset(),
{
    let ghost fs = facts@.map_values(|f: (String, bool, String, Option<String>)| facts_view(f));
    let ghost es = exts@.map_values(|e: String| e@);
    let mut out: Vec<String> = Vec::new();
    let mut i: usize = 0;
    while i < facts.len()
        invariant
            fs == facts@.map_values(|f: (String, bool, String, Option<String>)| facts_view(f)),
            es == exts@.map_values(|e: String| e@),
            0 <= i <= fs.len(),
            out@.map_values(|e: String| e@) == candidates(dir@, start@, fs, es, strip_ext, i as int),
        decreases fs.len() - i,
    {
        let f = &facts[i];
        proof {
            assert(facts_view(facts@[i as int]) == fs[i as int]);
        }
        let ghost prev = out@;
        if starts_with_exec(f.0.as_str(), start) {
            if f.1 {
                let mut nm = f.0.clone();
                push_char(&mut nm, '/');
                proof {
                    assert(nm@ =~= f.0@ + seq!['/']);
                }
                let c = join_prefix(dir, nm.as_str());
                out.push(c);
                proof {
                    assert(out@.map_values(|e: String| e@) =~= prev.map_values(|e: String| e@).push(
                        c@,
                    ));
                }
            } else if exts.len() > 0 && !ext_allowed_exec(f.2.as_str(), exts) {
            } else {
                let shown: &str = if strip_ext {
                    match &f.3 {
                        Some(s) => s.as_str(),
                        None => f.0.as_str(),
                    }
                } else {
                    f.0.as_str()
                };
                let c = join_prefix(dir, shown);
                out.push(c);
                proof {
                    assert(out@.map_values(|e: String| e@) =~= prev.map_values(|e: String| e@).push(
                        c@,
                    ));
                }
            }
        }
        i += 1;
    }
    sort_strings(out)
}

/// The facts are those of the listing's entries: same names, same kinds,
/// and for a plain name its extension (empty for none) and its stem.
pub open spec fn facts_match(fs: Seq<FileFacts>, listing: Seq<DirItem>) -> bool {
    fs.len() == listing.len() && forall|k: int|
        0 <= k < fs.len() ==> {
            &&& (#[trigger] fs[k]).0 == listing[k].name@
            &&& fs[k].1 == listing[k].is_dir
            &&& plain_name(listing[k].name@) ==> fs[k].2 == match name_ext(listing[k].name@) {
                Some(e) => e,
                None => Seq::<char>::empty(),
            } && fs[k].3 == Some(name_stem(listing[k].name@))
        }
}

/// A listing entry's facts as plain values.
pub open spec fn facts_view(f: (String, bool, String, Option<String>)) -> FileFacts {
    (
        f.0@,
        f.1,
        f.2@,
        match f.3 {
            Some(s) => Some(s@),
            None => None,
        },
    )
}

/// `r` is the completion of `prefix` among `listing`: the candidates of
/// some split of the prefix and of the entries' facts (see [`split_ok`]
/// and [`facts_match`]), sorted.
pub open spec fn completes(
    prefix: Seq<char>,
    listing: Seq<DirItem>,
    exts: Seq<Seq<char>>,
    strip_ext: bool,
    r: Seq<Seq<char>>,
) -> bool {
    &&& sorted_lex(r)
    &&& r.len() <= listing.len()
    &&& exists|dir: Seq<char>, start: Seq<char>, fs: Seq<FileFacts>|
        #![trigger split_ok(prefix, dir, start), facts_match(fs, listing)]
        split_ok(prefix, dir, start) && facts_match(fs, listing) && r.to_multiset() == candidates(
            dir,
            start,
            fs,
            exts,
            strip_ext,
            fs.len() as int,
        ).to_multiset()
}

/// A prefix whose split into directory and name start is fixed.
pub open spec fn split_fixed(prefix: Seq<char>) -> bool {
    ||| prefix.len() == 0
    ||| prefix.last() == '/'
    ||| plain_name(prefix)
    ||| rooted_name(prefix)
    ||| dir_and_name(prefix)
}

/// Completing from a glob pattern is completing with the extensions that
/// the pattern allows (`*.csv` as `["csv"]`, `*.{rs,toml}` as
/// `["rs", "toml"]`): for one listing of plain names and a prefix whose
/// split is fixed, a completion from the pattern and one with those
/// extensions are the same sequence.
pub proof fn law_glob_completion_is_extension_completion(
    prefix: Seq<char>,
    pattern: Seq<char>,
    exts: Seq<Seq<char>>,
    listing: Seq<DirItem>,
    from_glob: Seq<Seq<char>>,
    with_exts: Seq<Seq<char>>,
)
    requires
        split_fixed(prefix),
        forall|k: int| 0 <= k < listing.len() ==> plain_name(#[trigger] listing[k].name@),
        exts == glob_exts(pattern),
        completes(prefix, listing, glob_exts(pattern), false, from_glob),
        completes(prefix, listing, exts, false, with_exts),
    ensures
        from_glob == with_exts,
{
    lemma_completion_determined(prefix, listing, exts, false, from_glob, with_exts);
}

/// Where the split is fixed and every listed name is plain, a completion
/// is determined by its inputs.
proof fn lemma_completion_determined(
    prefix: Seq<char>,
    listing: Seq<DirItem>,
    exts: Seq<Seq<char>>,
    strip_ext: bool,
    r1: Seq<Seq<char>>,
    r2: Seq<Seq<char>>,
)
    requires
        split_fixed(prefix),
        forall|k: int| 0 <= k < listing.len() ==> plain_name(#[trigger] listing[k].name@),
        completes(prefix, listing, exts, strip_ext, r1),
        completes(prefix, listing, exts, strip_ext, r2),
    ensures
        r1 == r2,
{
    let (d1, s1, f1) = choose|dir: Seq<char>, start: Seq<char>, fs: Seq<FileFacts>|
        #![trigger split_ok(prefix, dir, start), facts_match(fs, listing)]
        split_ok(prefix, dir, start) && facts_match(fs, listing) && r1.to_multiset() == candidates(
            dir,
            start,
            fs,
            exts,
            strip_ext,
            fs.len() as int,
        ).to_multiset();
    let (d2, s2, f2) = choose|dir: Seq<char>, start: Seq<char>, fs: Seq<FileFacts>|
        #![trigger split_ok(prefix, dir, start), facts_match(fs, listing)]
        split_ok(prefix, dir, start) && facts_match(fs, listing) && r2.to_multiset() == candidates(
            dir,
            start,
            fs,
            exts,
            strip_ext,
            fs.len() as int,
        ).to_multiset();
    assert(d1 == d2 && s1 == s2);
    assert forall|k: int| 0 <= k < f1.len() implies f1[k] == f2[k] by {
        assert(plain_name(listing[k].name@));
    }
    assert(f1 =~= f2);
    crate::strutil::lemma_sorted_unique(r1, r2);
}

/// The completions for `prefix` among the entries of its directory
/// (`listing`): sub-directories, and files whose extension is one of
/// `exts` (any, when `exts` is empty), shown without the extension when
/// `strip_ext`; joined to the typed directory and sorted.
pub fn complete_files_with_ext(prefix: &str, listing: &Vec<DirItem>, exts: &Vec<String>, strip_ext: bool) -> (r: Vec<String>)
    ensures
        completes(prefix@, listing@, exts@.map_values(|e: String| e@), strip_ext, r@.map_values(
            |e: String| e@,
        )),
{
    let (dir, start) = split_prefix(prefix);
    let mut facts: Vec<(String, bool, String, Option<String>)> = Vec::new();
    let mut i: usize = 0;
    while i < listing.len()
        invariant
            0 <= i <= listing@.len(),
            facts@.len() == i,
            forall|k: int|
                0 <= k < i ==> {
                    &&& (#[trigger] facts@[k]).0@ == listing@[k].name@
                    &&& facts@[k].1 == listing@[k].is_dir
                    &&& plain_name(listing@[k].name@) ==> facts@[k].2@ == match name_ext(
                        listing@[k].name@,
                    ) {
                        Some(e) => e,
                        None => Seq::<char>::empty(),
                    } && facts@[k].3 is Some && facts@[k].3.unwrap()@ == name_stem(
                        listing@[k].name@,
                    )
                },
        decreases listing@.len() - i,
    {
        let it = &listing[i];
        let ext = or_empty(path_extension(it.name.as_str()));
        let stem = path_file_stem(it.name.as_str());
        facts.push((it.name.clone(), it.is_dir, ext, stem));
        i += 1;
    }
    let r = pick_files(dir.as_str(), start.as_str(), &facts, exts, strip_ext);
    proof {
        let fs = facts@.map_values(|f: (String, bool, String, Option<String>)| facts_view(f));
        lemma_candidates_len(dir@, start@, fs, exts@.map_values(|e: String| e@), strip_ext, fs.len() as int);
        r@.map_values(|e: String| e@).to_multiset_ensures();
        candidates(dir@, start@, fs, exts@.map_values(|e: String| e@), strip_ext, fs.len() as int).to_multiset_ensures();
        assert(facts_match(fs, listing@));
        assert(split_ok(prefix@, dir@, start@));
    }
    r
}

proof fn lemma_candidates_len(
    dir: Seq<char>,
    start: Seq<char>,
    fs: Seq<FileFacts>,
    exts: Seq<Seq<char>>,
    strip_ext: bool,
    n: int,
)
    requires
        0 <= n,
    ensures
        candidates(dir, start, fs, exts, strip_ext, n).len() <= n,
    decreases n,
{
    if n > 0 {
        lemma_candidates_len(dir, start, fs, exts, strip_ext, n - 1);
    }
}

/// The directories among `listing` whose names start with the typed
/// start, each joined to the typed directory with a trailing `/`, sorted.
pub fn complete_dirs(prefix: &str, listing: &Vec<DirItem>) -> (r: Vec<String>)
    ensures
        sorted_lex(r@.map_values(|e: String| e@)),
        exists|dir: Seq<char>, start: Seq<char>|
            #![trigger split_ok(prefix@, dir, start)]
            split_ok(prefix@, dir, start) && r@.map_values(|e: String| e@).to_multiset()
                == listing@.filter(|d: DirItem| d.is_dir && has_prefix(d.name@, start)).map_values(
                |d: DirItem| joined_path(dir, d.name@ + seq!['/']),
            ).to_multiset(),
{
    let (dir, start) = split_prefix(prefix);
    let ghost dv = dir@;
    let ghost sv = start@;
    let mut out: Vec<String> = Vec::new();
    let mut i: usize = 0;
    let ghost to_c = |d: DirItem| joined_path(dv, d.name@ + seq!['/']);
    let ghost sel = |d: DirItem| d.is_dir && has_prefix(d.name@, sv);
    proof {
        assert(listing@.take(0) =~= Seq::<DirItem>::empty());
        assert(Seq::<DirItem>::empty().filter(sel) =~= Seq::<DirItem>::empty()) by {
            reveal(Seq::filter);
        }
    }
    while i < listing.len()
        invariant
            0 <= i <= listing@.len(),
            dv == dir@,
            sv == start@,
            sel == (|d: DirItem| d.is_dir && has_prefix(d.name@, sv)),
            to_c == (|d: DirItem| joined_path(dv, d.name@ + seq!['/'])),
            out@.map_values(|e: String| e@) == listing@.take(i as int).filter(sel).map_values(to_c),
        decreases listing@.len() - i,
    {
        let it = &listing[i];
        let ghost prev = out@;
        proof {
            assert(listing@.take(i + 1) =~= listing@.take(i as int).push(listing@[i as int]));
            listing@.take(i as int).lemma_filter_push(listing@[i as int], sel);
        }
        if it.is_dir && starts_with_exec(it.name.as_str(), start.as_str()) {
            let mut nm = it.name.clone();
            push_char(&mut nm, '/');
            proof {
                assert(nm@ =~= it.name@ + seq!['/']);
            }
            let c = join_prefix(dir.as_str(), nm.as_str());
            out.push(c);
            proof {
                assert(out@.map_values(|e: String| e@) =~= prev.map_values(|e: String| e@).push(c@));
                assert(listing@.take(i as int).filter(sel).push(listing@[i as int]).map_values(to_c)
                    =~= listing@.take(i as int).filter(sel).map_values(to_c).push(c@));
            }
        }
        i += 1;
    }
    proof {
        assert(listing@.take(listing@.len() as int) =~= listing@);
        assert(split_ok(prefix@, dv, sv));
    }
    sort_strings(out)
}

/// Every file, no extension filter.
pub fn complete_files(prefix: &str, listing: &Vec<DirItem>) -> (r: Vec<String>)
    ensures
        completes(prefix@, listing@, Seq::<Seq<char>>::empty(), false, r@.map_values(
            |e: String| e@,
        )),
{
    let none: Vec<String> = Vec::new();
    proof {
        assert(none@.map_values(|e: String| e@) =~= Seq::<Seq<char>>::empty());
    }
    complete_files_with_ext(prefix, listing, &none, false)
}

/// The files allowed by a glob pattern's extensions.
pub fn complete_files_from_glob(prefix: &str, pattern: &str, listing: &Vec<DirItem>) -> (r: Vec<String>)
    ensures
        completes(prefix@, listing@, glob_exts(pattern@), false, r@.map_values(|e: String| e@)),
{
    let exts = extract_exts_from_glob(pattern);
    complete_files_with_ext(prefix, listing, &exts, false)
}

/// The values that start with `word`, in order.
pub fn values_filtered(values: &Vec<String>, word: &str) -> (r: Vec<String>)
    ensures
        r@.map_values(|e: String| e@) == values@.map_values(|e: String| e@).filter(
            |v: Seq<char>| has_prefix(v, word@),
        ),
{
    let ghost vs = values@.map_values(|e: String| e@);
    let ghost f = |v: Seq<char>| has_prefix(v, word@);
    let mut out: Vec<String> = Vec::new();
    let mut i: usize = 0;
    while i < values.len()
        invariant
            vs == values@.map_values(|e: String| e@),
            f == (|v: Seq<char>| has_prefix(v, word@)),
            0 <= i <= vs.len(),
            out@.map_values(|e: String| e@) == vs.take(i as int).filter(f),
        decreases vs.len() - i,
    {
        let ghost prev = out@;
        proof {
            assert(vs.take(i + 1) =~= vs.take(i as int).push(vs[i as int]));
            vs.take(i as int).lemma_filter_push(vs[i as int], f);
            assert(vs[i as int] == values@[i as int]@);
        }
        if starts_with_exec(values[i].as_str(), word) {
            let v = values[i].clone();
            let ghost vv = v@;
            out.push(v);
            proof {
                assert(out@.map_values(|e: String| e@) =~= prev.map_values(|e: String| e@).push(vv));
            }
        }
        i += 1;
    }
    proof {
        assert(vs.take(vs.len() as int) =~= vs);
    }
    out
}

} // verus!
