//! Typed option parsing, run from a table of argument specifications: the
//! grammar of the command line (flags, values, switches, positionals and
//! defaults) and the constraints between options.
//!
//! The table says for each field how it is written on the command line;
//! the result is the raw text of each field, which the caller converts to
//! the field's type.

use vstd::prelude::*;
use crate::strutil::{chars_of, owned, push_char, str_eq, string_of_range};

verus! {

broadcast use vstd::string::group_string_axioms;

// ── the table ────────────────────────────────────────────────────────────────

/// Where a field's default comes from (for help; the caller resolves it).
#[derive(Clone, Debug, PartialEq)]
pub enum DefaultVal {
    /// A literal value.
    Lit(String),
    /// An environment variable, with an optional fallback.
    Env(String, Option<String>),
    /// A function of the program.
    Auto,
}

/// How one field of an option struct is written on the command line.
#[derive(Clone, Debug)]
pub struct ArgSpec {
    /// The field's name.
    pub field: String,
    /// `-c`.
    pub short: Option<char>,
    /// `--name`.
    pub long: Option<String>,
    /// Taken from the positional arguments, in field order.
    pub positional: bool,
    /// A flag that takes no value (a `bool` field).
    pub switch: bool,
    /// A switch that also has a `--no-name` form.
    pub negatable: bool,
    /// Every occurrence is collected (a `Vec` field).
    pub repeated: bool,
    /// The field may be absent (an `Option` field).
    pub optional: bool,
    /// Not read from the command line at all.
    pub skip: bool,
    /// Where the default comes from.
    pub default: Option<DefaultVal>,
    /// Options that cannot be given together with this one.
    pub conflicts_with: Vec<String>,
    /// Options that must be given when this one is.
    pub requires: Vec<String>,
    /// One of these must be given when this one is.
    pub requires_any: Vec<String>,
    /// This one must be given unless each of these is.
    pub required_unless: Vec<String>,
    /// This one must be given unless one of these is.
    pub required_unless_any: Vec<String>,
    /// At most one option of a group may be given.
    pub group: Option<String>,
    /// The help section the option is listed in.
    pub section: Option<String>,
    /// The value's placeholder in help (`PATH`, `N`, ...; empty for none).
    pub hint: String,
    /// The option's description.
    pub doc: String,
}

/// What the command line gives a field.
#[derive(Clone, Debug, PartialEq)]
pub enum ArgValue {
    /// The values written for it, in order (one for a single-valued field).
    Given(Vec<String>),
    /// The state of a switch.
    Switch(bool),
    /// Nothing: the field takes its default (or `None` when optional).
    NotGiven,
}

/// [`ArgValue`] as plain values.
pub enum ValueV {
    Given(Seq<Seq<char>>),
    Switch(bool),
    NotGiven,
}

/// One token, or a flag with its value, as the scanner read it.
pub enum ArgEvent {
    /// A value for field `.0`.
    Value(usize, String),
    /// Field `.0`'s flag without a value.
    Bare(usize),
    /// Field `.0`'s switch, on or off.
    Switch(usize, bool),
    /// A positional argument.
    Positional(String),
}

/// [`ArgEvent`] as plain values.
pub enum Ev {
    Value(usize, Seq<char>),
    Bare(usize),
    Switch(usize, bool),
    Positional(Seq<char>),
}

pub open spec fn ev_view(e: ArgEvent) -> Ev {
    match e {
        ArgEvent::Value(j, v) => Ev::Value(j, v@),
        ArgEvent::Bare(j) => Ev::Bare(j),
        ArgEvent::Switch(j, b) => Ev::Switch(j, b),
        ArgEvent::Positional(p) => Ev::Positional(p@),
    }
}

pub open spec fn evs_view(es: Seq<ArgEvent>) -> Seq<Ev> {
    es.map_values(|e: ArgEvent| ev_view(e))
}

pub open spec fn value_view(v: ArgValue) -> ValueV {
    match v {
        ArgValue::Given(vs) => ValueV::Given(strs(vs@)),
        ArgValue::Switch(b) => ValueV::Switch(b),
        ArgValue::NotGiven => ValueV::NotGiven,
    }
}

/// The texts of a list of strings.
pub open spec fn strs(v: Seq<String>) -> Seq<Seq<char>> {
    v.map_values(|s: String| s@)
}

/// `acc` before the sequence that `r` holds, or `r`'s error.
pub open spec fn glue<T>(acc: Seq<T>, r: Result<Seq<T>, Seq<char>>) -> Result<Seq<T>, Seq<char>> {
    match r {
        Ok(s) => Ok(acc + s),
        Err(m) => Err(m),
    }
}

proof fn lemma_glue_push<T>(acc: Seq<T>, e: T, r: Result<Seq<T>, Seq<char>>)
    ensures
        glue(acc, glue(seq![e], r)) == glue(acc.push(e), r),
{
    if let Ok(s) = r {
        assert(acc + (seq![e] + s) =~= acc.push(e) + s);
    }
}

// ── flag names ───────────────────────────────────────────────────────────────

/// `--name`.
pub open spec fn dashes(s: Seq<char>) -> Seq<char> {
    seq!['-', '-'] + s
}

/// `--no-name`.
pub open spec fn no_key(a: ArgSpec) -> Seq<char> {
    seq!['-', '-', 'n', 'o', '-'] + a.long.unwrap()@
}

/// The name a flag is known by: `--long`, else `-s`, else `<field>`.
pub open spec fn flag_text(a: ArgSpec) -> Seq<char> {
    match a.long {
        Some(l) => dashes(l@),
        None => match a.short {
            Some(c) => seq!['-', c],
            None => seq!['<'] + a.field@ + seq!['>'],
        },
    }
}

/// `k` turns the field's flag on (or gives it a value).
pub open spec fn names_on(a: ArgSpec, k: Seq<char>) -> bool {
    ||| (a.long matches Some(l) && k == dashes(l@))
    ||| (a.short matches Some(c) && k == seq!['-', c])
}

/// `k` is the field's `--no-` form.
pub open spec fn names_off(a: ArgSpec, k: Seq<char>) -> bool {
    a.negatable && a.long is Some && k == no_key(a)
}

/// The field is written as a flag.
pub open spec fn is_flag_field(a: ArgSpec) -> bool {
    !a.skip && !a.positional
}

/// The field's flag takes no value.
pub open spec fn no_value(a: ArgSpec) -> bool {
    a.switch || a.negatable
}

/// The first field from `j` on that flag `k` names, and whether it turns
/// it on.
pub open spec fn key_field(specs: Seq<ArgSpec>, k: Seq<char>, j: int) -> Option<(usize, bool)>
    decreases specs.len() - j,
{
    if j < 0 || j >= specs.len() {
        None
    } else if is_flag_field(specs[j]) && names_on(specs[j], k) {
        Some((j as usize, true))
    } else if is_flag_field(specs[j]) && names_off(specs[j], k) {
        Some((j as usize, false))
    } else {
        key_field(specs, k, j + 1)
    }
}

/// The index of the first `c` in `t` from `i` on, or -1.
pub open spec fn first_char_from(t: Seq<char>, c: char, i: int) -> int
    decreases t.len() - i,
{
    if i < 0 || i >= t.len() {
        -1
    } else if t[i] == c {
        i
    } else {
        first_char_from(t, c, i + 1)
    }
}

/// `t` starts with `-`.
pub open spec fn dashed(t: Seq<char>) -> bool {
    t.len() > 0 && t[0] == '-'
}

pub open spec fn msg_unknown(k: Seq<char>) -> Seq<char> {
    "unknown flag: `"@ + k + "`"@
}

pub open spec fn msg_no_value(k: Seq<char>) -> Seq<char> {
    "flag `"@ + k + "` takes no value"@
}

/// The tokens from `i` on, read left to right:
/// - `--name=value` gives the value to the field named `--name` (refused
///   for a switch);
/// - a flag of a switch turns it on, its `--no-` form off;
/// - `-s value` and `--name value` give the value, when the next token
///   does not start with `-`; otherwise the flag stands bare;
/// - any other token starting with `-` is an unknown flag, refused;
/// - every other token is a positional argument.
pub open spec fn scan(specs: Seq<ArgSpec>, args: Seq<Seq<char>>, i: int) -> Result<Seq<Ev>, Seq<char>>
    decreases args.len() - i,
{
    if i < 0 || i >= args.len() {
        Ok(Seq::empty())
    } else {
        let t = args[i];
        let eq = first_char_from(t, '=', 0);
        if t.len() >= 2 && t[0] == '-' && t[1] == '-' && eq >= 0 {
            let k = t.subrange(0, eq);
            match key_field(specs, k, 0) {
                Some((j, _)) => if no_value(specs[j as int]) {
                    Err(msg_no_value(k))
                } else {
                    glue(
                        seq![Ev::Value(j, t.subrange(eq + 1, t.len() as int))],
                        scan(specs, args, i + 1),
                    )
                },
                None => Err(msg_unknown(k)),
            }
        } else if dashed(t) {
            match key_field(specs, t, 0) {
                Some((j, on)) => if no_value(specs[j as int]) {
                    glue(seq![Ev::Switch(j, on)], scan(specs, args, i + 1))
                } else if i + 1 < args.len() && !dashed(args[i + 1]) {
                    glue(seq![Ev::Value(j, args[i + 1])], scan(specs, args, i + 2))
                } else {
                    glue(seq![Ev::Bare(j)], scan(specs, args, i + 1))
                },
                None => Err(msg_unknown(t)),
            }
        } else {
            glue(seq![Ev::Positional(t)], scan(specs, args, i + 1))
        }
    }
}

fn dashes_exec(l: &str) -> (r: String)
    ensures
        r@ == dashes(l@),
{
    let mut s = String::new();
    push_char(&mut s, '-');
    push_char(&mut s, '-');
    s.append(l);
    proof {
        assert(s@ =~= dashes(l@));
    }
    s
}

fn no_key_exec(a: &ArgSpec) -> (r: String)
    requires
        a.long is Some,
    ensures
        r@ == no_key(*a),
{
    let mut s = String::new();
    push_char(&mut s, '-');
    push_char(&mut s, '-');
    push_char(&mut s, 'n');
    push_char(&mut s, 'o');
    push_char(&mut s, '-');
    match &a.long {
        Some(l) => s.append(l.as_str()),
        None => {},
    }
    proof {
        assert(s@ =~= no_key(*a));
    }
    s
}

/// The name a flag is known by (see [`flag_text`]).
pub fn flag_text_exec(a: &ArgSpec) -> (r: String)
    ensures
        r@ == flag_text(*a),
{
    match &a.long {
        Some(l) => dashes_exec(l.as_str()),
        None => match a.short {
            Some(c) => {
                let mut s = String::new();
                push_char(&mut s, '-');
                push_char(&mut s, c);
                proof {
                    assert(s@ =~= seq!['-', c]);
                }
                s
            },
            None => {
                let mut s = String::new();
                push_char(&mut s, '<');
                s.append(a.field.as_str());
                push_char(&mut s, '>');
                proof {
                    assert(s@ =~= seq!['<'] + a.field@ + seq!['>']);
                }
                s
            },
        },
    }
}

fn names_on_exec(a: &ArgSpec, k: &str) -> (r: bool)
    ensures
        r == names_on(*a, k@),
{
    let mut found = false;
    match &a.long {
        Some(l) => {
            let key = dashes_exec(l.as_str());
            if str_eq(key.as_str(), k) {
                found = true;
            }
        },
        None => {},
    }
    match a.short {
        Some(c) => {
            let v = chars_of(k);
            if v.len() == 2 && v[0] == '-' && v[1] == c {
                proof {
                    assert(k@ =~= seq!['-', c]);
                }
                found = true;
            } else {
                proof {
                    if k@ == seq!['-', c] {
                        assert(v@[0] == '-' && v@[1] == c);
                    }
                }
            }
        },
        None => {},
    }
    found
}

fn names_off_exec(a: &ArgSpec, k: &str) -> (r: bool)
    ensures
        r == names_off(*a, k@),
{
    if a.negatable && a.long.is_some() {
        let key = no_key_exec(a);
        str_eq(key.as_str(), k)
    } else {
        false
    }
}

/// The field that flag `k` names, and whether it turns it on (see
/// [`key_field`]).
pub fn find_key(specs: &Vec<ArgSpec>, k: &str) -> (r: Option<(usize, bool)>)
    ensures
        r == key_field(specs@, k@, 0),
        r matches Some((j, _)) ==> j < specs@.len(),
{
    let mut j: usize = 0;
    while j < specs.len()
        invariant
            0 <= j <= specs@.len(),
            key_field(specs@, k@, 0) == key_field(specs@, k@, j as int),
        decreases specs@.len() - j,
    {
        let a = &specs[j];
        if !a.skip && !a.positional {
            if names_on_exec(a, k) {
                return Some((j, true));
            }
            if names_off_exec(a, k) {
                return Some((j, false));
            }
        }
        j += 1;
    }
    proof {
        lemma_key_field_none(specs@, k@, j as int);
    }
    None
}

proof fn lemma_key_field_none(specs: Seq<ArgSpec>, k: Seq<char>, j: int)
    requires
        j >= specs.len(),
    ensures
        key_field(specs, k, j) is None,
{
}

/// A field that a flag names is a flag field of the table.
pub proof fn lemma_key_field_in(specs: Seq<ArgSpec>, k: Seq<char>, j: int)
    requires
        0 <= j,
        specs.len() <= usize::MAX,
    ensures
        key_field(specs, k, j) matches Some((f, on)) ==> j <= f < specs.len() && is_flag_field(
            specs[f as int],
        ) && (!on ==> names_off(specs[f as int], k)),
    decreases specs.len() - j,
{
    if j < specs.len() && !(is_flag_field(specs[j]) && (names_on(specs[j], k) || names_off(
        specs[j],
        k,
    ))) {
        lemma_key_field_in(specs, k, j + 1);
    }
}

fn first_char_exec(v: &Vec<char>, c: char) -> (r: Option<usize>)
    ensures
        match r {
            Some(i) => first_char_from(v@, c, 0) == i && i < v@.len(),
            None => first_char_from(v@, c, 0) == -1,
        },
{
    let mut i: usize = 0;
    while i < v.len()
        invariant
            0 <= i <= v@.len(),
            first_char_from(v@, c, 0) == first_char_from(v@, c, i as int),
        decreases v@.len() - i,
    {
        if v[i] == c {
            return Some(i);
        }
        i += 1;
    }
    None
}

fn is_dashed(t: &str) -> (r: bool)
    ensures
        r == dashed(t@),
{
    let v = chars_of(t);
    v.len() > 0 && v[0] == '-'
}

/// Every event names a field of the table, and an off switch has a long
/// name.
pub open spec fn evs_ok(specs: Seq<ArgSpec>, evs: Seq<Ev>) -> bool {
    forall|k: int| 0 <= k < evs.len() ==> #[trigger] ev_ok(specs, evs[k])
}

pub open spec fn ev_ok(specs: Seq<ArgSpec>, e: Ev) -> bool {
    match e {
        Ev::Value(j, _) => j < specs.len(),
        Ev::Bare(j) => j < specs.len(),
        Ev::Switch(j, b) => j < specs.len() && (!b ==> specs[j as int].long is Some),
        Ev::Positional(_) => true,
    }
}

/// Read the tokens (see [`scan`]).
pub fn scan_args(specs: &Vec<ArgSpec>, args: &Vec<String>) -> (r: Result<Vec<ArgEvent>, String>)
    ensures
        match r {
            Ok(es) => scan(specs@, strs(args@), 0) == Ok::<Seq<Ev>, Seq<char>>(evs_view(es@)),
            Err(m) => scan(specs@, strs(args@), 0) == Err::<Seq<Ev>, Seq<char>>(m@),
        },
        r matches Ok(es) ==> evs_ok(specs@, evs_view(es@)),
{
    let ghost a = strs(args@);
    let mut out: Vec<ArgEvent> = Vec::new();
    let mut i: usize = 0;
    proof {
        assert(evs_view(out@) =~= Seq::<Ev>::empty());
        if let Ok(s) = scan(specs@, a, 0) {
            assert(Seq::<Ev>::empty() + s =~= s);
        }
    }
    while i < args.len()
        invariant
            a == strs(args@),
            0 <= i <= a.len(),
            scan(specs@, a, 0) == glue(evs_view(out@), scan(specs@, a, i as int)),
            evs_ok(specs@, evs_view(out@)),
        decreases a.len() - i,
    {
        let ghost acc = evs_view(out@);
        let t = args[i].as_str();
        let v = chars_of(t);
        let eq = first_char_exec(&v, '=');
        proof {
            assert(a[i as int] == args@[i as int]@);
        }
        if v.len() >= 2 && v[0] == '-' && v[1] == '-' && eq.is_some() {
            let e = eq.unwrap();
            let k = string_of_range(&v, 0, e);
            match find_key(specs, k.as_str()) {
                Some((j, on)) => {
                    if specs[j].switch || specs[j].negatable {
                        let mut m = owned("flag `");
                        m.append(k.as_str());
                        m.append("` takes no value");
                        return Err(m);
                    }
                    let val = string_of_range(&v, e + 1, v.len());
                    let ghost ev = Ev::Value(j, val@);
                    out.push(ArgEvent::Value(j, val));
                    proof {
                        assert(evs_view(out@) =~= acc.push(ev));
                        lemma_glue_push(acc, ev, scan(specs@, a, i + 1));
                    }
                    i += 1;
                },
                None => {
                    let mut m = owned("unknown flag: `");
                    m.append(k.as_str());
                    m.append("`");
                    return Err(m);
                },
            }
        } else if v.len() > 0 && v[0] == '-' {
            let fk = find_key(specs, t);
            proof {
                assert(specs@.len() == specs.len());
                lemma_key_field_in(specs@, t@, 0);
            }
            match fk {
                Some((j, on)) => {
                    if specs[j].switch || specs[j].negatable {
                        let ghost ev = Ev::Switch(j, on);
                        out.push(ArgEvent::Switch(j, on));
                        proof {
                            assert(evs_view(out@) =~= acc.push(ev));
                            lemma_glue_push(acc, ev, scan(specs@, a, i + 1));
                        }
                        i += 1;
                    } else if i + 1 < args.len() && !is_dashed(args[i + 1].as_str()) {
                        let val = args[i + 1].clone();
                        proof {
                            assert(a[i + 1] == args@[i + 1]@);
                        }
                        let ghost ev = Ev::Value(j, val@);
                        out.push(ArgEvent::Value(j, val));
                        proof {
                            assert(evs_view(out@) =~= acc.push(ev));
                            lemma_glue_push(acc, ev, scan(specs@, a, i + 2));
                        }
                        i += 2;
                    } else {
                        let ghost ev = Ev::Bare(j);
                        out.push(ArgEvent::Bare(j));
                        proof {
                            assert(evs_view(out@) =~= acc.push(ev));
                            lemma_glue_push(acc, ev, scan(specs@, a, i + 1));
                        }
                        i += 1;
                    }
                },
                None => {
                    let mut m = owned("unknown flag: `");
                    m.append(t);
                    m.append("`");
                    return Err(m);
                },
            }
        } else {
            let p = args[i].clone();
            let ghost ev = Ev::Positional(p@);
            out.push(ArgEvent::Positional(p));
            proof {
                assert(evs_view(out@) =~= acc.push(ev));
                lemma_glue_push(acc, ev, scan(specs@, a, i + 1));
            }
            i += 1;
        }
    }
    proof {
        assert(evs_view(out@) + Seq::<Ev>::empty() =~= evs_view(out@));
    }
    Ok(out)
}

// ── field values ─────────────────────────────────────────────────────────────

/// The values given to field `j` among the first `n` events, in order.
pub open spec fn vals_upto(evs: Seq<Ev>, j: usize, n: int) -> Seq<Seq<char>>
    decreases n,
{
    if n <= 0 {
        Seq::empty()
    } else {
        let p = vals_upto(evs, j, n - 1);
        match evs[n - 1] {
            Ev::Value(k, v) => if k == j {
                p.push(v)
            } else {
                p
            },
            _ => p,
        }
    }
}

/// The state the first `n` events leave switch `j` in: off if its `--no-`
/// form was given, else on if its flag was, else untouched (`None`).
pub open spec fn switch_upto(evs: Seq<Ev>, j: usize, n: int) -> Option<bool>
    decreases n,
{
    if n <= 0 {
        None
    } else {
        let p = switch_upto(evs, j, n - 1);
        match evs[n - 1] {
            Ev::Switch(k, b) => if k != j {
                p
            } else if !b || p == Some(false) {
                Some(false)
            } else {
                Some(true)
            },
            _ => p,
        }
    }
}

/// The positional arguments among the first `n` events.
pub open spec fn pos_upto(evs: Seq<Ev>, n: int) -> Seq<Seq<char>>
    decreases n,
{
    if n <= 0 {
        Seq::empty()
    } else {
        let p = pos_upto(evs, n - 1);
        match evs[n - 1] {
            Ev::Positional(v) => p.push(v),
            _ => p,
        }
    }
}

/// The flag an event gives, by the name its field is known by.
pub open spec fn ev_key(specs: Seq<ArgSpec>, e: Ev) -> Option<Seq<char>> {
    match e {
        Ev::Value(j, _) => Some(flag_text(specs[j as int])),
        Ev::Bare(j) => Some(flag_text(specs[j as int])),
        Ev::Switch(j, b) => Some(
            if b {
                flag_text(specs[j as int])
            } else {
                no_key(specs[j as int])
            },
        ),
        Ev::Positional(_) => None,
    }
}

/// Flag `k` (a short flag counting as its field's long one) is among the
/// first `n` events.
pub open spec fn present_upto(specs: Seq<ArgSpec>, evs: Seq<Ev>, k: Seq<char>, n: int) -> bool
    decreases n,
{
    n > 0 && (ev_key(specs, evs[n - 1]) == Some(k) || present_upto(specs, evs, k, n - 1))
}

/// Flag `k` was given.
pub open spec fn given(specs: Seq<ArgSpec>, evs: Seq<Ev>, k: Seq<char>) -> bool {
    present_upto(specs, evs, k, evs.len() as int)
}

/// The number of positional fields before field `j`.
pub open spec fn rank(specs: Seq<ArgSpec>, j: int) -> int
    decreases j,
{
    if j <= 0 {
        0
    } else {
        rank(specs, j - 1) + if specs[j - 1].positional && !specs[j - 1].skip {
            1int
        } else {
            0int
        }
    }
}

/// One of `names[..m]` was given, as `--name` or `-name`.
pub open spec fn unless_met(specs: Seq<ArgSpec>, evs: Seq<Ev>, names: Seq<Seq<char>>, m: int) -> bool
    decreases m,
{
    m > 0 && (given(specs, evs, dashes(names[m - 1])) || given(specs, evs, seq!['-'] + names[m - 1])
        || unless_met(specs, evs, names, m - 1))
}

/// A switch's state when it is not given: on for a default other than
/// the literal `false`, off without one.
pub open spec fn default_on(a: ArgSpec) -> bool {
    match a.default {
        Some(DefaultVal::Lit(s)) => s@ != seq!['f', 'a', 'l', 's', 'e'],
        Some(_) => true,
        None => false,
    }
}

pub open spec fn msg_missing(field: Seq<char>) -> Seq<char> {
    "missing required argument <"@ + field + ">"@
}

/// What the events give field `j`:
/// - a positional field takes the positional argument of its rank; when
///   there is none it is not given if it is optional or one of its
///   `required_unless` flags was given, and is missing otherwise;
/// - a switch is in the state its flags left it in, or its default state;
/// - a repeated field takes all its values, another field its last one.
pub open spec fn value_of(specs: Seq<ArgSpec>, evs: Seq<Ev>, j: int) -> Result<ValueV, Seq<char>> {
    let a = specs[j];
    if a.skip {
        Ok(ValueV::NotGiven)
    } else if a.positional {
        let ps = pos_upto(evs, evs.len() as int);
        let r = rank(specs, j);
        if r < ps.len() {
            Ok(ValueV::Given(seq![ps[r]]))
        } else if a.optional || unless_met(
            specs,
            evs,
            strs(a.required_unless@),
            a.required_unless@.len() as int,
        ) {
            Ok(ValueV::NotGiven)
        } else {
            Err(msg_missing(a.field@))
        }
    } else if no_value(a) {
        Ok(
            ValueV::Switch(
                match switch_upto(evs, j as usize, evs.len() as int) {
                    Some(b) => b,
                    None => default_on(a),
                },
            ),
        )
    } else {
        let vs = vals_upto(evs, j as usize, evs.len() as int);
        if a.repeated {
            Ok(ValueV::Given(vs))
        } else if vs.len() > 0 {
            Ok(ValueV::Given(seq![vs.last()]))
        } else {
            Ok(ValueV::NotGiven)
        }
    }
}

/// The values of the fields from `j` on, or the first field's error.
pub open spec fn values_from(specs: Seq<ArgSpec>, evs: Seq<Ev>, j: int) -> Result<Seq<ValueV>, Seq<char>>
    decreases specs.len() - j,
{
    if j < 0 || j >= specs.len() {
        Ok(Seq::empty())
    } else {
        match value_of(specs, evs, j) {
            Err(m) => Err(m),
            Ok(v) => glue(seq![v], values_from(specs, evs, j + 1)),
        }
    }
}

fn collect_vals(evs: &Vec<ArgEvent>, j: usize) -> (r: Vec<String>)
    ensures
        strs(r@) == vals_upto(evs_view(evs@), j, evs@.len() as int),
{
    let ghost e = evs_view(evs@);
    let mut out: Vec<String> = Vec::new();
    let mut i: usize = 0;
    while i < evs.len()
        invariant
            e == evs_view(evs@),
            0 <= i <= evs@.len(),
            strs(out@) == vals_upto(e, j, i as int),
        decreases evs@.len() - i,
    {
        match &evs[i] {
            ArgEvent::Value(k, v) => {
                if *k == j {
                    let ghost prev = out@;
                    out.push(v.clone());
                    proof {
                        assert(strs(out@) =~= strs(prev).push(v@));
                    }
                }
            },
            _ => {},
        }
        i += 1;
    }
    out
}

fn switch_state(evs: &Vec<ArgEvent>, j: usize) -> (r: Option<bool>)
    ensures
        r == switch_upto(evs_view(evs@), j, evs@.len() as int),
{
    let ghost e = evs_view(evs@);
    let mut st: Option<bool> = None;
    let mut i: usize = 0;
    while i < evs.len()
        invariant
            e == evs_view(evs@),
            0 <= i <= evs@.len(),
            st == switch_upto(e, j, i as int),
        decreases evs@.len() - i,
    {
        match &evs[i] {
            ArgEvent::Switch(k, b) => {
                if *k == j {
                    if !*b || st == Some(false) {
                        st = Some(false);
                    } else {
                        st = Some(true);
                    }
                }
            },
            _ => {},
        }
        i += 1;
    }
    st
}

fn positionals(evs: &Vec<ArgEvent>) -> (r: Vec<String>)
    ensures
        strs(r@) == pos_upto(evs_view(evs@), evs@.len() as int),
{
    let ghost e = evs_view(evs@);
    let mut out: Vec<String> = Vec::new();
    let mut i: usize = 0;
    while i < evs.len()
        invariant
            e == evs_view(evs@),
            0 <= i <= evs@.len(),
            strs(out@) == pos_upto(e, i as int),
        decreases evs@.len() - i,
    {
        match &evs[i] {
            ArgEvent::Positional(v) => {
                let ghost prev = out@;
                out.push(v.clone());
                proof {
                    assert(strs(out@) =~= strs(prev).push(v@));
                }
            },
            _ => {},
        }
        i += 1;
    }
    out
}

/// Whether flag `k` was given (see [`given`]).
fn given_exec(specs: &Vec<ArgSpec>, evs: &Vec<ArgEvent>, k: &str) -> (r: bool)
    requires
        evs_ok(specs@, evs_view(evs@)),
    ensures
        r == given(specs@, evs_view(evs@), k@),
{
    let ghost e = evs_view(evs@);
    let mut found = false;
    let mut i: usize = 0;
    while i < evs.len()
        invariant
            e == evs_view(evs@),
            evs_ok(specs@, e),
            0 <= i <= evs@.len(),
            found == present_upto(specs@, e, k@, i as int),
        decreases evs@.len() - i,
    {
        proof {
            assert(ev_ok(specs@, e[i as int]));
        }
        let hit = match &evs[i] {
            ArgEvent::Value(j, _) => {
                let t = flag_text_exec(&specs[*j]);
                str_eq(t.as_str(), k)
            },
            ArgEvent::Bare(j) => {
                let t = flag_text_exec(&specs[*j]);
                str_eq(t.as_str(), k)
            },
            ArgEvent::Switch(j, b) => {
                if *b {
                    let t = flag_text_exec(&specs[*j]);
                    str_eq(t.as_str(), k)
                } else {
                    let t = no_key_exec(&specs[*j]);
                    str_eq(t.as_str(), k)
                }
            },
            ArgEvent::Positional(_) => false,
        };
        if hit {
            found = true;
        }
        i += 1;
    }
    found
}

fn unless_met_exec(specs: &Vec<ArgSpec>, evs: &Vec<ArgEvent>, names: &Vec<String>) -> (r: bool)
    requires
        evs_ok(specs@, evs_view(evs@)),
    ensures
        r == unless_met(specs@, evs_view(evs@), strs(names@), names@.len() as int),
{
    let ghost e = evs_view(evs@);
    let mut met = false;
    let mut m: usize = 0;
    while m < names.len()
        invariant
            e == evs_view(evs@),
            evs_ok(specs@, e),
            0 <= m <= names@.len(),
            met == unless_met(specs@, e, strs(names@), m as int),
        decreases names@.len() - m,
    {
        let long = dashes_exec(names[m].as_str());
        let mut short = String::new();
        push_char(&mut short, '-');
        short.append(names[m].as_str());
        proof {
            assert(strs(names@)[m as int] == names@[m as int]@);
            assert(short@ =~= seq!['-'] + names@[m as int]@);
        }
        if given_exec(specs, evs, long.as_str()) || given_exec(specs, evs, short.as_str()) {
            met = true;
        }
        m += 1;
    }
    met
}

fn default_on_exec(a: &ArgSpec) -> (r: bool)
    ensures
        r == default_on(*a),
{
    match &a.default {
        Some(DefaultVal::Lit(s)) => {
            let mut f = String::new();
            push_char(&mut f, 'f');
            push_char(&mut f, 'a');
            push_char(&mut f, 'l');
            push_char(&mut f, 's');
            push_char(&mut f, 'e');
            proof {
                assert(f@ =~= seq!['f', 'a', 'l', 's', 'e']);
            }
            !str_eq(s.as_str(), f.as_str())
        },
        Some(_) => true,
        None => false,
    }
}

/// What the events give each field (see [`values_from`]).
pub fn field_values(specs: &Vec<ArgSpec>, evs: &Vec<ArgEvent>) -> (r: Result<Vec<ArgValue>, String>)
    requires
        evs_ok(specs@, evs_view(evs@)),
    ensures
        match r {
            Ok(vs) => values_from(specs@, evs_view(evs@), 0) == Ok::<Seq<ValueV>, Seq<char>>(
                vs@.map_values(|v: ArgValue| value_view(v)),
            ),
            Err(m) => values_from(specs@, evs_view(evs@), 0) == Err::<Seq<ValueV>, Seq<char>>(m@),
        },
{
    let ghost e = evs_view(evs@);
    let ps = positionals(evs);
    let mut out: Vec<ArgValue> = Vec::new();
    let mut rk: usize = 0;
    let mut j: usize = 0;
    proof {
        if let Ok(s) = values_from(specs@, e, 0) {
            assert(Seq::<ValueV>::empty() + s =~= s);
        }
        assert(out@.map_values(|v: ArgValue| value_view(v)) =~= Seq::<ValueV>::empty());
    }
    while j < specs.len()
        invariant
            e == evs_view(evs@),
            evs_ok(specs@, e),
            strs(ps@) == pos_upto(e, e.len() as int),
            0 <= j <= specs@.len(),
            rk == rank(specs@, j as int),
            rk <= j,
            values_from(specs@, e, 0) == glue(
                out@.map_values(|v: ArgValue| value_view(v)),
                values_from(specs@, e, j as int),
            ),
        decreases specs@.len() - j,
    {
        let a = &specs[j];
        let ghost acc = out@.map_values(|v: ArgValue| value_view(v));
        let v: ArgValue = if a.skip {
            ArgValue::NotGiven
        } else if a.positional {
            if rk < ps.len() {
                let mut one: Vec<String> = Vec::new();
                one.push(ps[rk].clone());
                proof {
                    assert(strs(one@) =~= seq![strs(ps@)[rk as int]]);
                }
                ArgValue::Given(one)
            } else if a.optional || unless_met_exec(specs, evs, &a.required_unless) {
                ArgValue::NotGiven
            } else {
                let mut m = owned("missing required argument <");
                m.append(a.field.as_str());
                m.append(">");
                return Err(m);
            }
        } else if a.switch || a.negatable {
            match switch_state(evs, j) {
                Some(b) => ArgValue::Switch(b),
                None => ArgValue::Switch(default_on_exec(a)),
            }
        } else {
            let vs = collect_vals(evs, j);
            if a.repeated {
                ArgValue::Given(vs)
            } else if vs.len() > 0 {
                let mut one: Vec<String> = Vec::new();
                one.push(vs[vs.len() - 1].clone());
                proof {
                    assert(strs(one@) =~= seq![strs(vs@).last()]);
                }
                ArgValue::Given(one)
            } else {
                ArgValue::NotGiven
            }
        };
        proof {
            assert(value_of(specs@, e, j as int) == Ok::<ValueV, Seq<char>>(value_view(v)));
        }
        let ghost vv = value_view(v);
        out.push(v);
        proof {
            assert(out@.map_values(|v: ArgValue| value_view(v)) =~= acc.push(vv));
            lemma_glue_push(acc, vv, values_from(specs@, e, j + 1));
        }
        if specs[j].positional && !specs[j].skip {
            rk += 1;
        }
        j += 1;
    }
    proof {
        let f = out@.map_values(|v: ArgValue| value_view(v));
        assert(f + Seq::<ValueV>::empty() =~= f);
    }
    Ok(out)
}

// ── constraints between options ─────────────────────────────────────────────

/// What `{:?}` writes for a string (std's `Debug` for `str`).
pub uninterp spec fn str_debug(s: Seq<char>) -> Seq<char>;

/// Printable ASCII other than `"` and `\\`.
pub open spec fn plain_ascii(s: Seq<char>) -> bool {
    forall|k: int| 0 <= k < s.len() ==> ' ' <= #[trigger] s[k] <= '~' && s[k] != '"' && s[k] != '\\'
}

/// Formats `s` with `{:?}`. std's `Debug` for `str` quotes the text and
/// escapes `\\`, `"` and the characters that are not printable; printable
/// ASCII other than those two is written as it is. Of other text only the
/// name `str_debug` is stated.
#[verifier::external_body]
pub(crate) fn debug_str(s: &str) -> (r: String)
    ensures
        r@ == str_debug(s@),
        plain_ascii(s@) ==> r@ == seq!['"'] + s@ + seq!['"'],
{
    format!("{:?}", s)
}

/// `name` with its `_`s as `-`s.
pub open spec fn kebab(s: Seq<char>) -> Seq<char> {
    s.map_values(|c: char| if c == '_' { '-' } else { c })
}

/// The flag another option is referred to by: `--` and its kebab name.
pub open spec fn other_key(name: Seq<char>) -> Seq<char> {
    dashes(kebab(name))
}

/// Field `j` was given: its positional argument is there, or its flag.
pub open spec fn field_given(specs: Seq<ArgSpec>, evs: Seq<Ev>, j: int) -> bool {
    if specs[j].positional {
        !specs[j].skip && rank(specs, j) < pos_upto(evs, evs.len() as int).len()
    } else {
        given(specs, evs, flag_text(specs[j]))
    }
}

/// The first of `names[i..]` whose flag was given.
pub open spec fn first_given(specs: Seq<ArgSpec>, evs: Seq<Ev>, names: Seq<Seq<char>>, i: int) -> Option<Seq<char>>
    decreases names.len() - i,
{
    if i < 0 || i >= names.len() {
        None
    } else if given(specs, evs, other_key(names[i])) {
        Some(other_key(names[i]))
    } else {
        first_given(specs, evs, names, i + 1)
    }
}

/// The first of `names[i..]` whose flag was not given.
pub open spec fn first_missing(specs: Seq<ArgSpec>, evs: Seq<Ev>, names: Seq<Seq<char>>, i: int) -> Option<Seq<char>>
    decreases names.len() - i,
{
    if i < 0 || i >= names.len() {
        None
    } else if !given(specs, evs, other_key(names[i])) {
        Some(other_key(names[i]))
    } else {
        first_missing(specs, evs, names, i + 1)
    }
}

/// The flags of `names`, as `{:?}` writes a list of them.
pub open spec fn debug_list(names: Seq<Seq<char>>) -> Seq<char> {
    seq!['['] + crate::strutil::joined(
        names.map_values(|n: Seq<char>| str_debug(other_key(n))),
        seq![',', ' '],
    ) + seq![']']
}

pub open spec fn msg_conflict(f: Seq<char>, o: Seq<char>) -> Seq<char> {
    "conflicting flags: "@ + f + " and "@ + o + "\n│  "@ + f + " cannot be used together with "@ + o
}

pub open spec fn msg_requires(f: Seq<char>, o: Seq<char>) -> Seq<char> {
    "missing required flag: "@ + o + "\n│  "@ + f + " requires "@ + o + " to be specified"@
}

pub open spec fn msg_requires_any(f: Seq<char>, names: Seq<Seq<char>>) -> Seq<char> {
    "missing required flag for "@ + f + ": at least one of "@ + debug_list(names)
        + " must be specified"@
}

pub open spec fn msg_required_unless(f: Seq<char>, o: Seq<char>) -> Seq<char> {
    "missing required flag: "@ + f + "\n│  "@ + f + " is required unless "@ + o + " is specified"@
}

pub open spec fn msg_required_unless_any(f: Seq<char>, names: Seq<Seq<char>>) -> Seq<char> {
    "missing required flag: "@ + f + "\n│  required unless one of "@ + debug_list(names)
        + " is given"@
}

/// The first constraint of field `j` that the command line breaks, in the
/// order: options it conflicts with, options it requires, one of the
/// options it requires one of (when it is given); options it is required
/// unless, one of the options it is required unless one of (when it is
/// not).
pub open spec fn field_check(specs: Seq<ArgSpec>, evs: Seq<Ev>, j: int) -> Option<Seq<char>> {
    let a = specs[j];
    let f = flag_text(a);
    let fp = field_given(specs, evs, j);
    let conf = first_given(specs, evs, strs(a.conflicts_with@), 0);
    let req = first_missing(specs, evs, strs(a.requires@), 0);
    let rany = strs(a.requires_any@);
    let ru = first_missing(specs, evs, strs(a.required_unless@), 0);
    let ruany = strs(a.required_unless_any@);
    if fp && conf is Some {
        Some(msg_conflict(f, conf.unwrap()))
    } else if fp && req is Some {
        Some(msg_requires(f, req.unwrap()))
    } else if fp && rany.len() > 0 && first_given(specs, evs, rany, 0) is None {
        Some(msg_requires_any(f, rany))
    } else if !fp && ru is Some {
        Some(msg_required_unless(f, ru.unwrap()))
    } else if !fp && ruany.len() > 0 && first_given(specs, evs, ruany, 0) is None {
        Some(msg_required_unless_any(f, ruany))
    } else {
        None
    }
}

/// The first broken constraint of the fields from `j` on.
pub open spec fn checks_from(specs: Seq<ArgSpec>, evs: Seq<Ev>, j: int) -> Option<Seq<char>>
    decreases specs.len() - j,
{
    if j < 0 || j >= specs.len() {
        None
    } else if field_check(specs, evs, j) is Some {
        field_check(specs, evs, j)
    } else {
        checks_from(specs, evs, j + 1)
    }
}

/// A field before `j` is in group `g`.
pub open spec fn group_seen(specs: Seq<ArgSpec>, g: Seq<char>, j: int) -> bool
    decreases j,
{
    j > 0 && ((specs[j - 1].group matches Some(h) && h@ == g) || group_seen(specs, g, j - 1))
}

/// The names of the given fields of group `g` among the first `n`.
pub open spec fn active_upto(specs: Seq<ArgSpec>, evs: Seq<Ev>, g: Seq<char>, n: int) -> Seq<Seq<char>>
    decreases n,
{
    if n <= 0 {
        Seq::empty()
    } else {
        let p = active_upto(specs, evs, g, n - 1);
        if (specs[n - 1].group matches Some(h) && h@ == g) && field_given(specs, evs, n - 1) {
            p.push(specs[n - 1].field@)
        } else {
            p
        }
    }
}

pub open spec fn msg_group(g: Seq<char>, names: Seq<Seq<char>>) -> Seq<char> {
    "conflicting flags in group `"@ + g + "`: "@ + crate::strutil::joined(names, ", "@)
        + " cannot be used together"@
}

/// The first group, in the order of the fields, with more than one of its
/// options given.
pub open spec fn groups_from(specs: Seq<ArgSpec>, evs: Seq<Ev>, j: int) -> Option<Seq<char>>
    decreases specs.len() - j,
{
    if j < 0 || j >= specs.len() {
        None
    } else {
        match specs[j].group {
            Some(g) => if !group_seen(specs, g@, j) && active_upto(
                specs,
                evs,
                g@,
                specs.len() as int,
            ).len() > 1 {
                Some(msg_group(g@, active_upto(specs, evs, g@, specs.len() as int)))
            } else {
                groups_from(specs, evs, j + 1)
            },
            None => groups_from(specs, evs, j + 1),
        }
    }
}

/// The result of parsing `args` by the table `specs`: the tokens' error,
/// else the first field's error, else the first broken constraint, else
/// the first group with two options given, else every field's value.
pub open spec fn parsed_args(specs: Seq<ArgSpec>, args: Seq<Seq<char>>) -> Result<Seq<ValueV>, Seq<char>> {
    match scan(specs, args, 0) {
        Err(m) => Err(m),
        Ok(evs) => match values_from(specs, evs, 0) {
            Err(m) => Err(m),
            Ok(vs) => match checks_from(specs, evs, 0) {
                Some(m) => Err(m),
                None => match groups_from(specs, evs, 0) {
                    Some(m) => Err(m),
                    None => Ok(vs),
                },
            },
        },
    }
}

fn field_given_exec(specs: &Vec<ArgSpec>, evs: &Vec<ArgEvent>, npos: usize, rk: usize, j: usize) -> (r: bool)
    requires
        evs_ok(specs@, evs_view(evs@)),
        j < specs@.len(),
        npos == pos_upto(evs_view(evs@), evs@.len() as int).len(),
        rk == rank(specs@, j as int),
    ensures
        r == field_given(specs@, evs_view(evs@), j as int),
{
    if specs[j].positional {
        !specs[j].skip && rk < npos
    } else {
        let f = flag_text_exec(&specs[j]);
        given_exec(specs, evs, f.as_str())
    }
}

fn kebab_exec(s: &str) -> (r: String)
    ensures
        r@ == kebab(s@),
{
    let v = chars_of(s);
    let mut out = String::new();
    let mut i: usize = 0;
    while i < v.len()
        invariant
            v@ == s@,
            0 <= i <= v@.len(),
            out@ == kebab(s@).take(i as int),
        decreases v@.len() - i,
    {
        let c = if v[i] == '_' { '-' } else { v[i] };
        push_char(&mut out, c);
        proof {
            assert(out@ =~= kebab(s@).take(i + 1));
        }
        i += 1;
    }
    proof {
        assert(kebab(s@).take(v@.len() as int) =~= kebab(s@));
    }
    out
}

fn other_key_exec(name: &str) -> (r: String)
    ensures
        r@ == other_key(name@),
{
    let k = kebab_exec(name);
    dashes_exec(k.as_str())
}

/// `(found, missing)`: the first of `names` given and the first not given.
fn first_given_exec(specs: &Vec<ArgSpec>, evs: &Vec<ArgEvent>, names: &Vec<String>, want: bool) -> (r: Option<String>)
    requires
        evs_ok(specs@, evs_view(evs@)),
    ensures
        want ==> match r {
            Some(x) => first_given(specs@, evs_view(evs@), strs(names@), 0) == Some(x@),
            None => first_given(specs@, evs_view(evs@), strs(names@), 0) is None,
        },
        !want ==> match r {
            Some(x) => first_missing(specs@, evs_view(evs@), strs(names@), 0) == Some(x@),
            None => first_missing(specs@, evs_view(evs@), strs(names@), 0) is None,
        },
{
    let ghost e = evs_view(evs@);
    let ghost ns = strs(names@);
    let mut i: usize = 0;
    while i < names.len()
        invariant
            e == evs_view(evs@),
            ns == strs(names@),
            evs_ok(specs@, e),
            0 <= i <= names@.len(),
            want ==> first_given(specs@, e, ns, 0) == first_given(specs@, e, ns, i as int),
            !want ==> first_missing(specs@, e, ns, 0) == first_missing(specs@, e, ns, i as int),
        decreases names@.len() - i,
    {
        let k = other_key_exec(names[i].as_str());
        proof {
            assert(ns[i as int] == names@[i as int]@);
        }
        let g = given_exec(specs, evs, k.as_str());
        if g == want {
            return Some(k);
        }
        i += 1;
    }
    None
}

fn debug_list_exec(names: &Vec<String>) -> (r: String)
    ensures
        r@ == debug_list(strs(names@)),
{
    let mut parts: Vec<String> = Vec::new();
    let ghost ns = strs(names@);
    let mut i: usize = 0;
    while i < names.len()
        invariant
            ns == strs(names@),
            0 <= i <= names@.len(),
            strs(parts@) == ns.take(i as int).map_values(|n: Seq<char>| str_debug(other_key(n))),
        decreases names@.len() - i,
    {
        let k = other_key_exec(names[i].as_str());
        let d = debug_str(k.as_str());
        let ghost prev = parts@;
        parts.push(d);
        proof {
            assert(ns[i as int] == names@[i as int]@);
            assert(strs(parts@) =~= strs(prev).push(d@));
            assert(ns.take(i + 1).map_values(|n: Seq<char>| str_debug(other_key(n))) =~= ns.take(
                i as int,
            ).map_values(|n: Seq<char>| str_debug(other_key(n))).push(str_debug(other_key(ns[i as int]))));
        }
        i += 1;
    }
    proof {
        assert(ns.take(names@.len() as int) =~= ns);
    }
    let mut sep = String::new();
    push_char(&mut sep, ',');
    push_char(&mut sep, ' ');
    let j = crate::strutil::join(&parts, sep.as_str());
    let mut out = String::new();
    push_char(&mut out, '[');
    out.append(j.as_str());
    push_char(&mut out, ']');
    proof {
        assert(sep@ =~= seq![',', ' ']);
        assert(out@ =~= debug_list(ns));
    }
    out
}

fn field_check_exec(specs: &Vec<ArgSpec>, evs: &Vec<ArgEvent>, npos: usize, rk: usize, j: usize) -> (r: Option<String>)
    requires
        evs_ok(specs@, evs_view(evs@)),
        j < specs@.len(),
        npos == pos_upto(evs_view(evs@), evs@.len() as int).len(),
        rk == rank(specs@, j as int),
    ensures
        match r {
            Some(m) => field_check(specs@, evs_view(evs@), j as int) == Some(m@),
            None => field_check(specs@, evs_view(evs@), j as int) is None,
        },
{
    let a = &specs[j];
    let f = flag_text_exec(a);
    let fp = field_given_exec(specs, evs, npos, rk, j);
    if fp {
        match first_given_exec(specs, evs, &a.conflicts_with, true) {
            Some(o) => {
                let mut m = owned("conflicting flags: ");
                m.append(f.as_str());
                m.append(" and ");
                m.append(o.as_str());
                m.append("\n│  ");
                m.append(f.as_str());
                m.append(" cannot be used together with ");
                m.append(o.as_str());
                return Some(m);
            },
            None => {},
        }
        match first_given_exec(specs, evs, &a.requires, false) {
            Some(o) => {
                let mut m = owned("missing required flag: ");
                m.append(o.as_str());
                m.append("\n│  ");
                m.append(f.as_str());
                m.append(" requires ");
                m.append(o.as_str());
                m.append(" to be specified");
                return Some(m);
            },
            None => {},
        }
        if a.requires_any.len() > 0 && first_given_exec(specs, evs, &a.requires_any, true).is_none() {
            let mut m = owned("missing required flag for ");
            m.append(f.as_str());
            m.append(": at least one of ");
            let d = debug_list_exec(&a.requires_any);
            m.append(d.as_str());
            m.append(" must be specified");
            return Some(m);
        }
    } else {
        match first_given_exec(specs, evs, &a.required_unless, false) {
            Some(o) => {
                let mut m = owned("missing required flag: ");
                m.append(f.as_str());
                m.append("\n│  ");
                m.append(f.as_str());
                m.append(" is required unless ");
                m.append(o.as_str());
                m.append(" is specified");
                return Some(m);
            },
            None => {},
        }
        if a.required_unless_any.len() > 0 && first_given_exec(
            specs,
            evs,
            &a.required_unless_any,
            true,
        ).is_none() {
            let mut m = owned("missing required flag: ");
            m.append(f.as_str());
            m.append("\n│  required unless one of ");
            let d = debug_list_exec(&a.required_unless_any);
            m.append(d.as_str());
            m.append(" is given");
            return Some(m);
        }
    }
    None
}

fn group_seen_exec(specs: &Vec<ArgSpec>, g: &str, j: usize) -> (r: bool)
    requires
        j <= specs@.len(),
    ensures
        r == group_seen(specs@, g@, j as int),
{
    let mut seen = false;
    let mut k: usize = 0;
    while k < j
        invariant
            0 <= k <= j <= specs@.len(),
            seen == group_seen(specs@, g@, k as int),
        decreases j - k,
    {
        match &specs[k].group {
            Some(h) => {
                if str_eq(h.as_str(), g) {
                    seen = true;
                }
            },
            None => {},
        }
        k += 1;
    }
    seen
}

fn active_exec(specs: &Vec<ArgSpec>, evs: &Vec<ArgEvent>, npos: usize, g: &str) -> (r: Vec<String>)
    requires
        evs_ok(specs@, evs_view(evs@)),
        npos == pos_upto(evs_view(evs@), evs@.len() as int).len(),
    ensures
        strs(r@) == active_upto(specs@, evs_view(evs@), g@, specs@.len() as int),
{
    let ghost e = evs_view(evs@);
    let mut out: Vec<String> = Vec::new();
    let mut rk: usize = 0;
    let mut k: usize = 0;
    while k < specs.len()
        invariant
            e == evs_view(evs@),
            evs_ok(specs@, e),
            npos == pos_upto(e, evs@.len() as int).len(),
            0 <= k <= specs@.len(),
            rk == rank(specs@, k as int),
            rk <= k,
            strs(out@) == active_upto(specs@, e, g@, k as int),
        decreases specs@.len() - k,
    {
        let in_group = match &specs[k].group {
            Some(h) => str_eq(h.as_str(), g),
            None => false,
        };
        if in_group && field_given_exec(specs, evs, npos, rk, k) {
            let ghost prev = out@;
            out.push(specs[k].field.clone());
            proof {
                assert(strs(out@) =~= strs(prev).push(specs@[k as int].field@));
            }
        }
        if specs[k].positional && !specs[k].skip {
            rk += 1;
        }
        k += 1;
    }
    out
}

fn groups_exec(specs: &Vec<ArgSpec>, evs: &Vec<ArgEvent>, npos: usize) -> (r: Option<String>)
    requires
        evs_ok(specs@, evs_view(evs@)),
        npos == pos_upto(evs_view(evs@), evs@.len() as int).len(),
    ensures
        match r {
            Some(m) => groups_from(specs@, evs_view(evs@), 0) == Some(m@),
            None => groups_from(specs@, evs_view(evs@), 0) is None,
        },
{
    let ghost e = evs_view(evs@);
    let mut j: usize = 0;
    while j < specs.len()
        invariant
            e == evs_view(evs@),
            evs_ok(specs@, e),
            npos == pos_upto(e, evs@.len() as int).len(),
            0 <= j <= specs@.len(),
            groups_from(specs@, e, 0) == groups_from(specs@, e, j as int),
        decreases specs@.len() - j,
    {
        match &specs[j].group {
            Some(g) => {
                if !group_seen_exec(specs, g.as_str(), j) {
                    let act = active_exec(specs, evs, npos, g.as_str());
                    if act.len() > 1 {
                        let mut m = owned("conflicting flags in group `");
                        m.append(g.as_str());
                        m.append("`: ");
                        let names = crate::strutil::join(&act, ", ");
                        m.append(names.as_str());
                        m.append(" cannot be used together");
                        return Some(m);
                    }
                }
            },
            None => {},
        }
        j += 1;
    }
    None
}

fn checks_exec(specs: &Vec<ArgSpec>, evs: &Vec<ArgEvent>, npos: usize) -> (r: Option<String>)
    requires
        evs_ok(specs@, evs_view(evs@)),
        npos == pos_upto(evs_view(evs@), evs@.len() as int).len(),
    ensures
        match r {
            Some(m) => checks_from(specs@, evs_view(evs@), 0) == Some(m@),
            None => checks_from(specs@, evs_view(evs@), 0) is None,
        },
{
    let ghost e = evs_view(evs@);
    let mut rk: usize = 0;
    let mut j: usize = 0;
    while j < specs.len()
        invariant
            e == evs_view(evs@),
            evs_ok(specs@, e),
            npos == pos_upto(e, evs@.len() as int).len(),
            0 <= j <= specs@.len(),
            rk == rank(specs@, j as int),
            rk <= j,
            checks_from(specs@, e, 0) == checks_from(specs@, e, j as int),
        decreases specs@.len() - j,
    {
        match field_check_exec(specs, evs, npos, rk, j) {
            Some(m) => {
                return Some(m);
            },
            None => {},
        }
        if specs[j].positional && !specs[j].skip {
            rk += 1;
        }
        j += 1;
    }
    None
}

/// Parse `args` by the table `specs` (see [`parsed_args`]): one value per
/// field, in the table's order, or the error message.
pub fn parse_arg_table(specs: &Vec<ArgSpec>, args: &Vec<String>) -> (r: Result<Vec<ArgValue>, String>)
    ensures
        match r {
            Ok(vs) => parsed_args(specs@, strs(args@)) == Ok::<Seq<ValueV>, Seq<char>>(
                vs@.map_values(|v: ArgValue| value_view(v)),
            ),
            Err(m) => parsed_args(specs@, strs(args@)) == Err::<Seq<ValueV>, Seq<char>>(m@),
        },
{
    let evs = match scan_args(specs, args) {
        Ok(evs) => evs,
        Err(m) => return Err(m),
    };
    let vals = match field_values(specs, &evs) {
        Ok(v) => v,
        Err(m) => return Err(m),
    };
    let npos = positionals(&evs).len();
    match checks_exec(specs, &evs, npos) {
        Some(m) => return Err(m),
        None => {},
    }
    match groups_exec(specs, &evs, npos) {
        Some(m) => return Err(m),
        None => {},
    }
    Ok(vals)
}

// ── laws ─────────────────────────────────────────────────────────────────────

/// Two tokens the scanner reads alike: both flags without `=`, naming
/// the same field the same way.
pub open spec fn same_token(specs: Seq<ArgSpec>, t1: Seq<char>, t2: Seq<char>) -> bool {
    &&& dashed(t1)
    &&& dashed(t2)
    &&& !(t1.len() >= 2 && t1[0] == '-' && t1[1] == '-' && first_char_from(t1, '=', 0) >= 0)
    &&& !(t2.len() >= 2 && t2[0] == '-' && t2[1] == '-' && first_char_from(t2, '=', 0) >= 0)
    &&& key_field(specs, t1, 0) is Some
    &&& key_field(specs, t1, 0) == key_field(specs, t2, 0)
}

proof fn lemma_scan_congruent(specs: Seq<ArgSpec>, a1: Seq<Seq<char>>, a2: Seq<Seq<char>>, k: int)
    requires
        a1.len() == a2.len(),
        forall|m: int| 0 <= m < a1.len() ==> a1[m] == a2[m] || same_token(specs, a1[m], a2[m]),
    ensures
        scan(specs, a1, k) == scan(specs, a2, k),
    decreases a1.len() + 1 - k,
{
    if 0 <= k < a1.len() {
        lemma_scan_congruent(specs, a1, a2, k + 1);
        lemma_scan_congruent(specs, a1, a2, k + 2);
        if k + 1 < a1.len() && a1[k + 1] != a2[k + 1] {
            assert(same_token(specs, a1[k + 1], a2[k + 1]));
            assert(dashed(a1[k + 1]) && dashed(a2[k + 1]));
        }
        if a1[k] != a2[k] {
            assert(same_token(specs, a1[k], a2[k]));
            let t1 = a1[k];
            let t2 = a2[k];
            assert(!(t1.len() >= 2 && t1[0] == '-' && t1[1] == '-' && first_char_from(t1, '=', 0) >= 0));
            assert(!(t2.len() >= 2 && t2[0] == '-' && t2[1] == '-' && first_char_from(t2, '=', 0) >= 0));
            assert(dashed(t1) && dashed(t2));
            assert(key_field(specs, t1, 0) == key_field(specs, t2, 0));
        }
    }
}

proof fn lemma_key_field_skip(specs: Seq<ArgSpec>, t: Seq<char>, m: int, j: int)
    requires
        0 <= m <= j,
        forall|k: int| m <= k < j ==> !(is_flag_field(#[trigger] specs[k]) && (names_on(specs[k], t) || names_off(specs[k], t))),
    ensures
        key_field(specs, t, m) == key_field(specs, t, j),
    decreases j - m,
{
    if m < j {
        lemma_key_field_skip(specs, t, m + 1, j);
    }
}

/// A field's short flag and its long flag are read alike: writing
/// `--long` in place of `-s` anywhere on the command line gives the same
/// result, when no earlier field answers to either name and the long
/// name has no `=`.
pub proof fn law_short_flag_is_long_flag(specs: Seq<ArgSpec>, args: Seq<Seq<char>>, i: int, j: int)
    requires
        0 <= i < args.len(),
        0 <= j < specs.len(),
        specs.len() <= usize::MAX,
        is_flag_field(specs[j]),
        specs[j].short matches Some(c) && c != '-' && args[i] == seq!['-', c],
        specs[j].long matches Some(l) && !l@.contains('='),
        forall|k: int|
            0 <= k < j ==> !(is_flag_field(#[trigger] specs[k]) && (names_on(specs[k], args[i])
                || names_off(specs[k], args[i]) || names_on(specs[k], dashes(specs[j].long.unwrap()@))
                || names_off(specs[k], dashes(specs[j].long.unwrap()@)))),
    ensures
        parsed_args(specs, args) == parsed_args(specs, args.update(i, dashes(specs[j].long.unwrap()@))),
{
    let l = specs[j].long.unwrap()@;
    let t1 = args[i];
    let t2 = dashes(l);
    lemma_key_field_skip(specs, t1, 0, j);
    lemma_key_field_skip(specs, t2, 0, j);
    assert(names_on(specs[j], t1));
    assert(names_on(specs[j], t2));
    assert(key_field(specs, t1, 0) == Some((j as usize, true)));
    assert(key_field(specs, t2, 0) == Some((j as usize, true)));
    assert(first_char_from(t2, '=', 0) < 0) by {
        lemma_no_char(t2, '=', 0);
    }
    assert(!(t1.len() >= 2 && t1[0] == '-' && t1[1] == '-'));
    let a2 = args.update(i, t2);
    assert forall|m: int| 0 <= m < args.len() implies args[m] == a2[m] || same_token(
        specs,
        args[m],
        a2[m],
    ) by {
        if m == i {
            assert(same_token(specs, t1, t2));
        }
    }
    lemma_scan_congruent(specs, args, a2, 0);
}

proof fn lemma_no_char(t: Seq<char>, c: char, i: int)
    requires
        0 <= i,
        forall|k: int| i <= k < t.len() ==> t[k] != c,
    ensures
        first_char_from(t, c, i) == -1,
    decreases t.len() - i,
{
    if i < t.len() {
        lemma_no_char(t, c, i + 1);
    }
}

proof fn lemma_first_missing_none(specs: Seq<ArgSpec>, evs: Seq<Ev>, names: Seq<Seq<char>>, i: int)
    requires
        0 <= i,
    ensures
        first_missing(specs, evs, names, i) is None <==> forall|k: int|
            i <= k < names.len() ==> given(specs, evs, other_key(#[trigger] names[k])),
    decreases names.len() - i,
{
    if i < names.len() {
        lemma_first_missing_none(specs, evs, names, i + 1);
        if first_missing(specs, evs, names, i) is None {
            assert forall|k: int| i <= k < names.len() implies given(
                specs,
                evs,
                other_key(#[trigger] names[k]),
            ) by {
                if k > i {
                    assert(i + 1 <= k);
                }
            }
        }
    }
}

proof fn lemma_first_given_none(specs: Seq<ArgSpec>, evs: Seq<Ev>, names: Seq<Seq<char>>, i: int)
    requires
        0 <= i,
    ensures
        first_given(specs, evs, names, i) is None <==> forall|k: int|
            i <= k < names.len() ==> !given(specs, evs, other_key(#[trigger] names[k])),
    decreases names.len() - i,
{
    if i < names.len() {
        lemma_first_given_none(specs, evs, names, i + 1);
        if first_given(specs, evs, names, i) is None {
            assert forall|k: int| i <= k < names.len() implies !given(
                specs,
                evs,
                other_key(#[trigger] names[k]),
            ) by {
                if k > i {
                    assert(i + 1 <= k);
                }
            }
        }
    }
}

proof fn lemma_checks_from_none(specs: Seq<ArgSpec>, evs: Seq<Ev>, j: int)
    requires
        0 <= j,
    ensures
        checks_from(specs, evs, j) is None <==> forall|m: int|
            j <= m < specs.len() ==> #[trigger] field_check(specs, evs, m) is None,
    decreases specs.len() - j,
{
    if j < specs.len() {
        lemma_checks_from_none(specs, evs, j + 1);
        if checks_from(specs, evs, j) is None {
            assert forall|m: int| j <= m < specs.len() implies #[trigger] field_check(
                specs,
                evs,
                m,
            ) is None by {
                if m > j {
                    assert(j + 1 <= m);
                }
            }
        }
    }
}

/// Field `j` keeps every constraint the table puts on it: when it is given,
/// none of the options it conflicts with is given, each option it requires
/// is given, and one of the options it requires one of is given; when it is
/// not given, each option it is required unless is given, and one of the
/// options it is required unless one of is given.
pub open spec fn meets_constraints(specs: Seq<ArgSpec>, evs: Seq<Ev>, j: int) -> bool {
    let a = specs[j];
    let conf = strs(a.conflicts_with@);
    let req = strs(a.requires@);
    let rany = strs(a.requires_any@);
    let ru = strs(a.required_unless@);
    let ruany = strs(a.required_unless_any@);
    &&& field_given(specs, evs, j) ==> forall|k: int|
        0 <= k < conf.len() ==> !given(specs, evs, other_key(#[trigger] conf[k]))
    &&& field_given(specs, evs, j) ==> forall|k: int|
        0 <= k < req.len() ==> given(specs, evs, other_key(#[trigger] req[k]))
    &&& field_given(specs, evs, j) && rany.len() > 0 ==> exists|k: int|
        0 <= k < rany.len() && given(specs, evs, other_key(#[trigger] rany[k]))
    &&& !field_given(specs, evs, j) ==> forall|k: int|
        0 <= k < ru.len() ==> given(specs, evs, other_key(#[trigger] ru[k]))
    &&& !field_given(specs, evs, j) && ruany.len() > 0 ==> exists|k: int|
        0 <= k < ruany.len() && given(specs, evs, other_key(#[trigger] ruany[k]))
}

proof fn lemma_field_check_none(specs: Seq<ArgSpec>, evs: Seq<Ev>, j: int)
    requires
        0 <= j < specs.len(),
    ensures
        field_check(specs, evs, j) is None <==> meets_constraints(specs, evs, j),
{
    let a = specs[j];
    let conf = strs(a.conflicts_with@);
    let req = strs(a.requires@);
    let rany = strs(a.requires_any@);
    let ru = strs(a.required_unless@);
    let ruany = strs(a.required_unless_any@);
    lemma_first_given_none(specs, evs, conf, 0);
    lemma_first_missing_none(specs, evs, req, 0);
    lemma_first_given_none(specs, evs, rany, 0);
    lemma_first_missing_none(specs, evs, ru, 0);
    lemma_first_given_none(specs, evs, ruany, 0);
}

/// Whatever the table accepts keeps every constraint: a given option's
/// required options are all given and its conflicting ones all absent, and
/// so on for each field.
pub proof fn law_accepted_meets_constraints(specs: Seq<ArgSpec>, args: Seq<Seq<char>>, evs: Seq<Ev>, j: int)
    requires
        scan(specs, args, 0) == Ok::<Seq<Ev>, Seq<char>>(evs),
        parsed_args(specs, args) is Ok,
        0 <= j < specs.len(),
    ensures
        meets_constraints(specs, evs, j),
{
    lemma_checks_from_none(specs, evs, 0);
    assert(field_check(specs, evs, j) is None);
    lemma_field_check_none(specs, evs, j);
}

/// Field `j` belongs to group `g`.
pub open spec fn in_group(specs: Seq<ArgSpec>, j: int, g: Seq<char>) -> bool {
    specs[j].group matches Some(h) && h@ == g
}

proof fn lemma_group_seen_member(specs: Seq<ArgSpec>, g: Seq<char>, j: int) -> (m: int)
    requires
        j <= specs.len(),
        group_seen(specs, g, j),
    ensures
        0 <= m < j,
        in_group(specs, m, g),
    decreases j,
{
    if in_group(specs, j - 1, g) {
        j - 1
    } else {
        lemma_group_seen_member(specs, g, j - 1)
    }
}

proof fn lemma_group_first(specs: Seq<ArgSpec>, g: Seq<char>, j: int) -> (f: int)
    requires
        0 <= j < specs.len(),
        in_group(specs, j, g),
    ensures
        0 <= f <= j,
        in_group(specs, f, g),
        !group_seen(specs, g, f),
    decreases j,
{
    if group_seen(specs, g, j) {
        let m = lemma_group_seen_member(specs, g, j);
        lemma_group_first(specs, g, m)
    } else {
        j
    }
}

proof fn lemma_active_grows(specs: Seq<ArgSpec>, evs: Seq<Ev>, g: Seq<char>, j: int, n: int)
    requires
        0 <= j < n,
        in_group(specs, j, g),
        field_given(specs, evs, j),
    ensures
        active_upto(specs, evs, g, n).len() >= active_upto(specs, evs, g, j).len() + 1,
    decreases n,
{
    if n - 1 > j {
        lemma_active_grows(specs, evs, g, j, n - 1);
    }
}

proof fn lemma_groups_from_none(specs: Seq<ArgSpec>, evs: Seq<Ev>, j0: int, j: int)
    requires
        0 <= j0 <= j < specs.len(),
        groups_from(specs, evs, j0) is None,
        specs[j].group is Some,
        !group_seen(specs, specs[j].group.unwrap()@, j),
    ensures
        active_upto(specs, evs, specs[j].group.unwrap()@, specs.len() as int).len() <= 1,
    decreases j - j0,
{
    if j0 < j {
        lemma_groups_from_none(specs, evs, j0 + 1, j);
    }
}

/// Whatever the table accepts gives at most one option of each group: two
/// different fields of one group are never both given.
pub proof fn law_accepted_one_per_group(
    specs: Seq<ArgSpec>,
    args: Seq<Seq<char>>,
    evs: Seq<Ev>,
    g: Seq<char>,
    j1: int,
    j2: int,
)
    requires
        scan(specs, args, 0) == Ok::<Seq<Ev>, Seq<char>>(evs),
        parsed_args(specs, args) is Ok,
        0 <= j1 < j2 < specs.len(),
        in_group(specs, j1, g),
        in_group(specs, j2, g),
    ensures
        !(field_given(specs, evs, j1) && field_given(specs, evs, j2)),
{
    if field_given(specs, evs, j1) && field_given(specs, evs, j2) {
        let f = lemma_group_first(specs, g, j1);
        assert(groups_from(specs, evs, 0) is None);
        lemma_groups_from_none(specs, evs, 0, f);
        lemma_active_grows(specs, evs, g, j2, specs.len() as int);
        lemma_active_grows(specs, evs, g, j1, j2);
    }
}

proof fn lemma_active_one(specs: Seq<ArgSpec>, evs: Seq<Ev>, g: Seq<char>, n: int) -> (j: int)
    requires
        active_upto(specs, evs, g, n).len() >= 1,
    ensures
        0 <= j < n,
        in_group(specs, j, g),
        field_given(specs, evs, j),
    decreases n,
{
    if in_group(specs, n - 1, g) && field_given(specs, evs, n - 1) {
        n - 1
    } else {
        lemma_active_one(specs, evs, g, n - 1)
    }
}

proof fn lemma_active_pair(specs: Seq<ArgSpec>, evs: Seq<Ev>, g: Seq<char>, n: int) -> (r: (int, int))
    requires
        active_upto(specs, evs, g, n).len() >= 2,
    ensures
        0 <= r.0 < r.1 < n,
        in_group(specs, r.0, g),
        in_group(specs, r.1, g),
        field_given(specs, evs, r.0),
        field_given(specs, evs, r.1),
    decreases n,
{
    if in_group(specs, n - 1, g) && field_given(specs, evs, n - 1) {
        let j = lemma_active_one(specs, evs, g, n - 1);
        (j, n - 1)
    } else {
        lemma_active_pair(specs, evs, g, n - 1)
    }
}

/// No two different fields of one group are both given.
pub open spec fn one_per_group(specs: Seq<ArgSpec>, evs: Seq<Ev>) -> bool {
    forall|j1: int, j2: int|
        0 <= j1 < j2 < specs.len() && #[trigger] in_group(specs, j1, specs[j2].group.unwrap()@)
            && specs[j2].group is Some ==> !(field_given(specs, evs, j1) && #[trigger] field_given(
            specs,
            evs,
            j2,
        ))
}

proof fn lemma_groups_from_none_when(specs: Seq<ArgSpec>, evs: Seq<Ev>, j0: int)
    requires
        0 <= j0,
        one_per_group(specs, evs),
    ensures
        groups_from(specs, evs, j0) is None,
    decreases specs.len() - j0,
{
    if j0 < specs.len() {
        lemma_groups_from_none_when(specs, evs, j0 + 1);
        if let Some(g) = specs[j0].group {
            if active_upto(specs, evs, g@, specs.len() as int).len() > 1 {
                let r = lemma_active_pair(specs, evs, g@, specs.len() as int);
                assert(in_group(specs, r.0, specs[r.1].group.unwrap()@));
                assert(field_given(specs, evs, r.1));
            }
        }
    }
}

/// A command line whose tokens scan and whose fields all have values is
/// accepted exactly when every field keeps its constraints (conflicts,
/// requirements, required-unless lists) and no group has two options given.
pub proof fn law_accepted_iff_constraints_met(specs: Seq<ArgSpec>, args: Seq<Seq<char>>, evs: Seq<Ev>)
    requires
        scan(specs, args, 0) == Ok::<Seq<Ev>, Seq<char>>(evs),
        values_from(specs, evs, 0) is Ok,
    ensures
        parsed_args(specs, args) is Ok <==> (forall|j: int|
            0 <= j < specs.len() ==> #[trigger] meets_constraints(specs, evs, j)) && one_per_group(
            specs,
            evs,
        ),
{
    lemma_checks_from_none(specs, evs, 0);
    if (forall|j: int| 0 <= j < specs.len() ==> #[trigger] meets_constraints(specs, evs, j))
        && one_per_group(specs, evs) {
        assert forall|j: int| 0 <= j < specs.len() implies #[trigger] field_check(
            specs,
            evs,
            j,
        ) is None by {
            lemma_field_check_none(specs, evs, j);
        }
        assert(checks_from(specs, evs, 0) is None);
        lemma_groups_from_none_when(specs, evs, 0);
    }
    if parsed_args(specs, args) is Ok {
        assert(checks_from(specs, evs, 0) is None);
        assert forall|j: int| 0 <= j < specs.len() implies #[trigger] meets_constraints(
            specs,
            evs,
            j,
        ) by {
            assert(field_check(specs, evs, j) is None);
            lemma_field_check_none(specs, evs, j);
        }
        assert forall|j1: int, j2: int|
            0 <= j1 < j2 < specs.len() && #[trigger] in_group(specs, j1, specs[j2].group.unwrap()@)
                && specs[j2].group is Some implies !(field_given(specs, evs, j1)
            && #[trigger] field_given(specs, evs, j2)) by {
            law_accepted_one_per_group(specs, args, evs, specs[j2].group.unwrap()@, j1, j2);
        }
    }
}

proof fn lemma_scan_suffix(specs: Seq<ArgSpec>, x: Seq<Seq<char>>, i: int, y: Seq<Seq<char>>, i2: int)
    requires
        0 <= i <= x.len(),
        0 <= i2 <= y.len(),
        x.subrange(i, x.len() as int) == y.subrange(i2, y.len() as int),
    ensures
        scan(specs, x, i) == scan(specs, y, i2),
    decreases x.len() - i,
{
    assert(x.len() - i == y.len() - i2) by {
        assert(x.subrange(i, x.len() as int).len() == y.subrange(i2, y.len() as int).len());
    }
    if i < x.len() {
        assert(x[i] == x.subrange(i, x.len() as int)[0]);
        assert(y[i2] == y.subrange(i2, y.len() as int)[0]);
        assert(x.subrange(i + 1, x.len() as int) =~= x.subrange(i, x.len() as int).drop_first());
        assert(y.subrange(i2 + 1, y.len() as int) =~= y.subrange(i2, y.len() as int).drop_first());
        lemma_scan_suffix(specs, x, i + 1, y, i2 + 1);
        if i + 1 < x.len() {
            assert(x[i + 1] == x.subrange(i, x.len() as int)[1]);
            assert(y[i2 + 1] == y.subrange(i2, y.len() as int)[1]);
            assert(x.subrange(i + 2, x.len() as int) =~= x.subrange(i + 1, x.len() as int).drop_first());
            assert(y.subrange(i2 + 2, y.len() as int) =~= y.subrange(i2 + 1, y.len() as int).drop_first());
            lemma_scan_suffix(specs, x, i + 2, y, i2 + 2);
        }
    }
}

proof fn lemma_first_char_at(t: Seq<char>, c: char, n: int, i: int)
    requires
        0 <= i <= n < t.len(),
        t[n] == c,
        forall|k: int| i <= k < n ==> t[k] != c,
    ensures
        first_char_from(t, c, i) == n,
    decreases n - i,
{
    if i < n {
        lemma_first_char_at(t, c, n, i + 1);
    }
}

proof fn lemma_scan_equals_form(
    specs: Seq<ArgSpec>,
    a1: Seq<Seq<char>>,
    a2: Seq<Seq<char>>,
    p: int,
    m: int,
)
    requires
        0 <= m <= p,
        p < a1.len(),
        a2.len() == a1.len() + 1,
        forall|q: int| 0 <= q < p ==> a1[q] == a2[q],
        dashed(a1[p]),
        dashed(a2[p]),
        scan(specs, a1, p) == scan(specs, a2, p),
    ensures
        scan(specs, a1, m) == scan(specs, a2, m),
    decreases p - m,
{
    if m < p {
        lemma_scan_equals_form(specs, a1, a2, p, m + 1);
        if m + 2 <= p {
            lemma_scan_equals_form(specs, a1, a2, p, m + 2);
        }
        assert(a1[m] == a2[m]);
        if m + 1 < p {
            assert(a1[m + 1] == a2[m + 1]);
        }
    }
}

/// `--name=value` is read as `--name value`: writing a value-taking flag
/// and its value as one token joined by `=`, or as two tokens, gives the
/// same result, when the flag has no `=` and the value does not start
/// with `-`.
pub proof fn law_equals_form_is_two_tokens(
    specs: Seq<ArgSpec>,
    pre: Seq<Seq<char>>,
    k: Seq<char>,
    v: Seq<char>,
    post: Seq<Seq<char>>,
)
    requires
        k.len() >= 2 && k[0] == '-' && k[1] == '-',
        !k.contains('='),
        key_field(specs, k, 0) matches Some((j, on)) && !no_value(specs[j as int]),
        !dashed(v),
    ensures
        parsed_args(specs, pre + seq![k + seq!['='] + v] + post) == parsed_args(
            specs,
            pre + seq![k, v] + post,
        ),
{
    let t = k + seq!['='] + v;
    let a1 = pre + seq![t] + post;
    let a2 = pre + seq![k, v] + post;
    let p = pre.len() as int;
    let n = k.len() as int;
    assert(a1[p] == t);
    assert(a2[p] == k);
    assert(a2[p + 1] == v);
    assert(t[n] == '=');
    assert forall|q: int| 0 <= q < n implies t[q] != '=' by {
        assert(t[q] == k[q]);
        if k[q] == '=' {
            assert(k.contains('='));
        }
    }
    lemma_first_char_at(t, '=', n, 0);
    assert(t.subrange(0, n) =~= k);
    assert(t.subrange(n + 1, t.len() as int) =~= v);
    assert forall|q: int| 0 <= q < k.len() implies k[q] != '=' by {
        if k[q] == '=' {
            assert(k.contains('='));
        }
    }
    lemma_no_char(k, '=', 0);
    assert(a1.subrange(p + 1, a1.len() as int) =~= post);
    assert(a2.subrange(p + 2, a2.len() as int) =~= post);
    lemma_scan_suffix(specs, a1, p + 1, a2, p + 2);
    assert(scan(specs, a1, p) == scan(specs, a2, p));
    assert forall|q: int| 0 <= q < p implies a1[q] == a2[q] by {
        assert(a1[q] == pre[q]);
        assert(a2[q] == pre[q]);
    }
    lemma_scan_equals_form(specs, a1, a2, p, 0);
}

} // verus!
