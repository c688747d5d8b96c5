//! Composable input validators: a library of rules that compose with
//! [`Validator::and`], [`Validator::or`] and [`Validator::msg`], plus user
//! rules through the [`Validate`] trait.

use vstd::prelude::*;
use std::sync::Arc;
use crate::strutil::{
    char_is_alphabetic, char_is_alphanumeric, chars_of, contains_exec, count_words, decimal,
    has_suffix, ends_with_exec, fmt_i64, fmt_usize, is_alphabetic, is_alphanumeric, is_ascii_digit,
    is_ascii_lower, is_ascii_punct, is_ascii_upper, join, joined, owned, parse_i64, parsed_i64,
    contains_seq, signed_decimal, has_prefix, starts_with_exec, string_of_range, trim, trimmed,
    words_in,
};

verus! {

broadcast use vstd::string::group_string_axioms;

/// Anything that can decide whether an input string is acceptable.
///
/// Implement this for any external validation library to bridge it into
/// the prompt's `.rule(...)` chain.
pub trait Validate: Send + Sync + 'static {
    /// `Ok(())` accepts the value, `Err(msg)` rejects it with `msg`.
    fn check(&self, value: &str) -> Result<(), String>;
}

/// Calls a user-supplied validation closure. Nothing is stated of its
/// result: the closure is the caller's own code.
#[verifier::external_body]
fn call_closure<F: Fn(&str) -> Result<(), String>>(f: &F, value: &str) -> Result<(), String> {
    f(value)
}

impl<F: Fn(&str) -> Result<(), String> + Send + Sync + 'static> Validate for F {
    fn check(&self, value: &str) -> Result<(), String> {
        call_closure(self, value)
    }
}

/// A user-supplied rule held as a shared trait object.
#[verifier::external_body]
pub struct CustomRule {
    inner: Arc<dyn Validate>,
}

/// Shares the user's rule with `Arc::clone`.
#[verifier::external_body]
fn share_rule(r: &CustomRule) -> CustomRule {
    CustomRule { inner: Arc::clone(&r.inner) }
}

impl Clone for CustomRule {
    fn clone(&self) -> CustomRule {
        share_rule(self)
    }
}

impl CustomRule {
    /// Holds `v` behind an `Arc<dyn Validate>`.
    #[verifier::external_body]
    pub(crate) fn new<V: Validate>(v: V) -> CustomRule {
        CustomRule { inner: Arc::new(v) }
    }

    /// Runs the user's rule through `Validate::check`; nothing is stated of
    /// its result.
    #[verifier::external_body]
    pub(crate) fn check(&self, value: &str) -> Result<(), String> {
        self.inner.check(value)
    }
}

/// What a validator decides for an input: accept, reject with a message,
/// or unknown (a user rule decides).
pub enum Verdict {
    Accept,
    Reject(Seq<char>),
    Unknown,
}

/// Both must pass: the first verdict unless it accepts, then the second.
pub open spec fn both(a: Verdict, b: Verdict) -> Verdict {
    match a {
        Verdict::Accept => b,
        Verdict::Reject(m) => Verdict::Reject(m),
        Verdict::Unknown => Verdict::Unknown,
    }
}

/// Either may pass: acceptance by the first, else the second verdict.
pub open spec fn either(a: Verdict, b: Verdict) -> Verdict {
    match a {
        Verdict::Accept => Verdict::Accept,
        Verdict::Reject(_) => b,
        Verdict::Unknown => Verdict::Unknown,
    }
}

/// Chains of `and` and of `or` decide the same however they are grouped,
/// and a rule that accepts is neutral for `and`.
pub proof fn law_composition(x: Verdict, y: Verdict, z: Verdict)
    ensures
        both(both(x, y), z) == both(x, both(y, z)),
        either(either(x, y), z) == either(x, either(y, z)),
        both(Verdict::Accept, x) == x,
        both(x, Verdict::Accept) == x,
{
}

/// The rule tree behind a [`Validator`].
pub enum Rule {
    Required,
    MinChars(usize),
    MaxChars(usize),
    ExactChars(usize),
    WordCount(usize),
    WordsBetween(usize, usize),
    HasUpper,
    HasLower,
    HasDigit,
    HasSpecial,
    AlphaOnly,
    Alphanumeric,
    OnlyChars(String),
    ForbidChars(String),
    IntBetween(i64, i64),
    Email,
    StartsWith(String),
    EndsWith(String),
    OneOf(Vec<String>),
    And(Box<Rule>, Box<Rule>),
    Or(Box<Rule>, Box<Rule>),
    Msg(Box<Rule>, String),
    Custom(CustomRule),
}

// ── messages ─────────────────────────────────────────────────────────────────

pub open spec fn msg_min(n: nat) -> Seq<char> {
    "Must be at least "@ + decimal(n) + " characters"@
}

pub open spec fn msg_max(n: nat) -> Seq<char> {
    "Must be at most "@ + decimal(n) + " characters"@
}

pub open spec fn msg_exact(n: nat, c: nat) -> Seq<char> {
    "Must be exactly "@ + decimal(n) + " characters (got "@ + decimal(c) + ")"@
}

pub open spec fn msg_words(n: nat, c: nat) -> Seq<char> {
    "Must be exactly "@ + decimal(n) + " words (got "@ + decimal(c) + ")"@
}

pub open spec fn msg_words_between(min: nat, max: nat, c: nat) -> Seq<char> {
    "Must be "@ + decimal(min) + "–"@ + decimal(max) + " words (got "@ + decimal(c) + ")"@
}

pub open spec fn msg_int_range(min: int, max: int, n: int) -> Seq<char> {
    "Must be between "@ + signed_decimal(min) + " and "@ + signed_decimal(max) + " (got "@
        + signed_decimal(n) + ")"@
}

/// Index of the first character of `s` that occurs in `set`, or `-1`.
pub open spec fn first_in(s: Seq<char>, set: Seq<char>, i: int) -> int
    decreases s.len() - i,
{
    if i < 0 || i >= s.len() {
        -1
    } else if set.contains(s[i]) {
        i
    } else {
        first_in(s, set, i + 1)
    }
}

/// Index of the first `@` in `s`, or `-1`.
pub open spec fn first_at(s: Seq<char>) -> int {
    first_in(s, seq!['@'], 0)
}

/// The permissive email shape: a non-empty part before the first `@`, and
/// after it a part that contains a `.` but neither starts nor ends with one.
pub open spec fn email_ok(v: Seq<char>) -> bool {
    let s = trimmed(v);
    let at = first_at(s);
    at >= 0 && ({
        let local = s.subrange(0, at);
        let domain = s.subrange(at + 1, s.len() as int);
        &&& local.len() > 0
        &&& domain.contains('.')
        &&& !has_prefix(domain, "."@)
        &&& !has_suffix(domain, "."@)
    })
}

/// The verdict of `r` on `s`.
pub open spec fn rule_verdict(r: Rule, s: Seq<char>) -> Verdict
    decreases r,
{
    match r {
        Rule::Required => if trimmed(s).len() == 0 {
            Verdict::Reject("Value is required"@)
        } else {
            Verdict::Accept
        },
        Rule::MinChars(n) => if s.len() < n {
            Verdict::Reject(msg_min(n as nat))
        } else {
            Verdict::Accept
        },
        Rule::MaxChars(n) => if s.len() > n {
            Verdict::Reject(msg_max(n as nat))
        } else {
            Verdict::Accept
        },
        Rule::ExactChars(n) => if s.len() != n {
            Verdict::Reject(msg_exact(n as nat, s.len()))
        } else {
            Verdict::Accept
        },
        Rule::WordCount(n) => if words_in(s) != n {
            Verdict::Reject(msg_words(n as nat, words_in(s)))
        } else {
            Verdict::Accept
        },
        Rule::WordsBetween(min, max) => if words_in(s) < min || words_in(s) > max {
            Verdict::Reject(msg_words_between(min as nat, max as nat, words_in(s)))
        } else {
            Verdict::Accept
        },
        Rule::HasUpper => if exists|k: int| 0 <= k < s.len() && is_ascii_upper(s[k]) {
            Verdict::Accept
        } else {
            Verdict::Reject("Must contain an uppercase letter"@)
        },
        Rule::HasLower => if exists|k: int| 0 <= k < s.len() && is_ascii_lower(s[k]) {
            Verdict::Accept
        } else {
            Verdict::Reject("Must contain a lowercase letter"@)
        },
        Rule::HasDigit => if exists|k: int| 0 <= k < s.len() && is_ascii_digit(s[k]) {
            Verdict::Accept
        } else {
            Verdict::Reject("Must contain a digit"@)
        },
        Rule::HasSpecial => if exists|k: int| 0 <= k < s.len() && is_ascii_punct(s[k]) {
            Verdict::Accept
        } else {
            Verdict::Reject("Must contain a special character"@)
        },
        Rule::AlphaOnly => if forall|k: int| 0 <= k < s.len() ==> is_alphabetic(s[k]) {
            Verdict::Accept
        } else {
            Verdict::Reject("Letters only"@)
        },
        Rule::Alphanumeric => if forall|k: int| 0 <= k < s.len() ==> is_alphanumeric(s[k]) {
            Verdict::Accept
        } else {
            Verdict::Reject("Letters and digits only"@)
        },
        Rule::OnlyChars(allowed) => if forall|k: int| 0 <= k < s.len() ==> allowed@.contains(s[k]) {
            Verdict::Accept
        } else {
            Verdict::Reject("Allowed characters: "@ + allowed@)
        },
        Rule::ForbidChars(forbidden) => {
            let i = first_in(s, forbidden@, 0);
            if i >= 0 {
                Verdict::Reject("'"@ + seq![s[i]] + "' is not allowed"@)
            } else {
                Verdict::Accept
            }
        },
        Rule::IntBetween(min, max) => match parsed_i64(trimmed(s)) {
            Some(n) => if min <= n <= max {
                Verdict::Accept
            } else {
                Verdict::Reject(msg_int_range(min as int, max as int, n as int))
            },
            None => Verdict::Reject("Must be an integer"@),
        },
        Rule::Email => if email_ok(s) {
            Verdict::Accept
        } else {
            Verdict::Reject("Must be a valid email"@)
        },
        Rule::StartsWith(p) => if has_prefix(s, p@) {
            Verdict::Accept
        } else {
            Verdict::Reject("Must start with `"@ + p@ + "`"@)
        },
        Rule::EndsWith(p) => if has_suffix(s, p@) {
            Verdict::Accept
        } else {
            Verdict::Reject("Must end with `"@ + p@ + "`"@)
        },
        Rule::OneOf(values) => if values@.map_values(|x: String| x@).contains(s) {
            Verdict::Accept
        } else {
            Verdict::Reject(
                "Must be one of: "@ + joined(values@.map_values(|x: String| x@), ", "@),
            )
        },
        Rule::And(a, b) => match rule_verdict(*a, s) {
            Verdict::Accept => rule_verdict(*b, s),
            Verdict::Reject(m) => Verdict::Reject(m),
            Verdict::Unknown => Verdict::Unknown,
        },
        Rule::Or(a, b) => match rule_verdict(*a, s) {
            Verdict::Accept => Verdict::Accept,
            Verdict::Reject(_) => rule_verdict(*b, s),
            Verdict::Unknown => Verdict::Unknown,
        },
        Rule::Msg(a, m) => match rule_verdict(*a, s) {
            Verdict::Accept => Verdict::Accept,
            Verdict::Reject(_) => Verdict::Reject(m@),
            Verdict::Unknown => Verdict::Unknown,
        },
        Rule::Custom(_) => Verdict::Unknown,
    }
}

/// `r` is what a check with verdict `v` may return.
pub open spec fn agrees(v: Verdict, r: Result<(), String>) -> bool {
    match v {
        Verdict::Accept => r is Ok,
        Verdict::Reject(m) => r matches Err(e) && e@ == m,
        Verdict::Unknown => true,
    }
}

/// What a check returned, with the message as text.
pub open spec fn outcome(r: Result<(), String>) -> Result<(), Seq<char>> {
    match r {
        Ok(()) => Ok(()),
        Err(e) => Err(e@),
    }
}

/// `out` is the outcome that verdict `v` fixes (any outcome when a user
/// rule decides).
pub open spec fn fits(v: Verdict, out: Result<(), Seq<char>>) -> bool {
    match v {
        Verdict::Accept => out is Ok,
        Verdict::Reject(m) => out == Err::<(), Seq<char>>(m),
        Verdict::Unknown => true,
    }
}

/// `out` is an outcome that `r` can give on `s`, whatever its user rules
/// return: `and` gives the first rule's error, else the second rule's
/// outcome; `or` accepts when the first accepts, else gives the second's
/// outcome; `msg` accepts when its rule accepts and otherwise gives its
/// message.
pub open spec fn rule_can_give(r: Rule, s: Seq<char>, out: Result<(), Seq<char>>) -> bool
    decreases r,
{
    match r {
        Rule::And(a, b) => (out is Err && rule_can_give(*a, s, out)) || (rule_can_give(
            *a,
            s,
            Ok(()),
        ) && rule_can_give(*b, s, out)),
        Rule::Or(a, b) => (out is Ok && rule_can_give(*a, s, Ok(()))) || (rule_can_reject(*a, s)
            && rule_can_give(*b, s, out)),
        Rule::Msg(a, m) => (out is Ok && rule_can_give(*a, s, Ok(()))) || (out == Err::<
            (),
            Seq<char>,
        >(m@) && rule_can_reject(*a, s)),
        _ => fits(rule_verdict(r, s), out),
    }
}

/// `r` can reject `s` (with some message).
pub open spec fn rule_can_reject(r: Rule, s: Seq<char>) -> bool
    decreases r,
{
    match r {
        Rule::And(a, b) => rule_can_reject(*a, s) || (rule_can_give(*a, s, Ok(()))
            && rule_can_reject(*b, s)),
        Rule::Or(a, b) => rule_can_reject(*a, s) && rule_can_reject(*b, s),
        Rule::Msg(a, _) => rule_can_reject(*a, s),
        _ => !(rule_verdict(r, s) is Accept),
    }
}

/// A rule that gives an error can reject.
proof fn lemma_error_rejects(r: Rule, s: Seq<char>, e: Seq<char>)
    requires
        rule_can_give(r, s, Err(e)),
    ensures
        rule_can_reject(r, s),
    decreases r,
{
    match r {
        Rule::And(a, b) => {
            if rule_can_give(*a, s, Err(e)) {
                lemma_error_rejects(*a, s, e);
            } else {
                lemma_error_rejects(*b, s, e);
            }
        },
        Rule::Or(a, b) => {
            lemma_error_rejects(*b, s, e);
        },
        Rule::Msg(a, m) => {},
        _ => {},
    }
}

/// Where the verdict is known, it is the one outcome the rule can give,
/// and the rule can reject exactly when it rejects.
proof fn lemma_known_verdict(r: Rule, s: Seq<char>, out: Result<(), Seq<char>>)
    requires
        !(rule_verdict(r, s) is Unknown),
    ensures
        rule_can_give(r, s, out) == fits(rule_verdict(r, s), out),
        rule_can_reject(r, s) == rule_verdict(r, s) is Reject,
    decreases r,
{
    match r {
        Rule::And(a, b) => {
            lemma_known_verdict(*a, s, out);
            lemma_known_verdict(*a, s, Ok(()));
            if rule_verdict(*a, s) is Accept {
                lemma_known_verdict(*b, s, out);
            }
        },
        Rule::Or(a, b) => {
            lemma_known_verdict(*a, s, out);
            lemma_known_verdict(*a, s, Ok(()));
            if rule_verdict(*a, s) is Reject {
                lemma_known_verdict(*b, s, out);
            }
        },
        Rule::Msg(a, m) => {
            lemma_known_verdict(*a, s, out);
            lemma_known_verdict(*a, s, Ok(()));
        },
        _ => {},
    }
}

#[verifier::loop_isolation(false)]
fn check_rule(rule: &Rule, v: &str) -> (r: Result<(), String>)
    ensures
        agrees(rule_verdict(*rule, v@), r),
        rule_can_give(*rule, v@, outcome(r)),
    decreases rule,
{
    match rule {
        Rule::Required => {
            let t = trim(v);
            if t.as_str().is_empty() {
                Err(owned("Value is required"))
            } else {
                Ok(())
            }
        },
        Rule::MinChars(n) => {
            if chars_of(v).len() < *n {
                let mut m = owned("Must be at least ");
                let d = fmt_usize(*n);
                m.append(d.as_str());
                m.append(" characters");
                Err(m)
            } else {
                Ok(())
            }
        },
        Rule::MaxChars(n) => {
            if chars_of(v).len() > *n {
                let mut m = owned("Must be at most ");
                let d = fmt_usize(*n);
                m.append(d.as_str());
                m.append(" characters");
                Err(m)
            } else {
                Ok(())
            }
        },
        Rule::ExactChars(n) => {
            let c = chars_of(v).len();
            if c != *n {
                let mut m = owned("Must be exactly ");
                let d = fmt_usize(*n);
                m.append(d.as_str());
                m.append(" characters (got ");
                let g = fmt_usize(c);
                m.append(g.as_str());
                m.append(")");
                Err(m)
            } else {
                Ok(())
            }
        },
        Rule::WordCount(n) => {
            let c = count_words(v);
            if c != *n {
                let mut m = owned("Must be exactly ");
                let d = fmt_usize(*n);
                m.append(d.as_str());
                m.append(" words (got ");
                let g = fmt_usize(c);
                m.append(g.as_str());
                m.append(")");
                Err(m)
            } else {
                Ok(())
            }
        },
        Rule::WordsBetween(min, max) => {
            let c = count_words(v);
            if c < *min || c > *max {
                let mut m = owned("Must be ");
                let a = fmt_usize(*min);
                m.append(a.as_str());
                m.append("–");
                let b = fmt_usize(*max);
                m.append(b.as_str());
                m.append(" words (got ");
                let g = fmt_usize(c);
                m.append(g.as_str());
                m.append(")");
                Err(m)
            } else {
                Ok(())
            }
        },
        Rule::HasUpper => {
            if any_char(v, 0) {
                Ok(())
            } else {
                Err(owned("Must contain an uppercase letter"))
            }
        },
        Rule::HasLower => {
            if any_char(v, 1) {
                Ok(())
            } else {
                Err(owned("Must contain a lowercase letter"))
            }
        },
        Rule::HasDigit => {
            if any_char(v, 2) {
                Ok(())
            } else {
                Err(owned("Must contain a digit"))
            }
        },
        Rule::HasSpecial => {
            if any_char(v, 3) {
                Ok(())
            } else {
                Err(owned("Must contain a special character"))
            }
        },
        Rule::AlphaOnly => {
            if all_class(v, true) {
                Ok(())
            } else {
                Err(owned("Letters only"))
            }
        },
        Rule::Alphanumeric => {
            if all_class(v, false) {
                Ok(())
            } else {
                Err(owned("Letters and digits only"))
            }
        },
        Rule::OnlyChars(allowed) => {
            let cs = chars_of(v);
            let set = chars_of(allowed.as_str());
            let mut i: usize = 0;
            while i < cs.len()
                invariant
                    cs@ == v@,
                    set@ == allowed@,
                    0 <= i <= cs.len(),
                    forall|k: int| 0 <= k < i ==> allowed@.contains(cs@[k]),
                decreases cs.len() - i,
            {
                if !vec_has(&set, cs[i]) {
                    assert(!allowed@.contains(v@[i as int]));
                    let mut m = owned("Allowed characters: ");
                    m.append(allowed.as_str());
                    return Err(m);
                }
                i += 1;
            }
            Ok(())
        },
        Rule::ForbidChars(forbidden) => {
            let cs = chars_of(v);
            let set = chars_of(forbidden.as_str());
            let mut i: usize = 0;
            while i < cs.len()
                invariant
                    cs@ == v@,
                    set@ == forbidden@,
                    0 <= i <= cs.len(),
                    first_in(v@, forbidden@, 0) == first_in(v@, forbidden@, i as int),
                decreases cs.len() - i,
            {
                if vec_has(&set, cs[i]) {
                    assert(first_in(v@, forbidden@, i as int) == i);
                    let mut m = owned("'");
                    let one = string_of_range(&cs, i, i + 1);
                    m.append(one.as_str());
                    m.append("' is not allowed");
                    proof {
                        assert(one@ =~= seq![v@[i as int]]);
                    }
                    return Err(m);
                }
                i += 1;
            }
            Ok(())
        },
        Rule::IntBetween(min, max) => {
            let t = trim(v);
            match parse_i64(t.as_str()) {
                Some(n) => {
                    if *min <= n && n <= *max {
                        Ok(())
                    } else {
                        let mut m = owned("Must be between ");
                        let a = fmt_i64(*min);
                        m.append(a.as_str());
                        m.append(" and ");
                        let b = fmt_i64(*max);
                        m.append(b.as_str());
                        m.append(" (got ");
                        let g = fmt_i64(n);
                        m.append(g.as_str());
                        m.append(")");
                        Err(m)
                    }
                },
                None => Err(owned("Must be an integer")),
            }
        },
        Rule::Email => {
            if check_email(v) {
                Ok(())
            } else {
                Err(owned("Must be a valid email"))
            }
        },
        Rule::StartsWith(p) => {
            if starts_with_exec(v, p.as_str()) {
                Ok(())
            } else {
                let mut m = owned("Must start with `");
                m.append(p.as_str());
                m.append("`");
                Err(m)
            }
        },
        Rule::EndsWith(p) => {
            if ends_with_exec(v, p.as_str()) {
                Ok(())
            } else {
                let mut m = owned("Must end with `");
                m.append(p.as_str());
                m.append("`");
                Err(m)
            }
        },
        Rule::OneOf(values) => {
            let mut i: usize = 0;
            while i < values.len()
                invariant
                    0 <= i <= values.len(),
                    forall|k: int| 0 <= k < i ==> values@[k]@ != v@,
                decreases values.len() - i,
            {
                if values[i] == owned(v) {
                    let ghost mv = values@.map_values(|x: String| x@);
                    assert(mv[i as int] == values@[i as int]@);
                    assert(mv[i as int] == v@);
                    assert(mv.contains(v@));
                    return Ok(());
                }
                i += 1;
            }
            proof {
                let mv = values@.map_values(|x: String| x@);
                assert forall|k: int| 0 <= k < mv.len() implies mv[k] != v@ by {
                    assert(mv[k] == values@[k]@);
                }
            }
            let mut m = owned("Must be one of: ");
            let j = join(values, ", ");
            m.append(j.as_str());
            Err(m)
        },
        Rule::And(a, b) => {
            match check_rule(a, v) {
                Ok(()) => check_rule(b, v),
                Err(e) => Err(e),
            }
        },
        Rule::Or(a, b) => {
            match check_rule(a, v) {
                Ok(()) => Ok(()),
                Err(e) => {
                    proof {
                        lemma_error_rejects(**a, v@, e@);
                    }
                    check_rule(b, v)
                },
            }
        },
        Rule::Msg(a, m) => {
            match check_rule(a, v) {
                Ok(()) => Ok(()),
                Err(e) => {
                    proof {
                        lemma_error_rejects(**a, v@, e@);
                    }
                    Err(m.clone())
                },
            }
        },
        Rule::Custom(c) => c.check(v),
    }
}

fn vec_has(v: &Vec<char>, c: char) -> (r: bool)
    ensures
        r == v@.contains(c),
{
    let mut i: usize = 0;
    while i < v.len()
        invariant
            0 <= i <= v.len(),
            forall|k: int| 0 <= k < i ==> v@[k] != c,
        decreases v.len() - i,
    {
        if v[i] == c {
            return true;
        }
        i += 1;
    }
    false
}

pub open spec fn in_class(c: char, class: u8) -> bool {
    if class == 0 {
        is_ascii_upper(c)
    } else if class == 1 {
        is_ascii_lower(c)
    } else if class == 2 {
        is_ascii_digit(c)
    } else {
        is_ascii_punct(c)
    }
}

fn any_char(v: &str, class: u8) -> (r: bool)
    ensures
        r == exists|k: int| 0 <= k < v@.len() && in_class(v@[k], class),
{
    let cs = chars_of(v);
    let mut i: usize = 0;
    while i < cs.len()
        invariant
            cs@ == v@,
            0 <= i <= cs.len(),
            forall|k: int| 0 <= k < i ==> !in_class(cs@[k], class),
        decreases cs.len() - i,
    {
        let c = cs[i];
        let hit = if class == 0 {
            'A' <= c && c <= 'Z'
        } else if class == 1 {
            'a' <= c && c <= 'z'
        } else if class == 2 {
            '0' <= c && c <= '9'
        } else {
            ('!' <= c && c <= '/') || (':' <= c && c <= '@') || ('[' <= c && c <= '`') || ('{'
                <= c && c <= '~')
        };
        if hit {
            return true;
        }
        i += 1;
    }
    false
}

fn all_class(v: &str, alpha: bool) -> (r: bool)
    ensures
        alpha ==> r == forall|k: int| 0 <= k < v@.len() ==> is_alphabetic(v@[k]),
        !alpha ==> r == forall|k: int| 0 <= k < v@.len() ==> is_alphanumeric(v@[k]),
{
    let cs = chars_of(v);
    let mut i: usize = 0;
    while i < cs.len()
        invariant
            cs@ == v@,
            0 <= i <= cs.len(),
            alpha ==> forall|k: int| 0 <= k < i ==> is_alphabetic(cs@[k]),
            !alpha ==> forall|k: int| 0 <= k < i ==> is_alphanumeric(cs@[k]),
        decreases cs.len() - i,
    {
        let ok = if alpha { char_is_alphabetic(cs[i]) } else { char_is_alphanumeric(cs[i]) };
        if !ok {
            return false;
        }
        i += 1;
    }
    true
}

fn check_email(v: &str) -> (r: bool)
    ensures
        r == email_ok(v@),
{
    let t = trim(v);
    let s = chars_of(t.as_str());
    let mut i: usize = 0;
    while i < s.len()
        invariant
            s@ == trimmed(v@),
            0 <= i <= s.len(),
            first_at(s@) == first_in(s@, seq!['@'], i as int),
        decreases s.len() - i,
    {
        if s[i] == '@' {
            let local = string_of_range(&s, 0, i);
            let domain = string_of_range(&s, i + 1, s.len());
            let has_dot = vec_has(&chars_of(domain.as_str()), '.');
            let sw = starts_with_exec(domain.as_str(), ".");
            let ew = ends_with_exec(domain.as_str(), ".");
            assert(seq!['@'][0] == s@[i as int]);
            return !local.as_str().is_empty() && has_dot && !sw && !ew;
        }
        assert(!seq!['@'].contains(s@[i as int]));
        i += 1;
    }
    false
}

fn copy_strings(v: &Vec<String>) -> (r: Vec<String>)
    ensures
        r@ == v@,
{
    let mut out: Vec<String> = Vec::new();
    let mut i: usize = 0;
    while i < v.len()
        invariant
            0 <= i <= v.len(),
            out@ == v@.take(i as int),
        decreases v.len() - i,
    {
        out.push(v[i].clone());
        i += 1;
        assert(out@ =~= v@.take(i as int));
    }
    assert(v@.take(v@.len() as int) =~= v@);
    out
}

/// A copy of the rule tree; user rules are shared, not copied.
fn clone_rule(r: &Rule) -> (c: Rule)
    ensures
        forall|s: Seq<char>| #[trigger] rule_verdict(c, s) == rule_verdict(*r, s),
        forall|s: Seq<char>, out: Result<(), Seq<char>>| #[trigger]
            rule_can_give(c, s, out) == rule_can_give(*r, s, out),
        forall|s: Seq<char>| #[trigger] rule_can_reject(c, s) == rule_can_reject(*r, s),
    decreases r,
{
    let c = match r {
        Rule::Required => Rule::Required,
        Rule::MinChars(n) => Rule::MinChars(*n),
        Rule::MaxChars(n) => Rule::MaxChars(*n),
        Rule::ExactChars(n) => Rule::ExactChars(*n),
        Rule::WordCount(n) => Rule::WordCount(*n),
        Rule::WordsBetween(a, b) => Rule::WordsBetween(*a, *b),
        Rule::HasUpper => Rule::HasUpper,
        Rule::HasLower => Rule::HasLower,
        Rule::HasDigit => Rule::HasDigit,
        Rule::HasSpecial => Rule::HasSpecial,
        Rule::AlphaOnly => Rule::AlphaOnly,
        Rule::Alphanumeric => Rule::Alphanumeric,
        Rule::OnlyChars(s) => Rule::OnlyChars(s.clone()),
        Rule::ForbidChars(s) => Rule::ForbidChars(s.clone()),
        Rule::IntBetween(a, b) => Rule::IntBetween(*a, *b),
        Rule::Email => Rule::Email,
        Rule::StartsWith(s) => Rule::StartsWith(s.clone()),
        Rule::EndsWith(s) => Rule::EndsWith(s.clone()),
        Rule::OneOf(v) => Rule::OneOf(copy_strings(v)),
        Rule::And(a, b) => {
            let ca = clone_rule(a);
            let cb = clone_rule(b);
            let c0 = Rule::And(Box::new(ca), Box::new(cb));
            assert forall|s: Seq<char>| #[trigger] rule_verdict(c0, s) == rule_verdict(*r, s) by {
                assert(rule_verdict(ca, s) == rule_verdict(**a, s));
                assert(rule_verdict(cb, s) == rule_verdict(**b, s));
            }
            assert forall|s: Seq<char>| #[trigger] rule_can_reject(c0, s) == rule_can_reject(*r, s) by {
                assert(rule_can_reject(ca, s) == rule_can_reject(**a, s));
                assert(rule_can_reject(cb, s) == rule_can_reject(**b, s));
                assert(rule_can_give(ca, s, Ok(())) == rule_can_give(**a, s, Ok(())));
            }
            assert forall|s: Seq<char>, out: Result<(), Seq<char>>| #[trigger]
                rule_can_give(c0, s, out) == rule_can_give(*r, s, out) by {
                assert(rule_can_give(ca, s, out) == rule_can_give(**a, s, out));
                assert(rule_can_give(cb, s, out) == rule_can_give(**b, s, out));
                assert(rule_can_give(ca, s, Ok(())) == rule_can_give(**a, s, Ok(())));
                assert(rule_can_reject(ca, s) == rule_can_reject(**a, s));
            }
            c0
        },
        Rule::Or(a, b) => {
            let ca = clone_rule(a);
            let cb = clone_rule(b);
            let c0 = Rule::Or(Box::new(ca), Box::new(cb));
            assert forall|s: Seq<char>| #[trigger] rule_verdict(c0, s) == rule_verdict(*r, s) by {
                assert(rule_verdict(ca, s) == rule_verdict(**a, s));
                assert(rule_verdict(cb, s) == rule_verdict(**b, s));
            }
            assert forall|s: Seq<char>| #[trigger] rule_can_reject(c0, s) == rule_can_reject(*r, s) by {
                assert(rule_can_reject(ca, s) == rule_can_reject(**a, s));
                assert(rule_can_reject(cb, s) == rule_can_reject(**b, s));
                assert(rule_can_give(ca, s, Ok(())) == rule_can_give(**a, s, Ok(())));
            }
            assert forall|s: Seq<char>, out: Result<(), Seq<char>>| #[trigger]
                rule_can_give(c0, s, out) == rule_can_give(*r, s, out) by {
                assert(rule_can_give(ca, s, out) == rule_can_give(**a, s, out));
                assert(rule_can_give(cb, s, out) == rule_can_give(**b, s, out));
                assert(rule_can_give(ca, s, Ok(())) == rule_can_give(**a, s, Ok(())));
                assert(rule_can_reject(ca, s) == rule_can_reject(**a, s));
            }
            c0
        },
        Rule::Msg(a, m) => {
            let ca = clone_rule(a);
            let c0 = Rule::Msg(Box::new(ca), m.clone());
            assert forall|s: Seq<char>| #[trigger] rule_verdict(c0, s) == rule_verdict(*r, s) by {
                assert(rule_verdict(ca, s) == rule_verdict(**a, s));
            }
            assert forall|s: Seq<char>| #[trigger] rule_can_reject(c0, s) == rule_can_reject(*r, s) by {
                assert(rule_can_reject(ca, s) == rule_can_reject(**a, s));
            }
            assert forall|s: Seq<char>, out: Result<(), Seq<char>>| #[trigger]
                rule_can_give(c0, s, out) == rule_can_give(*r, s, out) by {
                assert(rule_can_give(ca, s, Ok(())) == rule_can_give(**a, s, Ok(())));
                assert(rule_can_reject(ca, s) == rule_can_reject(**a, s));
            }
            c0
        },
        Rule::Custom(x) => Rule::Custom(x.clone()),
    };
    c
}

/// Validator handle: a rule tree that composes with [`and`](Self::and),
/// [`or`](Self::or) and [`msg`](Self::msg).
pub struct Validator {
    rule: Rule,
}

impl Clone for Validator {
    fn clone(&self) -> (r: Validator)
        ensures
            forall|s: Seq<char>| #[trigger] r.verdict(s) == self.verdict(s),
            forall|s: Seq<char>, out: Result<(), Seq<char>>| #[trigger]
                r.can_give(s, out) == self.can_give(s, out),
            forall|s: Seq<char>| #[trigger] r.can_reject(s) == self.can_reject(s),
    {
        Validator { rule: clone_rule(&self.rule) }
    }
}

impl Validator {
    /// What the validator decides for `s`.
    pub closed spec fn verdict(&self, s: Seq<char>) -> Verdict {
        rule_verdict(self.rule, s)
    }

    /// `out` is an outcome a check of `s` can give, whatever the user
    /// rules inside return.
    pub closed spec fn can_give(&self, s: Seq<char>, out: Result<(), Seq<char>>) -> bool {
        rule_can_give(self.rule, s, out)
    }

    /// A check of `s` can reject it.
    pub closed spec fn can_reject(&self, s: Seq<char>) -> bool {
        rule_can_reject(self.rule, s)
    }

    /// Wrap any [`Validate`] implementation — including a plain closure
    /// `|s: &str| -> Result<(), String>` — into a [`Validator`].
    pub fn new<V: Validate>(v: V) -> (r: Validator)
        ensures
            forall|s: Seq<char>| #[trigger] r.verdict(s) == Verdict::Unknown,
            forall|s: Seq<char>, out: Result<(), Seq<char>>| #[trigger] r.can_give(s, out),
            forall|s: Seq<char>| #[trigger] r.can_reject(s),
    {
        Validator { rule: Rule::Custom(CustomRule::new(v)) }
    }

    /// Run the validator.
    pub fn check(&self, v: &str) -> (r: Result<(), String>)
        ensures
            agrees(self.verdict(v@), r),
            self.can_give(v@, outcome(r)),
    {
        check_rule(&self.rule, v)
    }

    /// Both must pass; the first error encountered is returned.
    pub fn and(self, other: Validator) -> (r: Validator)
        ensures
            forall|s: Seq<char>| #[trigger] r.verdict(s) == both(self.verdict(s), other.verdict(s)),
            forall|s: Seq<char>, out: Result<(), Seq<char>>| #[trigger]
                r.can_give(s, out) == ((out is Err && self.can_give(s, out)) || (self.can_give(
                    s,
                    Ok(()),
                ) && other.can_give(s, out))),
            forall|s: Seq<char>| #[trigger]
                r.can_reject(s) == (self.can_reject(s) || (self.can_give(s, Ok(()))
                    && other.can_reject(s))),
    {
        Validator { rule: Rule::And(Box::new(self.rule), Box::new(other.rule)) }
    }

    /// At least one must pass; if both fail, the second error is returned.
    pub fn or(self, other: Validator) -> (r: Validator)
        ensures
            forall|s: Seq<char>| #[trigger] r.verdict(s) == either(self.verdict(s), other.verdict(s)),
            forall|s: Seq<char>, out: Result<(), Seq<char>>| #[trigger]
                r.can_give(s, out) == ((out is Ok && self.can_give(s, Ok(()))) || (
                self.can_reject(s) && other.can_give(s, out))),
            forall|s: Seq<char>| #[trigger]
                r.can_reject(s) == (self.can_reject(s) && other.can_reject(s)),
    {
        Validator { rule: Rule::Or(Box::new(self.rule), Box::new(other.rule)) }
    }

    /// Replace the error message produced by this validator.
    pub fn msg(self, message: &str) -> (r: Validator)
        ensures
            forall|s: Seq<char>|
                #[trigger] r.verdict(s) == match self.verdict(s) {
                    Verdict::Accept => Verdict::Accept,
                    Verdict::Reject(_) => Verdict::Reject(message@),
                    Verdict::Unknown => Verdict::Unknown,
                },
            forall|s: Seq<char>, out: Result<(), Seq<char>>| #[trigger]
                r.can_give(s, out) == ((out is Ok && self.can_give(s, Ok(()))) || (out == Err::<
                    (),
                    Seq<char>,
                >(message@) && self.can_reject(s))),
            forall|s: Seq<char>| #[trigger] r.can_reject(s) == self.can_reject(s),
    {
        Validator { rule: Rule::Msg(Box::new(self.rule), owned(message)) }
    }
}

/// Where a validator's verdict is fixed (no user rule decides), that
/// verdict is the one outcome its check can give, and it can reject
/// exactly when it rejects.
pub proof fn law_decided_outcome(v: &Validator, s: Seq<char>, out: Result<(), Seq<char>>)
    requires
        !(v.verdict(s) is Unknown),
    ensures
        v.can_give(s, out) == fits(v.verdict(s), out),
        v.can_reject(s) == v.verdict(s) is Reject,
{
    lemma_known_verdict(v.rule, s, out);
}

/// Every error of `v.msg(m)` is `m`, and it accepts where `v` can accept:
/// only the message changes.
pub proof fn law_msg_only_changes_the_message(
    v: &Validator,
    w: &Validator,
    m: Seq<char>,
    s: Seq<char>,
    out: Result<(), Seq<char>>,
)
    requires
        forall|t: Seq<char>, o: Result<(), Seq<char>>| #[trigger]
            w.can_give(t, o) == ((o is Ok && v.can_give(t, Ok(()))) || (o == Err::<
                (),
                Seq<char>,
            >(m) && v.can_reject(t))),
    ensures
        w.can_give(s, out) && out is Err ==> out == Err::<(), Seq<char>>(m),
        w.can_give(s, Ok(())) == v.can_give(s, Ok(())),
        w.can_give(s, Err(m)) == v.can_reject(s),
{
    assert(w.can_give(s, out) == ((out is Ok && v.can_give(s, Ok(()))) || (out == Err::<
        (),
        Seq<char>,
    >(m) && v.can_reject(s))));
    assert(w.can_give(s, Ok(())) == ((true && v.can_give(s, Ok(()))) || (Ok::<(), Seq<char>>(())
        == Err::<(), Seq<char>>(m) && v.can_reject(s))));
    assert(w.can_give(s, Err(m)) == ((false && v.can_give(s, Ok(()))) || (Err::<(), Seq<char>>(m)
        == Err::<(), Seq<char>>(m) && v.can_reject(s))));
}

impl Validate for Validator {
    /// Runs the validator, as [`Validator::check`] does.
    fn check(&self, v: &str) -> (r: Result<(), String>)
        ensures
            agrees(self.verdict(v@), r),
            self.can_give(v@, outcome(r)),
    {
        check_rule(&self.rule, v)
    }
}

/// A closure converts into a validator that runs it.
impl<F: Fn(&str) -> Result<(), String> + Send + Sync + 'static> From<F> for Validator {
    fn from(f: F) -> (r: Validator)
        ensures
            forall|s: Seq<char>| #[trigger] r.verdict(s) == Verdict::Unknown,
            forall|s: Seq<char>, out: Result<(), Seq<char>>| #[trigger] r.can_give(s, out),
            forall|s: Seq<char>| #[trigger] r.can_reject(s),
    {
        Validator::new(f)
    }
}

impl<F: Fn(&str) -> Result<(), String> + Send + Sync + 'static> vstd::std_specs::convert::FromSpecImpl<F> for Validator {
    open spec fn obeys_from_spec() -> bool {
        false
    }

    /// Nothing is claimed of the converted value here; `from` states
    /// what its validator decides.
    open spec fn from_spec(v: F) -> Validator {
        vstd::pervasive::arbitrary()
    }
}

// ── rule builders ────────────────────────────────────────────────────────────

/// Reject input that is empty or only whitespace.
pub fn required() -> (r: Validator)
    ensures
        forall|s: Seq<char>|
            #[trigger] r.verdict(s) == if trimmed(s).len() == 0 {
                Verdict::Reject("Value is required"@)
            } else {
                Verdict::Accept
            },
{
    Validator { rule: Rule::Required }
}

/// At least `n` characters.
pub fn min_chars(n: usize) -> (r: Validator)
    ensures
        forall|s: Seq<char>|
            #[trigger] r.verdict(s) == if s.len() < n {
                Verdict::Reject(msg_min(n as nat))
            } else {
                Verdict::Accept
            },
{
    Validator { rule: Rule::MinChars(n) }
}

/// At most `n` characters.
pub fn max_chars(n: usize) -> (r: Validator)
    ensures
        forall|s: Seq<char>|
            #[trigger] r.verdict(s) == if s.len() > n {
                Verdict::Reject(msg_max(n as nat))
            } else {
                Verdict::Accept
            },
{
    Validator { rule: Rule::MaxChars(n) }
}

/// Exactly `n` characters.
pub fn exact_chars(n: usize) -> (r: Validator)
    ensures
        forall|s: Seq<char>|
            #[trigger] r.verdict(s) == if s.len() != n {
                Verdict::Reject(msg_exact(n as nat, s.len()))
            } else {
                Verdict::Accept
            },
{
    Validator { rule: Rule::ExactChars(n) }
}

/// Exactly `n` whitespace-separated words.
pub fn word_count(n: usize) -> (r: Validator)
    ensures
        forall|s: Seq<char>|
            #[trigger] r.verdict(s) == if words_in(s) != n {
                Verdict::Reject(msg_words(n as nat, words_in(s)))
            } else {
                Verdict::Accept
            },
{
    Validator { rule: Rule::WordCount(n) }
}

/// Between `min` and `max` words, inclusive.
pub fn words_between(min: usize, max: usize) -> (r: Validator)
    ensures
        forall|s: Seq<char>|
            #[trigger] r.verdict(s) == if words_in(s) < min || words_in(s) > max {
                Verdict::Reject(msg_words_between(min as nat, max as nat, words_in(s)))
            } else {
                Verdict::Accept
            },
{
    Validator { rule: Rule::WordsBetween(min, max) }
}

/// At least one ASCII uppercase character.
pub fn has_upper() -> (r: Validator)
    ensures
        forall|s: Seq<char>|
            #[trigger] r.verdict(s) == if exists|k: int| 0 <= k < s.len() && is_ascii_upper(s[k]) {
                Verdict::Accept
            } else {
                Verdict::Reject("Must contain an uppercase letter"@)
            },
{
    Validator { rule: Rule::HasUpper }
}

/// At least one ASCII lowercase character.
pub fn has_lower() -> (r: Validator)
    ensures
        forall|s: Seq<char>|
            #[trigger] r.verdict(s) == if exists|k: int| 0 <= k < s.len() && is_ascii_lower(s[k]) {
                Verdict::Accept
            } else {
                Verdict::Reject("Must contain a lowercase letter"@)
            },
{
    Validator { rule: Rule::HasLower }
}

/// At least one ASCII digit.
pub fn has_digit() -> (r: Validator)
    ensures
        forall|s: Seq<char>|
            #[trigger] r.verdict(s) == if exists|k: int| 0 <= k < s.len() && is_ascii_digit(s[k]) {
                Verdict::Accept
            } else {
                Verdict::Reject("Must contain a digit"@)
            },
{
    Validator { rule: Rule::HasDigit }
}

/// At least one ASCII punctuation character.
pub fn has_special() -> (r: Validator)
    ensures
        forall|s: Seq<char>|
            #[trigger] r.verdict(s) == if exists|k: int| 0 <= k < s.len() && is_ascii_punct(s[k]) {
                Verdict::Accept
            } else {
                Verdict::Reject("Must contain a special character"@)
            },
{
    Validator { rule: Rule::HasSpecial }
}

/// Letters only (Unicode alphabetic).
pub fn alpha_only() -> (r: Validator)
    ensures
        forall|s: Seq<char>|
            #[trigger] r.verdict(s) == if forall|k: int| 0 <= k < s.len() ==> is_alphabetic(s[k]) {
                Verdict::Accept
            } else {
                Verdict::Reject("Letters only"@)
            },
{
    Validator { rule: Rule::AlphaOnly }
}

/// Letters and digits only.
pub fn alphanumeric() -> (r: Validator)
    ensures
        forall|s: Seq<char>|
            #[trigger] r.verdict(s) == if forall|k: int|
                0 <= k < s.len() ==> is_alphanumeric(s[k]) {
                Verdict::Accept
            } else {
                Verdict::Reject("Letters and digits only"@)
            },
{
    Validator { rule: Rule::Alphanumeric }
}

/// Restrict to the characters of `allowed`.
pub fn only_chars(allowed: &'static str) -> (r: Validator)
    ensures
        forall|s: Seq<char>|
            #[trigger] r.verdict(s) == if forall|k: int|
                0 <= k < s.len() ==> allowed@.contains(s[k]) {
                Verdict::Accept
            } else {
                Verdict::Reject("Allowed characters: "@ + allowed@)
            },
{
    Validator { rule: Rule::OnlyChars(owned(allowed)) }
}

/// Reject if any character of `forbidden` appears; the message names the
/// first one found.
pub fn forbid_chars(forbidden: &'static str) -> (r: Validator)
    ensures
        forall|s: Seq<char>|
            #[trigger] r.verdict(s) == if first_in(s, forbidden@, 0) >= 0 {
                Verdict::Reject("'"@ + seq![s[first_in(s, forbidden@, 0)]] + "' is not allowed"@)
            } else {
                Verdict::Accept
            },
{
    Validator { rule: Rule::ForbidChars(owned(forbidden)) }
}

/// Parsable (after trimming) as an integer in `[min, max]`.
pub fn int_between(min: i64, max: i64) -> (r: Validator)
    ensures
        forall|s: Seq<char>|
            #[trigger] r.verdict(s) == match parsed_i64(trimmed(s)) {
                Some(n) => if min <= n <= max {
                    Verdict::Accept
                } else {
                    Verdict::Reject(msg_int_range(min as int, max as int, n as int))
                },
                None => Verdict::Reject("Must be an integer"@),
            },
{
    Validator { rule: Rule::IntBetween(min, max) }
}

/// Looks like an email (very permissive: `something@something.something`).
pub fn email() -> (r: Validator)
    ensures
        forall|s: Seq<char>|
            #[trigger] r.verdict(s) == if email_ok(s) {
                Verdict::Accept
            } else {
                Verdict::Reject("Must be a valid email"@)
            },
{
    Validator { rule: Rule::Email }
}

/// Starts with `prefix`.
pub fn starts_with(prefix: &'static str) -> (r: Validator)
    ensures
        forall|s: Seq<char>|
            #[trigger] r.verdict(s) == if has_prefix(s, prefix@) {
                Verdict::Accept
            } else {
                Verdict::Reject("Must start with `"@ + prefix@ + "`"@)
            },
{
    Validator { rule: Rule::StartsWith(owned(prefix)) }
}

/// Ends with `suffix`.
pub fn ends_with(suffix: &'static str) -> (r: Validator)
    ensures
        forall|s: Seq<char>|
            #[trigger] r.verdict(s) == if has_suffix(s, suffix@) {
                Verdict::Accept
            } else {
                Verdict::Reject("Must end with `"@ + suffix@ + "`"@)
            },
{
    Validator { rule: Rule::EndsWith(owned(suffix)) }
}

/// One of the listed values, case-sensitive.
pub fn one_of(values: &'static [&'static str]) -> (r: Validator)
    ensures
        forall|s: Seq<char>|
            #[trigger] r.verdict(s) == if values@.map_values(|x: &str| x@).contains(s) {
                Verdict::Accept
            } else {
                Verdict::Reject(
                    "Must be one of: "@ + joined(values@.map_values(|x: &str| x@), ", "@),
                )
            },
{
    let mut vs: Vec<String> = Vec::new();
    let mut i: usize = 0;
    while i < values.len()
        invariant
            0 <= i <= values@.len(),
            vs@.len() == i,
            forall|k: int| 0 <= k < i ==> vs@[k]@ == values@[k]@,
        decreases values@.len() - i,
    {
        vs.push(owned(values[i]));
        i += 1;
    }
    proof {
        assert(vs@.map_values(|x: String| x@) =~= values@.map_values(|x: &str| x@));
    }
    Validator { rule: Rule::OneOf(vs) }
}

} // verus!
