//! The help sections and the usage line of an option struct, made from
//! its table of arguments, for [`help::render`](crate::help::render).

use vstd::prelude::*;
use crate::args::{strs, ArgSpec, DefaultVal};
use crate::help::{HelpEntry, HelpSection};
use crate::strutil::{joined, owned, push_char, str_eq};

verus! {

broadcast use vstd::string::group_string_axioms;

/// Unicode uppercase mapping of a string, as computed by `str::to_uppercase`.
pub uninterp spec fn uppercase(s: Seq<char>) -> Seq<char>;

/// Calls `str::to_uppercase`; the result is the name `uppercase`.
#[verifier::external_body]
fn to_uppercase(s: &str) -> (r: String)
    ensures
        r@ == uppercase(s@),
{
    s.to_uppercase()
}

/// A help entry as plain values: whether it is a pair, its key (or
/// text) and its description.
pub open spec fn entry_view(e: HelpEntry) -> (bool, Seq<char>, Seq<char>) {
    match e {
        HelpEntry::Pair { key, desc } => (true, key@, desc@),
        HelpEntry::Detail(t) => (false, t@, Seq::empty()),
    }
}

/// Help sections as plain values: title and entries.
pub open spec fn sections_view(ss: Seq<HelpSection>) -> Seq<(Seq<char>, Seq<(bool, Seq<char>, Seq<char>)>)> {
    ss.map_values(|s: HelpSection| (s.title@, s.entries@.map_values(|e: HelpEntry| entry_view(e))))
}

/// A pair entry.
pub open spec fn pair(k: Seq<char>, d: Seq<char>) -> (bool, Seq<char>, Seq<char>) {
    (true, k, d)
}

/// `<FIELD>`: a positional argument's label.
pub open spec fn pos_label(a: ArgSpec) -> Seq<char> {
    seq!['<'] + uppercase(a.field@) + seq!['>']
}

/// A flag's label: its short and long forms, the `--no-` form of a
/// negatable one, `<N>...` for a repeated one, and the value's
/// placeholder for a long-only flag that has one; a flag without a short
/// form is indented to line up with those that have one.
pub open spec fn flag_label(a: ArgSpec) -> Option<Seq<char>> {
    match a.short {
        Some(s) => match a.long {
            Some(l) => Some(
                if a.negatable {
                    seq!['-', s] + ", --"@ + l@ + " / --no-"@ + l@
                } else if a.repeated {
                    seq!['-', s] + ", --"@ + l@ + " <N>..."@
                } else {
                    seq!['-', s] + ", --"@ + l@
                },
            ),
            None => Some(seq!['-', s]),
        },
        None => match a.long {
            Some(l) => Some(
                if a.negatable {
                    "    --"@ + l@ + " / --no-"@ + l@
                } else if a.repeated {
                    "    --"@ + l@ + " <N>..."@
                } else if a.hint@.len() == 0 {
                    "    --"@ + l@
                } else {
                    "    --"@ + l@ + " <"@ + a.hint@ + ">"@
                },
            ),
            None => None,
        },
    }
}

/// How help describes a default.
pub open spec fn default_text(d: Option<DefaultVal>) -> Seq<char> {
    match d {
        Some(DefaultVal::Lit(s)) => "[default: "@ + s@ + "]"@,
        Some(DefaultVal::Env(v, Some(fb))) => "[default: $"@ + v@ + " or "@ + fb@ + "]"@,
        Some(DefaultVal::Env(v, None)) => "[default: $"@ + v@ + "]"@,
        Some(DefaultVal::Auto) => "[default: auto]"@,
        None => Seq::empty(),
    }
}

/// An option's description: its doc and its default, the empty ones left
/// out, two spaces between.
pub open spec fn option_desc(a: ArgSpec) -> Seq<char> {
    let d = default_text(a.default);
    if a.doc@.len() == 0 {
        d
    } else if d.len() == 0 {
        a.doc@
    } else {
        a.doc@ + "  "@ + d
    }
}

/// The field is listed in a section of flags.
pub open spec fn in_sections(a: ArgSpec) -> bool {
    !a.skip && !a.positional && a.section is Some
}

/// The section titles of the first `n` fields, in the order they first
/// appear.
pub open spec fn titles_upto(specs: Seq<ArgSpec>, n: int) -> Seq<Seq<char>>
    decreases n,
{
    if n <= 0 {
        Seq::empty()
    } else {
        let p = titles_upto(specs, n - 1);
        let a = specs[n - 1];
        if in_sections(a) && !p.contains(a.section.unwrap()@) {
            p.push(a.section.unwrap()@)
        } else {
            p
        }
    }
}

/// The entries of section `t` among the first `n` fields.
pub open spec fn entries_upto(specs: Seq<ArgSpec>, t: Seq<char>, n: int) -> Seq<(bool, Seq<char>, Seq<char>)>
    decreases n,
{
    if n <= 0 {
        Seq::empty()
    } else {
        let p = entries_upto(specs, t, n - 1);
        let a = specs[n - 1];
        if in_sections(a) && a.section.unwrap()@ == t && flag_label(a) is Some {
            p.push(pair(flag_label(a).unwrap(), option_desc(a)))
        } else {
            p
        }
    }
}

/// The entries of the positional arguments among the first `n` fields.
pub open spec fn pos_entries_upto(specs: Seq<ArgSpec>, n: int) -> Seq<(bool, Seq<char>, Seq<char>)>
    decreases n,
{
    if n <= 0 {
        Seq::empty()
    } else {
        let p = pos_entries_upto(specs, n - 1);
        let a = specs[n - 1];
        if !a.skip && a.positional {
            p.push(pair(pos_label(a), a.doc@))
        } else {
            p
        }
    }
}

/// The fixed entries of the `Meta` section.
pub open spec fn meta_entries() -> Seq<(bool, Seq<char>, Seq<char>)> {
    seq![
        pair("-h, --help"@, "Print this help"@),
        pair("-V, --version"@, "Print version"@),
        pair("    --completions <SHELL>"@, "Generate completions (bash, zsh, fish)"@),
    ]
}

/// The help sections of an option struct: `Arguments` with the positional
/// arguments, one section per title in the order the titles first appear
/// (each with its options, in field order), then `Meta`.
pub open spec fn options_sections(specs: Seq<ArgSpec>) -> Seq<(Seq<char>, Seq<(bool, Seq<char>, Seq<char>)>)> {
    let n = specs.len() as int;
    seq![("Arguments"@, pos_entries_upto(specs, n))] + titles_upto(specs, n).map_values(
        |t: Seq<char>| (t, entries_upto(specs, t, n)),
    ) + seq![("Meta"@, meta_entries())]
}

/// The labels of all positional fields among the first `n`.
pub open spec fn pos_labels_upto(specs: Seq<ArgSpec>, n: int) -> Seq<Seq<char>>
    decreases n,
{
    if n <= 0 {
        Seq::empty()
    } else {
        let p = pos_labels_upto(specs, n - 1);
        if specs[n - 1].positional {
            p.push(pos_label(specs[n - 1]))
        } else {
            p
        }
    }
}

/// The usage line: the name, the positional labels, `[OPTIONS]`.
pub open spec fn options_usage(name: Seq<char>, specs: Seq<ArgSpec>) -> Seq<char> {
    name + " "@ + joined(pos_labels_upto(specs, specs.len() as int), " "@) + " [OPTIONS]"@
}

fn pos_label_exec(a: &ArgSpec) -> (r: String)
    ensures
        r@ == pos_label(*a),
{
    let mut s = String::new();
    push_char(&mut s, '<');
    let u = to_uppercase(a.field.as_str());
    s.append(u.as_str());
    push_char(&mut s, '>');
    proof {
        assert(s@ =~= pos_label(*a));
    }
    s
}

fn flag_label_exec(a: &ArgSpec) -> (r: Option<String>)
    ensures
        match r {
            Some(x) => flag_label(*a) == Some(x@),
            None => flag_label(*a) is None,
        },
{
    match a.short {
        Some(s) => {
            let mut out = String::new();
            push_char(&mut out, '-');
            push_char(&mut out, s);
            proof {
                assert(out@ =~= seq!['-', s]);
            }
            match &a.long {
                Some(l) => {
                    out.append(", --");
                    out.append(l.as_str());
                    let ghost base = out@;
                    if a.negatable {
                        out.append(" / --no-");
                        out.append(l.as_str());
                        assert(out@ == base + " / --no-"@ + l@);
                    } else if a.repeated {
                        out.append(" <N>...");
                    }
                    assert(base == seq!['-', s] + ", --"@ + l@);
                    Some(out)
                },
                None => Some(out),
            }
        },
        None => match &a.long {
            Some(l) => {
                let mut out = owned("    --");
                out.append(l.as_str());
                if a.negatable {
                    out.append(" / --no-");
                    out.append(l.as_str());
                } else if a.repeated {
                    out.append(" <N>...");
                } else if crate::strutil::chars_of(a.hint.as_str()).len() > 0 {
                    out.append(" <");
                    out.append(a.hint.as_str());
                    out.append(">");
                }
                Some(out)
            },
            None => None,
        },
    }
}

fn default_text_exec(d: &Option<DefaultVal>) -> (r: String)
    ensures
        r@ == default_text(*d),
{
    match d {
        Some(DefaultVal::Lit(s)) => {
            let mut out = owned("[default: ");
            out.append(s.as_str());
            out.append("]");
            out
        },
        Some(DefaultVal::Env(v, fb)) => {
            let mut out = owned("[default: $");
            out.append(v.as_str());
            match fb {
                Some(f) => {
                    out.append(" or ");
                    out.append(f.as_str());
                },
                None => {},
            }
            out.append("]");
            out
        },
        Some(DefaultVal::Auto) => owned("[default: auto]"),
        None => String::new(),
    }
}

fn option_desc_exec(a: &ArgSpec) -> (r: String)
    ensures
        r@ == option_desc(*a),
{
    let d = default_text_exec(&a.default);
    if crate::strutil::chars_of(a.doc.as_str()).len() == 0 {
        d
    } else if crate::strutil::chars_of(d.as_str()).len() == 0 {
        a.doc.clone()
    } else {
        let mut out = a.doc.clone();
        out.append("  ");
        out.append(d.as_str());
        out
    }
}

fn pair_entry(k: String, d: String) -> (r: HelpEntry)
    ensures
        entry_view(r) == pair(k@, d@),
{
    HelpEntry::Pair { key: k, desc: d }
}

fn contains_str(v: &Vec<String>, s: &str) -> (r: bool)
    ensures
        r == strs(v@).contains(s@),
{
    let mut k: usize = 0;
    while k < v.len()
        invariant
            0 <= k <= v@.len(),
            forall|x: int| 0 <= x < k ==> v@[x]@ != s@,
        decreases v@.len() - k,
    {
        if str_eq(v[k].as_str(), s) {
            proof {
                assert(strs(v@)[k as int] == s@);
            }
            return true;
        }
        k += 1;
    }
    proof {
        assert forall|x: int| 0 <= x < strs(v@).len() implies strs(v@)[x] != s@ by {
            assert(strs(v@)[x] == v@[x]@);
        }
    }
    false
}

fn section_entries(specs: &Vec<ArgSpec>, t: &str) -> (r: Vec<HelpEntry>)
    ensures
        r@.map_values(|e: HelpEntry| entry_view(e)) == entries_upto(specs@, t@, specs@.len() as int),
{
    let mut out: Vec<HelpEntry> = Vec::new();
    let mut k: usize = 0;
    while k < specs.len()
        invariant
            0 <= k <= specs@.len(),
            out@.map_values(|e: HelpEntry| entry_view(e)) == entries_upto(specs@, t@, k as int),
        decreases specs@.len() - k,
    {
        let a = &specs[k];
        if !a.skip && !a.positional {
            match &a.section {
                Some(sec) => {
                    if str_eq(sec.as_str(), t) {
                        match flag_label_exec(a) {
                            Some(label) => {
                                let d = option_desc_exec(a);
                                let e = pair_entry(label, d);
                                let ghost ev = entry_view(e);
                                let ghost prev = out@;
                                out.push(e);
                                proof {
                                    assert(out@.map_values(|e: HelpEntry| entry_view(e)) =~= prev.map_values(
                                        |e: HelpEntry| entry_view(e),
                                    ).push(ev));
                                }
                            },
                            None => {},
                        }
                    }
                },
                None => {},
            }
        }
        k += 1;
    }
    out
}

/// The help sections of an option struct (see [`options_sections`]).
pub fn options_help(specs: &Vec<ArgSpec>) -> (r: Vec<HelpSection>)
    ensures
        sections_view(r@) == options_sections(specs@),
{
    let ghost n = specs@.len() as int;
    // positional arguments
    let mut pos: Vec<HelpEntry> = Vec::new();
    let mut titles: Vec<String> = Vec::new();
    let mut k: usize = 0;
    while k < specs.len()
        invariant
            n == specs@.len(),
            0 <= k <= specs@.len(),
            pos@.map_values(|e: HelpEntry| entry_view(e)) == pos_entries_upto(specs@, k as int),
            strs(titles@) == titles_upto(specs@, k as int),
        decreases specs@.len() - k,
    {
        let a = &specs[k];
        if !a.skip && a.positional {
            let e = pair_entry(pos_label_exec(a), a.doc.clone());
            let ghost ev = entry_view(e);
            let ghost prev = pos@;
            pos.push(e);
            proof {
                assert(pos@.map_values(|e: HelpEntry| entry_view(e)) =~= prev.map_values(
                    |e: HelpEntry| entry_view(e),
                ).push(ev));
            }
        }
        if !a.skip && !a.positional {
            match &a.section {
                Some(sec) => {
                    if !contains_str(&titles, sec.as_str()) {
                        let ghost prev = titles@;
                        titles.push(sec.clone());
                        proof {
                            assert(strs(titles@) =~= strs(prev).push(sec@));
                        }
                    }
                },
                None => {},
            }
        }
        k += 1;
    }
    let mut out: Vec<HelpSection> = Vec::new();
    out.push(HelpSection { title: owned("Arguments"), entries: pos });
    let ghost ts = strs(titles@);
    let ghost f = |t: Seq<char>| (t, entries_upto(specs@, t, n));
    let mut i: usize = 0;
    proof {
        assert(sections_view(out@) =~= seq![("Arguments"@, pos_entries_upto(specs@, n))] + ts.take(
            0,
        ).map_values(f));
    }
    while i < titles.len()
        invariant
            n == specs@.len(),
            ts == strs(titles@),
            f == (|t: Seq<char>| (t, entries_upto(specs@, t, n))),
            0 <= i <= titles@.len(),
            sections_view(out@) == seq![("Arguments"@, pos_entries_upto(specs@, n))] + ts.take(
                i as int,
            ).map_values(f),
        decreases titles@.len() - i,
    {
        let es = section_entries(specs, titles[i].as_str());
        let sec = HelpSection { title: titles[i].clone(), entries: es };
        let ghost prev = out@;
        out.push(sec);
        proof {
            assert(ts[i as int] == titles@[i as int]@);
            assert(ts.take(i + 1).map_values(f) =~= ts.take(i as int).map_values(f).push(
                f(ts[i as int]),
            ));
            assert(sections_view(out@) =~= sections_view(prev).push(f(ts[i as int])));
            assert(sections_view(out@) =~= seq![("Arguments"@, pos_entries_upto(specs@, n))]
                + ts.take(i + 1).map_values(f));
        }
        i += 1;
    }
    let mut meta: Vec<HelpEntry> = Vec::new();
    meta.push(pair_entry(owned("-h, --help"), owned("Print this help")));
    meta.push(pair_entry(owned("-V, --version"), owned("Print version")));
    meta.push(
        pair_entry(owned("    --completions <SHELL>"), owned("Generate completions (bash, zsh, fish)")),
    );
    let ghost before = out@;
    out.push(HelpSection { title: owned("Meta"), entries: meta });
    proof {
        assert(meta@.map_values(|e: HelpEntry| entry_view(e)) =~= meta_entries());
        assert(ts.take(ts.len() as int) =~= ts);
        assert(sections_view(out@) =~= sections_view(before).push(("Meta"@, meta_entries())));
        assert(sections_view(out@) =~= options_sections(specs@));
    }
    out
}

/// The usage line of an option struct (see [`options_usage`]).
pub fn options_usage_line(name: &str, specs: &Vec<ArgSpec>) -> (r: String)
    ensures
        r@ == options_usage(name@, specs@),
{
    let mut labels: Vec<String> = Vec::new();
    let mut k: usize = 0;
    while k < specs.len()
        invariant
            0 <= k <= specs@.len(),
            strs(labels@) == pos_labels_upto(specs@, k as int),
        decreases specs@.len() - k,
    {
        if specs[k].positional {
            let l = pos_label_exec(&specs[k]);
            let ghost prev = labels@;
            labels.push(l);
            proof {
                assert(strs(labels@) =~= strs(prev).push(pos_label(specs@[k as int])));
            }
        }
        k += 1;
    }
    let mut out = owned(name);
    out.append(" ");
    let j = crate::strutil::join(&labels, " ");
    out.append(j.as_str());
    out.append(" [OPTIONS]");
    out
}

} // verus!
