//! The checks an option's value must pass (`validate(...)` on a field),
//! with the facts about the file system that they read handed in.

use vstd::prelude::*;
use vstd::string::StringSliceAdditionalSpecFns;
use vstd::utf8::encode_utf8;
use crate::args::{debug_str, plain_ascii, str_debug};
use crate::complete::{eq_ignore_case, last_component, name_ext, path_extension, path_known};
use crate::matching::{glob, glob_defined, glob_is_defined, glob_match};
use crate::strutil::{
    decimal, fmt_i64, fmt_usize, joined, owned, parse_i64, parsed_i64, signed_decimal, str_eq,
};

verus! {

broadcast use vstd::string::group_string_axioms;

/// One check on a value.
#[derive(Clone, Debug)]
pub enum ArgCheck {
    /// The path exists.
    Exists,
    /// The path is a file.
    IsFile,
    /// The path is a directory.
    IsDir,
    /// The path's extension is one of these (any case).
    Ext(Vec<String>),
    /// The value is an integer within these bounds.
    Range(Option<i64>, Option<i64>),
    /// The value is one of these.
    OneOf(Vec<String>),
    /// The value has at least this many bytes.
    MinLen(usize),
    /// The value has at most this many bytes.
    MaxLen(usize),
    /// The value matches this glob pattern.
    Glob(String),
    /// The value equals this environment variable (or the fallback), when
    /// that is not empty.
    Env(String, Option<String>),
}

/// What the checks read from outside: the file system at the value's path
/// and the value of the environment variable a check names.
#[derive(Clone, Debug)]
pub struct FsFacts {
    pub exists: bool,
    pub is_file: bool,
    pub is_dir: bool,
    pub env_value: Option<String>,
}

/// What `{:?}` writes for a path (std's `Debug` for `Path`).
pub uninterp spec fn path_debug(s: Seq<char>) -> Seq<char>;

/// Formats the path `s` with `{:?}`; the result is the name `path_debug`.
#[verifier::external_body]
fn debug_path(s: &str) -> (r: String)
    ensures
        r@ == path_debug(s@),
{
    format!("{:?}", std::path::Path::new(s))
}

/// Some of `exts` equals `e` up to ASCII case.
pub open spec fn ext_listed(exts: Seq<Seq<char>>, e: Seq<char>) -> bool {
    exists|k: int| 0 <= k < exts.len() && eq_ignore_case(exts[k], e)
}

/// The extension a path check compares: the path's extension, or empty.
pub open spec fn ext_text(value: Seq<char>) -> Seq<char> {
    match name_ext(last_component(value)) {
        Some(e) => e,
        None => Seq::empty(),
    }
}

/// The number of bytes of a value's UTF-8 text (`str::len`).
pub open spec fn value_bytes(value: Seq<char>) -> nat {
    encode_utf8(value).len()
}

pub open spec fn invalid(field: Seq<char>) -> Seq<char> {
    "invalid value for `"@ + field + "`: "@
}

/// The error of check `c` on `value` of field `field`, or `None` when it
/// passes:
/// - `Exists`, `IsFile`, `IsDir`: the path, as `{:?}` writes it, when the
///   fact is false;
/// - `Ext`: the extension is not listed (stated for paths whose last
///   component is known, see [`path_known`]);
/// - `Range`: not an integer, below the minimum or above the maximum;
/// - `OneOf`: not listed; `MinLen`/`MaxLen`: too few or too many bytes;
/// - `Glob`: no match; `Env`: differs from a non-empty expected value.
pub open spec fn check_error(c: ArgCheck, field: Seq<char>, value: Seq<char>, fs: FsFacts) -> Option<Seq<char>> {
    match c {
        ArgCheck::Exists => if fs.exists {
            None
        } else {
            Some("path does not exist: "@ + path_debug(value))
        },
        ArgCheck::IsFile => if fs.is_file {
            None
        } else {
            Some("not a file: "@ + path_debug(value))
        },
        ArgCheck::IsDir => if fs.is_dir {
            None
        } else {
            Some("not a directory: "@ + path_debug(value))
        },
        ArgCheck::Ext(exts) => if ext_listed(crate::args::strs(exts@), ext_text(value)) {
            None
        } else {
            Some(
                "invalid file extension for `"@ + field + "`: "@ + path_debug(value)
                    + " — expected one of: "@ + joined(crate::args::strs(exts@), ", "@),
            )
        },
        ArgCheck::Range(min, max) => match parsed_i64(value) {
            None => Some(invalid(field) + str_debug(value)),
            Some(n) => if min matches Some(m) && n < m {
                Some(
                    invalid(field) + signed_decimal(n as int) + " is below minimum "@
                        + signed_decimal(min.unwrap() as int),
                )
            } else if max matches Some(m) && n > m {
                Some(
                    invalid(field) + signed_decimal(n as int) + " exceeds maximum "@
                        + signed_decimal(max.unwrap() as int),
                )
            } else {
                None
            },
        },
        ArgCheck::OneOf(vals) => if crate::args::strs(vals@).contains(value) {
            None
        } else {
            Some(
                invalid(field) + str_debug(value) + "\n│  expected one of: "@ + joined(
                    crate::args::strs(vals@),
                    ", "@,
                ),
            )
        },
        ArgCheck::MinLen(n) => if value_bytes(value) < n {
            Some(
                invalid(field) + "too short ("@ + decimal(value_bytes(value)) + " chars, minimum "@
                    + decimal(n as nat) + ")"@,
            )
        } else {
            None
        },
        ArgCheck::MaxLen(n) => if value_bytes(value) > n {
            Some(
                invalid(field) + "too long ("@ + decimal(value_bytes(value)) + " chars, maximum "@
                    + decimal(n as nat) + ")"@,
            )
        } else {
            None
        },
        ArgCheck::Glob(p) => if glob(encode_utf8(p@), encode_utf8(value)) {
            None
        } else {
            Some(invalid(field) + str_debug(value) + " does not match pattern `"@ + p@ + "`"@)
        },
        ArgCheck::Env(var, fallback) => {
            let ev = match fs.env_value {
                Some(v) => v@,
                None => match fallback {
                    Some(f) => f@,
                    None => Seq::empty(),
                },
            };
            if ev.len() > 0 && value != ev {
                Some(
                    invalid(field) + str_debug(value) + " does not match $"@ + var@ + " ("@
                        + str_debug(ev) + ")"@,
                )
            } else {
                None
            }
        },
    }
}

fn ext_listed_exec(exts: &Vec<String>, e: &str) -> (r: bool)
    ensures
        r == ext_listed(crate::args::strs(exts@), e@),
{
    let ghost xs = crate::args::strs(exts@);
    let mut k: usize = 0;
    while k < exts.len()
        invariant
            xs == crate::args::strs(exts@),
            0 <= k <= exts@.len(),
            forall|x: int| 0 <= x < k ==> !eq_ignore_case(xs[x], e@),
        decreases exts@.len() - k,
    {
        proof {
            assert(xs[k as int] == exts@[k as int]@);
        }
        if crate::complete::eq_ignore_case_exec(exts[k].as_str(), e) {
            return true;
        }
        k += 1;
    }
    false
}

fn listed_exec(vals: &Vec<String>, v: &str) -> (r: bool)
    ensures
        r == crate::args::strs(vals@).contains(v@),
{
    let ghost xs = crate::args::strs(vals@);
    let mut k: usize = 0;
    while k < vals.len()
        invariant
            xs == crate::args::strs(vals@),
            0 <= k <= vals@.len(),
            forall|x: int| 0 <= x < k ==> xs[x] != v@,
        decreases vals@.len() - k,
    {
        proof {
            assert(xs[k as int] == vals@[k as int]@);
        }
        if str_eq(vals[k].as_str(), v) {
            return true;
        }
        k += 1;
    }
    false
}

/// The error of an extension check.
pub open spec fn ext_message(exts: Seq<Seq<char>>, field: Seq<char>, value: Seq<char>) -> Seq<char> {
    "invalid file extension for `"@ + field + "`: "@ + path_debug(value) + " — expected one of: "@
        + joined(exts, ", "@)
}

/// Run check `c` on `value` of field `field` (see [`check_error`]); a glob
/// pattern must be one the matcher can run on the value (an unclosed `[`
/// class that holds the byte to match stops it). Whether an extension
/// check passes is stated for paths whose last component is known (see
/// [`path_known`]); of other paths only the message is.
pub fn check_arg(c: &ArgCheck, field: &str, value: &str, fs: &FsFacts) -> (r: Result<(), String>)
    requires
        c matches ArgCheck::Glob(p) ==> glob_defined(encode_utf8(p@), encode_utf8(value@)),
    ensures
        !(c is Ext) || path_known(value@) ==> {
            &&& r is Ok ==> check_error(*c, field@, value@, *fs) is None
            &&& r matches Err(m) ==> check_error(*c, field@, value@, *fs) == Some(m@)
        },
        c matches ArgCheck::Ext(exts) ==> (r is Ok || (r matches Err(m) && m@ == ext_message(
            crate::args::strs(exts@),
            field@,
            value@,
        ))),
{
    match c {
        ArgCheck::Exists => {
            if fs.exists {
                Ok(())
            } else {
                let mut m = owned("path does not exist: ");
                let d = debug_path(value);
                m.append(d.as_str());
                Err(m)
            }
        },
        ArgCheck::IsFile => {
            if fs.is_file {
                Ok(())
            } else {
                let mut m = owned("not a file: ");
                let d = debug_path(value);
                m.append(d.as_str());
                Err(m)
            }
        },
        ArgCheck::IsDir => {
            if fs.is_dir {
                Ok(())
            } else {
                let mut m = owned("not a directory: ");
                let d = debug_path(value);
                m.append(d.as_str());
                Err(m)
            }
        },
        ArgCheck::Ext(exts) => {
            let e = match path_extension(value) {
                Some(x) => x,
                None => String::new(),
            };
            if ext_listed_exec(exts, e.as_str()) {
                Ok(())
            } else {
                let mut m = owned("invalid file extension for `");
                m.append(field);
                m.append("`: ");
                let d = debug_path(value);
                m.append(d.as_str());
                m.append(" — expected one of: ");
                let j = crate::strutil::join(exts, ", ");
                m.append(j.as_str());
                Err(m)
            }
        },
        ArgCheck::Range(min, max) => {
            let mut m = owned("invalid value for `");
            m.append(field);
            m.append("`: ");
            match parse_i64(value) {
                None => {
                    let d = debug_str(value);
                    m.append(d.as_str());
                    Err(m)
                },
                Some(n) => {
                    match min {
                        Some(lo) => {
                            if n < *lo {
                                let a = fmt_i64(n);
                                m.append(a.as_str());
                                m.append(" is below minimum ");
                                let b = fmt_i64(*lo);
                                m.append(b.as_str());
                                return Err(m);
                            }
                        },
                        None => {},
                    }
                    match max {
                        Some(hi) => {
                            if n > *hi {
                                let a = fmt_i64(n);
                                m.append(a.as_str());
                                m.append(" exceeds maximum ");
                                let b = fmt_i64(*hi);
                                m.append(b.as_str());
                                return Err(m);
                            }
                        },
                        None => {},
                    }
                    Ok(())
                },
            }
        },
        ArgCheck::OneOf(vals) => {
            if listed_exec(vals, value) {
                Ok(())
            } else {
                let mut m = owned("invalid value for `");
                m.append(field);
                m.append("`: ");
                let d = debug_str(value);
                m.append(d.as_str());
                m.append("\n│  expected one of: ");
                let j = crate::strutil::join(vals, ", ");
                m.append(j.as_str());
                Err(m)
            }
        },
        ArgCheck::MinLen(n) => {
            let len = value.as_bytes().len();
            if len < *n {
                let mut m = owned("invalid value for `");
                m.append(field);
                m.append("`: ");
                m.append("too short (");
                let a = fmt_usize(len);
                m.append(a.as_str());
                m.append(" chars, minimum ");
                let b = fmt_usize(*n);
                m.append(b.as_str());
                m.append(")");
                Err(m)
            } else {
                Ok(())
            }
        },
        ArgCheck::MaxLen(n) => {
            let len = value.as_bytes().len();
            if len > *n {
                let mut m = owned("invalid value for `");
                m.append(field);
                m.append("`: ");
                m.append("too long (");
                let a = fmt_usize(len);
                m.append(a.as_str());
                m.append(" chars, maximum ");
                let b = fmt_usize(*n);
                m.append(b.as_str());
                m.append(")");
                Err(m)
            } else {
                Ok(())
            }
        },
        ArgCheck::Glob(p) => {
            if glob_match(p.as_str(), value) {
                Ok(())
            } else {
                let mut m = owned("invalid value for `");
                m.append(field);
                m.append("`: ");
                let d = debug_str(value);
                m.append(d.as_str());
                m.append(" does not match pattern `");
                m.append(p.as_str());
                m.append("`");
                Err(m)
            }
        },
        ArgCheck::Env(var, fallback) => {
            let ev: String = match &fs.env_value {
                Some(v) => v.clone(),
                None => match fallback {
                    Some(f) => f.clone(),
                    None => String::new(),
                },
            };
            if !ev.as_str().is_empty() && !str_eq(value, ev.as_str()) {
                let mut m = owned("invalid value for `");
                m.append(field);
                m.append("`: ");
                let d = debug_str(value);
                m.append(d.as_str());
                m.append(" does not match $");
                m.append(var.as_str());
                m.append(" (");
                let e = debug_str(ev.as_str());
                m.append(e.as_str());
                m.append(")");
                Err(m)
            } else {
                Ok(())
            }
        },
    }
}

/// The warning of a `warn_if` check on a value, or `None`: an existing
/// path, a file, a directory.
pub open spec fn check_warning(c: ArgCheck, field: Seq<char>, fs: FsFacts) -> Option<Seq<char>> {
    let head = "warning for `"@ + field + "`: "@;
    match c {
        ArgCheck::Exists => if fs.exists {
            Some(head + "path already exists — may be overwritten"@)
        } else {
            None
        },
        ArgCheck::IsFile => if fs.is_file {
            Some(head + "path is a file"@)
        } else {
            None
        },
        ArgCheck::IsDir => if fs.is_dir {
            Some(head + "path is a directory"@)
        } else {
            None
        },
        _ => None,
    }
}

/// The warning of a `warn_if` check (see [`check_warning`]).
pub fn arg_warning(c: &ArgCheck, field: &str, fs: &FsFacts) -> (r: Option<String>)
    ensures
        match r {
            Some(m) => check_warning(*c, field@, *fs) == Some(m@),
            None => check_warning(*c, field@, *fs) is None,
        },
{
    let mut head = owned("warning for `");
    head.append(field);
    head.append("`: ");
    match c {
        ArgCheck::Exists => {
            if fs.exists {
                head.append("path already exists — may be overwritten");
                Some(head)
            } else {
                None
            }
        },
        ArgCheck::IsFile => {
            if fs.is_file {
                head.append("path is a file");
                Some(head)
            } else {
                None
            }
        },
        ArgCheck::IsDir => {
            if fs.is_dir {
                head.append("path is a directory");
                Some(head)
            } else {
                None
            }
        },
        _ => None,
    }
}

} // verus!
