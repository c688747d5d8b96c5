//! Streamed log output: a header symbol, then every line of every chunk
//! behind the framed `│  ` prefix.
//!
//! Each function returns the text to write, ending in a newline.

use vstd::prelude::*;
use crate::strutil::{split_on, split_str};
use crate::styles::{dim, paint, painted, white};
use super::log::{S_ERROR, S_INFO, S_STEP, S_SUCCESS, S_WARN};
use super::settings::Settings;
use super::theme::BAR;

verus! {

broadcast use vstd::string::group_string_axioms;

/// The lines of all chunks in order, each chunk split at `\n`.
pub open spec fn pieces_of(chunks: Seq<Seq<char>>) -> Seq<Seq<char>>
    decreases chunks.len(),
{
    if chunks.len() == 0 {
        Seq::empty()
    } else {
        pieces_of(chunks.drop_last()) + split_on(chunks.last(), seq!['\n'])
    }
}

/// The lines written one after the other: the first after the symbol, the
/// others on fresh `│  ` rows.
pub open spec fn stream_body(pieces: Seq<Seq<char>>, symbol: Seq<char>) -> Seq<char>
    decreases pieces.len(),
{
    if pieces.len() == 0 {
        Seq::empty()
    } else {
        stream_body(pieces.drop_last(), symbol) + (if pieces.len() == 1 {
            symbol + "  "@
        } else {
            "\n"@ + painted(crate::styles::spec_dim(), BAR@) + "  "@
        }) + painted(crate::styles::spec_white(), pieces.last())
    }
}

/// The whole text: a `│` row, the lines, a final newline.
pub open spec fn stream_text(chunks: Seq<Seq<char>>, symbol: Seq<char>) -> Seq<char> {
    painted(crate::styles::spec_dim(), BAR@) + "\n"@ + stream_body(pieces_of(chunks), symbol) + "\n"@
}

/// The text for the lines `ps` of one chunk, when `started` tells
/// whether a line was written before them.
pub open spec fn run_text(ps: Seq<Seq<char>>, started: bool, symbol: Seq<char>) -> Seq<char>
    decreases ps.len(),
{
    if ps.len() == 0 {
        Seq::empty()
    } else {
        run_text(ps.drop_last(), started, symbol) + (if ps.len() == 1 && !started {
            symbol + "  "@
        } else {
            "\n"@ + painted(crate::styles::spec_dim(), BAR@) + "  "@
        }) + painted(crate::styles::spec_white(), ps.last())
    }
}

/// Streaming in pieces writes the same text as writing everything at
/// once: the lines before, then each chunk's text after them.
pub proof fn law_stream_in_chunks(before: Seq<Seq<char>>, ps: Seq<Seq<char>>, symbol: Seq<char>)
    ensures
        stream_body(before + ps, symbol) == stream_body(before, symbol) + run_text(
            ps,
            before.len() > 0,
            symbol,
        ),
    decreases ps.len(),
{
    if ps.len() == 0 {
        assert(before + ps =~= before);
    } else {
        law_stream_in_chunks(before, ps.drop_last(), symbol);
        assert((before + ps).drop_last() =~= before + ps.drop_last());
    }
}

/// The first row of a stream: a dimmed `│` and a newline.
pub fn stream_head() -> (r: String)
    ensures
        r@ == painted(crate::styles::spec_dim(), BAR@) + "\n"@,
{
    let mut out = paint(dim(), BAR);
    out.append("\n");
    out
}

/// The text of one chunk, split at `\n`, after a stream that has
/// (`started`) or has not written a line yet; and whether a line has been
/// written after it.
pub fn chunk_text(chunk: &str, started: bool, symbol: &str) -> (r: (String, bool))
    ensures
        r.0@ == run_text(split_on(chunk@, seq!['\n']), started, symbol@),
        r.1 == (started || split_on(chunk@, seq!['\n']).len() > 0),
{
    let mut nl = String::new();
    crate::strutil::push_char(&mut nl, '\n');
    proof {
        assert(nl@ =~= seq!['\n']);
    }
    let bar = paint(dim(), BAR);
    let parts = split_str(chunk, nl.as_str());
    let ghost ps = parts@.map_values(|x: String| x@);
    let mut out = String::new();
    let mut i: usize = 0;
    proof {
        assert(ps.take(0) =~= Seq::<Seq<char>>::empty());
    }
    while i < parts.len()
        invariant
            ps == parts@.map_values(|x: String| x@),
            ps == split_on(chunk@, seq!['\n']),
            bar@ == painted(crate::styles::spec_dim(), BAR@),
            0 <= i <= parts@.len(),
            out@ == run_text(ps.take(i as int), started, symbol@),
        decreases parts@.len() - i,
    {
        if started || i > 0 {
            out.append("\n");
            out.append(bar.as_str());
            out.append("  ");
        } else {
            out.append(symbol);
            out.append("  ");
        }
        let w = paint(white(), parts[i].as_str());
        out.append(w.as_str());
        proof {
            assert(ps.take(i + 1).drop_last() =~= ps.take(i as int));
            assert(ps.take(i + 1).last() == parts@[i as int]@);
        }
        i += 1;
    }
    proof {
        assert(ps.take(parts@.len() as int) =~= ps);
    }
    (out, started || parts.len() > 0)
}

/// The text for `chunks` with `symbol` before the first line.
pub fn message(chunks: &Vec<String>, symbol: &str) -> (r: String)
    ensures
        r@ == stream_text(chunks@.map_values(|x: String| x@), symbol@),
{
    let ghost cs = chunks@.map_values(|x: String| x@);
    let mut out = stream_head();
    let ghost head = out@;
    let mut started = false;
    let mut c: usize = 0;
    proof {
        assert(cs.take(0) =~= Seq::<Seq<char>>::empty());
    }
    while c < chunks.len()
        invariant
            cs == chunks@.map_values(|x: String| x@),
            0 <= c <= chunks@.len(),
            started == (pieces_of(cs.take(c as int)).len() > 0),
            out@ == head + stream_body(pieces_of(cs.take(c as int)), symbol@),
        decreases chunks@.len() - c,
    {
        let ghost before = pieces_of(cs.take(c as int));
        proof {
            assert(cs.take(c + 1).drop_last() =~= cs.take(c as int));
            assert(cs[c as int] == chunks@[c as int]@);
            law_stream_in_chunks(before, split_on(cs[c as int], seq!['\n']), symbol@);
        }
        let (t, now) = chunk_text(chunks[c].as_str(), started, symbol);
        out.append(t.as_str());
        started = now;
        c += 1;
    }
    proof {
        assert(cs.take(chunks@.len() as int) =~= cs);
    }
    out.append("\n");
    out
}

} // verus!
