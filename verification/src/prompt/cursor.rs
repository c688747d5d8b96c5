//! In-buffer text cursor: a single-line buffer plus a cursor position, with
//! the editing operations every text-style prompt needs.

use vstd::prelude::*;
use crate::strutil::{char_is_whitespace, is_white_space, string_of, string_of_range};
use crate::styles::{paint, painted, Style, dim};

verus! {

broadcast use vstd::string::group_string_axioms;

// ── the model: (content, cursor) ─────────────────────────────────────────────

/// Index where the whitespace run that ends at `i` starts.
pub open spec fn skip_space_back(s: Seq<char>, i: int) -> int
    decreases i,
{
    if i <= 0 {
        0
    } else if is_white_space(s[i - 1]) {
        skip_space_back(s, i - 1)
    } else {
        i
    }
}

/// Index where the run of non-whitespace characters that ends at `i` starts.
pub open spec fn skip_word_back(s: Seq<char>, i: int) -> int
    decreases i,
{
    if i <= 0 {
        0
    } else if !is_white_space(s[i - 1]) {
        skip_word_back(s, i - 1)
    } else {
        i
    }
}

/// Content after inserting `c` at the cursor.
pub open spec fn inserted(s: Seq<char>, cur: int, c: char) -> Seq<char> {
    s.subrange(0, cur) + seq![c] + s.subrange(cur, s.len() as int)
}

/// Content after removing the characters in `[from, to)`.
pub open spec fn removed(s: Seq<char>, from: int, to: int) -> Seq<char> {
    s.subrange(0, from) + s.subrange(to, s.len() as int)
}

/// Inverse-video block used to show the cursor.
pub open spec fn cursor_block(c: Seq<char>) -> Seq<char> {
    "\x1b[7m"@ + c + "\x1b[27m"@
}

fn space_block() -> (r: String)
    ensures
        r@ == cursor_block(" "@),
{
    let mut blk = String::new();
    blk.append("\x1b[7m");
    blk.append(" ");
    blk.append("\x1b[27m");
    blk
}

/// A single-line text buffer with a cursor measured in characters.
pub struct LineBuf {
    buf: Vec<char>,
    cur: usize,
    text: String,
}

impl LineBuf {
    /// The characters in the buffer.
    pub closed spec fn content(&self) -> Seq<char> {
        self.buf@
    }

    /// The cursor position: the number of characters before it.
    pub closed spec fn cursor(&self) -> nat {
        self.cur as nat
    }

    /// The cursor lies within the buffer and the cached text agrees with it.
    pub closed spec fn wf(&self) -> bool {
        &&& self.cur <= self.buf.len()
        &&& self.text@ == self.buf@
    }

    /// In a well-formed buffer the cursor lies within the content.
    pub proof fn lemma_wf(&self)
        requires
            self.wf(),
        ensures
            self.cursor() <= self.content().len(),
    {
    }

    /// An empty buffer with the cursor at the start.
    pub fn new() -> (r: LineBuf)
        ensures
            r.wf(),
            r.content() == Seq::<char>::empty(),
            r.cursor() == 0,
    {
        LineBuf { buf: Vec::new(), cur: 0, text: String::new() }
    }

    fn sync(&mut self)
        requires
            old(self).cur <= old(self).buf.len(),
        ensures
            final(self).wf(),
            final(self).buf@ == old(self).buf@,
            final(self).cur == old(self).cur,
    {
        self.text = string_of(&self.buf);
    }

    /// The text in the buffer.
    pub fn value(&self) -> (r: &str)
        requires
            self.wf(),
        ensures
            r@ == self.content(),
    {
        self.text.as_str()
    }

    /// `true` when the buffer holds no characters.
    pub fn is_empty(&self) -> (r: bool)
        requires
            self.wf(),
        ensures
            r == (self.content().len() == 0),
    {
        self.buf.len() == 0
    }

    /// Insert `c` at the cursor and move the cursor past it.
    pub fn insert(&mut self, c: char)
        requires
            old(self).wf(),
        ensures
            final(self).wf(),
            final(self).content() == inserted(old(self).content(), old(self).cursor() as int, c),
            final(self).cursor() == old(self).cursor() + 1,
    {
        self.buf.insert(self.cur, c);
        assert(self.buf.len() == old(self).buf.len() + 1);
        self.cur = self.cur + 1;
        assert(self.buf@ =~= inserted(old(self).buf@, old(self).cur as int, c));
        self.sync();
    }

    /// Remove the character before the cursor, if any.
    pub fn backspace(&mut self)
        requires
            old(self).wf(),
        ensures
            final(self).wf(),
            old(self).cursor() == 0 ==> final(self).content() == old(self).content()
                && final(self).cursor() == 0,
            old(self).cursor() > 0 ==> final(self).content() == removed(
                old(self).content(),
                old(self).cursor() - 1,
                old(self).cursor() as int,
            ) && final(self).cursor() == old(self).cursor() - 1,
    {
        if self.cur == 0 {
            return;
        }
        self.cur = self.cur - 1;
        self.buf.remove(self.cur);
        assert(self.buf@ =~= removed(old(self).buf@, self.cur as int, old(self).cur as int));
        self.sync();
    }

    /// Remove the character under the cursor, if any.
    pub fn delete(&mut self)
        requires
            old(self).wf(),
        ensures
            final(self).wf(),
            final(self).cursor() == old(self).cursor(),
            old(self).cursor() >= old(self).content().len() ==> final(self).content() == old(
                self,
            ).content(),
            old(self).cursor() < old(self).content().len() ==> final(self).content() == removed(
                old(self).content(),
                old(self).cursor() as int,
                old(self).cursor() + 1 as int,
            ),
    {
        if self.cur >= self.buf.len() {
            return;
        }
        self.buf.remove(self.cur);
        assert(self.buf@ =~= removed(old(self).buf@, self.cur as int, self.cur + 1));
        self.sync();
    }

    /// Delete the word before the cursor: first any whitespace directly
    /// before it, then the run of non-whitespace characters before that.
    pub fn delete_word_back(&mut self)
        requires
            old(self).wf(),
        ensures
            final(self).wf(),
            ({
                let s = old(self).content();
                let start = skip_word_back(s, skip_space_back(s, old(self).cursor() as int));
                &&& final(self).cursor() == start
                &&& final(self).content() == removed(s, start, old(self).cursor() as int)
            }),
    {
        let start = self.cur;
        let ghost s = self.buf@;
        while self.cur > 0
            invariant_except_break
                self.buf@ == s,
                self.cur <= start <= s.len(),
                skip_space_back(s, start as int) == skip_space_back(s, self.cur as int),
            ensures
                self.buf@ == s,
                self.cur <= start <= s.len(),
                self.cur == skip_space_back(s, start as int),
            decreases self.cur,
        {
            let prev = self.buf[self.cur - 1];
            if !char_is_whitespace(prev) {
                break;
            }
            self.cur = self.cur - 1;
        }
        let mid = self.cur;
        while self.cur > 0
            invariant_except_break
                self.buf@ == s,
                self.cur <= mid <= start <= s.len(),
                mid == skip_space_back(s, start as int),
                skip_word_back(s, mid as int) == skip_word_back(s, self.cur as int),
            ensures
                self.buf@ == s,
                self.cur <= start <= s.len(),
                self.cur == skip_word_back(s, skip_space_back(s, start as int)),
            decreases self.cur,
        {
            let prev = self.buf[self.cur - 1];
            if char_is_whitespace(prev) {
                break;
            }
            self.cur = self.cur - 1;
        }
        let mut k: usize = self.cur;
        let ghost c0 = self.cur;
        while k < start
            invariant
                self.cur == c0,
                c0 == skip_word_back(s, skip_space_back(s, start as int)),
                self.cur <= k <= start <= s.len(),
                self.buf@ == removed(s, self.cur as int, k as int),
            decreases start - k,
        {
            self.buf.remove(self.cur);
            k = k + 1;
            assert(self.buf@ =~= removed(s, self.cur as int, k as int));
        }
        proof {
            assert(removed(s, self.cur as int, self.cur as int) =~= s);
        }
        self.sync();
    }

    /// Move the cursor one character left (no-op at the start).
    pub fn left(&mut self)
        requires
            old(self).wf(),
        ensures
            final(self).wf(),
            final(self).content() == old(self).content(),
            final(self).cursor() == if old(self).cursor() == 0 {
                0
            } else {
                (old(self).cursor() - 1) as nat
            },
    {
        if self.cur == 0 {
            return;
        }
        self.cur = self.cur - 1;
    }

    /// Move the cursor one character right (no-op at the end).
    pub fn right(&mut self)
        requires
            old(self).wf(),
        ensures
            final(self).wf(),
            final(self).content() == old(self).content(),
            final(self).cursor() == if old(self).cursor() >= old(self).content().len() {
                old(self).cursor()
            } else {
                old(self).cursor() + 1
            },
    {
        if self.cur >= self.buf.len() {
            return;
        }
        self.cur = self.cur + 1;
    }

    /// Move the cursor to the start.
    pub fn home(&mut self)
        requires
            old(self).wf(),
        ensures
            final(self).wf(),
            final(self).content() == old(self).content(),
            final(self).cursor() == 0,
    {
        self.cur = 0;
    }

    /// Move the cursor past the last character.
    pub fn end(&mut self)
        requires
            old(self).wf(),
        ensures
            final(self).wf(),
            final(self).content() == old(self).content(),
            final(self).cursor() == old(self).content().len(),
    {
        self.cur = self.buf.len();
    }

    /// The rendering of the buffer with the cursor shown as an inverse-video
    /// block, all in `input` style.
    pub open spec fn spec_with_cursor(content: Seq<char>, cur: nat, input: Style) -> Seq<char> {
        if content.len() == 0 {
            painted(input, cursor_block(" "@))
        } else if cur >= content.len() {
            painted(input, content) + painted(input, cursor_block(" "@))
        } else {
            painted(input, content.subrange(0, cur as int)) + painted(
                input,
                cursor_block(seq![content[cur as int]]),
            ) + painted(input, content.subrange(cur as int + 1, content.len() as int))
        }
    }

    /// Render the buffer with an inverse-video block where the cursor is.
    pub fn with_cursor(&self, input: Style) -> (r: String)
        requires
            self.wf(),
        ensures
            r@ == Self::spec_with_cursor(self.content(), self.cursor(), input),
    {
        if self.buf.len() == 0 {
            let blk = space_block();
            return paint(input, blk.as_str());
        }
        if self.cur >= self.buf.len() {
            let mut out = paint(input, self.text.as_str());
            let sp = space_block();
            let blk = paint(input, sp.as_str());
            out.append(blk.as_str());
            return out;
        }
        let before = string_of_range(&self.buf, 0, self.cur);
        let under = string_of_range(&self.buf, self.cur, self.cur + 1);
        let after = string_of_range(&self.buf, self.cur + 1, self.buf.len());
        let mut blk = String::new();
        blk.append("\x1b[7m");
        blk.append(under.as_str());
        blk.append("\x1b[27m");
        let mut out = paint(input, before.as_str());
        let b = paint(input, blk.as_str());
        out.append(b.as_str());
        let a = paint(input, after.as_str());
        out.append(a.as_str());
        proof {
            assert(under@ =~= seq![self.buf@[self.cur as int]]);
        }
        out
    }

    /// The rendering with a dimmed placeholder for an empty buffer.
    pub open spec fn spec_with_placeholder(
        content: Seq<char>,
        cur: nat,
        placeholder: Seq<char>,
        input: Style,
    ) -> Seq<char> {
        if content.len() == 0 && placeholder.len() > 0 {
            painted(dim(), placeholder)
        } else {
            Self::spec_with_cursor(content, cur, input)
        }
    }

    /// Render with `placeholder` (dimmed) when the buffer is empty.
    pub fn with_placeholder(&self, placeholder: &str, input: Style) -> (r: String)
        requires
            self.wf(),
        ensures
            r@ == Self::spec_with_placeholder(self.content(), self.cursor(), placeholder@, input),
    {
        if self.buf.len() == 0 && !placeholder.is_empty() {
            paint(dim(), placeholder)
        } else {
            self.with_cursor(input)
        }
    }
}

// ── laws ─────────────────────────────────────────────────────────────────────

/// Inserting a character and then deleting it with backspace gives back the
/// original content, with the cursor where it was.
pub proof fn law_insert_then_backspace(s: Seq<char>, cur: int, c: char)
    requires
        0 <= cur <= s.len(),
    ensures
        removed(inserted(s, cur, c), cur, cur + 1) == s,
{
    assert(removed(inserted(s, cur, c), cur, cur + 1) =~= s);
}

/// The range a word deletion removes starts at or after the start of the
/// text and ends at the cursor: the cursor never moves right.
pub proof fn law_word_back_bounds(s: Seq<char>, cur: int)
    requires
        0 <= cur <= s.len(),
    ensures
        0 <= skip_word_back(s, skip_space_back(s, cur)) <= skip_space_back(s, cur) <= cur,
{
    lemma_skip_space_back(s, cur);
    lemma_skip_word_back(s, skip_space_back(s, cur));
}

proof fn lemma_skip_space_back(s: Seq<char>, i: int)
    ensures
        i >= 0 ==> 0 <= skip_space_back(s, i) <= i,
    decreases i,
{
    if i > 0 {
        lemma_skip_space_back(s, i - 1);
    }
}

proof fn lemma_skip_word_back(s: Seq<char>, i: int)
    ensures
        i >= 0 ==> 0 <= skip_word_back(s, i) <= i,
    decreases i,
{
    if i > 0 {
        lemma_skip_word_back(s, i - 1);
    }
}

} // verus!
