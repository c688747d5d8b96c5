//! ANSI style values, the theme table and `paint`.

use vstd::prelude::*;

verus! {

/// The sixteen standard ANSI colours.
#[derive(Clone, Copy, PartialEq, Eq, Debug)]
pub enum AnsiColor {
    Black,
    Red,
    Green,
    Yellow,
    Blue,
    Magenta,
    Cyan,
    White,
    BrightBlack,
    BrightRed,
    BrightGreen,
    BrightYellow,
    BrightBlue,
    BrightMagenta,
    BrightCyan,
    BrightWhite,
}

impl AnsiColor {
    /// Palette index of the colour (`0..16`).
    pub open spec fn spec_code(self) -> u8 {
        match self {
            AnsiColor::Black => 0,
            AnsiColor::Red => 1,
            AnsiColor::Green => 2,
            AnsiColor::Yellow => 3,
            AnsiColor::Blue => 4,
            AnsiColor::Magenta => 5,
            AnsiColor::Cyan => 6,
            AnsiColor::White => 7,
            AnsiColor::BrightBlack => 8,
            AnsiColor::BrightRed => 9,
            AnsiColor::BrightGreen => 10,
            AnsiColor::BrightYellow => 11,
            AnsiColor::BrightBlue => 12,
            AnsiColor::BrightMagenta => 13,
            AnsiColor::BrightCyan => 14,
            AnsiColor::BrightWhite => 15,
        }
    }

    /// Palette index of the colour (`0..16`).
    #[verifier::when_used_as_spec(spec_code)]
    pub fn code(self) -> (r: u8)
        ensures
            r == self.spec_code(),
            r < 16,
    {
        match self {
            AnsiColor::Black => 0,
            AnsiColor::Red => 1,
            AnsiColor::Green => 2,
            AnsiColor::Yellow => 3,
            AnsiColor::Blue => 4,
            AnsiColor::Magenta => 5,
            AnsiColor::Cyan => 6,
            AnsiColor::White => 7,
            AnsiColor::BrightBlack => 8,
            AnsiColor::BrightRed => 9,
            AnsiColor::BrightGreen => 10,
            AnsiColor::BrightYellow => 11,
            AnsiColor::BrightBlue => 12,
            AnsiColor::BrightMagenta => 13,
            AnsiColor::BrightCyan => 14,
            AnsiColor::BrightWhite => 15,
        }
    }
}

/// A terminal text style: optional foreground and background colour plus
/// the bold and underline effects.
#[derive(Clone, Copy, PartialEq, Eq, Debug)]
pub struct Style {
    pub fg: Option<AnsiColor>,
    pub bg: Option<AnsiColor>,
    pub bold: bool,
    pub underline: bool,
}

impl Style {
    /// No colours and no effects.
    pub open spec fn spec_plain() -> Style {
        Style { fg: None, bg: None, bold: false, underline: false }
    }

    /// `true` when the style sets nothing at all.
    pub open spec fn is_plain(self) -> bool {
        self == Style::spec_plain()
    }

    /// No colours and no effects.
    pub fn new() -> (r: Style)
        ensures
            r == Style::spec_plain(),
    {
        Style { fg: None, bg: None, bold: false, underline: false }
    }
}

// ── base styles ──────────────────────────────────────────────────────────────

/// Bright magenta bold — default accent color.
pub open spec fn spec_accent() -> Style {
    Style { fg: Some(AnsiColor::BrightMagenta), bg: None, bold: true, underline: false }
}

/// Bright magenta bold — default accent color.
#[verifier::when_used_as_spec(spec_accent)]
pub fn accent() -> (r: Style)
    ensures
        r == spec_accent(),
{
    Style { fg: Some(AnsiColor::BrightMagenta), bg: None, bold: true, underline: false }
}

/// Bright black — dimmed / secondary text.
pub open spec fn spec_dim() -> Style {
    Style { fg: Some(AnsiColor::BrightBlack), bg: None, bold: false, underline: false }
}

/// Bright black — dimmed / secondary text.
#[verifier::when_used_as_spec(spec_dim)]
pub fn dim() -> (r: Style)
    ensures
        r == spec_dim(),
{
    Style { fg: Some(AnsiColor::BrightBlack), bg: None, bold: false, underline: false }
}

/// Bold white.
pub open spec fn spec_bold() -> Style {
    Style { fg: None, bg: None, bold: true, underline: false }
}

/// Bold white.
#[verifier::when_used_as_spec(spec_bold)]
pub fn bold() -> (r: Style)
    ensures
        r == spec_bold(),
{
    Style { fg: None, bg: None, bold: true, underline: false }
}

/// Green — success indicators.
pub open spec fn spec_ok() -> Style {
    Style { fg: Some(AnsiColor::Green), bg: None, bold: false, underline: false }
}

/// Green — success indicators.
#[verifier::when_used_as_spec(spec_ok)]
pub fn ok() -> (r: Style)
    ensures
        r == spec_ok(),
{
    Style { fg: Some(AnsiColor::Green), bg: None, bold: false, underline: false }
}

/// Bright red bold — error indicators.
pub open spec fn spec_err() -> Style {
    Style { fg: Some(AnsiColor::BrightRed), bg: None, bold: true, underline: false }
}

/// Bright red bold — error indicators.
#[verifier::when_used_as_spec(spec_err)]
pub fn err() -> (r: Style)
    ensures
        r == spec_err(),
{
    Style { fg: Some(AnsiColor::BrightRed), bg: None, bold: true, underline: false }
}

/// Cyan — paths and highlights.
pub open spec fn spec_cyan() -> Style {
    Style { fg: Some(AnsiColor::Cyan), bg: None, bold: false, underline: false }
}

/// Cyan — paths and highlights.
#[verifier::when_used_as_spec(spec_cyan)]
pub fn cyan() -> (r: Style)
    ensures
        r == spec_cyan(),
{
    Style { fg: Some(AnsiColor::Cyan), bg: None, bold: false, underline: false }
}

/// Yellow — sizes and warnings.
pub open spec fn spec_yellow() -> Style {
    Style { fg: Some(AnsiColor::Yellow), bg: None, bold: false, underline: false }
}

/// Yellow — sizes and warnings.
#[verifier::when_used_as_spec(spec_yellow)]
pub fn yellow() -> (r: Style)
    ensures
        r == spec_yellow(),
{
    Style { fg: Some(AnsiColor::Yellow), bg: None, bold: false, underline: false }
}

/// Bright white — section headers.
pub open spec fn spec_white() -> Style {
    Style { fg: Some(AnsiColor::BrightWhite), bg: None, bold: false, underline: false }
}

/// Bright white — section headers.
#[verifier::when_used_as_spec(spec_white)]
pub fn white() -> (r: Style)
    ensures
        r == spec_white(),
{
    Style { fg: Some(AnsiColor::BrightWhite), bg: None, bold: false, underline: false }
}

/// Bright white + bold — prompt question text.
pub open spec fn spec_white_bold() -> Style {
    Style { fg: Some(AnsiColor::BrightWhite), bg: None, bold: true, underline: false }
}

/// Bright white + bold — prompt question text.
#[verifier::when_used_as_spec(spec_white_bold)]
pub fn white_bold() -> (r: Style)
    ensures
        r == spec_white_bold(),
{
    Style { fg: Some(AnsiColor::BrightWhite), bg: None, bold: true, underline: false }
}

// ── badge styles (bg + white fg + bold) ──────────────────────────────────────

/// Cyan background badge — default theme.
pub open spec fn spec_badge_cyan() -> Style {
    Style { fg: Some(AnsiColor::BrightWhite), bg: Some(AnsiColor::Cyan), bold: true, underline: false }
}

/// Cyan background badge — default theme.
#[verifier::when_used_as_spec(spec_badge_cyan)]
pub fn badge_cyan() -> (r: Style)
    ensures
        r == spec_badge_cyan(),
{
    Style { fg: Some(AnsiColor::BrightWhite), bg: Some(AnsiColor::Cyan), bold: true, underline: false }
}

/// Cyan background, black text, bold — the clack-style intro pill.
pub open spec fn spec_badge_intro() -> Style {
    Style { fg: Some(AnsiColor::Black), bg: Some(AnsiColor::Cyan), bold: true, underline: false }
}

/// Cyan background, black text, bold — the clack-style intro pill.
#[verifier::when_used_as_spec(spec_badge_intro)]
pub fn badge_intro() -> (r: Style)
    ensures
        r == spec_badge_intro(),
{
    Style { fg: Some(AnsiColor::Black), bg: Some(AnsiColor::Cyan), bold: true, underline: false }
}

/// Green background badge.
pub open spec fn spec_badge_green() -> Style {
    Style { fg: Some(AnsiColor::BrightWhite), bg: Some(AnsiColor::Green), bold: true, underline: false }
}

/// Green background badge.
#[verifier::when_used_as_spec(spec_badge_green)]
pub fn badge_green() -> (r: Style)
    ensures
        r == spec_badge_green(),
{
    Style { fg: Some(AnsiColor::BrightWhite), bg: Some(AnsiColor::Green), bold: true, underline: false }
}

/// Yellow background badge (dark text for contrast).
pub open spec fn spec_badge_yellow() -> Style {
    Style { fg: Some(AnsiColor::Black), bg: Some(AnsiColor::Yellow), bold: true, underline: false }
}

/// Yellow background badge (dark text for contrast).
#[verifier::when_used_as_spec(spec_badge_yellow)]
pub fn badge_yellow() -> (r: Style)
    ensures
        r == spec_badge_yellow(),
{
    Style { fg: Some(AnsiColor::Black), bg: Some(AnsiColor::Yellow), bold: true, underline: false }
}

// ── symbols ──────────────────────────────────────────────────────────────────

/// Section diamond `◆`
pub const DIAMOND: &'static str = "◆";
/// Error cross `✘`
pub const CROSS: &'static str = "✘";
/// Vertical bar `│`
pub const BAR: &'static str = "│";
/// Hint arrow `➜`
pub const ARROW: &'static str = "➜";
/// Success check `✓`
pub const CHECK: &'static str = "✓";
/// Step bullet `▸`
pub const BULLET: &'static str = "▸";
/// Phase triangle `▶`
pub const PHASE: &'static str = "▶";
/// Sub-step branch `└─`
pub const BRANCH: &'static str = "└─";

/// The select-graphic-rendition sequence `ESC [ body m`.
pub open spec fn sgr(body: Seq<char>) -> Seq<char> {
    seq!['\x1b', '['] + body + seq!['m']
}

/// The digit of `n` for `n < 8`.
pub open spec fn octal_digit(n: int) -> char {
    seq!['0', '1', '2', '3', '4', '5', '6', '7'][n]
}

/// The foreground code of a colour: `ESC [ 3n m` for the eight base colours,
/// `ESC [ 9n m` for their bright forms.
pub open spec fn fg_code(c: AnsiColor) -> Seq<char> {
    let n = c.spec_code() as int;
    if n < 8 {
        sgr(seq!['3', octal_digit(n)])
    } else {
        sgr(seq!['9', octal_digit(n - 8)])
    }
}

/// The background code of a colour: `ESC [ 4n m` for the eight base
/// colours, `ESC [ 10n m` for their bright forms.
pub open spec fn bg_code(c: AnsiColor) -> Seq<char> {
    let n = c.spec_code() as int;
    if n < 8 {
        sgr(seq!['4', octal_digit(n)])
    } else {
        sgr(seq!['1', '0', octal_digit(n - 8)])
    }
}

/// The escape sequence that switches a terminal to `style`, as
/// `anstyle::Style::render` writes it: the bold code `ESC [ 1 m`, the
/// underline code `ESC [ 4 m`, then the foreground and the background
/// code, each only where the style sets it.
#[verifier::opaque]
pub open spec fn style_open(style: Style) -> Seq<char> {
    (if style.bold {
        sgr(seq!['1'])
    } else {
        Seq::empty()
    }) + (if style.underline {
        sgr(seq!['4'])
    } else {
        Seq::empty()
    }) + match style.fg {
        Some(c) => fg_code(c),
        None => Seq::empty(),
    } + match style.bg {
        Some(c) => bg_code(c),
        None => Seq::empty(),
    }
}

/// The reset sequence that ends `style`: empty for the plain style, the ANSI
/// reset `ESC [ 0 m` otherwise.
pub open spec fn style_close(style: Style) -> Seq<char> {
    if style.is_plain() {
        Seq::empty()
    } else {
        seq!['\x1b', '[', '0', 'm']
    }
}

/// `s` wrapped in the codes of `style`.
pub open spec fn painted(style: Style, s: Seq<char>) -> Seq<char> {
    style_open(style) + s + style_close(style)
}

/// Renders the opening escape codes of `style` with
/// `anstyle::Style::render` (see [`style_open`] for what it writes).
#[verifier::external_body]
fn render_open(style: Style) -> (r: String)
    ensures
        r@ == style_open(style),
{
    let fg = style.fg.map(|c| c.code()).map(anstyle::Ansi256Color).and_then(anstyle::Ansi256Color::into_ansi).map(anstyle::Color::Ansi);
    let bg = style.bg.map(|c| c.code()).map(anstyle::Ansi256Color).and_then(anstyle::Ansi256Color::into_ansi).map(anstyle::Color::Ansi);
    let effects = anstyle::Effects::new().set(anstyle::Effects::BOLD, style.bold).set(anstyle::Effects::UNDERLINE, style.underline);
    anstyle::Style::new().fg_color(fg).bg_color(bg).effects(effects).render().to_string()
}

/// Renders the reset code of `style` with `anstyle::Style::render_reset`,
/// which is empty exactly when the style sets nothing and `ESC [ 0 m`
/// otherwise.
#[verifier::external_body]
fn render_close(style: Style) -> (r: String)
    ensures
        r@ == style_close(style),
{
    let fg = style.fg.map(|c| c.code()).map(anstyle::Ansi256Color).and_then(anstyle::Ansi256Color::into_ansi).map(anstyle::Color::Ansi);
    let bg = style.bg.map(|c| c.code()).map(anstyle::Ansi256Color).and_then(anstyle::Ansi256Color::into_ansi).map(anstyle::Color::Ansi);
    let effects = anstyle::Effects::new().set(anstyle::Effects::BOLD, style.bold).set(anstyle::Effects::UNDERLINE, style.underline);
    anstyle::Style::new().fg_color(fg).bg_color(bg).effects(effects).render_reset().to_string()
}

/// Apply `style` to `s`: the opening codes, `s`, then the reset code.
pub fn paint(style: Style, s: &str) -> (r: String)
    ensures
        r@ == painted(style, s@),
{
    let mut out = render_open(style);
    out.append(s);
    let close = render_close(style);
    out.append(close.as_str());
    out
}

// ── themes ───────────────────────────────────────────────────────────────────

/// A badge style: bold text in `fg` on a `bg` background.
pub open spec fn badge(bg: AnsiColor, fg: AnsiColor) -> Style {
    Style { fg: Some(fg), bg: Some(bg), bold: true, underline: false }
}

/// A bold foreground style.
pub open spec fn bold_fg(fg: AnsiColor) -> Style {
    Style { fg: Some(fg), bg: None, bold: true, underline: false }
}

/// `(badge, accent)` for a theme name: `magenta` (or `purple`), `green`,
/// `blue`, `yellow`, `red`, and cyan for any other name.
pub open spec fn theme_table(name: Seq<char>) -> (Style, Style) {
    if name == "magenta"@ || name == "purple"@ {
        (badge(AnsiColor::Magenta, AnsiColor::BrightWhite), bold_fg(AnsiColor::BrightMagenta))
    } else if name == "green"@ {
        (badge(AnsiColor::Green, AnsiColor::BrightWhite), bold_fg(AnsiColor::Green))
    } else if name == "blue"@ {
        (badge(AnsiColor::Blue, AnsiColor::BrightWhite), bold_fg(AnsiColor::BrightBlue))
    } else if name == "yellow"@ {
        (badge(AnsiColor::Yellow, AnsiColor::Black), bold_fg(AnsiColor::Yellow))
    } else if name == "red"@ {
        (badge(AnsiColor::Red, AnsiColor::BrightWhite), bold_fg(AnsiColor::BrightRed))
    } else {
        (badge(AnsiColor::Cyan, AnsiColor::BrightWhite), bold_fg(AnsiColor::Cyan))
    }
}

/// `(badge_style, accent_style)` for the theme named `theme`.
pub fn theme_styles(theme: &str) -> (r: (Style, Style))
    ensures
        r == theme_table(theme@),
{
    if crate::strutil::str_eq(theme, "magenta") || crate::strutil::str_eq(theme, "purple") {
        (
            Style { fg: Some(AnsiColor::BrightWhite), bg: Some(AnsiColor::Magenta), bold: true, underline: false },
            Style { fg: Some(AnsiColor::BrightMagenta), bg: None, bold: true, underline: false },
        )
    } else if crate::strutil::str_eq(theme, "green") {
        (
            Style { fg: Some(AnsiColor::BrightWhite), bg: Some(AnsiColor::Green), bold: true, underline: false },
            Style { fg: Some(AnsiColor::Green), bg: None, bold: true, underline: false },
        )
    } else if crate::strutil::str_eq(theme, "blue") {
        (
            Style { fg: Some(AnsiColor::BrightWhite), bg: Some(AnsiColor::Blue), bold: true, underline: false },
            Style { fg: Some(AnsiColor::BrightBlue), bg: None, bold: true, underline: false },
        )
    } else if crate::strutil::str_eq(theme, "yellow") {
        (
            Style { fg: Some(AnsiColor::Black), bg: Some(AnsiColor::Yellow), bold: true, underline: false },
            Style { fg: Some(AnsiColor::Yellow), bg: None, bold: true, underline: false },
        )
    } else if crate::strutil::str_eq(theme, "red") {
        (
            Style { fg: Some(AnsiColor::BrightWhite), bg: Some(AnsiColor::Red), bold: true, underline: false },
            Style { fg: Some(AnsiColor::BrightRed), bg: None, bold: true, underline: false },
        )
    } else {
        (
            Style { fg: Some(AnsiColor::BrightWhite), bg: Some(AnsiColor::Cyan), bold: true, underline: false },
            Style { fg: Some(AnsiColor::Cyan), bg: None, bold: true, underline: false },
        )
    }
}

// ── plain output ────────────────────────────────────────────────────────────

/// Where [`strip_ansi`] is inside a text: in plain text, just after an
/// `ESC`, or inside a control sequence (`ESC [` … final byte).
#[derive(Clone, Copy, PartialEq, Eq, Structural)]
pub enum Scan {
    Text,
    Escape,
    Sequence,
}

/// A final byte of a control sequence: `@` to `~`.
pub open spec fn is_final(c: char) -> bool {
    '@' <= c && c <= '~'
}

/// What remains of `s[i..]` without its control sequences, read in state
/// `st`: `ESC [` starts a sequence that ends with its final byte; an `ESC`
/// that does not start one is kept.
pub open spec fn plain_from(s: Seq<char>, i: int, st: Scan) -> Seq<char>
    decreases s.len() - i,
{
    if i >= s.len() {
        if st == Scan::Escape {
            seq!['\x1b']
        } else {
            Seq::empty()
        }
    } else {
        let c = s[i];
        match st {
            Scan::Text => if c == '\x1b' {
                plain_from(s, i + 1, Scan::Escape)
            } else {
                seq![c] + plain_from(s, i + 1, Scan::Text)
            },
            Scan::Escape => if c == '[' {
                plain_from(s, i + 1, Scan::Sequence)
            } else if c == '\x1b' {
                seq!['\x1b'] + plain_from(s, i + 1, Scan::Escape)
            } else {
                seq!['\x1b', c] + plain_from(s, i + 1, Scan::Text)
            },
            Scan::Sequence => if is_final(c) {
                plain_from(s, i + 1, Scan::Text)
            } else {
                plain_from(s, i + 1, Scan::Sequence)
            },
        }
    }
}

/// `s` without its ANSI control sequences.
pub open spec fn plain(s: Seq<char>) -> Seq<char> {
    plain_from(s, 0, Scan::Text)
}

/// Text without control sequences is left as it is.
pub proof fn law_plain_keeps_plain_text(s: Seq<char>, i: int)
    requires
        0 <= i <= s.len(),
        forall|k: int| 0 <= k < s.len() ==> s[k] != '\x1b',
    ensures
        plain_from(s, i, Scan::Text) == s.subrange(i, s.len() as int),
    decreases s.len() - i,
{
    if i < s.len() {
        law_plain_keeps_plain_text(s, i + 1);
        assert(seq![s[i]] + s.subrange(i + 1, s.len() as int) =~= s.subrange(i, s.len() as int));
    } else {
        assert(s.subrange(i, s.len() as int) =~= Seq::<char>::empty());
    }
}

/// Reading `y` after `x` is reading `y` alone.
proof fn lemma_plain_shift(x: Seq<char>, y: Seq<char>, j: int, st: Scan)
    requires
        0 <= j <= y.len(),
    ensures
        plain_from(x + y, x.len() + j, st) == plain_from(y, j, st),
    decreases y.len() - j,
{
    let t = x + y;
    if j < y.len() {
        assert(t[x.len() + j] == y[j]);
        lemma_plain_shift(x, y, j + 1, Scan::Text);
        lemma_plain_shift(x, y, j + 1, Scan::Escape);
        lemma_plain_shift(x, y, j + 1, Scan::Sequence);
    }
}

/// Text without `ESC` before `y` is kept as it is.
proof fn lemma_plain_text_prefix(x: Seq<char>, y: Seq<char>, i: int)
    requires
        0 <= i <= x.len(),
        forall|k: int| 0 <= k < x.len() ==> x[k] != '\x1b',
    ensures
        plain_from(x + y, i, Scan::Text) == x.subrange(i, x.len() as int) + plain(y),
    decreases x.len() - i,
{
    let t = x + y;
    if i < x.len() {
        assert(t[i] == x[i]);
        lemma_plain_text_prefix(x, y, i + 1);
        assert(seq![x[i]] + (x.subrange(i + 1, x.len() as int) + plain(y)) =~= x.subrange(
            i,
            x.len() as int,
        ) + plain(y));
    } else {
        lemma_plain_shift(x, y, 0, Scan::Text);
        assert(x.subrange(i, x.len() as int) =~= Seq::<char>::empty());
        assert(x.subrange(i, x.len() as int) + plain(y) =~= plain(y));
    }
}

/// Inside a control sequence, parameter bytes are skipped up to its final
/// byte.
proof fn lemma_plain_skip_params(t: Seq<char>, i: int, n: int)
    requires
        0 <= i,
        i + n < t.len(),
        0 <= n,
        forall|k: int| i <= k < i + n ==> !is_final(#[trigger] t[k]),
        is_final(t[i + n]),
    ensures
        plain_from(t, i, Scan::Sequence) == plain_from(t, i + n + 1, Scan::Text),
    decreases n,
{
    if n > 0 {
        lemma_plain_skip_params(t, i + 1, n - 1);
    }
}

/// A `ESC [ body m` code with parameter bytes only leaves nothing.
proof fn lemma_plain_skips_sgr(body: Seq<char>, rest: Seq<char>)
    requires
        forall|k: int| 0 <= k < body.len() ==> !is_final(#[trigger] body[k]),
    ensures
        plain(sgr(body) + rest) == plain(rest),
{
    let c = sgr(body);
    let t = c + rest;
    assert(t[0] == '\x1b');
    assert(t[1] == '[');
    assert forall|k: int| 2 <= k < 2 + body.len() implies !is_final(#[trigger] t[k]) by {
        assert(t[k] == body[k - 2]);
    }
    assert(t[2 + body.len() as int] == 'm');
    lemma_plain_skip_params(t, 2, body.len() as int);
    lemma_plain_shift(c, rest, 0, Scan::Text);
    assert(plain_from(t, 0, Scan::Text) == plain_from(t, 1, Scan::Escape));
    assert(plain_from(t, 1, Scan::Escape) == plain_from(t, 2, Scan::Sequence));
    assert(c.len() == body.len() + 3);
}

/// Stripping the codes from painted text gives the text back: output that
/// is not a terminal shows what a terminal would, without the styles.
pub proof fn law_strip_undoes_paint(style: Style, s: Seq<char>)
    requires
        forall|k: int| 0 <= k < s.len() ==> s[k] != '\x1b',
    ensures
        plain(painted(style, s)) == s,
{
    law_plain_of_painted(style, s, Seq::empty());
    assert(painted(style, s) + Seq::<char>::empty() =~= painted(style, s));
    assert(plain(Seq::<char>::empty()) == Seq::<char>::empty());
    assert(s + Seq::<char>::empty() =~= s);
}

/// Painted text followed by more output reads, without its codes, as the
/// text followed by the rest read the same way.
pub proof fn law_plain_of_painted(style: Style, s: Seq<char>, rest: Seq<char>)
    requires
        forall|k: int| 0 <= k < s.len() ==> s[k] != '\x1b',
    ensures
        plain(painted(style, s) + rest) == s + plain(rest),
{
    let close = style_close(style);
    let tail = s + (close + rest);
    lemma_close_vanishes(style, rest);
    lemma_plain_text_prefix(s, close + rest, 0);
    assert(s.subrange(0, s.len() as int) =~= s);
    let g = match style.bg {
        Some(c) => bg_code(c),
        None => Seq::empty(),
    };
    let f = match style.fg {
        Some(c) => fg_code(c),
        None => Seq::empty(),
    };
    let u = if style.underline {
        sgr(seq!['4'])
    } else {
        Seq::empty()
    };
    let b = if style.bold {
        sgr(seq!['1'])
    } else {
        Seq::empty()
    };
    lemma_code_vanishes_bg(style.bg, tail);
    lemma_code_vanishes_fg(style.fg, g + tail);
    lemma_code_vanishes_effect(style.underline, seq!['4'], f + (g + tail));
    lemma_code_vanishes_effect(style.bold, seq!['1'], u + (f + (g + tail)));
    lemma_open_parts(style);
    assert(style_open(style) == b + u + f + g);
    lemma_regroup(b, u, f, g, s, close, rest);
}

/// Text without `ESC` before more output is kept as it is.
pub proof fn law_plain_of_text(x: Seq<char>, rest: Seq<char>)
    requires
        forall|k: int| 0 <= k < x.len() ==> x[k] != '\x1b',
    ensures
        plain(x + rest) == x + plain(rest),
{
    lemma_plain_text_prefix(x, rest, 0);
    assert(x.subrange(0, x.len() as int) =~= x);
}

/// The reset code leaves nothing.
proof fn lemma_close_vanishes(style: Style, rest: Seq<char>)
    ensures
        plain(style_close(style) + rest) == plain(rest),
{
    let close = style_close(style);
    if style.is_plain() {
        assert(close + rest =~= rest);
    } else {
        lemma_plain_skips_sgr(seq!['0'], rest);
        assert(close =~= sgr(seq!['0']));
    }
}

proof fn lemma_regroup(
    b: Seq<char>,
    u: Seq<char>,
    f: Seq<char>,
    g: Seq<char>,
    s: Seq<char>,
    c: Seq<char>,
    r: Seq<char>,
)
    ensures
        b + u + f + g + s + c + r == b + (u + (f + (g + (s + (c + r))))),
{
    assert(b + u + f + g + s + c + r =~= b + (u + (f + (g + (s + (c + r))))));
}

proof fn lemma_open_parts(style: Style)
    ensures
        style_open(style) == (if style.bold {
            sgr(seq!['1'])
        } else {
            Seq::empty()
        }) + (if style.underline {
            sgr(seq!['4'])
        } else {
            Seq::empty()
        }) + match style.fg {
            Some(c) => fg_code(c),
            None => Seq::empty(),
        } + match style.bg {
            Some(c) => bg_code(c),
            None => Seq::empty(),
        },
{
    reveal(style_open);
}

proof fn lemma_digit_not_final(n: int)
    requires
        0 <= n < 8,
    ensures
        !is_final(octal_digit(n)),
{
}

proof fn lemma_code_vanishes_fg(c: Option<AnsiColor>, rest: Seq<char>)
    ensures
        plain(match c {
            Some(x) => fg_code(x),
            None => Seq::empty(),
        } + rest) == plain(rest),
{
    match c {
        Some(x) => {
            let n = x.spec_code() as int;
            if n < 8 {
                lemma_digit_not_final(n);
                let body = seq!['3', octal_digit(n)];
                assert forall|k: int| 0 <= k < body.len() implies !is_final(#[trigger] body[k]) by {}
                lemma_plain_skips_sgr(body, rest);
            } else {
                lemma_digit_not_final(n - 8);
                let body = seq!['9', octal_digit(n - 8)];
                assert forall|k: int| 0 <= k < body.len() implies !is_final(#[trigger] body[k]) by {}
                lemma_plain_skips_sgr(body, rest);
            }
        },
        None => {
            assert(Seq::<char>::empty() + rest =~= rest);
        },
    }
}

proof fn lemma_code_vanishes_bg(c: Option<AnsiColor>, rest: Seq<char>)
    ensures
        plain(match c {
            Some(x) => bg_code(x),
            None => Seq::empty(),
        } + rest) == plain(rest),
{
    match c {
        Some(x) => {
            let n = x.spec_code() as int;
            if n < 8 {
                lemma_digit_not_final(n);
                let body = seq!['4', octal_digit(n)];
                assert forall|k: int| 0 <= k < body.len() implies !is_final(#[trigger] body[k]) by {}
                lemma_plain_skips_sgr(body, rest);
            } else {
                lemma_digit_not_final(n - 8);
                let body = seq!['1', '0', octal_digit(n - 8)];
                assert forall|k: int| 0 <= k < body.len() implies !is_final(#[trigger] body[k]) by {}
                lemma_plain_skips_sgr(body, rest);
            }
        },
        None => {
            assert(Seq::<char>::empty() + rest =~= rest);
        },
    }
}

proof fn lemma_code_vanishes_effect(on: bool, body: Seq<char>, rest: Seq<char>)
    requires
        body.len() == 1,
        '0' <= body[0] <= '9',
    ensures
        plain((if on {
            sgr(body)
        } else {
            Seq::empty()
        }) + rest) == plain(rest),
{
    if on {
        assert forall|k: int| 0 <= k < body.len() implies !is_final(#[trigger] body[k]) by {}
        lemma_plain_skips_sgr(body, rest);
    } else {
        assert(Seq::<char>::empty() + rest =~= rest);
    }
}

/// `s` without its ANSI control sequences, for output that is not a
/// terminal.
pub fn strip_ansi(s: &str) -> (r: String)
    ensures
        r@ == plain(s@),
{
    let v = crate::strutil::chars_of(s);
    let mut out = String::new();
    let mut st = Scan::Text;
    let mut i: usize = 0;
    while i < v.len()
        invariant
            v@ == s@,
            0 <= i <= v@.len(),
            plain(s@) == out@ + plain_from(s@, i as int, st),
        decreases v@.len() - i,
    {
        let c = v[i];
        let ghost before = out@;
        match st {
            Scan::Text => {
                if c == '\x1b' {
                    st = Scan::Escape;
                } else {
                    crate::strutil::push_char(&mut out, c);
                }
            },
            Scan::Escape => {
                if c == '[' {
                    st = Scan::Sequence;
                } else if c == '\x1b' {
                    crate::strutil::push_char(&mut out, '\x1b');
                } else {
                    crate::strutil::push_char(&mut out, '\x1b');
                    crate::strutil::push_char(&mut out, c);
                    st = Scan::Text;
                }
            },
            Scan::Sequence => {
                if '@' <= c && c <= '~' {
                    st = Scan::Text;
                }
            },
        }
        proof {
            assert(seq!['\x1b', c] =~= seq!['\x1b'] + seq![c]);
            assert(before + seq!['\x1b', c] =~= before.push('\x1b').push(c));
            assert(before + seq![c] =~= before.push(c));
            assert(before + seq!['\x1b'] =~= before.push('\x1b'));
        }
        i += 1;
    }
    if st == Scan::Escape {
        crate::strutil::push_char(&mut out, '\x1b');
    }
    out
}

} // verus!
