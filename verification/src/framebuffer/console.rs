//! The framebuffer text console: a grid of characters with colors, written to like a
//! terminal and drawn onto the framebuffer.
//!
//! The grid is `CONSOLE_HEIGHT` rows of `CONSOLE_WIDTH` cells, kept row by row: cell
//! (x, y) is at index `y * CONSOLE_WIDTH + x`.

use vstd::prelude::*;

use super::colors::Color;
use super::framebuffer::{
    glyph_cells, glyph_of, lemma_painted_cells_geometry, painted_cells, FrameBufferInfo, FONT_HEIGHT, FONT_WIDTH,
};

verus! {

/// Columns of the console.
pub const CONSOLE_WIDTH: usize = 80;

/// Rows of the console.
pub const CONSOLE_HEIGHT: usize = 25;

/// The number of cells of the console.
pub const CONSOLE_CELLS: usize = 2000;

/// A character on the console with its colors.
#[derive(Copy, Clone, Debug, PartialEq, Eq)]
pub struct ConsoleChar {
    pub character: char,
    pub color: u32,
    pub background_color: u32,
}

/// An empty cell.
pub open spec fn blank() -> ConsoleChar {
    ConsoleChar { character: '\0', color: 0, background_color: 0 }
}

/// What a console holds: its cells, its cursor and its default colors.
pub struct ConsoleView {
    pub cells: Seq<ConsoleChar>,
    pub cursor_x: int,
    pub cursor_y: int,
    pub text_color: u32,
    pub background_color: u32,
}

/// The grid has all its cells and the cursor is on it.
pub open spec fn console_wf(v: ConsoleView) -> bool {
    &&& v.cells.len() == CONSOLE_CELLS
    &&& 0 <= v.cursor_x < CONSOLE_WIDTH
    &&& 0 <= v.cursor_y < CONSOLE_HEIGHT
}

/// The console after scrolling one line: every row moves up one, the last row is
/// blank, and the cursor is on the last row.
pub open spec fn scrolled(v: ConsoleView) -> ConsoleView {
    ConsoleView {
        cells: Seq::new(
            CONSOLE_CELLS as nat,
            |k: int| if k < CONSOLE_CELLS - CONSOLE_WIDTH { v.cells[k + CONSOLE_WIDTH] } else { blank() },
        ),
        cursor_y: CONSOLE_HEIGHT - 1,
        ..v
    }
}

/// The console after the cursor moved: past the end of a line it goes to the start
/// of the next, and past the last line the console scrolls.
pub open spec fn wrapped(v: ConsoleView) -> ConsoleView {
    let v1 = if v.cursor_x >= CONSOLE_WIDTH {
        ConsoleView { cursor_x: 0, cursor_y: v.cursor_y + 1, ..v }
    } else {
        v
    };
    if v1.cursor_y >= CONSOLE_HEIGHT {
        scrolled(v1)
    } else {
        v1
    }
}

/// The color given, or the default.
pub open spec fn color_or(c: Option<u32>, default: u32) -> u32 {
    match c {
        Some(x) => x,
        None => default,
    }
}

/// The console after an ordinary character: it goes in the cell under the cursor, in
/// the given colors or the console's defaults, and the cursor moves right.
pub open spec fn put_plain(v: ConsoleView, c: char, color: Option<u32>, background: Option<u32>) -> ConsoleView {
    wrapped(
        ConsoleView {
            cells: v.cells.update(
                v.cursor_y * CONSOLE_WIDTH + v.cursor_x,
                ConsoleChar {
                    character: c,
                    color: color_or(color, v.text_color),
                    background_color: color_or(background, v.background_color),
                },
            ),
            cursor_x: v.cursor_x + 1,
            ..v
        },
    )
}

/// The console after writing `c`: a newline moves to the start of the next line, a
/// carriage return to the start of the line, a tab writes four spaces, a backspace
/// (when not at the start of a line) blanks the cell before the cursor and moves
/// onto it, and any other character is put as `put_plain` says.
pub open spec fn after_char(v: ConsoleView, c: char, color: Option<u32>, background: Option<u32>) -> ConsoleView {
    if c == '\n' {
        wrapped(ConsoleView { cursor_x: 0, cursor_y: v.cursor_y + 1, ..v })
    } else if c == '\r' {
        wrapped(ConsoleView { cursor_x: 0, ..v })
    } else if c == '\t' {
        let s1 = put_plain(v, ' ', color, background);
        let s2 = put_plain(s1, ' ', color, background);
        let s3 = put_plain(s2, ' ', color, background);
        wrapped(put_plain(s3, ' ', color, background))
    } else if c == '\x08' {
        if v.cursor_x > 0 {
            let w = put_plain(ConsoleView { cursor_x: v.cursor_x - 1, ..v }, ' ', color, background);
            wrapped(ConsoleView { cursor_x: w.cursor_x - 1, ..w })
        } else {
            wrapped(v)
        }
    } else {
        put_plain(v, c, color, background)
    }
}

/// The console after writing the characters `s` in order.
pub open spec fn after_chars(v: ConsoleView, s: Seq<char>, color: Option<u32>, background: Option<u32>) -> ConsoleView
    decreases s.len(),
{
    if s.len() == 0 {
        v
    } else {
        after_char(after_chars(v, s.drop_last(), color, background), s.last(), color, background)
    }
}

/// Scrolling moves every row up one and leaves the new last row empty: after a
/// newline written on the last row, each cell of a row above the last holds what the
/// cell below it held, every cell of the last row is `'\0'` in color 0 on color 0, and
/// the cursor is at the start of the last row. No cell of the old last row stays in
/// the last row.
pub proof fn lemma_newline_on_last_row_scrolls(v: ConsoleView, color: Option<u32>, background: Option<u32>)
    requires
        console_wf(v),
        v.cursor_y == CONSOLE_HEIGHT - 1,
    ensures
        ({
            let w = after_char(v, '\n', color, background);
            &&& w.cursor_x == 0
            &&& w.cursor_y == CONSOLE_HEIGHT - 1
            &&& w.cells.len() == CONSOLE_CELLS
            &&& forall|y: int, x: int|
                0 <= y < CONSOLE_HEIGHT - 1 && 0 <= x < CONSOLE_WIDTH ==> #[trigger] w.cells[y * CONSOLE_WIDTH + x]
                    == v.cells[(y + 1) * CONSOLE_WIDTH + x]
            &&& forall|x: int|
                0 <= x < CONSOLE_WIDTH ==> #[trigger] w.cells[(CONSOLE_HEIGHT - 1) * CONSOLE_WIDTH + x] == (ConsoleChar {
                    character: '\0',
                    color: 0,
                    background_color: 0,
                })
        }),
{
    let w = after_char(v, '\n', color, background);
    assert forall|y: int, x: int| 0 <= y < CONSOLE_HEIGHT - 1 && 0 <= x < CONSOLE_WIDTH implies #[trigger] w.cells[y
        * CONSOLE_WIDTH + x] == v.cells[(y + 1) * CONSOLE_WIDTH + x] by {
        assert(y * CONSOLE_WIDTH + x < CONSOLE_CELLS - CONSOLE_WIDTH) by (nonlinear_arith)
            requires 0 <= y < CONSOLE_HEIGHT - 1, 0 <= x < CONSOLE_WIDTH;
        assert(0 <= y * CONSOLE_WIDTH + x) by (nonlinear_arith)
            requires 0 <= y, 0 <= x;
        assert((y + 1) * CONSOLE_WIDTH + x == y * CONSOLE_WIDTH + x + CONSOLE_WIDTH) by (nonlinear_arith);
    }
}

/// Writing a string is writing its first character and then the rest: `write_str`
/// leaves the console as `write_char` called on each character in order does.
pub proof fn lemma_write_str_steps(v: ConsoleView, c: char, rest: Seq<char>, color: Option<u32>, background: Option<u32>)
    ensures
        after_chars(v, seq![c] + rest, color, background) == after_chars(
            after_char(v, c, color, background),
            rest,
            color,
            background,
        ),
    decreases rest.len(),
{
    let all = seq![c] + rest;
    if rest.len() == 0 {
        assert(all.drop_last() =~= Seq::<char>::empty());
        assert(all.last() == c);
        assert(after_chars(v, all.drop_last(), color, background) == v);
        assert(after_chars(after_char(v, c, color, background), rest, color, background) == after_char(v, c, color, background));
    } else {
        assert(all.drop_last() =~= seq![c] + rest.drop_last());
        assert(all.last() == rest.last());
        lemma_write_str_steps(v, c, rest.drop_last(), color, background);
        assert(after_chars(v, all, color, background) == after_char(
            after_chars(v, all.drop_last(), color, background),
            all.last(),
            color,
            background,
        ));
    }
}

/// Where each cell is drawn, row by row: cell (x, y) at pixel
/// (x * FONT_WIDTH + 1, y * FONT_HEIGHT + 1).
pub open spec fn console_glyphs(cells: Seq<ConsoleChar>) -> Seq<(int, int, ConsoleChar)> {
    Seq::new(
        cells.len(),
        |k: int|
            (
                (k % CONSOLE_WIDTH as int) * FONT_WIDTH + 1,
                (k / CONSOLE_WIDTH as int) * FONT_HEIGHT + 1,
                cells[k],
            ),
    )
}

/// The framebuffer memory `s` after drawing the placed cells `glyphs` in order, each
/// with its glyph of `font` and its colors.
pub open spec fn painted_console(
    fb: FrameBufferInfo,
    s: Seq<u32>,
    glyphs: Seq<(int, int, ConsoleChar)>,
    font: Seq<Vec<u8>>,
    scale: int,
) -> Seq<u32>
    decreases glyphs.len(),
{
    if glyphs.len() == 0 {
        s
    } else {
        let g = glyphs.last();
        painted_cells(
            fb,
            painted_console(fb, s, glyphs.drop_last(), font, scale),
            glyph_cells(g.0, g.1, glyph_of(font, g.2.character), g.2.color, g.2.background_color, scale),
            scale,
        )
    }
}

/// No glyph of the font is taller than `FONT_HEIGHT` rows.
pub open spec fn font_fits(font: Seq<Vec<u8>>) -> bool {
    forall|i: int| 0 <= i < font.len() ==> #[trigger] font[i]@.len() <= FONT_HEIGHT
}

/// The value of a hexadecimal digit.
pub open spec fn hex_digit(c: char) -> Option<int> {
    if '0' <= c && c <= '9' {
        Some(c as int - '0' as int)
    } else if 'a' <= c && c <= 'f' {
        Some(c as int - 'a' as int + 10)
    } else if 'A' <= c && c <= 'F' {
        Some(c as int - 'A' as int + 10)
    } else {
        None
    }
}

/// The number the hexadecimal digits `s` spell; `None` when one is not a digit.
pub open spec fn hex_number(s: Seq<char>) -> Option<int>
    decreases s.len(),
{
    if s.len() == 0 {
        Some(0)
    } else {
        match (hex_number(s.drop_last()), hex_digit(s.last())) {
            (Some(n), Some(d)) => Some(16 * n + d),
            _ => None,
        }
    }
}

/// What `u32::from_str_radix(s, 16)` gives: an optional `+` followed by one or more
/// hexadecimal digits whose value fits in 32 bits; anything else is refused.
pub open spec fn parse_hex_u32(s: Seq<char>) -> Option<u32> {
    let digits = if s.len() > 0 && s[0] == '+' { s.drop_first() } else { s };
    if digits.len() == 0 {
        None
    } else {
        match hex_number(digits) {
            Some(n) => if n <= u32::MAX { Some(n as u32) } else { None },
            None => None,
        }
    }
}

/// Style settings of the print macros: colors picked by `[f`/`[b` markers in the
/// formatted text, and whether the next piece of text is the color to pick.
#[derive(Copy, Clone, Debug, PartialEq, Eq)]
pub struct InnerPrintStyle {
    pub text_color: Option<u32>,
    pub background_color: Option<u32>,
    pub setting_text_color: bool,
    pub setting_background_color: bool,
}

/// The style with nothing picked.
pub open spec fn plain_style() -> InnerPrintStyle {
    InnerPrintStyle {
        text_color: None,
        background_color: None,
        setting_text_color: false,
        setting_background_color: false,
    }
}

impl InnerPrintStyle {
    /// The style with nothing picked.
    pub fn new() -> (s: Self)
        ensures
            s == plain_style(),
    {
        InnerPrintStyle {
            text_color: None,
            background_color: None,
            setting_text_color: false,
            setting_background_color: false,
        }
    }

    /// Forgets every pick.
    pub fn clear(&mut self)
        ensures
            *final(self) == plain_style(),
    {
        self.text_color = None;
        self.background_color = None;
        self.setting_text_color = false;
        self.setting_background_color = false;
    }
}

/// The console, style and marker state after styled text `s`: `[` starts a marker,
/// whose next character picks what the following piece of text sets (`b` or `B` the
/// background color, `f` or `F` the text color, anything else nothing), and every
/// other character is written in the picked colors.
pub open spec fn styled_after(v: ConsoleView, st: InnerPrintStyle, s: Seq<char>) -> (ConsoleView, InnerPrintStyle, bool)
    decreases s.len(),
{
    if s.len() == 0 {
        (v, st, false)
    } else {
        let (v1, st1, reading) = styled_after(v, st, s.drop_last());
        let c = s.last();
        if c == '[' {
            (v1, st1, true)
        } else if reading {
            if c == 'b' || c == 'B' {
                (v1, InnerPrintStyle { setting_text_color: false, setting_background_color: true, ..st1 }, false)
            } else if c == 'f' || c == 'F' {
                (v1, InnerPrintStyle { setting_text_color: true, setting_background_color: false, ..st1 }, false)
            } else {
                (v1, st1, false)
            }
        } else {
            (after_char(v1, c, st1.text_color, st1.background_color), st1, false)
        }
    }
}

/// A digit that is not a hexadecimal digit spoils the number.
proof fn lemma_hex_number_invalid(s: Seq<char>, k: int)
    requires
        0 <= k < s.len(),
        hex_digit(s[k]) is None,
    ensures
        hex_number(s) is None,
    decreases s.len(),
{
    if k < s.len() - 1 {
        lemma_hex_number_invalid(s.drop_last(), k);
    }
}

/// A number whose first `k` digits already exceed 32 bits does not fit either.
proof fn lemma_hex_number_grows(s: Seq<char>, k: int)
    requires
        0 < k <= s.len(),
        hex_number(s.subrange(0, k)) matches Some(n) && n > u32::MAX,
    ensures
        match hex_number(s) {
            Some(n) => n > u32::MAX,
            None => true,
        },
    decreases s.len() - k,
{
    if k < s.len() {
        assert(s.subrange(0, k + 1).drop_last() =~= s.subrange(0, k));
        match hex_number(s.subrange(0, k + 1)) {
            Some(n) => {
                lemma_hex_number_grows(s, k + 1);
            },
            None => {
                lemma_hex_number_none_grows(s, k + 1);
            },
        }
    } else {
        assert(s.subrange(0, k) =~= s);
    }
}

/// A prefix that is not a number keeps the whole from being one.
proof fn lemma_hex_number_none_grows(s: Seq<char>, k: int)
    requires
        0 < k <= s.len(),
        hex_number(s.subrange(0, k)) is None,
    ensures
        hex_number(s) is None,
    decreases s.len() - k,
{
    if k < s.len() {
        assert(s.subrange(0, k + 1).drop_last() =~= s.subrange(0, k));
        lemma_hex_number_none_grows(s, k + 1);
    } else {
        assert(s.subrange(0, k) =~= s);
    }
}

/// Reads a hexadecimal number the way `u32::from_str_radix(s, 16)` does.
pub fn parse_hex(s: &str) -> (r: Option<u32>)
    ensures
        r == parse_hex_u32(s@),
{
    let n = s.unicode_len();
    let mut i: usize = 0;
    if n > 0 && s.get_char(0) == '+' {
        i = 1;
    }
    let ghost digits = if s@.len() > 0 && s@[0] == '+' { s@.drop_first() } else { s@ };
    let start = i;
    if start == n {
        return None;
    }
    let mut value: u64 = 0;
    while i < n
        invariant
            n == s@.len(),
            start <= i <= n,
            start < n,
            digits == s@.skip(start as int),
            digits == (if s@.len() > 0 && s@[0] == '+' { s@.drop_first() } else { s@ }),
            hex_number(s@.subrange(start as int, i as int)) == Some(value as int),
            value <= u32::MAX,
        decreases n - i,
    {
        let c = s.get_char(i);
        let d: u64 = if '0' <= c && c <= '9' {
            (c as u32 - '0' as u32) as u64
        } else if 'a' <= c && c <= 'f' {
            (c as u32 - 'a' as u32 + 10) as u64
        } else if 'A' <= c && c <= 'F' {
            (c as u32 - 'A' as u32 + 10) as u64
        } else {
            proof {
                assert(digits[i - start] == c);
                lemma_hex_number_invalid(digits, i - start);
                assert(digits.len() > 0);
                assert(hex_number(digits) is None);
                assert(parse_hex_u32(s@) is None);
            }
            return None;
        };
        assert(s@.subrange(start as int, i + 1).drop_last() =~= s@.subrange(start as int, i as int));
        value = value * 16 + d;
        if value > 0xFFFF_FFFF {
            proof {
                assert(digits.subrange(0, i - start + 1) =~= s@.subrange(start as int, i + 1));
                lemma_hex_number_grows(digits, i - start + 1);
                assert(digits.len() > 0);
                assert(parse_hex_u32(s@) is None);
            }
            return None;
        }
        i = i + 1;
    }
    assert(s@.subrange(start as int, n as int) =~= digits);
    Some(value as u32)
}

/// The framebuffer console.
pub struct Console {
    buffer: Vec<ConsoleChar>,
    cursor_x: usize,
    cursor_y: usize,
    text_color: u32,
    background_color: u32,
}

impl View for Console {
    type V = ConsoleView;

    closed spec fn view(&self) -> ConsoleView {
        ConsoleView {
            cells: self.buffer@,
            cursor_x: self.cursor_x as int,
            cursor_y: self.cursor_y as int,
            text_color: self.text_color,
            background_color: self.background_color,
        }
    }
}

impl Console {
    /// An empty console with the cursor at the top left, white on black.
    pub fn new() -> (c: Self)
        ensures
            console_wf(c@),
            c@.cells == Seq::new(CONSOLE_CELLS as nat, |k: int| blank()),
            c@.cursor_x == 0,
            c@.cursor_y == 0,
            c@.text_color == Color::WHITE,
            c@.background_color == Color::BLACK,
    {
        let mut buffer: Vec<ConsoleChar> = Vec::new();
        for k in 0..CONSOLE_CELLS
            invariant
                buffer@ == Seq::new(k as nat, |i: int| blank()),
        {
            buffer.push(ConsoleChar { character: '\0', color: 0, background_color: 0 });
            assert(buffer@ =~= Seq::new((k + 1) as nat, |i: int| blank()));
        }
        Console { buffer, cursor_x: 0, cursor_y: 0, text_color: Color::WHITE, background_color: Color::BLACK }
    }

    /// The cell at column `x` of row `y`.
    pub fn cell(&self, x: usize, y: usize) -> (c: ConsoleChar)
        requires
            console_wf(self@),
            x < CONSOLE_WIDTH,
            y < CONSOLE_HEIGHT,
        ensures
            c == self@.cells[y * CONSOLE_WIDTH + x],
    {
        self.buffer[y * CONSOLE_WIDTH + x]
    }

    /// The cursor's column and row.
    pub fn cursor(&self) -> (c: (usize, usize))
        ensures
            c.0 == self@.cursor_x,
            c.1 == self@.cursor_y,
    {
        (self.cursor_x, self.cursor_y)
    }

    /// The default text and background colors.
    pub fn colors(&self) -> (c: (u32, u32))
        ensures
            c == (self@.text_color, self@.background_color),
    {
        (self.text_color, self.background_color)
    }

    /// Sets the default colors.
    pub fn set_colors(&mut self, text_color: u32, background_color: u32)
        ensures
            final(self)@ == (ConsoleView { text_color, background_color, ..old(self)@ }),
    {
        self.text_color = text_color;
        self.background_color = background_color;
    }

    /// Scrolls one line (see `scrolled`).
    fn scroll(&mut self)
        requires
            old(self)@.cells.len() == CONSOLE_CELLS,
        ensures
            final(self)@ == scrolled(old(self)@),
    {
        let ghost old_cells = self.buffer@;
        let mut y: usize = 1;
        while y < CONSOLE_HEIGHT
            invariant
                1 <= y <= CONSOLE_HEIGHT,
                self.buffer@.len() == CONSOLE_CELLS,
                forall|k: int| 0 <= k < (y - 1) * CONSOLE_WIDTH ==> #[trigger] self.buffer@[k] == old_cells[k + CONSOLE_WIDTH],
                forall|k: int| (y - 1) * CONSOLE_WIDTH <= k < CONSOLE_CELLS ==> #[trigger] self.buffer@[k] == old_cells[k],
                self.cursor_x == old(self).cursor_x,
                self.text_color == old(self).text_color,
                self.background_color == old(self).background_color,
            decreases CONSOLE_HEIGHT - y,
        {
            let mut x: usize = 0;
            while x < CONSOLE_WIDTH
                invariant
                    1 <= y < CONSOLE_HEIGHT,
                    x <= CONSOLE_WIDTH,
                    self.buffer@.len() == CONSOLE_CELLS,
                    forall|k: int| 0 <= k < (y - 1) * CONSOLE_WIDTH + x ==> #[trigger] self.buffer@[k] == old_cells[k + CONSOLE_WIDTH],
                    forall|k: int| (y - 1) * CONSOLE_WIDTH + x <= k < CONSOLE_CELLS ==> #[trigger] self.buffer@[k] == old_cells[k],
                    self.cursor_x == old(self).cursor_x,
                    self.text_color == old(self).text_color,
                    self.background_color == old(self).background_color,
                decreases CONSOLE_WIDTH - x,
            {
                let c = self.buffer[y * CONSOLE_WIDTH + x];
                self.buffer.set((y - 1) * CONSOLE_WIDTH + x, c);
                x = x + 1;
            }
            y = y + 1;
        }
        let mut x: usize = 0;
        while x < CONSOLE_WIDTH
            invariant
                x <= CONSOLE_WIDTH,
                self.buffer@.len() == CONSOLE_CELLS,
                forall|k: int| 0 <= k < CONSOLE_CELLS - CONSOLE_WIDTH ==> #[trigger] self.buffer@[k] == old_cells[k + CONSOLE_WIDTH],
                forall|k: int| CONSOLE_CELLS - CONSOLE_WIDTH <= k < CONSOLE_CELLS - CONSOLE_WIDTH + x ==> #[trigger] self.buffer@[k] == blank(),
                self.cursor_x == old(self).cursor_x,
                self.text_color == old(self).text_color,
                self.background_color == old(self).background_color,
            decreases CONSOLE_WIDTH - x,
        {
            self.buffer.set(CONSOLE_CELLS - CONSOLE_WIDTH + x, ConsoleChar { character: '\0', color: 0, background_color: 0 });
            x = x + 1;
        }
        self.cursor_y = CONSOLE_HEIGHT - 1;
        assert(self@.cells =~= scrolled(old(self)@).cells);
    }

    /// Moves the cursor on after a write (see `wrapped`).
    fn wrap(&mut self)
        requires
            old(self)@.cells.len() == CONSOLE_CELLS,
            0 <= old(self)@.cursor_x <= CONSOLE_WIDTH,
            0 <= old(self)@.cursor_y <= CONSOLE_HEIGHT,
        ensures
            final(self)@ == wrapped(old(self)@),
            console_wf(final(self)@),
    {
        if self.cursor_x >= CONSOLE_WIDTH {
            self.cursor_x = 0;
            self.cursor_y = self.cursor_y + 1;
        }
        if self.cursor_y >= CONSOLE_HEIGHT {
            self.scroll();
        }
    }

    /// Puts an ordinary character (see `put_plain`).
    fn put_plain(&mut self, character: char, color: Option<u32>, background_color: Option<u32>)
        requires
            console_wf(old(self)@),
        ensures
            final(self)@ == put_plain(old(self)@, character, color, background_color),
            console_wf(final(self)@),
    {
        let cell = ConsoleChar {
            character,
            color: match color {
                Some(c) => c,
                None => self.text_color,
            },
            background_color: match background_color {
                Some(c) => c,
                None => self.background_color,
            },
        };
        self.buffer.set(self.cursor_y * CONSOLE_WIDTH + self.cursor_x, cell);
        self.cursor_x = self.cursor_x + 1;
        self.wrap();
    }

    /// Writes a character (see `after_char`).
    pub fn write_char(&mut self, character: char, color: Option<u32>, background_color: Option<u32>)
        requires
            console_wf(old(self)@),
        ensures
            final(self)@ == after_char(old(self)@, character, color, background_color),
            console_wf(final(self)@),
    {
        if character == '\n' {
            self.cursor_x = 0;
            self.cursor_y = self.cursor_y + 1;
        } else if character == '\r' {
            self.cursor_x = 0;
        } else if character == '\t' {
            let mut i: u32 = 0;
            while i < 4
                invariant
                    0 <= i <= 4,
                    console_wf(self@),
                    i == 0 ==> self@ == old(self)@,
                    i == 1 ==> self@ == put_plain(old(self)@, ' ', color, background_color),
                    i == 2 ==> self@ == put_plain(put_plain(old(self)@, ' ', color, background_color), ' ', color, background_color),
                    i == 3 ==> self@ == put_plain(
                        put_plain(put_plain(old(self)@, ' ', color, background_color), ' ', color, background_color),
                        ' ',
                        color,
                        background_color,
                    ),
                    i == 4 ==> self@ == put_plain(
                        put_plain(
                            put_plain(put_plain(old(self)@, ' ', color, background_color), ' ', color, background_color),
                            ' ',
                            color,
                            background_color,
                        ),
                        ' ',
                        color,
                        background_color,
                    ),
                decreases 4 - i,
            {
                self.put_plain(' ', color, background_color);
                i = i + 1;
            }
        } else if character == '\x08' {
            if self.cursor_x > 0 {
                self.cursor_x = self.cursor_x - 1;
                self.put_plain(' ', color, background_color);
                self.cursor_x = self.cursor_x - 1;
            }
        } else {
            self.put_plain(character, color, background_color);
            return;
        }
        self.wrap();
    }

    /// Writes the characters of `string` in order and draws the console onto the
    /// framebuffer with `font` (see `flush`).
    pub fn write_str(
        &mut self,
        string: &str,
        color: Option<u32>,
        background_color: Option<u32>,
        fb: &mut FrameBufferInfo,
        font: &[Vec<u8>],
    )
        requires
            console_wf(old(self)@),
            old(fb).wf(),
            font_fits(font@),
        ensures
            final(self)@ == after_chars(old(self)@, string@, color, background_color),
            console_wf(final(self)@),
            final(fb).same_geometry(&*old(fb)),
            final(fb).spec_pixels() == painted_console(
                *old(fb),
                old(fb).spec_pixels(),
                console_glyphs(final(self)@.cells),
                font@,
                old(fb).spec_scale() as int,
            ),
    {
        self.write_chars(string, color, background_color);
        self.flush(fb, font);
    }

    /// Writes the characters of `string` in order.
    fn write_chars(&mut self, string: &str, color: Option<u32>, background_color: Option<u32>)
        requires
            console_wf(old(self)@),
        ensures
            final(self)@ == after_chars(old(self)@, string@, color, background_color),
            console_wf(final(self)@),
    {
        let n = string.unicode_len();
        let mut i: usize = 0;
        while i < n
            invariant
                n == string@.len(),
                i <= n,
                console_wf(self@),
                self@ == after_chars(old(self)@, string@.take(i as int), color, background_color),
            decreases n - i,
        {
            let c = string.get_char(i);
            assert(string@.take(i + 1).drop_last() =~= string@.take(i as int));
            self.write_char(c, color, background_color);
            i = i + 1;
        }
        assert(string@.take(n as int) =~= string@);
    }

    /// Forgets the print macros' color picks.
    pub fn clear_inner_styling(&self, style: &mut InnerPrintStyle)
        ensures
            *final(style) == plain_style(),
    {
        style.clear();
    }

    /// Writes a piece of formatted text under the print macros' style settings. When
    /// a color pick is pending, the piece is that color in hexadecimal (white for an
    /// unreadable text color, black for an unreadable background) and nothing is
    /// written. Otherwise the piece is written as `styled_after` says and the console
    /// is drawn onto the framebuffer.
    pub fn write_styled(
        &mut self,
        style: &mut InnerPrintStyle,
        string: &str,
        fb: &mut FrameBufferInfo,
        font: &[Vec<u8>],
    )
        requires
            console_wf(old(self)@),
            old(fb).wf(),
            font_fits(font@),
        ensures
            console_wf(final(self)@),
            final(fb).same_geometry(&*old(fb)),
            old(style).setting_text_color ==> {
                &&& *final(style) == (InnerPrintStyle {
                    text_color: Some(
                        match parse_hex_u32(string@) {
                            Some(c) => c,
                            None => Color::WHITE,
                        },
                    ),
                    setting_text_color: false,
                    ..*old(style)
                })
                &&& final(self)@ == old(self)@
                &&& final(fb).spec_pixels() == old(fb).spec_pixels()
            },
            !old(style).setting_text_color && old(style).setting_background_color ==> {
                &&& *final(style) == (InnerPrintStyle {
                    background_color: Some(
                        match parse_hex_u32(string@) {
                            Some(c) => c,
                            None => Color::BLACK,
                        },
                    ),
                    setting_background_color: false,
                    ..*old(style)
                })
                &&& final(self)@ == old(self)@
                &&& final(fb).spec_pixels() == old(fb).spec_pixels()
            },
            !old(style).setting_text_color && !old(style).setting_background_color ==> {
                let (v, st, _reading) = styled_after(old(self)@, *old(style), string@);
                &&& final(self)@ == v
                &&& *final(style) == st
                &&& final(fb).spec_pixels() == painted_console(
                    *old(fb),
                    old(fb).spec_pixels(),
                    console_glyphs(v.cells),
                    font@,
                    old(fb).spec_scale() as int,
                )
            },
    {
        if style.setting_text_color {
            style.text_color = Some(
                match parse_hex(string) {
                    Some(c) => c,
                    None => Color::WHITE,
                },
            );
            style.setting_text_color = false;
            return;
        }
        if style.setting_background_color {
            style.background_color = Some(
                match parse_hex(string) {
                    Some(c) => c,
                    None => Color::BLACK,
                },
            );
            style.setting_background_color = false;
            return;
        }
        let mut reading_color_type = false;
        let n = string.unicode_len();
        let mut i: usize = 0;
        while i < n
            invariant
                n == string@.len(),
                i <= n,
                console_wf(self@),
                (self@, *style, reading_color_type) == styled_after(old(self)@, *old(style), string@.take(i as int)),
            decreases n - i,
        {
            let character = string.get_char(i);
            assert(string@.take(i + 1).drop_last() =~= string@.take(i as int));
            if character == '[' {
                reading_color_type = true;
            } else if reading_color_type {
                if character == 'b' || character == 'B' {
                    style.setting_text_color = false;
                    style.setting_background_color = true;
                } else if character == 'f' || character == 'F' {
                    style.setting_text_color = true;
                    style.setting_background_color = false;
                }
                reading_color_type = false;
            } else {
                self.write_char(character, style.text_color, style.background_color);
            }
            i = i + 1;
        }
        assert(string@.take(n as int) =~= string@);
        self.flush(fb, font);
    }

    /// Empties every cell and moves the cursor to the top left.
    pub fn clear(&mut self)
        requires
            console_wf(old(self)@),
        ensures
            final(self)@ == (ConsoleView {
                cells: Seq::new(CONSOLE_CELLS as nat, |k: int| blank()),
                cursor_x: 0,
                cursor_y: 0,
                ..old(self)@
            }),
    {
        let mut y: usize = 0;
        while y < CONSOLE_HEIGHT
            invariant
                y <= CONSOLE_HEIGHT,
                self.buffer@.len() == CONSOLE_CELLS,
                forall|k: int| 0 <= k < y * CONSOLE_WIDTH ==> #[trigger] self.buffer@[k] == blank(),
                self.text_color == old(self).text_color,
                self.background_color == old(self).background_color,
            decreases CONSOLE_HEIGHT - y,
        {
            let mut x: usize = 0;
            while x < CONSOLE_WIDTH
                invariant
                    y < CONSOLE_HEIGHT,
                    x <= CONSOLE_WIDTH,
                    self.buffer@.len() == CONSOLE_CELLS,
                    forall|k: int| 0 <= k < y * CONSOLE_WIDTH + x ==> #[trigger] self.buffer@[k] == blank(),
                    self.text_color == old(self).text_color,
                    self.background_color == old(self).background_color,
                decreases CONSOLE_WIDTH - x,
            {
                self.buffer.set(y * CONSOLE_WIDTH + x, ConsoleChar { character: '\0', color: 0, background_color: 0 });
                x = x + 1;
            }
            y = y + 1;
        }
        self.cursor_x = 0;
        self.cursor_y = 0;
        assert(self@.cells =~= Seq::new(CONSOLE_CELLS as nat, |k: int| blank()));
    }

    /// Draws every cell onto the framebuffer, row by row, with its glyph of `font`
    /// and its colors (see `console_glyphs`).
    pub fn flush(&self, fb: &mut FrameBufferInfo, font: &[Vec<u8>])
        requires
            console_wf(self@),
            old(fb).wf(),
            font_fits(font@),
        ensures
            final(fb).same_geometry(&*old(fb)),
            final(fb).spec_pixels() == painted_console(
                *old(fb),
                old(fb).spec_pixels(),
                console_glyphs(self@.cells),
                font@,
                old(fb).spec_scale() as int,
            ),
    {
        let ghost fb0 = *fb;
        let ghost s0 = fb.spec_pixels();
        let ghost sc = fb.spec_scale() as int;
        let ghost all = console_glyphs(self@.cells);
        let scale = fb.get_scale() as u64;
        let mut y: usize = 0;
        while y < CONSOLE_HEIGHT
            invariant
                y <= CONSOLE_HEIGHT,
                console_wf(self@),
                fb.wf(),
                fb.same_geometry(&fb0),
                font_fits(font@),
                scale == sc,
                sc == fb0.spec_scale(),
                all == console_glyphs(self@.cells),
                fb.spec_pixels() == painted_console(fb0, s0, all.take(y * CONSOLE_WIDTH as int), font@, sc),
            decreases CONSOLE_HEIGHT - y,
        {
            let mut x: usize = 0;
            while x < CONSOLE_WIDTH
                invariant
                    y < CONSOLE_HEIGHT,
                    x <= CONSOLE_WIDTH,
                    console_wf(self@),
                    fb.wf(),
                    fb.same_geometry(&fb0),
                    font_fits(font@),
                    scale == sc,
                    sc == fb0.spec_scale(),
                    all == console_glyphs(self@.cells),
                    fb.spec_pixels() == painted_console(fb0, s0, all.take(y * CONSOLE_WIDTH as int + x), font@, sc),
                decreases CONSOLE_WIDTH - x,
            {
                let k = y * CONSOLE_WIDTH + x;
                let cell = self.buffer[k];
                let px = x as u64 * FONT_WIDTH + 1;
                let py = y as u64 * FONT_HEIGHT + 1;
                proof {
                    assert((k as int) / (CONSOLE_WIDTH as int) == y && (k as int) % (CONSOLE_WIDTH as int) == x);
                    assert(all[k as int] == (px as int, py as int, cell));
                    assert(all.take(k + 1).drop_last() =~= all.take(k as int));
                    assert(all.take(k + 1).last() == all[k as int]);
                    assert(scale <= 255);
                }
                let code = cell.character as u32 as usize;
                let ghost fb1 = *fb;
                if code < font.len() {
                    proof {
                        assert(font@[code as int]@.len() <= FONT_HEIGHT);
                        assert(py + font@[code as int]@.len() * scale <= u64::MAX) by (nonlinear_arith)
                            requires
                                py <= 400,
                                font@[code as int]@.len() <= 16,
                                scale <= 255,
                        ;
                    }
                    fb.draw_char(px, py, font[code].as_slice(), cell.color, cell.background_color);
                } else {
                    let empty: [u8; 0] = [];
                    fb.draw_char(px, py, empty.as_slice(), cell.color, cell.background_color);
                }
                proof {
                    let g = glyph_cells(
                        px as int,
                        py as int,
                        glyph_of(font@, cell.character),
                        cell.color,
                        cell.background_color,
                        sc,
                    );
                    if code >= font.len() {
                        assert(g =~= Seq::<(int, int, u32)>::empty());
                    }
                    lemma_painted_cells_geometry(fb1, fb0, fb1.spec_pixels(), g, sc);
                }
                x = x + 1;
            }
            y = y + 1;
        }
        assert(all.take(CONSOLE_CELLS as int) =~= all);
    }
}

} // verus!
