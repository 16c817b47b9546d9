//! The framebuffer: a linear array of 32-bit pixels, `pitch` bytes per row.
//!
//! Drawing writes into `pixels`, the framebuffer's memory as 32-bit words; pixel
//! (x, y) is word `y * pitch / (bpp / 8) + x`. Writes outside the visible
//! `width` x `height` area are dropped. Each drawing operation is stated as the
//! points it plots, in order: later points overwrite earlier ones.

use vstd::prelude::*;
use vstd::arithmetic::div_mod::{lemma_div_by_multiple, lemma_div_is_ordered};
use vstd::arithmetic::mul::lemma_mul_inequality;

use super::console::{CONSOLE_HEIGHT, CONSOLE_WIDTH};

verus! {

/// Width of a glyph in pixels; each glyph row is a byte, leftmost pixel in the most
/// significant bit.
pub const FONT_WIDTH: u64 = 8;

/// Height of a glyph in pixels (rows per glyph).
pub const FONT_HEIGHT: u64 = 16;

/// A point on the screen.
#[derive(Copy, Clone, Debug, PartialEq, Eq)]
pub struct Point {
    pub x: u64,
    pub y: u64,
}

/// The framebuffer's memory, dimensions and pixel format, and the scale glyphs are
/// drawn at.
pub struct FrameBufferInfo {
    pixels: Vec<u32>,
    width: u64,
    height: u64,
    pitch: u64,
    bpp: u16,
    scale: u8,
}

/// The memory of `len` words can hold every visible pixel of a `width` x `height`
/// screen with rows `pitch` bytes apart and `bpp` bits per pixel, and the row offsets
/// fit in 64 bits.
pub open spec fn geometry_fits(len: nat, width: u64, height: u64, pitch: u64, bpp: u16) -> bool {
    &&& bpp >= 8
    &&& height * pitch <= u64::MAX
    &&& (height > 0 && width > 0) ==> ((height - 1) * pitch) / ((bpp / 8) as int) + width <= len
}

/// The glyph scale for a screen of the given size: the largest whole factor at which
/// the console's text fits both across and down.
pub open spec fn scale_for(width: u64, height: u64) -> u64 {
    let scale_width = width / (CONSOLE_WIDTH as u64 * FONT_WIDTH) as u64;
    let scale_height = height / (CONSOLE_HEIGHT as u64 * FONT_HEIGHT) as u64;
    if scale_height > scale_width {
        scale_width
    } else {
        scale_height
    }
}

impl FrameBufferInfo {
    pub closed spec fn spec_pixels(&self) -> Seq<u32> {
        self.pixels@
    }

    pub closed spec fn spec_width(&self) -> u64 {
        self.width
    }

    pub closed spec fn spec_height(&self) -> u64 {
        self.height
    }

    pub closed spec fn spec_pitch(&self) -> u64 {
        self.pitch
    }

    pub closed spec fn spec_bpp(&self) -> u16 {
        self.bpp
    }

    pub closed spec fn spec_scale(&self) -> u8 {
        self.scale
    }

    /// The memory holds every visible pixel.
    pub open spec fn wf(&self) -> bool {
        geometry_fits(self.spec_pixels().len(), self.spec_width(), self.spec_height(), self.spec_pitch(), self.spec_bpp())
    }

    /// Both have the same dimensions, pixel format and scale.
    pub open spec fn same_geometry(&self, other: &Self) -> bool {
        &&& self.spec_width() == other.spec_width()
        &&& self.spec_height() == other.spec_height()
        &&& self.spec_pitch() == other.spec_pitch()
        &&& self.spec_bpp() == other.spec_bpp()
        &&& self.spec_scale() == other.spec_scale()
        &&& self.spec_pixels().len() == other.spec_pixels().len()
    }
}

/// The word of memory that holds pixel (x, y).
pub open spec fn pixel_offset(fb: FrameBufferInfo, x: int, y: int) -> int {
    (y * fb.spec_pitch()) / ((fb.spec_bpp() / 8) as int) + x
}

/// The memory `s` after plotting (x, y) in `color`: the pixel's word changes when the
/// point is on the screen, and nothing changes otherwise.
pub open spec fn plot(fb: FrameBufferInfo, s: Seq<u32>, x: int, y: int, color: u32) -> Seq<u32> {
    if 0 <= x < fb.spec_width() && 0 <= y < fb.spec_height() {
        s.update(pixel_offset(fb, x, y), color)
    } else {
        s
    }
}

/// The memory `s` after plotting the points `pts` in order, all in `color`.
pub open spec fn painted(fb: FrameBufferInfo, s: Seq<u32>, pts: Seq<(int, int)>, color: u32) -> Seq<u32>
    decreases pts.len(),
{
    if pts.len() == 0 {
        s
    } else {
        plot(fb, painted(fb, s, pts.drop_last(), color), pts.last().0, pts.last().1, color)
    }
}

/// `n` points of row `y`, from column `x` rightwards.
pub open spec fn row_points(x: int, y: int, n: int) -> Seq<(int, int)> {
    Seq::new(if n < 0 { 0 } else { n as nat }, |i: int| (x + i, y))
}

/// The points of the `w` x `h` rectangle at (x, y), row by row from the top, each row
/// from the left.
pub open spec fn rect_points(x: int, y: int, w: int, h: int) -> Seq<(int, int)>
    decreases h,
{
    if h <= 0 {
        Seq::empty()
    } else {
        rect_points(x, y, w, h - 1) + row_points(x, y + h - 1, w)
    }
}

/// The line walk from offset (i, j) of a line `a` columns wide and `b` rows tall
/// moves one column when the midpoint test `2a(j+1) >= b(2i+1)` holds ...
pub open spec fn steps_x(a: int, b: int, i: int, j: int) -> bool {
    2 * a * (j + 1) >= b * (2 * i + 1)
}

/// ... and one row when `a(2j+1) <= 2b(i+1)` holds; both may hold (a diagonal step).
pub open spec fn steps_y(a: int, b: int, i: int, j: int) -> bool {
    a * (2 * j + 1) <= 2 * b * (i + 1)
}

/// From any offset short of the end, the walk moves at least one step and stays
/// within the line's span.
pub proof fn lemma_line_step(a: int, b: int, i: int, j: int)
    requires
        0 <= i <= a,
        0 <= j <= b,
        !(i == a && j == b),
    ensures
        steps_x(a, b, i, j) ==> i < a,
        steps_y(a, b, i, j) ==> j < b,
        steps_x(a, b, i, j) || steps_y(a, b, i, j),
{
    if i == a {
        assert(!steps_x(a, b, i, j) && steps_y(a, b, i, j)) by (nonlinear_arith)
            requires
                0 <= j < b,
                i == a,
                0 <= a,
        ;
    } else if j == b {
        assert(steps_x(a, b, i, j) && !steps_y(a, b, i, j)) by (nonlinear_arith)
            requires
                0 <= i < a,
                j == b,
                0 <= b,
        ;
    } else {
        assert(steps_x(a, b, i, j) || steps_y(a, b, i, j)) by (nonlinear_arith)
            requires
                0 <= i < a,
                0 <= j < b,
        ;
    }
}

/// The offsets Bresenham's algorithm visits on a line `a` columns wide and `b` rows
/// tall, from offset (i, j) to (a, b): each step moves one column, one row or both,
/// as the midpoint tests `steps_x` and `steps_y` decide.
pub open spec fn line_offsets(a: int, b: int, i: int, j: int) -> Seq<(int, int)>
    decreases (a - i) + (b - j),
    when 0 <= i <= a && 0 <= j <= b
{
    if i == a && j == b {
        seq![(i, j)]
    } else {
        proof {
            lemma_line_step(a, b, i, j);
        }
        seq![(i, j)] + line_offsets(
            a,
            b,
            if steps_x(a, b, i, j) { i + 1 } else { i },
            if steps_y(a, b, i, j) { j + 1 } else { j },
        )
    }
}

/// The screen point at offset `o` of the line from `p0` towards `p1`.
pub open spec fn line_point(p0: Point, p1: Point, o: (int, int)) -> (int, int) {
    (
        if p0.x <= p1.x { p0.x + o.0 } else { p0.x - o.0 },
        if p0.y <= p1.y { p0.y + o.1 } else { p0.y - o.1 },
    )
}

/// The columns and rows the line from `p0` to `p1` spans.
pub open spec fn abs_diff(a: u64, b: u64) -> int {
    if a <= b { b - a } else { a - b }
}

/// The points of the line from `p0` to `p1` that Bresenham's algorithm plots, from
/// `p0` to `p1`.
pub open spec fn line_points(p0: Point, p1: Point) -> Seq<(int, int)> {
    line_offsets(abs_diff(p0.x, p1.x), abs_diff(p0.y, p1.y), 0, 0).map_values(|o: (int, int)| line_point(p0, p1, o))
}

/// The walk from any offset starts there and ends at the far corner (a, b).
pub proof fn lemma_line_offsets_ends(a: int, b: int, i: int, j: int)
    requires
        0 <= i <= a,
        0 <= j <= b,
    ensures
        line_offsets(a, b, i, j).len() > 0,
        line_offsets(a, b, i, j)[0] == (i, j),
        line_offsets(a, b, i, j).last() == (a, b),
    decreases (a - i) + (b - j),
{
    if !(i == a && j == b) {
        lemma_line_step(a, b, i, j);
        let ni = if steps_x(a, b, i, j) { i + 1 } else { i };
        let nj = if steps_y(a, b, i, j) { j + 1 } else { j };
        lemma_line_offsets_ends(a, b, ni, nj);
    }
}

/// A line drawn from `p0` to `p1` starts at `p0` and ends at `p1`.
pub proof fn lemma_line_joins_endpoints(p0: Point, p1: Point)
    ensures
        line_points(p0, p1).len() > 0,
        line_points(p0, p1)[0] == (p0.x as int, p0.y as int),
        line_points(p0, p1).last() == (p1.x as int, p1.y as int),
{
    let a = abs_diff(p0.x, p1.x);
    let b = abs_diff(p0.y, p1.y);
    lemma_line_offsets_ends(a, b, 0, 0);
    let offs = line_offsets(a, b, 0, 0);
    assert(line_points(p0, p1)[offs.len() - 1] == line_point(p0, p1, offs[offs.len() - 1]));
}

/// The error term of the walk at offset (i, j) decides the midpoint tests, and
/// follows the steps.
proof fn lemma_line_error(a: int, b: int, i: int, j: int, err: int)
    requires
        err == a * (j + 1) - b * (i + 1),
    ensures
        (2 * err >= -b) == steps_x(a, b, i, j),
        (2 * err <= a) == steps_y(a, b, i, j),
        err - b == a * (j + 1) - b * (i + 2),
        err + a == a * (j + 2) - b * (i + 1),
        err - b + a == a * (j + 2) - b * (i + 2),
{
    assert((2 * err >= -b) == steps_x(a, b, i, j)) by (nonlinear_arith)
        requires
            err == a * (j + 1) - b * (i + 1),
    ;
    assert((2 * err <= a) == steps_y(a, b, i, j)) by (nonlinear_arith)
        requires
            err == a * (j + 1) - b * (i + 1),
    ;
    assert(err - b == a * (j + 1) - b * (i + 2)) by (nonlinear_arith)
        requires
            err == a * (j + 1) - b * (i + 1),
    ;
    assert(err + a == a * (j + 2) - b * (i + 1)) by (nonlinear_arith)
        requires
            err == a * (j + 1) - b * (i + 1),
    ;
}

/// Row `y` lies between the rows of `p` and `q`.
pub open spec fn row_between(y: int, p: Point, q: Point) -> bool {
    (p.y <= y <= q.y) || (q.y <= y <= p.y)
}

/// The column where the edge from `p` to `q` crosses row `y`, rounded towards `p`
/// (the column of `p` when the edge is horizontal).
pub open spec fn edge_x(p: Point, q: Point, y: int) -> int {
    if p.y == q.y {
        p.x as int
    } else {
        let m = abs_diff(p.x, q.x) * (if p.y <= y { y - p.y } else { p.y - y }) / abs_diff(p.y, q.y);
        if p.x <= q.x {
            p.x + m
        } else {
            p.x - m
        }
    }
}

/// The points of row `y` between the edges from `pl` to `pa` and from `pl` to `pb`,
/// from the left.
pub open spec fn span_points(pl: Point, pa: Point, pb: Point, y: int) -> Seq<(int, int)> {
    let xs = edge_x(pl, pa, y);
    let xe = edge_x(pl, pb, y);
    if xs <= xe {
        row_points(xs, y, xe - xs + 1)
    } else {
        row_points(xe, y, xs - xe + 1)
    }
}

/// The spans of `n` rows from `start_y` down, between the edges from `pl` to `pa`
/// and from `pl` to `pb`.
pub open spec fn fill_points(pl: Point, pa: Point, pb: Point, start_y: int, n: int) -> Seq<(int, int)>
    decreases n,
{
    if n <= 0 {
        Seq::empty()
    } else {
        fill_points(pl, pa, pb, start_y, n - 1) + span_points(pl, pa, pb, start_y + n - 1)
    }
}

/// The three points ordered by row, keeping the given order between points of the
/// same row.
pub open spec fn sorted_by_row(p1: Point, p2: Point, p3: Point) -> (Point, Point, Point) {
    let (a, b) = if p1.y > p2.y { (p2, p1) } else { (p1, p2) };
    if b.y > p3.y {
        if a.y > p3.y { (p3, a, b) } else { (a, p3, b) }
    } else {
        (a, b, p3)
    }
}

/// Some point of `pts` lies on row `y`.
pub open spec fn has_point_in_row(pts: Seq<(int, int)>, y: int) -> bool {
    exists|x: int| pts.contains((x, y))
}

/// The highest (least) row of three points.
pub open spec fn min3_y(p1: Point, p2: Point, p3: Point) -> u64 {
    let a = if p1.y <= p2.y { p1.y } else { p2.y };
    if a <= p3.y { a } else { p3.y }
}

/// The lowest (greatest) row of three points.
pub open spec fn max3_y(p1: Point, p2: Point, p3: Point) -> u64 {
    let a = if p1.y >= p2.y { p1.y } else { p2.y };
    if a >= p3.y { a } else { p3.y }
}

/// The least of three columns.
pub open spec fn min3_x(p1: Point, p2: Point, p3: Point) -> u64 {
    let a = if p1.x <= p2.x { p1.x } else { p2.x };
    if a <= p3.x { a } else { p3.x }
}

/// The greatest of three columns.
pub open spec fn max3_x(p1: Point, p2: Point, p3: Point) -> u64 {
    let a = if p1.x >= p2.x { p1.x } else { p2.x };
    if a >= p3.x { a } else { p3.x }
}

/// The points of the filled triangle: with the corners ordered by row as v0, v1, v2,
/// the spans from v0's row to v1's between the edges v0-v1 and v0-v2, then the
/// spans from v1's row to v2's between the edges v2-v0 and v2-v1. When all three
/// corners lie on one row, the triangle is the span of that row from the leftmost
/// corner to the rightmost.
pub open spec fn triangle_points(p1: Point, p2: Point, p3: Point) -> Seq<(int, int)> {
    let (v0, v1, v2) = sorted_by_row(p1, p2, p3);
    if v0.y == v2.y {
        let lo = min3_x(p1, p2, p3);
        row_points(lo as int, v0.y as int, max3_x(p1, p2, p3) - lo + 1)
    } else {
        fill_points(v0, v1, v2, v0.y as int, v1.y - v0.y + 1) + fill_points(v2, v0, v1, v1.y as int, v2.y - v1.y + 1)
    }
}

/// The edge from `p` to `q` is short enough for its interpolation to stay in 64 bits.
pub open spec fn edge_fits(p: Point, q: Point) -> bool {
    abs_diff(p.x, q.x) * abs_diff(p.y, q.y) <= u64::MAX
}

/// Whether the pixel of column `col` (0 leftmost) of a glyph row is set.
pub open spec fn glyph_bit(bits: u8, col: int) -> bool {
    (bits >> ((FONT_WIDTH - 1 - col) as u8)) & 1 == 1
}

/// The cells of a glyph drawn at (x, y) at the given scale, row by row from the top,
/// each row from the left: each cell is a `scale` x `scale` square at its corner, in
/// `color` when its bit is set and in `background` otherwise.
pub open spec fn glyph_cells(x: int, y: int, bitmap: Seq<u8>, color: u32, background: u32, scale: int) -> Seq<
    (int, int, u32),
> {
    Seq::new(
        bitmap.len() * FONT_WIDTH as nat,
        |k: int|
            {
                let r = k / FONT_WIDTH as int;
                let c = k % FONT_WIDTH as int;
                (x + c * scale, y + r * scale, if glyph_bit(bitmap[r], c) { color } else { background })
            },
    )
}

/// The memory `s` after filling the `scale` x `scale` squares `cells` in order, each
/// in its color.
pub open spec fn painted_cells(fb: FrameBufferInfo, s: Seq<u32>, cells: Seq<(int, int, u32)>, scale: int) -> Seq<u32>
    decreases cells.len(),
{
    if cells.len() == 0 {
        s
    } else {
        let c = cells.last();
        painted(fb, painted_cells(fb, s, cells.drop_last(), scale), rect_points(c.0, c.1, scale, scale), c.2)
    }
}

/// The glyph of `c` in `font`, where the glyph of a character is at the index of its
/// code point; a character past the end of the font has the empty glyph.
pub open spec fn glyph_of(font: Seq<Vec<u8>>, c: char) -> Seq<u8> {
    if (c as u32 as int) < font.len() {
        font[c as u32 as int]@
    } else {
        Seq::empty()
    }
}

/// Where the characters of `chars` are drawn when the text starts at (x, y) and its
/// lines start at column `start_x`: each character but a newline is drawn at the
/// current point, which then moves a glyph width right; a newline moves to
/// `start_x` on the line a glyph height plus one pixel down.
pub open spec fn text_glyphs(chars: Seq<char>, start_x: int, x: int, y: int, scale: int) -> Seq<(int, int, char)>
    decreases chars.len(),
{
    if chars.len() == 0 {
        Seq::empty()
    } else if chars[0] == '\n' {
        text_glyphs(chars.drop_first(), start_x, start_x, y + FONT_HEIGHT * scale + 1, scale)
    } else {
        seq![(x, y, chars[0])] + text_glyphs(chars.drop_first(), start_x, x + FONT_WIDTH * scale, y, scale)
    }
}

/// Number of newlines in `p`: the line of text that follows `p`.
pub open spec fn newlines(p: Seq<char>) -> int
    decreases p.len(),
{
    if p.len() == 0 {
        0
    } else {
        newlines(p.drop_last()) + if p.last() == '\n' { 1int } else { 0 }
    }
}

/// The column of text that follows `p` when `p` starts at column `col0`: the
/// characters since its last newline, or `col0` plus its length if it has none.
pub open spec fn column(p: Seq<char>, col0: int) -> int
    decreases p.len(),
{
    if p.len() == 0 {
        col0
    } else if p.last() == '\n' {
        0
    } else {
        column(p.drop_last(), col0) + 1
    }
}

/// The characters of `chars` other than newlines, each at its closed-form position
/// when the text starts at column `col0` of the line at `y` and lines start at `start_x`:
/// the character in column `k` of line `j` is at `start_x + k * FONT_WIDTH * scale`,
/// `y + j * (FONT_HEIGHT * scale + 1)`.
pub open spec fn placed_chars(chars: Seq<char>, start_x: int, y: int, scale: int, col0: int) -> Seq<(int, int, char)>
    decreases chars.len(),
{
    if chars.len() == 0 {
        Seq::empty()
    } else {
        let p = chars.drop_last();
        if chars.last() == '\n' {
            placed_chars(p, start_x, y, scale, col0)
        } else {
            placed_chars(p, start_x, y, scale, col0).push(
                (
                    start_x + column(p, col0) * (FONT_WIDTH * scale),
                    y + newlines(p) * (FONT_HEIGHT * scale + 1),
                    chars.last(),
                ),
            )
        }
    }
}

proof fn lemma_newlines_front(c: char, q: Seq<char>)
    ensures
        newlines(seq![c] + q) == (if c == '\n' { 1int } else { 0 }) + newlines(q),
    decreases q.len(),
{
    let all = seq![c] + q;
    if q.len() > 0 {
        assert(all.drop_last() =~= seq![c] + q.drop_last());
        assert(all.last() == q.last());
        lemma_newlines_front(c, q.drop_last());
        assert(newlines(all) == newlines(all.drop_last()) + if all.last() == '\n' { 1int } else { 0 });
    } else {
        assert(all.drop_last() =~= Seq::<char>::empty());
        assert(all.last() == c);
        assert(newlines(all) == newlines(all.drop_last()) + if all.last() == '\n' { 1int } else { 0 });
    }
}

proof fn lemma_column_front(c: char, q: Seq<char>, col0: int)
    ensures
        column(seq![c] + q, col0) == column(q, if c == '\n' { 0 } else { col0 + 1 }),
    decreases q.len(),
{
    let all = seq![c] + q;
    if q.len() > 0 {
        assert(all.drop_last() =~= seq![c] + q.drop_last());
        assert(all.last() == q.last());
        lemma_column_front(c, q.drop_last(), col0);
    } else {
        assert(all.drop_last() =~= Seq::<char>::empty());
        assert(all.last() == c);
        assert(column(all.drop_last(), col0) == col0);
    }
}

/// Placing a text whose first character is `c`: a newline starts the rest on the next
/// line at column 0; another character is placed first and the rest follows it.
proof fn lemma_placed_front(c: char, q: Seq<char>, start_x: int, y: int, scale: int, col0: int)
    ensures
        placed_chars(seq![c] + q, start_x, y, scale, col0) == if c == '\n' {
            placed_chars(q, start_x, y + FONT_HEIGHT * scale + 1, scale, 0)
        } else {
            seq![(start_x + col0 * (FONT_WIDTH * scale), y, c)] + placed_chars(q, start_x, y, scale, col0 + 1)
        },
    decreases q.len(),
{
    let k = FONT_HEIGHT * scale + 1;
    let w = FONT_WIDTH * scale;
    let all = seq![c] + q;
    let head = seq![(start_x + col0 * w, y, c)];
    if q.len() == 0 {
        let e = Seq::<char>::empty();
        assert(all.drop_last() =~= e);
        assert(all.last() == c);
        assert(placed_chars(e, start_x, y, scale, col0) =~= Seq::<(int, int, char)>::empty());
        assert(newlines(e) == 0);
        assert(column(e, col0) == col0);
        assert(0 * k == 0);
        if c != '\n' {
            assert(Seq::<(int, int, char)>::empty().push((start_x + col0 * w, y + 0 * k, c)) =~= head
                + Seq::<(int, int, char)>::empty());
        }
    } else {
        let p = q.drop_last();
        assert(all.drop_last() =~= seq![c] + p);
        assert(all.last() == q.last());
        lemma_placed_front(c, p, start_x, y, scale, col0);
        if q.last() != '\n' {
            lemma_newlines_front(c, p);
            lemma_column_front(c, p, col0);
            let n = newlines(p);
            if c == '\n' {
                assert(y + (1 + n) * k == (y + k) + n * k) by (nonlinear_arith);
            } else {
                let ex = (start_x + column(p, col0 + 1) * w, y + n * k, q.last());
                assert((head + placed_chars(p, start_x, y, scale, col0 + 1)).push(ex) =~= head + placed_chars(
                    p,
                    start_x,
                    y,
                    scale,
                    col0 + 1,
                ).push(ex));
            }
        }
    }
}

/// Where `text_glyphs` draws, in closed form: starting at column `col0` of the line at
/// `y`, each character but a newline is drawn in the column and line that the text
/// before it reaches.
proof fn lemma_text_glyphs_placed(chars: Seq<char>, start_x: int, y: int, scale: int, col0: int)
    ensures
        text_glyphs(chars, start_x, start_x + col0 * (FONT_WIDTH * scale), y, scale) == placed_chars(
            chars,
            start_x,
            y,
            scale,
            col0,
        ),
    decreases chars.len(),
{
    if chars.len() > 0 {
        let q = chars.drop_first();
        assert(chars =~= seq![chars[0]] + q);
        lemma_placed_front(chars[0], q, start_x, y, scale, col0);
        if chars[0] == '\n' {
            lemma_text_glyphs_placed(q, start_x, y + FONT_HEIGHT * scale + 1, scale, 0);
            assert(start_x + 0 * (FONT_WIDTH * scale) == start_x);
        } else {
            lemma_text_glyphs_placed(q, start_x, y, scale, col0 + 1);
            assert(start_x + col0 * (FONT_WIDTH * scale) + FONT_WIDTH * scale == start_x + (col0 + 1) * (
            FONT_WIDTH * scale)) by (nonlinear_arith);
        }
    }
}

/// `draw_text` places the `k`th character of line `j` of its text (newlines excluded) at
/// `x + k * FONT_WIDTH * scale`, `y + j * (FONT_HEIGHT * scale + 1)`.
pub proof fn lemma_text_positions(chars: Seq<char>, x: int, y: int, scale: int)
    ensures
        text_glyphs(chars, x, x, y, scale) == placed_chars(chars, x, y, scale, 0),
{
    lemma_text_glyphs_placed(chars, x, y, scale, 0);
    assert(x + 0 * (FONT_WIDTH * scale) == x);
}

/// Drawing `chars` as `text_glyphs` places them stays within 64-bit coordinates.
pub open spec fn text_fits(chars: Seq<char>, font: Seq<Vec<u8>>, start_x: int, x: int, y: int, scale: int) -> bool
    decreases chars.len(),
{
    if chars.len() == 0 {
        true
    } else if chars[0] == '\n' {
        &&& y + FONT_HEIGHT * scale + 1 <= u64::MAX
        &&& text_fits(chars.drop_first(), font, start_x, start_x, y + FONT_HEIGHT * scale + 1, scale)
    } else {
        &&& x + FONT_WIDTH * scale <= u64::MAX
        &&& y + glyph_of(font, chars[0]).len() * scale <= u64::MAX
        &&& text_fits(chars.drop_first(), font, start_x, x + FONT_WIDTH * scale, y, scale)
    }
}

/// The memory `s` after drawing the placed characters `glyphs` in order.
pub open spec fn painted_glyphs(
    fb: FrameBufferInfo,
    s: Seq<u32>,
    glyphs: Seq<(int, int, char)>,
    font: Seq<Vec<u8>>,
    color: u32,
    background: u32,
    scale: int,
) -> Seq<u32>
    decreases glyphs.len(),
{
    if glyphs.len() == 0 {
        s
    } else {
        let g = glyphs.last();
        painted_cells(
            fb,
            painted_glyphs(fb, s, glyphs.drop_last(), font, color, background, scale),
            glyph_cells(g.0, g.1, glyph_of(font, g.2), color, background, scale),
            scale,
        )
    }
}

/// Drawing placed characters is drawing the first, as `draw_char` draws its glyph,
/// and then the rest: with `lemma_text_positions`, `draw_text` paints what `draw_char`
/// called on each character of its text in order, at its closed-form position, paints.
pub proof fn lemma_draw_text_steps(
    fb: FrameBufferInfo,
    s: Seq<u32>,
    g: (int, int, char),
    rest: Seq<(int, int, char)>,
    font: Seq<Vec<u8>>,
    color: u32,
    background: u32,
    scale: int,
)
    ensures
        painted_glyphs(fb, s, seq![g] + rest, font, color, background, scale) == painted_glyphs(
            fb,
            painted_cells(fb, s, glyph_cells(g.0, g.1, glyph_of(font, g.2), color, background, scale), scale),
            rest,
            font,
            color,
            background,
            scale,
        ),
    decreases rest.len(),
{
    let all = seq![g] + rest;
    if rest.len() == 0 {
        assert(all.drop_last() =~= Seq::<(int, int, char)>::empty());
        assert(all.last() == g);
        assert(painted_glyphs(fb, s, all.drop_last(), font, color, background, scale) == s);
        let s1 = painted_cells(fb, s, glyph_cells(g.0, g.1, glyph_of(font, g.2), color, background, scale), scale);
        assert(painted_glyphs(fb, s1, rest, font, color, background, scale) == s1);
    } else {
        assert(all.drop_last() =~= seq![g] + rest.drop_last());
        assert(all.last() == rest.last());
        lemma_draw_text_steps(fb, s, g, rest.drop_last(), font, color, background, scale);
        let h = rest.last();
        assert(painted_glyphs(fb, s, all, font, color, background, scale) == painted_cells(
            fb,
            painted_glyphs(fb, s, all.drop_last(), font, color, background, scale),
            glyph_cells(h.0, h.1, glyph_of(font, h.2), color, background, scale),
            scale,
        ));
    }
}

/// Painting two runs of points is painting the first and then the second.
pub proof fn lemma_painted_concat(fb: FrameBufferInfo, s: Seq<u32>, a: Seq<(int, int)>, b: Seq<(int, int)>, color: u32)
    ensures
        painted(fb, s, a + b, color) == painted(fb, painted(fb, s, a, color), b, color),
    decreases b.len(),
{
    if b.len() == 0 {
        assert(a + b =~= a);
    } else {
        lemma_painted_concat(fb, s, a, b.drop_last(), color);
        assert((a + b).drop_last() =~= a + b.drop_last());
    }
}

/// Painting depends on the framebuffer only through its geometry.
pub proof fn lemma_painted_geometry(fb1: FrameBufferInfo, fb2: FrameBufferInfo, s: Seq<u32>, pts: Seq<(int, int)>, color: u32)
    requires
        fb1.same_geometry(&fb2),
    ensures
        painted(fb1, s, pts, color) == painted(fb2, s, pts, color),
    decreases pts.len(),
{
    if pts.len() > 0 {
        lemma_painted_geometry(fb1, fb2, s, pts.drop_last(), color);
    }
}

/// Painting squares depends on the framebuffer only through its geometry.
pub proof fn lemma_painted_cells_geometry(
    fb1: FrameBufferInfo,
    fb2: FrameBufferInfo,
    s: Seq<u32>,
    cells: Seq<(int, int, u32)>,
    scale: int,
)
    requires
        fb1.same_geometry(&fb2),
    ensures
        painted_cells(fb1, s, cells, scale) == painted_cells(fb2, s, cells, scale),
    decreases cells.len(),
{
    if cells.len() > 0 {
        lemma_painted_cells_geometry(fb1, fb2, s, cells.drop_last(), scale);
        let c = cells.last();
        lemma_painted_geometry(fb1, fb2, painted_cells(fb1, s, cells.drop_last(), scale), rect_points(c.0, c.1, scale, scale), c.2);
    }
}

/// Painting keeps the length of the memory.
pub proof fn lemma_painted_len(fb: FrameBufferInfo, s: Seq<u32>, pts: Seq<(int, int)>, color: u32)
    requires
        fb.wf(),
        s.len() == fb.spec_pixels().len(),
    ensures
        painted(fb, s, pts, color).len() == s.len(),
    decreases pts.len(),
{
    if pts.len() > 0 {
        lemma_painted_len(fb, s, pts.drop_last(), color);
        let (x, y) = pts.last();
        if 0 <= x < fb.spec_width() && 0 <= y < fb.spec_height() {
            lemma_offset_in_bounds(fb, x, y);
        }
    }
}

/// Painting one more point of a run.
pub proof fn lemma_painted_push(fb: FrameBufferInfo, s: Seq<u32>, pts: Seq<(int, int)>, p: (int, int), color: u32)
    ensures
        painted(fb, s, pts.push(p), color) == plot(fb, painted(fb, s, pts, color), p.0, p.1, color),
{
    assert(pts.push(p).drop_last() =~= pts);
}

/// How `draw_char` lays out a glyph: row `r` of the bitmap is the row of cells at
/// `y + r * scale`, and its bits run from the most significant, in the leftmost cell at
/// `x`, to the least significant, in the rightmost at `x + 7 * scale`; a cell has the
/// foreground color exactly when its bit is set.
pub proof fn lemma_glyph_layout(x: int, y: int, bitmap: Seq<u8>, color: u32, background: u32, scale: int)
    ensures
        glyph_cells(x, y, bitmap, color, background, scale).len() == bitmap.len() * 8,
        forall|r: int, c: int|
            0 <= r < bitmap.len() && 0 <= c < 8 ==> #[trigger] glyph_cells(x, y, bitmap, color, background, scale)[r
                * 8 + c] == (
                x + c * scale,
                y + r * scale,
                if bitmap[r] & (0x80u8 >> (c as u8)) != 0 {
                    color
                } else {
                    background
                },
            ),
{
    assert forall|r: int, c: int| 0 <= r < bitmap.len() && 0 <= c < 8 implies #[trigger] glyph_cells(
        x,
        y,
        bitmap,
        color,
        background,
        scale,
    )[r * 8 + c] == (
        x + c * scale,
        y + r * scale,
        if bitmap[r] & (0x80u8 >> (c as u8)) != 0 {
            color
        } else {
            background
        },
    ) by {
        let k = r * 8 + c;
        assert(k / 8 == r && k % 8 == c) by (nonlinear_arith)
            requires k == r * 8 + c, 0 <= c < 8;
        assert(0 <= k < bitmap.len() * 8) by (nonlinear_arith)
            requires k == r * 8 + c, 0 <= c < 8, 0 <= r < bitmap.len();
        let b = bitmap[r];
        let cc = c as u8;
        let sh = (7 - c) as u8;
        assert(((b >> sh) & 1 == 1) == (b & (0x80u8 >> cc) != 0)) by (bit_vector)
            requires cc < 8, sh == 7 - cc;
        assert((FONT_WIDTH - 1 - c) as u8 == sh);
    }
}

/// A visible point among those painted ends up in the painted color: every plot is in
/// the same color, so a later plot never undoes an earlier one.
pub proof fn lemma_painted_point(fb: FrameBufferInfo, s: Seq<u32>, pts: Seq<(int, int)>, x: int, y: int, color: u32)
    requires
        fb.wf(),
        s.len() == fb.spec_pixels().len(),
        pts.contains((x, y)),
        0 <= x < fb.spec_width(),
        0 <= y < fb.spec_height(),
    ensures
        painted(fb, s, pts, color)[pixel_offset(fb, x, y)] == color,
    decreases pts.len(),
{
    lemma_offset_in_bounds(fb, x, y);
    lemma_painted_len(fb, s, pts.drop_last(), color);
    let (px, py) = pts.last();
    if pts.last() != (x, y) {
        let i = choose|i: int| 0 <= i < pts.len() && pts[i] == (x, y);
        assert(pts.drop_last()[i] == (x, y));
        lemma_painted_point(fb, s, pts.drop_last(), x, y, color);
        if 0 <= px < fb.spec_width() && 0 <= py < fb.spec_height() {
            lemma_offset_in_bounds(fb, px, py);
        }
    }
}

/// An edge's column at the row of its first end is that end's column, and at the row
/// of its other end (on another row) that end's column.
proof fn lemma_edge_x_ends(p: Point, q: Point)
    ensures
        edge_x(p, q, p.y as int) == p.x,
        p.y != q.y ==> edge_x(p, q, q.y as int) == q.x,
{
    let d = abs_diff(p.x, q.x);
    if p.y != q.y {
        let a = abs_diff(p.y, q.y);
        assert(d * a / a == d) by (nonlinear_arith)
            requires a > 0, d >= 0;
        assert(d * 0 / a == 0) by (nonlinear_arith)
            requires a > 0;
    }
}

/// A span holds the points of both its edges on its row.
proof fn lemma_span_ends(pl: Point, pa: Point, pb: Point, y: int)
    ensures
        span_points(pl, pa, pb, y).contains((edge_x(pl, pa, y), y)),
        span_points(pl, pa, pb, y).contains((edge_x(pl, pb, y), y)),
{
    let xs = edge_x(pl, pa, y);
    let xe = edge_x(pl, pb, y);
    let sp = span_points(pl, pa, pb, y);
    if xs <= xe {
        assert(sp[0] == (xs, y));
        assert(sp[xe - xs] == (xe, y));
    } else {
        assert(sp[0] == (xe, y));
        assert(sp[xs - xe] == (xs, y));
    }
}

/// The fill of `n` rows holds every point of the span of each of its rows.
proof fn lemma_fill_holds_span(pl: Point, pa: Point, pb: Point, start: int, n: int, i: int, pt: (int, int))
    requires
        0 <= i < n,
        span_points(pl, pa, pb, start + i).contains(pt),
    ensures
        fill_points(pl, pa, pb, start, n).contains(pt),
    decreases n,
{
    let prev = fill_points(pl, pa, pb, start, n - 1);
    let sp = span_points(pl, pa, pb, start + n - 1);
    assert(fill_points(pl, pa, pb, start, n) == prev + sp);
    if i < n - 1 {
        lemma_fill_holds_span(pl, pa, pb, start, n - 1, i, pt);
        let k = choose|k: int| 0 <= k < prev.len() && prev[k] == pt;
        assert((prev + sp)[k] == pt);
    } else {
        let k = choose|k: int| 0 <= k < sp.len() && sp[k] == pt;
        assert((prev + sp)[prev.len() + k] == pt);
    }
}

proof fn lemma_concat_holds(a: Seq<(int, int)>, b: Seq<(int, int)>, pt: (int, int))
    requires
        a.contains(pt) || b.contains(pt),
    ensures
        (a + b).contains(pt),
{
    if a.contains(pt) {
        let k = choose|k: int| 0 <= k < a.len() && a[k] == pt;
        assert((a + b)[k] == pt);
    } else {
        let k = choose|k: int| 0 <= k < b.len() && b[k] == pt;
        assert((a + b)[a.len() + k] == pt);
    }
}

/// The filled triangle holds its three corners and a point of every row from the
/// highest corner's to the lowest's.
proof fn lemma_triangle_points_cover(p1: Point, p2: Point, p3: Point)
    ensures
        triangle_points(p1, p2, p3).contains((p1.x as int, p1.y as int)),
        triangle_points(p1, p2, p3).contains((p2.x as int, p2.y as int)),
        triangle_points(p1, p2, p3).contains((p3.x as int, p3.y as int)),
        forall|y: int|
            min3_y(p1, p2, p3) <= y <= max3_y(p1, p2, p3) ==> #[trigger] has_point_in_row(
                triangle_points(p1, p2, p3),
                y,
            ),
{
    let (v0, v1, v2) = sorted_by_row(p1, p2, p3);
    let tp = triangle_points(p1, p2, p3);
    assert(v0.y <= v1.y <= v2.y);
    assert((p1 == v0 || p1 == v1 || p1 == v2) && (p2 == v0 || p2 == v1 || p2 == v2) && (p3 == v0 || p3 == v1
        || p3 == v2));
    assert(min3_y(p1, p2, p3) == v0.y && max3_y(p1, p2, p3) == v2.y);
    if v0.y == v2.y {
        let lo = min3_x(p1, p2, p3);
        let y = v0.y as int;
        assert forall|p: Point| p == p1 || p == p2 || p == p3 implies tp.contains((p.x as int, p.y as int)) by {
            assert(tp[p.x - lo] == (p.x as int, y));
        }
        assert forall|yy: int| min3_y(p1, p2, p3) <= yy <= max3_y(p1, p2, p3) implies #[trigger] has_point_in_row(tp, yy) by {
            assert(tp[0] == (lo as int, yy));
            assert(tp.contains((lo as int, yy)));
        }
    } else {
        let a = fill_points(v0, v1, v2, v0.y as int, v1.y - v0.y + 1);
        let b = fill_points(v2, v0, v1, v1.y as int, v2.y - v1.y + 1);
        assert(tp == a + b);
        lemma_edge_x_ends(v0, v1);
        lemma_edge_x_ends(v2, v0);
        lemma_edge_x_ends(v2, v1);
        // v0, on the first row of the first half
        lemma_span_ends(v0, v1, v2, v0.y as int);
        lemma_fill_holds_span(v0, v1, v2, v0.y as int, v1.y - v0.y + 1, 0, (v0.x as int, v0.y as int));
        lemma_concat_holds(a, b, (v0.x as int, v0.y as int));
        // v1, on the last row of the first half, or the first row of the second
        if v0.y != v1.y {
            lemma_edge_x_ends(v0, v1);
            lemma_span_ends(v0, v1, v2, v1.y as int);
            lemma_fill_holds_span(v0, v1, v2, v0.y as int, v1.y - v0.y + 1, v1.y - v0.y, (v1.x as int, v1.y as int));
        } else {
            lemma_span_ends(v2, v0, v1, v1.y as int);
            lemma_fill_holds_span(v2, v0, v1, v1.y as int, v2.y - v1.y + 1, 0, (v1.x as int, v1.y as int));
        }
        lemma_concat_holds(a, b, (v1.x as int, v1.y as int));
        // v2, on the last row of the second half
        lemma_span_ends(v2, v0, v1, v2.y as int);
        lemma_fill_holds_span(v2, v0, v1, v1.y as int, v2.y - v1.y + 1, v2.y - v1.y, (v2.x as int, v2.y as int));
        lemma_concat_holds(a, b, (v2.x as int, v2.y as int));
        assert forall|yy: int| min3_y(p1, p2, p3) <= yy <= max3_y(p1, p2, p3) implies #[trigger] has_point_in_row(tp, yy) by {
            if yy <= v1.y {
                let x = edge_x(v0, v1, yy);
                lemma_span_ends(v0, v1, v2, yy);
                lemma_fill_holds_span(v0, v1, v2, v0.y as int, v1.y - v0.y + 1, yy - v0.y, (x, yy));
                lemma_concat_holds(a, b, (x, yy));
            } else {
                let x = edge_x(v2, v0, yy);
                lemma_span_ends(v2, v0, v1, yy);
                lemma_fill_holds_span(v2, v0, v1, v1.y as int, v2.y - v1.y + 1, yy - v1.y, (x, yy));
                lemma_concat_holds(a, b, (x, yy));
            }
        }
    }
}

/// What `draw_triangle` paints covers the triangle's corners and is connected across
/// its rows: each corner on the screen gets the color, and every row from the highest
/// corner's to the lowest's gets a point of the triangle.
pub proof fn lemma_triangle_covers_corners_and_rows(fb: FrameBufferInfo, p1: Point, p2: Point, p3: Point, color: u32)
    requires
        fb.wf(),
    ensures
        forall|p: Point|
            (p == p1 || p == p2 || p == p3) && p.x < fb.spec_width() && p.y < fb.spec_height() ==> #[trigger] painted(
                fb,
                fb.spec_pixels(),
                triangle_points(p1, p2, p3),
                color,
            )[pixel_offset(fb, p.x as int, p.y as int)] == color,
        forall|y: int|
            min3_y(p1, p2, p3) <= y <= max3_y(p1, p2, p3) ==> #[trigger] has_point_in_row(
                triangle_points(p1, p2, p3),
                y,
            ),
{
    lemma_triangle_points_cover(p1, p2, p3);
    assert forall|p: Point|
        (p == p1 || p == p2 || p == p3) && p.x < fb.spec_width() && p.y < fb.spec_height() implies #[trigger] painted(
            fb,
            fb.spec_pixels(),
            triangle_points(p1, p2, p3),
            color,
        )[pixel_offset(fb, p.x as int, p.y as int)] == color by {
        lemma_painted_point(fb, fb.spec_pixels(), triangle_points(p1, p2, p3), p.x as int, p.y as int, color);
    }
}

/// A visible pixel's word lies in the memory of a well-formed framebuffer.
pub proof fn lemma_offset_in_bounds(fb: FrameBufferInfo, x: int, y: int)
    requires
        fb.wf(),
        0 <= x < fb.spec_width(),
        0 <= y < fb.spec_height(),
    ensures
        0 <= pixel_offset(fb, x, y) < fb.spec_pixels().len(),
        y * fb.spec_pitch() <= u64::MAX,
{
    let b = (fb.spec_bpp() / 8) as int;
    let h = fb.spec_height() as int;
    let p = fb.spec_pitch() as int;
    lemma_mul_inequality(y, h - 1, p);
    lemma_mul_inequality(y, h, p);
    lemma_div_is_ordered(y * p, (h - 1) * p, b);
    assert(0 <= y * p) by (nonlinear_arith)
        requires
            0 <= y,
            0 <= p,
    ;
    assert(0 <= (y * p) / b) by (nonlinear_arith)
        requires
            0 <= y * p,
            0 < b,
    ;
}

/// The column where the edge from `p` to `q` crosses row `y`.
fn interpolate_x(p: Point, q: Point, y: u64) -> (x: u64)
    requires
        row_between(y as int, p, q),
        edge_fits(p, q),
    ensures
        x == edge_x(p, q, y as int),
{
    if p.y == q.y {
        return p.x;
    }
    let dx: u64 = if p.x <= q.x { q.x - p.x } else { p.x - q.x };
    let dy: u64 = if p.y <= q.y { q.y - p.y } else { p.y - q.y };
    let t: u64 = if p.y <= y { y - p.y } else { p.y - y };
    proof {
        lemma_mul_inequality(t as int, dy as int, dx as int);
        assert(dx * t == t * dx && dx * dy == dy * dx) by (nonlinear_arith);
        lemma_div_is_ordered((dx * t) as int, (dx * dy) as int, dy as int);
        lemma_div_by_multiple(dx as int, dy as int);
        assert(0 <= (dx * t) / (dy as int)) by (nonlinear_arith)
            requires
                0 <= dx * t,
                0 < dy,
        ;
    }
    let m = dx * t / dy;
    if p.x <= q.x {
        p.x + m
    } else {
        p.x - m
    }
}

/// The row order of three points, as `sorted_by_row` gives it.
fn sort_by_row(p1: Point, p2: Point, p3: Point) -> (v: (Point, Point, Point))
    ensures
        v == sorted_by_row(p1, p2, p3),
{
    let (a, b) = if p1.y > p2.y { (p2, p1) } else { (p1, p2) };
    if b.y > p3.y {
        if a.y > p3.y { (p3, a, b) } else { (a, p3, b) }
    } else {
        (a, b, p3)
    }
}

impl FrameBufferInfo {
    /// A framebuffer over the memory `pixels` with the given dimensions and format,
    /// with its glyph scale set by `calc_scale`. The memory must hold every visible
    /// pixel and the scale must fit in a byte.
    pub fn new(pixels: Vec<u32>, width: u64, height: u64, pitch: u64, bpp: u16) -> (fb: Self)
        requires
            geometry_fits(pixels@.len(), width, height, pitch, bpp),
            scale_for(width, height) <= 255,
        ensures
            fb.wf(),
            fb.spec_pixels() == pixels@,
            fb.spec_width() == width,
            fb.spec_height() == height,
            fb.spec_pitch() == pitch,
            fb.spec_bpp() == bpp,
            fb.spec_scale() == scale_for(width, height),
    {
        let mut fb = FrameBufferInfo { pixels, width, height, pitch, bpp, scale: 1 };
        fb.calc_scale();
        fb
    }

    pub fn width(&self) -> (w: u64)
        ensures
            w == self.spec_width(),
    {
        self.width
    }

    pub fn height(&self) -> (h: u64)
        ensures
            h == self.spec_height(),
    {
        self.height
    }

    pub fn pitch(&self) -> (p: u64)
        ensures
            p == self.spec_pitch(),
    {
        self.pitch
    }

    pub fn bpp(&self) -> (b: u16)
        ensures
            b == self.spec_bpp(),
    {
        self.bpp
    }

    /// The framebuffer's memory.
    pub fn pixels(&self) -> (p: &Vec<u32>)
        ensures
            p@ == self.spec_pixels(),
    {
        &self.pixels
    }

    /// The glyph scale.
    pub fn get_scale(&self) -> (s: u8)
        ensures
            s == self.spec_scale(),
    {
        self.scale
    }

    /// Sets the glyph scale from the resolution (see `scale_for`); to be called
    /// whenever the resolution changes. The scale must fit in a byte.
    pub fn calc_scale(&mut self)
        requires
            scale_for(old(self).spec_width(), old(self).spec_height()) <= 255,
        ensures
            final(self).spec_scale() == scale_for(old(self).spec_width(), old(self).spec_height()),
            final(self).spec_pixels() == old(self).spec_pixels(),
            final(self).spec_width() == old(self).spec_width(),
            final(self).spec_height() == old(self).spec_height(),
            final(self).spec_pitch() == old(self).spec_pitch(),
            final(self).spec_bpp() == old(self).spec_bpp(),
    {
        let scale_width = self.width / (CONSOLE_WIDTH as u64 * FONT_WIDTH);
        let scale_height = self.height / (CONSOLE_HEIGHT as u64 * FONT_HEIGHT);
        let s = if scale_height > scale_width {
            scale_width
        } else {
            scale_height
        };
        self.scale = s as u8;
    }

    /// Plots pixel (x, y) in `color`; a point off the screen is ignored.
    pub fn draw_pixel(&mut self, x: u64, y: u64, color: u32)
        requires
            old(self).wf(),
        ensures
            final(self).same_geometry(&*old(self)),
            final(self).spec_pixels() == plot(*old(self), old(self).spec_pixels(), x as int, y as int, color),
    {
        if x < self.width && y < self.height {
            proof {
                lemma_offset_in_bounds(*self, x as int, y as int);
            }
            let len = self.pixels.len();
            let row_bytes = y * self.pitch;
            let bytes_per_pixel = (self.bpp / 8) as u64;
            assert(len <= u64::MAX);
            let offset = row_bytes / bytes_per_pixel + x;
            assert(offset == pixel_offset(*old(self), x as int, y as int));
            self.pixels.set(offset as usize, color);
        }
    }

    /// Draws the line from `p0` to `p1` with Bresenham's algorithm: the points of
    /// `line_points`, from `p0` to `p1`.
    pub fn draw_line(&mut self, p0: Point, p1: Point, color: u32)
        requires
            old(self).wf(),
        ensures
            final(self).same_geometry(&*old(self)),
            final(self).spec_pixels() == painted(*old(self), old(self).spec_pixels(), line_points(p0, p1), color),
    {
        let ghost fb0 = *self;
        let ghost s0 = self.spec_pixels();
        let mut x0 = p0.x;
        let mut y0 = p0.y;
        let x1 = p1.x;
        let y1 = p1.y;
        let dx: u64 = if x1 >= x0 { x1 - x0 } else { x0 - x1 };
        let dy: u64 = if y1 >= y0 { y1 - y0 } else { y0 - y1 };
        let ghost a = dx as int;
        let ghost b = dy as int;
        let ghost f = |o: (int, int)| line_point(p0, p1, o);
        let mut err: i128 = dx as i128 - dy as i128;
        let ghost mut i: int = 0;
        let ghost mut j: int = 0;
        let ghost mut done: Seq<(int, int)> = Seq::empty();
        assert(a == abs_diff(p0.x, p1.x) && b == abs_diff(p0.y, p1.y));
        proof {
            assert(err == a * (0 + 1) - b * (0 + 1)) by (nonlinear_arith)
                requires
                    err == a - b,
            ;
        }
        loop
            invariant_except_break
                line_offsets(a, b, 0, 0) == done + line_offsets(a, b, i, j),
                self.spec_pixels() == painted(fb0, s0, done.map_values(f), color),
            invariant
                self.wf(),
                self.same_geometry(&fb0),
                fb0.wf(),
                s0.len() == fb0.spec_pixels().len(),
                a == dx,
                b == dy,
                0 <= i <= a,
                0 <= j <= b,
                (x0 as int, y0 as int) == line_point(p0, p1, (i, j)),
                x1 == p1.x,
                y1 == p1.y,
                err == a * (j + 1) - b * (i + 1),
                -3 * b <= 2 * err <= 3 * a,
                dx == abs_diff(p0.x, p1.x),
                dy == abs_diff(p0.y, p1.y),
                f == (|o: (int, int)| line_point(p0, p1, o)),
            ensures
                self.spec_pixels() == painted(fb0, s0, line_offsets(a, b, 0, 0).map_values(f), color),
            decreases (a - i) + (b - j),
        {
            proof {
                lemma_painted_push(fb0, s0, done.map_values(f), (x0 as int, y0 as int), color);
                assert(done.push((i, j)).map_values(f) =~= done.map_values(f).push((x0 as int, y0 as int)));
            }
            self.draw_pixel(x0, y0, color);
            if x0 == x1 && y0 == y1 {
                proof {
                    assert(i == a && j == b);
                    assert(line_offsets(a, b, i, j) == seq![(i, j)]);
                    assert(line_offsets(a, b, 0, 0) =~= done.push((i, j)));
                }
                break;
            }
            proof {
                assert(!(i == a && j == b));
                lemma_line_step(a, b, i, j);
                lemma_line_error(a, b, i, j, err as int);
                assert(line_offsets(a, b, i, j) == seq![(i, j)] + line_offsets(
                    a,
                    b,
                    if steps_x(a, b, i, j) { i + 1 } else { i },
                    if steps_y(a, b, i, j) { j + 1 } else { j },
                ));
                assert(done + line_offsets(a, b, i, j) =~= done.push((i, j)) + line_offsets(
                    a,
                    b,
                    if steps_x(a, b, i, j) { i + 1 } else { i },
                    if steps_y(a, b, i, j) { j + 1 } else { j },
                ));
                done = done.push((i, j));
            }
            let e2 = 2 * err;
            let ghost si = steps_x(a, b, i, j);
            let ghost sj = steps_y(a, b, i, j);
            if e2 >= -(dy as i128) {
                err = err - dy as i128;
                if x0 < x1 {
                    x0 = x0 + 1;
                } else {
                    x0 = x0 - 1;
                }
            }
            if e2 <= dx as i128 {
                err = err + dx as i128;
                if y0 < y1 {
                    y0 = y0 + 1;
                } else {
                    y0 = y0 - 1;
                }
            }
            proof {
                if si {
                    i = i + 1;
                }
                if sj {
                    j = j + 1;
                }
            }
        }
    }

    /// Plots the spans of the rows from `start_y` to `end_y` between the edges from
    /// `p_left` to `p_right_start` and from `p_left` to `p_right_end`.
    fn fill_between_edges(
        &mut self,
        start_y: u64,
        end_y: u64,
        p_left: Point,
        p_right_start: Point,
        p_right_end: Point,
        color: u32,
    )
        requires
            old(self).wf(),
            start_y <= end_y,
            row_between(start_y as int, p_left, p_right_start),
            row_between(end_y as int, p_left, p_right_start),
            row_between(start_y as int, p_left, p_right_end),
            row_between(end_y as int, p_left, p_right_end),
            edge_fits(p_left, p_right_start),
            edge_fits(p_left, p_right_end),
        ensures
            final(self).same_geometry(&*old(self)),
            final(self).spec_pixels() == painted(
                *old(self),
                old(self).spec_pixels(),
                fill_points(p_left, p_right_start, p_right_end, start_y as int, end_y - start_y + 1),
                color,
            ),
    {
        let ghost fb0 = *self;
        let ghost s0 = self.spec_pixels();
        let mut y = start_y;
        loop
            invariant_except_break
                start_y <= y <= end_y,
                self.spec_pixels() == painted(
                    fb0,
                    s0,
                    fill_points(p_left, p_right_start, p_right_end, start_y as int, y - start_y),
                    color,
                ),
            invariant
                self.wf(),
                self.same_geometry(&fb0),
                start_y <= end_y,
                row_between(start_y as int, p_left, p_right_start),
                row_between(end_y as int, p_left, p_right_start),
                row_between(start_y as int, p_left, p_right_end),
                row_between(end_y as int, p_left, p_right_end),
                edge_fits(p_left, p_right_start),
                edge_fits(p_left, p_right_end),
            ensures
                self.spec_pixels() == painted(
                    fb0,
                    s0,
                    fill_points(p_left, p_right_start, p_right_end, start_y as int, end_y - start_y + 1),
                    color,
                ),
            decreases end_y - y,
        {
            let x_start = interpolate_x(p_left, p_right_start, y);
            let x_end = interpolate_x(p_left, p_right_end, y);
            let (lo, hi) = if x_start <= x_end { (x_start, x_end) } else { (x_end, x_start) };
            let ghost rows = fill_points(p_left, p_right_start, p_right_end, start_y as int, y - start_y);
            assert(span_points(p_left, p_right_start, p_right_end, y as int) =~= row_points(lo as int, y as int, hi - lo + 1));
            let mut x = lo;
            loop
                invariant_except_break
                    lo <= x <= hi,
                    self.spec_pixels() == painted(fb0, s0, rows + row_points(lo as int, y as int, x - lo), color),
                invariant
                    self.wf(),
                    self.same_geometry(&fb0),
                ensures
                    self.spec_pixels() == painted(fb0, s0, rows + row_points(lo as int, y as int, hi - lo + 1), color),
                decreases hi - x,
            {
                proof {
                    assert(rows + row_points(lo as int, y as int, x - lo + 1) =~= (rows + row_points(
                        lo as int,
                        y as int,
                        x - lo,
                    )).push((x as int, y as int)));
                    lemma_painted_push(fb0, s0, rows + row_points(lo as int, y as int, x - lo), (x as int, y as int), color);
                }
                self.draw_pixel(x, y, color);
                if x == hi {
                    break;
                }
                x = x + 1;
            }
            assert(fill_points(p_left, p_right_start, p_right_end, start_y as int, y - start_y + 1) == rows + span_points(
                p_left,
                p_right_start,
                p_right_end,
                y as int,
            ));
            if y == end_y {
                break;
            }
            y = y + 1;
        }
    }

    /// Fills the triangle with corners `p1`, `p2` and `p3`: the points of
    /// `triangle_points`. Each edge must be short enough for its interpolation to stay
    /// in 64 bits.
    pub fn draw_triangle(&mut self, p1: Point, p2: Point, p3: Point, color: u32)
        requires
            old(self).wf(),
            edge_fits(p1, p2),
            edge_fits(p2, p3),
            edge_fits(p1, p3),
        ensures
            final(self).same_geometry(&*old(self)),
            final(self).spec_pixels() == painted(*old(self), old(self).spec_pixels(), triangle_points(p1, p2, p3), color),
    {
        let ghost fb0 = *self;
        let ghost s0 = self.spec_pixels();
        let (v0, v1, v2) = sort_by_row(p1, p2, p3);
        assert(edge_fits(v0, v1) && edge_fits(v0, v2) && edge_fits(v2, v0) && edge_fits(v2, v1)) by (nonlinear_arith)
            requires
                edge_fits(p1, p2),
                edge_fits(p2, p3),
                edge_fits(p1, p3),
                (v0, v1, v2) == sorted_by_row(p1, p2, p3),
        ;
        if v0.y == v2.y {
            let a = if p1.x <= p2.x { p1.x } else { p2.x };
            let lo = if a <= p3.x { a } else { p3.x };
            let b = if p1.x >= p2.x { p1.x } else { p2.x };
            let hi = if b >= p3.x { b } else { p3.x };
            self.fill_row(lo, hi, v0.y, color);
            return;
        }
        self.fill_between_edges(v0.y, v1.y, v0, v1, v2, color);
        let ghost s1 = self.spec_pixels();
        let ghost fb1 = *self;
        self.fill_between_edges(v1.y, v2.y, v2, v0, v1, color);
        proof {
            lemma_painted_geometry(fb1, fb0, s1, fill_points(v2, v0, v1, v1.y as int, v2.y - v1.y + 1), color);
            lemma_painted_concat(
                fb0,
                s0,
                fill_points(v0, v1, v2, v0.y as int, v1.y - v0.y + 1),
                fill_points(v2, v0, v1, v1.y as int, v2.y - v1.y + 1),
                color,
            );
        }
    }

    /// Plots the points of row `y` from column `lo` to column `hi`.
    fn fill_row(&mut self, lo: u64, hi: u64, y: u64, color: u32)
        requires
            old(self).wf(),
            lo <= hi,
        ensures
            final(self).same_geometry(&*old(self)),
            final(self).spec_pixels() == painted(
                *old(self),
                old(self).spec_pixels(),
                row_points(lo as int, y as int, hi - lo + 1),
                color,
            ),
    {
        let ghost fb0 = *self;
        let ghost s0 = self.spec_pixels();
        let mut x = lo;
        loop
            invariant_except_break
                lo <= x <= hi,
                self.spec_pixels() == painted(fb0, s0, row_points(lo as int, y as int, x - lo), color),
            invariant
                self.wf(),
                self.same_geometry(&fb0),
            ensures
                self.spec_pixels() == painted(fb0, s0, row_points(lo as int, y as int, hi - lo + 1), color),
            decreases hi - x,
        {
            proof {
                assert(row_points(lo as int, y as int, x - lo + 1) =~= row_points(lo as int, y as int, x - lo).push(
                    (x as int, y as int),
                ));
                lemma_painted_push(fb0, s0, row_points(lo as int, y as int, x - lo), (x as int, y as int), color);
            }
            self.draw_pixel(x, y, color);
            if x == hi {
                break;
            }
            x = x + 1;
        }
    }

    /// Draws the glyph `bitmap` (one byte per row, leftmost pixel in the most
    /// significant bit) with its top left corner at (x, y): each bit becomes a
    /// square of the current scale, in `color` when set and in `background_color`
    /// otherwise; see `glyph_cells`.
    pub fn draw_char(&mut self, x: u64, y: u64, bitmap: &[u8], color: u32, background_color: u32)
        requires
            old(self).wf(),
            x + FONT_WIDTH * old(self).spec_scale() <= u64::MAX,
            y + bitmap@.len() * old(self).spec_scale() <= u64::MAX,
        ensures
            final(self).same_geometry(&*old(self)),
            final(self).spec_pixels() == painted_cells(
                *old(self),
                old(self).spec_pixels(),
                glyph_cells(x as int, y as int, bitmap@, color, background_color, old(self).spec_scale() as int),
                old(self).spec_scale() as int,
            ),
    {
        let ghost fb0 = *self;
        let ghost s0 = self.spec_pixels();
        let scale = self.scale as u64;
        let ghost cells = glyph_cells(x as int, y as int, bitmap@, color, background_color, scale as int);
        let mut row: usize = 0;
        while row < bitmap.len()
            invariant
                row <= bitmap@.len(),
                scale == fb0.spec_scale(),
                x + FONT_WIDTH * scale <= u64::MAX,
                y + bitmap@.len() * scale <= u64::MAX,
                self.wf(),
                self.same_geometry(&fb0),
                cells == glyph_cells(x as int, y as int, bitmap@, color, background_color, scale as int),
                self.spec_pixels() == painted_cells(fb0, s0, cells.take(row * FONT_WIDTH as int), scale as int),
            decreases bitmap@.len() - row,
        {
            let bits = bitmap[row];
            proof {
                let n = bitmap@.len() as int;
                let r = row as int;
                let sc = scale as int;
                assert(0 <= r * sc && r * sc + sc <= n * sc) by (nonlinear_arith)
                    requires
                        0 <= r < n,
                        0 <= sc,
                ;
            }
            let cell_y = y + row as u64 * scale;
            let mut col: u64 = 0;
            while col < FONT_WIDTH
                invariant
                    row < bitmap@.len(),
                    col <= FONT_WIDTH,
                    bits == bitmap@[row as int],
                    scale == fb0.spec_scale(),
                    x + FONT_WIDTH * scale <= u64::MAX,
                    cell_y == y + row * scale,
                    cell_y + scale <= u64::MAX,
                    self.wf(),
                    self.same_geometry(&fb0),
                    cells == glyph_cells(x as int, y as int, bitmap@, color, background_color, scale as int),
                    self.spec_pixels() == painted_cells(fb0, s0, cells.take(row * FONT_WIDTH as int + col), scale as int),
                decreases FONT_WIDTH - col,
            {
                proof {
                    let c = col as int;
                    let sc = scale as int;
                    assert(0 <= c * sc && c * sc + sc <= 8 * sc) by (nonlinear_arith)
                        requires
                            0 <= c < 8,
                            0 <= sc,
                    ;
                }
                let is_set = (bits >> ((FONT_WIDTH - 1 - col) as u8)) & 1 == 1;
                let pixel_color = if is_set { color } else { background_color };
                let cell_x = x + col * scale;
                let ghost k = row * FONT_WIDTH as int + col;
                proof {
                    assert(k / FONT_WIDTH as int == row && k % FONT_WIDTH as int == col);
                    assert(cells[k] == (cell_x as int, cell_y as int, pixel_color));
                    assert(cells.take(k + 1).drop_last() =~= cells.take(k));
                    assert(cells.take(k + 1).last() == cells[k]);
                }
                let ghost fb1 = *self;
                self.draw_rect(cell_x, cell_y, scale, scale, pixel_color);
                proof {
                    lemma_painted_geometry(fb1, fb0, fb1.spec_pixels(), rect_points(cell_x as int, cell_y as int, scale as int, scale as int), pixel_color);
                }
                col = col + 1;
            }
            row = row + 1;
        }
        assert(cells.take(bitmap@.len() * FONT_WIDTH as int) =~= cells);
    }

    /// Draws `text` from (x, y) with the glyphs of `font` (indexed by code point):
    /// each character at the place `text_glyphs` gives it, newlines starting a new
    /// line at column `x`. The text must stay within 64-bit coordinates.
    pub fn draw_text(&mut self, x: u64, y: u64, text: &str, font: &[Vec<u8>], color: u32, background_color: u32)
        requires
            old(self).wf(),
            text_fits(text@, font@, x as int, x as int, y as int, old(self).spec_scale() as int),
        ensures
            final(self).same_geometry(&*old(self)),
            final(self).spec_pixels() == painted_glyphs(
                *old(self),
                old(self).spec_pixels(),
                text_glyphs(text@, x as int, x as int, y as int, old(self).spec_scale() as int),
                font@,
                color,
                background_color,
                old(self).spec_scale() as int,
            ),
    {
        let ghost fb0 = *self;
        let ghost s0 = self.spec_pixels();
        let ghost sc = self.scale as int;
        let ghost all = text_glyphs(text@, x as int, x as int, y as int, sc);
        let ghost mut done: Seq<(int, int, char)> = Seq::empty();
        let scale = self.scale as u64;
        let start_x = x;
        let mut cx = x;
        let mut cy = y;
        let n = text.unicode_len();
        let mut i: usize = 0;
        assert(text@.skip(0) =~= text@);
        assert(done + all =~= all);
        while i < n
            invariant
                n == text@.len(),
                i <= n,
                sc == scale,
                scale == fb0.spec_scale(),
                start_x == x,
                self.wf(),
                self.same_geometry(&fb0),
                all == text_glyphs(text@, x as int, x as int, y as int, sc),
                all == done + text_glyphs(text@.skip(i as int), x as int, cx as int, cy as int, sc),
                text_fits(text@.skip(i as int), font@, x as int, cx as int, cy as int, sc),
                self.spec_pixels() == painted_glyphs(fb0, s0, done, font@, color, background_color, sc),
            decreases n - i,
        {
            let c = text.get_char(i);
            let ghost rest = text@.skip(i as int);
            assert(rest[0] == c);
            assert(rest.drop_first() =~= text@.skip(i + 1));
            if c == '\n' {
                cy = cy + FONT_HEIGHT * scale + 1;
                cx = start_x;
            } else {
                let code = c as u32 as usize;
                let ghost fb1 = *self;
                if code < font.len() {
                    self.draw_char(cx, cy, font[code].as_slice(), color, background_color);
                } else {
                    let empty: [u8; 0] = [];
                    self.draw_char(cx, cy, empty.as_slice(), color, background_color);
                }
                proof {
                    let g = glyph_cells(cx as int, cy as int, glyph_of(font@, c), color, background_color, sc);
                    if code >= font.len() {
                        assert(g =~= Seq::<(int, int, u32)>::empty());
                    }
                    lemma_painted_cells_geometry(fb1, fb0, fb1.spec_pixels(), g, sc);
                    assert(done.push((cx as int, cy as int, c)).drop_last() =~= done);
                    assert(all == done.push((cx as int, cy as int, c)) + text_glyphs(
                        text@.skip(i + 1),
                        x as int,
                        cx + FONT_WIDTH * sc,
                        cy as int,
                        sc,
                    ));
                    done = done.push((cx as int, cy as int, c));
                }
                cx = cx + FONT_WIDTH * scale;
            }
            i = i + 1;
        }
        assert(text@.skip(n as int) =~= Seq::<char>::empty());
        assert(done + Seq::<(int, int, char)>::empty() =~= done);
    }

    /// Plots the `width` x `height` rectangle at (x, y) in `color`, row by row.
    pub fn draw_rect(&mut self, x: u64, y: u64, width: u64, height: u64, color: u32)
        requires
            old(self).wf(),
            x + width <= u64::MAX,
            y + height <= u64::MAX,
        ensures
            final(self).same_geometry(&*old(self)),
            final(self).spec_pixels() == painted(
                *old(self),
                old(self).spec_pixels(),
                rect_points(x as int, y as int, width as int, height as int),
                color,
            ),
    {
        let ghost fb0 = *self;
        let ghost s0 = self.spec_pixels();
        let mut row = y;
        while row < y + height
            invariant
                y <= row <= y + height,
                y + height <= u64::MAX,
                x + width <= u64::MAX,
                self.wf(),
                self.same_geometry(&fb0),
                self.spec_pixels() == painted(fb0, s0, rect_points(x as int, y as int, width as int, row - y), color),
            decreases y + height - row,
        {
            let ghost done = rect_points(x as int, y as int, width as int, row - y);
            let mut col = x;
            while col < x + width
                invariant
                    x <= col <= x + width,
                    x + width <= u64::MAX,
                    y <= row < y + height,
                    self.wf(),
                    self.same_geometry(&fb0),
                    self.spec_pixels() == painted(fb0, s0, done + row_points(x as int, row as int, col - x), color),
                decreases x + width - col,
            {
                proof {
                    assert(row_points(x as int, row as int, col - x + 1) =~= row_points(x as int, row as int, col - x).push(
                        (col as int, row as int),
                    ));
                    assert(done + row_points(x as int, row as int, col - x + 1) =~= (done + row_points(
                        x as int,
                        row as int,
                        col - x,
                    )).push((col as int, row as int)));
                    lemma_painted_push(fb0, s0, done + row_points(x as int, row as int, col - x), (col as int, row as int), color);
                }
                self.draw_pixel(col, row, color);
                col = col + 1;
            }
            proof {
                assert(rect_points(x as int, y as int, width as int, row + 1 - y) == done + row_points(
                    x as int,
                    row as int,
                    width as int,
                ));
            }
            row = row + 1;
        }
    }

    /// Fills the whole screen with `color`.
    pub fn clear_screen(&mut self, color: u32)
        requires
            old(self).wf(),
        ensures
            final(self).same_geometry(&*old(self)),
            final(self).spec_pixels() == painted(
                *old(self),
                old(self).spec_pixels(),
                rect_points(0, 0, old(self).spec_width() as int, old(self).spec_height() as int),
                color,
            ),
    {
        let w = self.width;
        let h = self.height;
        self.draw_rect(0, 0, w, h, color);
    }
}

/// The number of words of memory a screen of the given geometry needs: up to the
/// last visible pixel.
pub open spec fn memory_words(width: u64, height: u64, pitch: u64, bpp: u16) -> int {
    if height > 0 && width > 0 {
        ((height - 1) * pitch) / ((bpp / 8) as int) + width
    } else {
        0
    }
}

/// The framebuffer of the screen the bootloader describes: its memory, cleared to
/// zero, holds every visible pixel, and its glyph scale is set by `calc_scale`.
pub fn init_framebuffer(width: u64, height: u64, pitch: u64, bpp: u16) -> (fb: FrameBufferInfo)
    requires
        bpp >= 8,
        height * pitch <= u64::MAX,
        memory_words(width, height, pitch, bpp) <= usize::MAX,
        scale_for(width, height) <= 255,
    ensures
        fb.wf(),
        fb.spec_pixels() == Seq::new(memory_words(width, height, pitch, bpp) as nat, |i: int| 0u32),
        fb.spec_width() == width,
        fb.spec_height() == height,
        fb.spec_pitch() == pitch,
        fb.spec_bpp() == bpp,
        fb.spec_scale() == scale_for(width, height),
{
    let words: usize = if height > 0 && width > 0 {
        proof {
            lemma_mul_inequality((height - 1) as int, height as int, pitch as int);
        }
        (((height - 1) * pitch) / (bpp / 8) as u64 + width) as usize
    } else {
        0
    };
    let mut pixels: Vec<u32> = Vec::new();
    for i in 0..words
        invariant
            pixels@ == Seq::new(i as nat, |k: int| 0u32),
    {
        pixels.push(0);
        assert(pixels@ =~= Seq::new((i + 1) as nat, |k: int| 0u32));
    }
    FrameBufferInfo::new(pixels, width, height, pitch, bpp)
}

} // verus!
