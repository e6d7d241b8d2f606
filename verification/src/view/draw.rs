//! Drawing: a cell [`Buffer`] and the clipped, view-local [`DrawCtx`] a view
//! draws through.
//!
//! Every drawing primitive is specified as a sequence of single-cell writes;
//! a write lands only inside both the clip rectangle and the buffer, and each
//! character occupies one cell.
use vstd::prelude::*;
use crate::color::Style;
use crate::theme::{Glyphs, Role, Theme};
use crate::view::geometry::{Point, Rect};

verus! {

/// One screen cell: a character and its style.
#[derive(Clone, Copy, Debug, PartialEq, Eq, Structural)]
pub struct Cell {
    pub symbol: char,
    pub style: Style,
}

impl Cell {
    /// The cell's character.
    pub fn symbol(&self) -> (c: char)
        ensures
            c == self.symbol,
    {
        self.symbol
    }

    /// The cell's style.
    pub fn style(&self) -> (s: Style)
        ensures
            s == self.style,
    {
        self.style
    }
}

/// A blank cell: a space in the default style.
pub open spec fn blank_cell() -> Cell {
    Cell { symbol: ' ', style: crate::color::plain_style(crate::color::Color::Default, crate::color::Color::Default) }
}

/// A `width` × `height` grid of cells, stored row by row.
#[derive(Clone, Debug)]
pub struct Buffer {
    width: u16,
    height: u16,
    cells: Vec<Cell>,
}

impl Buffer {
    /// Width in cells.
    pub closed spec fn spec_width(&self) -> nat {
        self.width as nat
    }

    /// Height in cells.
    pub closed spec fn spec_height(&self) -> nat {
        self.height as nat
    }

    /// The cells, row by row.
    pub closed spec fn spec_cells(&self) -> Seq<Cell> {
        self.cells@
    }

    /// The cell count matches the dimensions.
    pub open spec fn wf(&self) -> bool {
        self.spec_cells().len() == self.spec_width() * self.spec_height()
    }

    /// The cell at column `x`, row `y`.
    pub open spec fn spec_cell(&self, x: int, y: int) -> Cell {
        self.spec_cells()[y * self.spec_width() + x]
    }

    /// A blank buffer.
    pub fn new(width: u16, height: u16) -> (b: Self)
        ensures
            b.wf(),
            b.spec_width() == width,
            b.spec_height() == height,
            forall|i: int| 0 <= i < b.spec_cells().len() ==> b.spec_cells()[i] == blank_cell(),
    {
        assert((width as nat) * (height as nat) <= 65535 * 65535) by (nonlinear_arith)
            requires width <= 65535, height <= 65535;
        let n: usize = (width as usize) * (height as usize);
        let mut cells: Vec<Cell> = Vec::new();
        let mut i: usize = 0;
        while i < n
            invariant
                i <= n,
                cells@.len() == i,
                forall|k: int| 0 <= k < i ==> cells@[k] == blank_cell(),
            decreases n - i,
        {
            cells.push(Cell {
                symbol: ' ',
                style: crate::color::Style::new(crate::color::Color::Default, crate::color::Color::Default),
            });
            i = i + 1;
        }
        Buffer { width, height, cells }
    }

    /// Width in cells.
    pub fn width(&self) -> (w: u16)
        ensures
            w == self.spec_width(),
    {
        self.width
    }

    /// Height in cells.
    pub fn height(&self) -> (h: u16)
        ensures
            h == self.spec_height(),
    {
        self.height
    }

    /// The cell at column `x`, row `y`.
    pub fn get(&self, x: u16, y: u16) -> (c: &Cell)
        requires
            self.wf(),
            x < self.spec_width(),
            y < self.spec_height(),
        ensures
            *c == self.spec_cell(x as int, y as int),
    {
        proof {
            lemma_index_in_grid(x as int, y as int, self.width as int, self.height as int);
            assert(0 <= (y as int) * (self.width as int) <= (y as int) * (self.width as int) + x) by (nonlinear_arith)
                requires 0 <= y, 0 <= self.width, 0 <= x;
        }
        assert((self.width as int) * (self.height as int) <= 65535 * 65535) by (nonlinear_arith)
            requires self.width <= 65535, self.height <= 65535;
        &self.cells[(y as usize) * (self.width as usize) + (x as usize)]
    }
}

proof fn lemma_index_in_grid(x: int, y: int, w: int, h: int)
    requires
        0 <= x < w,
        0 <= y < h,
    ensures
        0 <= y * w + x < w * h,
{
    assert(0 <= y * w) by (nonlinear_arith)
        requires 0 <= y, 0 <= w;
    assert(y * w + x < (y + 1) * w) by (nonlinear_arith)
        requires x < w;
    assert((y + 1) * w <= h * w) by (nonlinear_arith)
        requires y + 1 <= h, 0 <= w;
    assert(h * w == w * h) by (nonlinear_arith);
}

/// Where writes land: the buffer's dimensions, the clip rectangle and the
/// view's origin, in buffer coordinates.
pub ghost struct Frame {
    pub width: int,
    pub height: int,
    pub clip: Rect,
    pub origin: Point,
}

/// `cells` after writing `cell` at the view-local `(x, y)`: the write lands
/// iff the target lies inside the clip and the buffer.
pub open spec fn put_cell(fr: Frame, cells: Seq<Cell>, x: int, y: int, cell: Cell) -> Seq<Cell> {
    let ax = fr.origin.x + x;
    let ay = fr.origin.y + y;
    if fr.clip.a.x <= ax < fr.clip.b.x && fr.clip.a.y <= ay < fr.clip.b.y && 0 <= ax < fr.width && 0 <= ay
        < fr.height {
        cells.update(ay * fr.width + ax, cell)
    } else {
        cells
    }
}

/// `cells` after writing `text` from `(x, y)` rightwards.
pub open spec fn put_text(fr: Frame, cells: Seq<Cell>, x: int, y: int, text: Seq<char>, style: Style) -> Seq<Cell>
    decreases text.len(),
{
    if text.len() == 0 {
        cells
    } else {
        put_text(fr, put_cell(fr, cells, x, y, Cell { symbol: text[0], style }), x + 1, y, text.drop_first(), style)
    }
}

/// The characters of a fill row of width `n`.
pub open spec fn fill_row(n: int, c: char) -> Seq<char> {
    Seq::new(if n > 0 { n as nat } else { 0 }, |i: int| c)
}

/// `cells` after filling rows `y .. r.b.y` of `r`.
pub open spec fn put_rows(fr: Frame, cells: Seq<Cell>, r: Rect, y: int, c: char, style: Style) -> Seq<Cell>
    decreases r.b.y - y,
{
    if y >= r.b.y {
        cells
    } else {
        put_rows(fr, put_text(fr, cells, r.a.x as int, y, fill_row(r.b.x - r.a.x, c), style), r, y + 1, c, style)
    }
}

/// `cells` after writing the control string `text` from `(x, y)`, starting
/// in the `hi` style iff `in_hi`.
pub open spec fn put_ctext(fr: Frame, cells: Seq<Cell>, x: int, y: int, text: Seq<char>, lo: Style, hi: Style, in_hi: bool) -> Seq<Cell>
    decreases text.len(),
{
    if text.len() == 0 {
        cells
    } else if text[0] == '~' {
        put_ctext(fr, cells, x, y, text.drop_first(), lo, hi, !in_hi)
    } else {
        put_ctext(
            fr,
            put_cell(fr, cells, x, y, Cell { symbol: text[0], style: if in_hi { hi } else { lo } }),
            x + 1,
            y,
            text.drop_first(),
            lo,
            hi,
            in_hi,
        )
    }
}

/// A drawing operation, in view-local coordinates.
pub ghost enum DrawOp {
    /// Write `text` from `(x, y)` rightwards, one cell per character.
    Text(int, int, Seq<char>, Style),
    /// Fill a rectangle with a character.
    Fill(Rect, char, Style),
    /// Write a `~`-marked control string from `(x, y)`: each `~` toggles
    /// between the `lo` and `hi` styles and occupies no cell.
    CText(int, int, Seq<char>, Style, Style),
}

/// `cells` after one drawing operation.
pub open spec fn apply_op(fr: Frame, cells: Seq<Cell>, op: DrawOp) -> Seq<Cell> {
    match op {
        DrawOp::Text(x, y, text, style) => put_text(fr, cells, x, y, text, style),
        DrawOp::Fill(r, c, style) => put_rows(fr, cells, r, r.a.y as int, c, style),
        DrawOp::CText(x, y, text, lo, hi) => put_ctext(fr, cells, x, y, text, lo, hi, false),
    }
}

/// `cells` after a sequence of drawing operations, in order.
pub open spec fn apply_ops(fr: Frame, cells: Seq<Cell>, ops: Seq<DrawOp>) -> Seq<Cell>
    decreases ops.len(),
{
    if ops.len() == 0 {
        cells
    } else {
        apply_op(fr, apply_ops(fr, cells, ops.drop_last()), ops.last())
    }
}

/// Applying two operation sequences in turn is applying their concatenation.
pub proof fn lemma_apply_ops_append(fr: Frame, cells: Seq<Cell>, a: Seq<DrawOp>, b: Seq<DrawOp>)
    ensures
        apply_ops(fr, cells, a + b) == apply_ops(fr, apply_ops(fr, cells, a), b),
    decreases b.len(),
{
    if b.len() == 0 {
        assert(a + b =~= a);
    } else {
        assert((a + b).drop_last() =~= a + b.drop_last());
        assert((a + b).last() == b.last());
        lemma_apply_ops_append(fr, cells, a, b.drop_last());
    }
}

/// Applying a one-operation sequence is applying the operation.
pub proof fn lemma_apply_single(fr: Frame, cells: Seq<Cell>, op: DrawOp)
    ensures
        apply_ops(fr, cells, seq![op]) == apply_op(fr, cells, op),
{
    reveal_with_fuel(apply_ops, 2);
    assert(seq![op].drop_last() =~= Seq::<DrawOp>::empty());
}

/// What a view draws with: a buffer, the theme, a clip rectangle and the
/// view's origin, all in buffer coordinates.
#[derive(Clone, Debug)]
pub struct DrawCtx {
    buf: Buffer,
    theme: Theme,
    clip: Rect,
    origin: Point,
}

impl DrawCtx {
    /// The buffer drawn into.
    pub closed spec fn spec_buf(&self) -> Buffer {
        self.buf
    }

    /// The theme.
    pub closed spec fn spec_theme(&self) -> Theme {
        self.theme
    }

    /// The clip rectangle.
    pub closed spec fn spec_clip(&self) -> Rect {
        self.clip
    }

    /// The view's origin.
    pub closed spec fn spec_origin(&self) -> Point {
        self.origin
    }

    /// The buffer's cells.
    pub open spec fn spec_cells(&self) -> Seq<Cell> {
        self.spec_buf().spec_cells()
    }

    /// The buffer is well formed.
    pub open spec fn wf(&self) -> bool {
        self.spec_buf().wf()
    }

    /// Everything but the cells is the same in `self` and `other`.
    pub open spec fn same_frame(&self, other: &DrawCtx) -> bool {
        &&& self.frame() == other.frame()
        &&& self.spec_theme() == other.spec_theme()
    }

    /// Where this context's writes land.
    pub open spec fn frame(&self) -> Frame {
        Frame {
            width: self.spec_buf().spec_width() as int,
            height: self.spec_buf().spec_height() as int,
            clip: self.spec_clip(),
            origin: self.spec_origin(),
        }
    }

    /// A context drawing into `buf` with `theme`, clipped to `clip`, for a
    /// view whose origin is `origin` (both in buffer coordinates).
    pub fn new(buf: Buffer, theme: &Theme, clip: Rect, origin: Point) -> (ctx: Self)
        ensures
            ctx.spec_buf() == buf,
            ctx.spec_theme() == *theme,
            ctx.spec_clip() == clip,
            ctx.spec_origin() == origin,
    {
        DrawCtx { buf, theme: *theme, clip, origin }
    }

    /// The buffer drawn into.
    pub fn buffer(&self) -> (b: &Buffer)
        ensures
            *b == self.spec_buf(),
    {
        &self.buf
    }

    /// Give the buffer back.
    pub fn into_buffer(self) -> (b: Buffer)
        ensures
            b == self.spec_buf(),
    {
        self.buf
    }

    /// The theme's style for `role`.
    pub fn style(&self, role: Role) -> (s: Style)
        ensures
            s == self.spec_theme().spec_style(role),
    {
        self.theme.style(role)
    }

    /// The theme's glyphs.
    pub fn glyphs(&self) -> (g: Glyphs)
        ensures
            g == self.spec_theme().spec_glyphs(),
    {
        *self.theme.glyphs()
    }

    /// Write `c` at the view-local `(x, y)`.
    pub fn put_char(&mut self, x: i32, y: i32, c: char, style: Style)
        requires
            old(self).wf(),
        ensures
            final(self).wf(),
            final(self).same_frame(old(self)),
            final(self).spec_cells() == put_cell(old(self).frame(), 
                old(self).spec_cells(),
                x as int,
                y as int,
                Cell { symbol: c, style },
            ),
    {
        self.put_char_at(x as i128, y as i128, c, style);
    }

    fn put_char_at(&mut self, x: i128, y: i128, c: char, style: Style)
        requires
            old(self).wf(),
            -0x1_0000_0000_0000_0000_0000 <= x <= 0x1_0000_0000_0000_0000_0000,
            -0x1_0000_0000_0000_0000_0000 <= y <= 0x1_0000_0000_0000_0000_0000,
        ensures
            final(self).wf(),
            final(self).same_frame(old(self)),
            final(self).spec_cells() == put_cell(old(self).frame(), 
                old(self).spec_cells(),
                x as int,
                y as int,
                Cell { symbol: c, style },
            ),
    {
        let ax: i128 = self.origin.x as i128 + x;
        let ay: i128 = self.origin.y as i128 + y;
        if self.clip.a.x as i128 <= ax && ax < self.clip.b.x as i128 && self.clip.a.y as i128 <= ay
            && ay < self.clip.b.y as i128 && 0 <= ax && ax < self.buf.width as i128 && 0 <= ay
            && ay < self.buf.height as i128 {
            proof {
                lemma_index_in_grid(ax as int, ay as int, self.buf.width as int, self.buf.height as int);
                assert(0 <= (ay as int) * (self.buf.width as int) <= (ay as int) * (self.buf.width as int) + ax) by (nonlinear_arith)
                    requires 0 <= ay, 0 <= self.buf.width, 0 <= ax;
            }
            assert((self.buf.width as int) * (self.buf.height as int) <= 65535 * 65535) by (nonlinear_arith)
                requires self.buf.width <= 65535, self.buf.height <= 65535;
            let idx: usize = (ay as usize) * (self.buf.width as usize) + (ax as usize);
            self.buf.cells.set(idx, Cell { symbol: c, style });
        }
    }

    /// Write `text` from the view-local `(x, y)` rightwards.
    pub fn put_str(&mut self, x: i32, y: i32, text: &str, style: Style)
        requires
            old(self).wf(),
        ensures
            final(self).wf(),
            final(self).same_frame(old(self)),
            final(self).spec_cells() == put_text(old(self).frame(), old(self).spec_cells(), x as int, y as int, text@, style),
    {
        assert(text@.skip(0) =~= text@);
        self.put_str_from(x, y, text, 0, style);
    }

    /// Write `text` without its first `skip` characters (none when `skip` is
    /// not positive) from the view-local `(x, y)` rightwards.
    pub fn put_str_part(&mut self, x: i32, y: i32, text: &str, skip: i32, style: Style)
        requires
            old(self).wf(),
        ensures
            final(self).wf(),
            final(self).same_frame(old(self)),
            final(self).spec_cells() == put_text(old(self).frame(), 
                old(self).spec_cells(),
                x as int,
                y as int,
                skipped(text@, skip as int),
                style,
            ),
    {
        let n = text.unicode_len();
        let start: usize = if skip <= 0 {
            0
        } else if (skip as usize) < n {
            skip as usize
        } else {
            n
        };
        assert(text@.skip(0) =~= text@);
        assert(text@.skip(n as int) =~= Seq::<char>::empty());
        self.put_str_from(x, y, text, start, style);
    }

    fn put_str_from(&mut self, x: i32, y: i32, text: &str, start: usize, style: Style)
        requires
            old(self).wf(),
            start <= text@.len(),
        ensures
            final(self).wf(),
            final(self).same_frame(old(self)),
            final(self).spec_cells() == put_text(old(self).frame(), 
                old(self).spec_cells(),
                x as int,
                y as int,
                text@.skip(start as int),
                style,
            ),
    {
        let n = text.unicode_len();
        let ghost t = text@;
        let ghost target = put_text(old(self).frame(), old(self).spec_cells(), x as int, y as int, t.skip(start as int), style);
        let mut k: usize = start;
        let mut col: i128 = x as i128;
        while k < n
            invariant
                start <= k <= n,
                n == t.len(),
                t == text@,
                col == x + (k - start),
                self.wf(),
                self.same_frame(old(self)),
                target == put_text(self.frame(), self.spec_cells(), col as int, y as int, t.skip(k as int), style),
            decreases n - k,
        {
            let c = text.get_char(k);
            assert(t.skip(k as int)[0] == c);
            assert(t.skip(k as int).drop_first() =~= t.skip(k as int + 1));
            self.put_char_at(col, y as i128, c, style);
            k = k + 1;
            col = col + 1;
        }
        assert(t.skip(k as int) =~= Seq::<char>::empty());
    }

    /// Fill the view-local rectangle `r` with `c`.
    pub fn fill(&mut self, r: Rect, c: char, style: Style)
        requires
            old(self).wf(),
        ensures
            final(self).wf(),
            final(self).same_frame(old(self)),
            final(self).spec_cells() == put_rows(old(self).frame(), old(self).spec_cells(), r, r.a.y as int, c, style),
    {
        let ghost target = put_rows(old(self).frame(), old(self).spec_cells(), r, r.a.y as int, c, style);
        let mut y: i32 = r.a.y;
        while y < r.b.y
            invariant
                r.a.y <= y <= r.b.y || (y == r.a.y && r.a.y >= r.b.y),
                self.wf(),
                self.same_frame(old(self)),
                target == put_rows(self.frame(), self.spec_cells(), r, y as int, c, style),
            decreases r.b.y - y,
        {
            let ghost n = r.b.x - r.a.x;
            let ghost row = fill_row(n, c);
            let ghost before = self.spec_cells();
            let mut x: i32 = r.a.x;
            let ghost target_row = put_text(self.frame(), before, r.a.x as int, y as int, row, style);
            assert(row.skip(0) =~= row);
            while x < r.b.x
                invariant
                    r.a.x <= x,
                    x <= r.b.x || x == r.a.x,
                    y < r.b.y,
                    self.wf(),
                    self.same_frame(old(self)),
                    row == fill_row(n, c),
                    n == r.b.x - r.a.x,
                    target_row == put_text(self.frame(), self.spec_cells(), x as int, y as int, row.skip(x - r.a.x), style),
                decreases r.b.x - x,
            {
                assert(row.skip(x - r.a.x)[0] == c);
                assert(row.skip(x - r.a.x).drop_first() =~= row.skip(x + 1 - r.a.x));
                self.put_char(x, y, c, style);
                x = x + 1;
            }
            assert(row.skip(x - r.a.x) =~= Seq::<char>::empty());
            y = y + 1;
        }
    }

    /// Write the `~`-marked control string `text` from the view-local
    /// `(x, y)`: text outside `~` pairs is drawn in `lo`, text inside in `hi`,
    /// and the markers themselves occupy no cell.
    pub fn put_cstr(&mut self, x: i32, y: i32, text: &str, lo: Style, hi: Style)
        requires
            old(self).wf(),
        ensures
            final(self).wf(),
            final(self).same_frame(old(self)),
            final(self).spec_cells() == put_ctext(old(self).frame(), old(self).spec_cells(), x as int, y as int, text@, lo, hi, false),
    {
        let n = text.unicode_len();
        let ghost t = text@;
        let ghost target = put_ctext(old(self).frame(), old(self).spec_cells(), x as int, y as int, t, lo, hi, false);
        let mut k: usize = 0;
        let mut col: i128 = x as i128;
        let mut in_hi = false;
        assert(t.skip(0) =~= t);
        while k < n
            invariant
                k <= n,
                n == t.len(),
                t == text@,
                x <= col <= x + k,
                self.wf(),
                self.same_frame(old(self)),
                target == put_ctext(self.frame(), self.spec_cells(), col as int, y as int, t.skip(k as int), lo, hi, in_hi),
            decreases n - k,
        {
            let c = text.get_char(k);
            assert(t.skip(k as int)[0] == c);
            assert(t.skip(k as int).drop_first() =~= t.skip(k as int + 1));
            if c == '~' {
                in_hi = !in_hi;
            } else {
                let st = if in_hi { hi } else { lo };
                self.put_char_at(col, y as i128, c, st);
                col = col + 1;
            }
            k = k + 1;
        }
        assert(t.skip(k as int) =~= Seq::<char>::empty());
    }
}

/// `text` without its first `skip` characters (all of it when `skip` is not
/// positive).
pub open spec fn skipped(text: Seq<char>, skip: int) -> Seq<char> {
    if skip <= 0 {
        text
    } else if skip < text.len() {
        text.skip(skip)
    } else {
        Seq::empty()
    }
}

} // verus!
