//! A grid of cells with clipped drawing operations.
//!
//! Cells are stored row by row. Every drawing operation silently skips the
//! coordinates that fall outside the grid.

use crate::cell::Cell;
use crate::color::Color;
use crate::geom::in_span;
use crate::geom::Rect;
use crate::line::lemma_walk_end;
use crate::line::lemma_walk_point;
use crate::line::lemma_walk_start;
use crate::line::line_step;
use crate::line::major_span;
use crate::line::on_line;
use crate::line::walk_inv;
use crate::line::walk_step;
use crate::text::chars_of;
use vstd::prelude::*;

verus! {

#[derive(Debug)]
pub struct Canvas {
    width: u32,
    height: u32,
    cells: Vec<Cell>,
}

/// A view of a canvas through a rectangle: drawing through it is offset by
/// the rectangle's corner.
pub struct CanvasRegion<'a> {
    pub canvas: &'a mut Canvas,
    pub rect: Rect,
}

/// In a grid of width `w`, two cells in bounds share an index only if they
/// are the same cell.
pub proof fn lemma_index_injective(w: int, x1: int, y1: int, x2: int, y2: int)
    requires
        0 <= x1 < w,
        0 <= x2 < w,
        x1 + y1 * w == x2 + y2 * w,
    ensures
        x1 == x2,
        y1 == y2,
{
    if y1 < y2 {
        assert(y1 * w + w <= y2 * w) by (nonlinear_arith)
            requires
                y1 + 1 <= y2,
                w > 0,
        ;
    } else if y2 < y1 {
        assert(y2 * w + w <= y1 * w) by (nonlinear_arith)
            requires
                y2 + 1 <= y1,
                w > 0,
        ;
    }
}

/// In a grid of `w` by `h` cells, the index of a cell in bounds is below
/// `w * h`.
pub proof fn lemma_index_in_range(w: int, h: int, x: int, y: int)
    requires
        0 <= x < w,
        0 <= y < h,
    ensures
        0 <= x + y * w < w * h,
{
    assert(y * w + w <= h * w && y * w >= 0 && h * w == w * h) by (nonlinear_arith)
        requires
            0 <= y,
            y + 1 <= h,
            w > 0,
    ;
}

/// What a cell becomes when `cell` is drawn on it: `cell` laid over it, or,
/// when overwriting, `cell` itself.
pub open spec fn painted(cell: Cell, under: Cell, blend: bool) -> Cell {
    if blend {
        cell.spec_blend(under)
    } else {
        cell
    }
}

fn filled(cell: Cell, n: usize) -> (v: Vec<Cell>)
    ensures
        v@ == Seq::new(n as nat, |i: int| cell),
{
    let mut v: Vec<Cell> = Vec::new();
    let mut i: usize = 0;
    while i < n
        invariant
            i <= n,
            v@ == Seq::new(i as nat, |j: int| cell),
        decreases n - i,
    {
        v.push(cell);
        i += 1;
        assert(v@ =~= Seq::new(i as nat, |j: int| cell));
    }
    v
}

impl Canvas {
    /// The cells, row by row.
    pub closed spec fn view(&self) -> Seq<Cell> {
        self.cells@
    }

    pub closed spec fn spec_width(&self) -> u32 {
        self.width
    }

    pub closed spec fn spec_height(&self) -> u32 {
        self.height
    }

    /// A canvas holds one cell for each position of its grid.
    pub open spec fn wf(&self) -> bool {
        self@.len() == self.spec_width() * self.spec_height()
    }

    pub open spec fn in_bounds(&self, x: int, y: int) -> bool {
        0 <= x < self.spec_width() && 0 <= y < self.spec_height()
    }

    /// The position in the row-by-row storage of the cell `(x, y)`.
    pub open spec fn spec_index(&self, x: int, y: int) -> int {
        x + y * self.spec_width()
    }

    /// The cell at `(x, y)`, for a position in bounds.
    pub open spec fn at(&self, x: int, y: int) -> Cell {
        self@[self.spec_index(x, y)]
    }

    /// Two canvases of one size.
    pub open spec fn same_size(&self, other: &Canvas) -> bool {
        self.spec_width() == other.spec_width() && self.spec_height() == other.spec_height()
    }

    /// A canvas of the given size in which every cell is null.
    pub fn new(width: u32, height: u32) -> (canvas: Canvas)
        requires
            width * height <= usize::MAX,
        ensures
            canvas.wf(),
            canvas.spec_width() == width,
            canvas.spec_height() == height,
            canvas@ == Seq::new((width * height) as nat, |i: int| Cell::spec_null()),
    {
        let mut canvas = Canvas { width: 0, height: 0, cells: Vec::new() };
        canvas.resize(width, height);
        canvas
    }

    /// Makes every cell null.
    pub fn clear(&mut self)
        requires
            old(self).wf(),
        ensures
            final(self).wf(),
            final(self).same_size(old(self)),
            final(self)@ == Seq::new(old(self)@.len(), |i: int| Cell::spec_null()),
    {
        self.fill(Cell::null());
    }

    /// Makes every cell a copy of `cell`.
    pub fn fill(&mut self, cell: Cell)
        requires
            old(self).wf(),
        ensures
            final(self).wf(),
            final(self).same_size(old(self)),
            final(self)@ == Seq::new(old(self)@.len(), |i: int| cell),
    {
        let n = self.cells.len();
        self.cells = filled(cell, n);
    }

    #[verifier::when_used_as_spec(spec_width)]
    pub fn width(&self) -> (w: u32)
        ensures
            w == self.spec_width(),
    {
        self.width
    }

    #[verifier::when_used_as_spec(spec_height)]
    pub fn height(&self) -> (h: u32)
        ensures
            h == self.spec_height(),
    {
        self.height
    }

    pub fn size(&self) -> (s: (u32, u32))
        ensures
            s == (self.spec_width(), self.spec_height()),
    {
        (self.width, self.height)
    }

    /// Gives the canvas a new size. The content is not kept: every cell is
    /// null afterwards.
    pub fn resize(&mut self, w: u32, h: u32)
        requires
            w * h <= usize::MAX,
        ensures
            final(self).wf(),
            final(self).spec_width() == w,
            final(self).spec_height() == h,
            final(self)@ == Seq::new((w * h) as nat, |i: int| Cell::spec_null()),
    {
        self.width = w;
        self.height = h;
        assert(0 <= w * h) by (nonlinear_arith)
            requires
                0 <= w,
                0 <= h,
        ;
        self.cells = filled(Cell::null(), w as usize * h as usize);
    }

    /// The storage position of the cell `(x, y)`, or `None` for a position
    /// outside the grid.
    pub fn index(&self, x: i32, y: i32) -> (idx: Option<usize>)
        requires
            self.wf(),
        ensures
            match idx {
                Some(i) => self.in_bounds(x as int, y as int) && i == self.spec_index(
                    x as int,
                    y as int,
                ) && i < self@.len(),
                None => !self.in_bounds(x as int, y as int),
            },
    {
        if x < 0 || y < 0 || x as u32 >= self.width || y as u32 >= self.height {
            return None;
        }
        let n = self.cells.len();
        proof {
            lemma_index_in_range(self.width as int, self.height as int, x as int, y as int);
            assert(0 <= y * self.width) by (nonlinear_arith)
                requires
                    0 <= y,
                    0 <= self.width,
            ;
        }
        Some(x as usize + y as usize * self.width as usize)
    }

    /// The cell at `(x, y)`, or `None` for a position outside the grid.
    pub fn cell(&self, x: i32, y: i32) -> (c: Option<&Cell>)
        requires
            self.wf(),
        ensures
            self.in_bounds(x as int, y as int) ==> c == Some(&self.at(x as int, y as int)),
            !self.in_bounds(x as int, y as int) ==> c is None,
    {
        if let Some(idx) = self.index(x, y) {
            Some(&self.cells[idx])
        } else {
            None
        }
    }

    /// The cell at `(x, y)` for writing, or `None` for a position outside the
    /// grid. What is written through it changes that cell and no other.
    pub fn cell_mut(&mut self, x: i32, y: i32) -> (c: Option<&mut Cell>)
        requires
            old(self).wf(),
        ensures
            final(self).wf(),
            final(self).same_size(old(self)),
            match c {
                Some(r) => old(self).in_bounds(x as int, y as int) && *r == old(self).at(
                    x as int,
                    y as int,
                ) && final(self)@ == old(self)@.update(
                    old(self).spec_index(x as int, y as int),
                    *final(r),
                ),
                None => !old(self).in_bounds(x as int, y as int) && final(self)@ == old(self)@,
            },
    {
        if let Some(idx) = self.index(x, y) {
            Some(&mut self.cells[idx])
        } else {
            None
        }
    }

    /// Draws `cell` on the one position `(x, y)`, which is in bounds.
    fn paint_at(&mut self, x: i64, y: i64, cell: &Cell, blend: bool)
        requires
            old(self).wf(),
            old(self).in_bounds(x as int, y as int),
        ensures
            final(self).wf(),
            final(self).same_size(old(self)),
            final(self).at(x as int, y as int) == painted(
                *cell,
                old(self).at(x as int, y as int),
                blend,
            ),
            forall|px: int, py: int|
                old(self).in_bounds(px, py) && (px != x || py != y) ==> #[trigger] final(self).at(
                    px,
                    py,
                ) == old(self).at(px, py),
    {
        let n = self.cells.len();
        proof {
            lemma_index_in_range(self.width as int, self.height as int, x as int, y as int);
            assert(0 <= y * self.width) by (nonlinear_arith)
                requires
                    0 <= y,
                    0 <= self.width,
            ;
        }
        let idx: usize = x as usize + y as usize * self.width as usize;
        let value = if blend {
            cell.blend(&self.cells[idx])
        } else {
            *cell
        };
        self.cells.set(idx, value);
        proof {
            let w = self.width as int;
            assert forall|px: int, py: int|
                old(self).in_bounds(px, py) && (px != x || py != y) implies #[trigger] self.at(
                px,
                py,
            ) == old(self).at(px, py) by {
                lemma_index_in_range(w, self.height as int, px, py);
                if px + py * w == x + y * w {
                    lemma_index_injective(w, px, py, x as int, y as int);
                }
            }
        }
    }

    /// Draws `cell` on every position of the rectangle with corner
    /// `(x0, y0)` and size `w` by `h` that lies in bounds.
    fn paint_rect(&mut self, cell: &Cell, x0: i64, y0: i64, w: i64, h: i64, blend: bool)
        requires
            old(self).wf(),
            -0x1_0000_0000 <= x0 <= 0x1_0000_0000,
            -0x1_0000_0000 <= y0 <= 0x1_0000_0000,
            -0x1_0000_0000 <= w <= 0x1_0000_0000,
            -0x1_0000_0000 <= h <= 0x1_0000_0000,
        ensures
            final(self).wf(),
            final(self).same_size(old(self)),
            forall|px: int, py: int|
                old(self).in_bounds(px, py) ==> #[trigger] final(self).at(px, py) == (if in_span(
                    x0 as int,
                    y0 as int,
                    w as int,
                    h as int,
                    px,
                    py,
                ) {
                    painted(*cell, old(self).at(px, py), blend)
                } else {
                    old(self).at(px, py)
                }),
    {
        let cw: i64 = self.width as i64;
        let ch: i64 = self.height as i64;
        let xlo: i64 = if x0 > 0 { x0 } else { 0 };
        let ylo: i64 = if y0 > 0 { y0 } else { 0 };
        let xhi: i64 = if x0 + w < cw { x0 + w } else { cw };
        let yhi: i64 = if y0 + h < ch { y0 + h } else { ch };
        let mut y: i64 = ylo;
        while y < yhi
            invariant
                self.wf(),
                self.same_size(old(self)),
                cw == self.width,
                ch == self.height,
                xlo == (if x0 > 0 { x0 } else { 0 }),
                xhi == (if x0 + w < cw { x0 + w } else { cw as int }),
                yhi == (if y0 + h < ch { y0 + h } else { ch as int }),
                0 <= ylo <= y,
                ylo == (if y0 > 0 { y0 } else { 0 }),
                forall|px: int, py: int|
                    old(self).in_bounds(px, py) ==> #[trigger] self.at(px, py) == (if in_span(
                        x0 as int,
                        y0 as int,
                        w as int,
                        h as int,
                        px,
                        py,
                    ) && py < y {
                        painted(*cell, old(self).at(px, py), blend)
                    } else {
                        old(self).at(px, py)
                    }),
            decreases yhi - y,
        {
            let mut x: i64 = xlo;
            while x < xhi
                invariant
                    self.wf(),
                    self.same_size(old(self)),
                    cw == self.width,
                    ch == self.height,
                    xlo == (if x0 > 0 { x0 } else { 0 }),
                    xhi == (if x0 + w < cw { x0 + w } else { cw as int }),
                    yhi == (if y0 + h < ch { y0 + h } else { ch as int }),
                    ylo == (if y0 > 0 { y0 } else { 0 }),
                    0 <= ylo <= y < yhi,
                    0 <= xlo <= x,
                    forall|px: int, py: int|
                        old(self).in_bounds(px, py) ==> #[trigger] self.at(px, py) == (if in_span(
                            x0 as int,
                            y0 as int,
                            w as int,
                            h as int,
                            px,
                            py,
                        ) && (py < y || (py == y && px < x)) {
                            painted(*cell, old(self).at(px, py), blend)
                        } else {
                            old(self).at(px, py)
                        }),
                decreases xhi - x,
            {
                let ghost before = *self;
                self.paint_at(x, y, cell, blend);
                assert(forall|px: int, py: int|
                    old(self).in_bounds(px, py) ==> (before.in_bounds(px, py) && (#[trigger] self.at(
                        px,
                        py,
                    ) == if px == x && py == y {
                        painted(*cell, before.at(px, py), blend)
                    } else {
                        before.at(px, py)
                    })));
                x += 1;
            }
            y += 1;
        }
    }

    /// Lays `new_cell` over every cell of `rect` that lies in bounds.
    pub fn fill_rect(&mut self, new_cell: Cell, rect: &Rect)
        requires
            old(self).wf(),
        ensures
            final(self).wf(),
            final(self).same_size(old(self)),
            forall|x: int, y: int|
                old(self).in_bounds(x, y) ==> #[trigger] final(self).at(x, y) == (if rect.contains(
                    x,
                    y,
                ) {
                    new_cell.spec_blend(old(self).at(x, y))
                } else {
                    old(self).at(x, y)
                }),
    {
        self.paint_rect(
            &new_cell,
            rect.x as i64,
            rect.y as i64,
            rect.width as i64,
            rect.height as i64,
            true,
        );
    }

    /// Lays `cell` over the position `(x, y)` if it lies in bounds.
    fn blend_at(&mut self, x: i64, y: i64, cell: &Cell)
        requires
            old(self).wf(),
        ensures
            final(self).wf(),
            final(self).same_size(old(self)),
            forall|px: int, py: int|
                old(self).in_bounds(px, py) ==> #[trigger] final(self).at(px, py) == (if px == x
                    && py == y {
                    cell.spec_blend(old(self).at(px, py))
                } else {
                    old(self).at(px, py)
                }),
    {
        if 0 <= x && x < self.width as i64 && 0 <= y && y < self.height as i64 {
            self.paint_at(x, y, cell, true);
        }
    }

    /// Writes `text` from `(x, y)` to the right, one cell for each character
    /// whatever its display width, each laid over what was there.
    pub fn draw_text(&mut self, x: i32, y: i32, fg: Color, bg: Color, text: &str)
        requires
            old(self).wf(),
        ensures
            final(self).wf(),
            final(self).same_size(old(self)),
            forall|px: int, py: int|
                old(self).in_bounds(px, py) ==> #[trigger] final(self).at(px, py) == (if py == y
                    && x <= px < x + text@.len() {
                    (Cell { fg, bg, symbol: text@[px - x] }).spec_blend(old(self).at(px, py))
                } else {
                    old(self).at(px, py)
                }),
    {
        let chars = chars_of(text);
        let n = chars.len();
        let mut i: usize = 0;
        while i < n
            invariant
                self.wf(),
                self.same_size(old(self)),
                n == chars@.len(),
                chars@ == text@,
                i <= n,
                i == 0 || x + i <= self.spec_width(),
                forall|px: int, py: int|
                    old(self).in_bounds(px, py) ==> #[trigger] self.at(px, py) == (if py == y && x
                        <= px < x + i {
                        (Cell { fg, bg, symbol: text@[px - x] }).spec_blend(old(self).at(px, py))
                    } else {
                        old(self).at(px, py)
                    }),
            decreases n - i,
        {
            let px: i64 = x as i64 + i as i64;
            if px >= self.width as i64 {
                return ;
            }
            let cell = Cell { fg, bg, symbol: chars[i] };
            self.blend_at(px, y as i64, &cell);
            i += 1;
        }
    }

    /// Lays `canvas` over this one with its corner at `(dx, dy)`. What would
    /// fall outside this canvas is left out.
    pub fn draw_canvas(&mut self, dx: i32, dy: i32, canvas: &Canvas)
        requires
            old(self).wf(),
            canvas.wf(),
        ensures
            final(self).wf(),
            final(self).same_size(old(self)),
            forall|px: int, py: int|
                old(self).in_bounds(px, py) ==> #[trigger] final(self).at(px, py) == (
                if canvas.in_bounds(px - dx, py - dy) {
                    canvas.at(px - dx, py - dy).spec_blend(old(self).at(px, py))
                } else {
                    old(self).at(px, py)
                }),
    {
        let cw: i64 = self.width as i64;
        let ch: i64 = self.height as i64;
        let sw: i64 = canvas.width as i64;
        let sh: i64 = canvas.height as i64;
        let x0: i64 = dx as i64;
        let y0: i64 = dy as i64;
        let xlo: i64 = if x0 > 0 { x0 } else { 0 };
        let ylo: i64 = if y0 > 0 { y0 } else { 0 };
        let xhi: i64 = if x0 + sw < cw { x0 + sw } else { cw };
        let yhi: i64 = if y0 + sh < ch { y0 + sh } else { ch };
        let mut y: i64 = ylo;
        while y < yhi
            invariant
                self.wf(),
                canvas.wf(),
                self.same_size(old(self)),
                cw == self.width,
                ch == self.height,
                sw == canvas.width,
                sh == canvas.height,
                x0 == dx,
                y0 == dy,
                xlo == (if x0 > 0 { x0 } else { 0 }),
                ylo == (if y0 > 0 { y0 } else { 0 }),
                xhi == (if x0 + sw < cw { x0 + sw } else { cw as int }),
                yhi == (if y0 + sh < ch { y0 + sh } else { ch as int }),
                0 <= ylo <= y,
                forall|px: int, py: int|
                    old(self).in_bounds(px, py) ==> #[trigger] self.at(px, py) == (
                    if canvas.in_bounds(px - dx, py - dy) && py < y {
                        canvas.at(px - dx, py - dy).spec_blend(old(self).at(px, py))
                    } else {
                        old(self).at(px, py)
                    }),
            decreases yhi - y,
        {
            let mut x: i64 = xlo;
            while x < xhi
                invariant
                    self.wf(),
                    canvas.wf(),
                    self.same_size(old(self)),
                    cw == self.width,
                    ch == self.height,
                    sw == canvas.width,
                    sh == canvas.height,
                    x0 == dx,
                    y0 == dy,
                    xlo == (if x0 > 0 { x0 } else { 0 }),
                    ylo == (if y0 > 0 { y0 } else { 0 }),
                    xhi == (if x0 + sw < cw { x0 + sw } else { cw as int }),
                    yhi == (if y0 + sh < ch { y0 + sh } else { ch as int }),
                    0 <= ylo <= y < yhi,
                    0 <= xlo <= x,
                    forall|px: int, py: int|
                        old(self).in_bounds(px, py) ==> #[trigger] self.at(px, py) == (
                        if canvas.in_bounds(px - dx, py - dy) && (py < y || (py == y && px < x)) {
                            canvas.at(px - dx, py - dy).spec_blend(old(self).at(px, py))
                        } else {
                            old(self).at(px, py)
                        }),
                decreases xhi - x,
            {
                let ghost before = *self;
                let sx: i64 = x - x0;
                let sy: i64 = y - y0;
                let n = canvas.cells.len();
                proof {
                    lemma_index_in_range(sw as int, sh as int, sx as int, sy as int);
                    assert(0 <= sy * sw) by (nonlinear_arith)
                        requires
                            0 <= sy,
                            0 <= sw,
                    ;
                }
                let src = canvas.cells[sx as usize + sy as usize * canvas.width as usize];
                assert(src == canvas.at(sx as int, sy as int));
                self.paint_at(x, y, &src, true);
                assert(forall|px: int, py: int|
                    old(self).in_bounds(px, py) ==> (before.in_bounds(px, py) && (#[trigger] self.at(
                        px,
                        py,
                    ) == if px == x && py == y {
                        src.spec_blend(before.at(px, py))
                    } else {
                        before.at(px, py)
                    })));
                x += 1;
            }
            y += 1;
        }
    }

    /// Draws the segment from `(x0, y0)` to `(x1, y1)`, both ends included:
    /// `cell` is laid once over each cell of the segment that lies in bounds.
    pub fn draw_line(&mut self, x0: i32, y0: i32, x1: i32, y1: i32, cell: Cell)
        requires
            old(self).wf(),
        ensures
            final(self).wf(),
            final(self).same_size(old(self)),
            forall|px: int, py: int|
                old(self).in_bounds(px, py) ==> #[trigger] final(self).at(px, py) == (if on_line(
                    x0 as int,
                    y0 as int,
                    x1 as int,
                    y1 as int,
                    px,
                    py,
                ) {
                    cell.spec_blend(old(self).at(px, py))
                } else {
                    old(self).at(px, py)
                }),
    {
        let mut xs: i64 = x0 as i64;
        let mut ys: i64 = y0 as i64;
        let xd: i64 = if x0 < x1 { x1 as i64 - x0 as i64 } else { x0 as i64 - x1 as i64 };
        let yd: i64 = if y0 < y1 { y1 as i64 - y0 as i64 } else { y0 as i64 - y1 as i64 };
        // Twice the error term, so that a half stays whole.
        let mut err: i64 = if xd >= yd { xd } else { -yd };
        let ghost mut i: int = 0;
        let ghost mut k: int = 0;
        let ghost major = major_span(x0 as int, y0 as int, x1 as int, y1 as int);
        let mut done = false;
        proof {
            lemma_walk_start(x0 as int, y0 as int, x1 as int, y1 as int);
        }
        while !done
            invariant
                self.wf(),
                self.same_size(old(self)),
                major == major_span(x0 as int, y0 as int, x1 as int, y1 as int),
                walk_inv(
                    x0 as int,
                    y0 as int,
                    x1 as int,
                    y1 as int,
                    i,
                    k,
                    xs as int,
                    ys as int,
                    err as int,
                ),
                done ==> i == major,
                forall|px: int, py: int|
                    old(self).in_bounds(px, py) ==> #[trigger] self.at(px, py) == (if on_line(
                        x0 as int,
                        y0 as int,
                        x1 as int,
                        y1 as int,
                        px,
                        py,
                    ) && line_step(x0 as int, y0 as int, x1 as int, y1 as int, px, py) < i + (
                    if done {
                        1int
                    } else {
                        0int
                    }) {
                        cell.spec_blend(old(self).at(px, py))
                    } else {
                        old(self).at(px, py)
                    }),
            decreases major - i + (if done { 0int } else { 1int }),
        {
            let ghost before = *self;
            self.blend_at(xs, ys, &cell);
            proof {
                lemma_walk_point(
                    x0 as int,
                    y0 as int,
                    x1 as int,
                    y1 as int,
                    i,
                    k,
                    xs as int,
                    ys as int,
                    err as int,
                );
                lemma_walk_end(
                    x0 as int,
                    y0 as int,
                    x1 as int,
                    y1 as int,
                    i,
                    k,
                    xs as int,
                    ys as int,
                    err as int,
                );
                assert forall|px: int, py: int| old(self).in_bounds(px, py) implies #[trigger] self.at(
                    px,
                    py,
                ) == (if on_line(x0 as int, y0 as int, x1 as int, y1 as int, px, py) && line_step(
                    x0 as int,
                    y0 as int,
                    x1 as int,
                    y1 as int,
                    px,
                    py,
                ) < i + 1 {
                    cell.spec_blend(old(self).at(px, py))
                } else {
                    old(self).at(px, py)
                }) by {
                    assert(before.in_bounds(px, py));
                    assert(self.at(px, py) == if px == xs && py == ys {
                        cell.spec_blend(before.at(px, py))
                    } else {
                        before.at(px, py)
                    });
                }
            }
            if xs == x1 as i64 && ys == y1 as i64 {
                done = true;
            } else {
                let next = walk_step(x0, y0, x1, y1, xs, ys, err, Ghost(i), Ghost(k));
                xs = next.0;
                ys = next.1;
                err = next.2;
                proof {
                    i = i + 1;
                    k = next.3@;
                }
            }
        }
        proof {
            assert forall|px: int, py: int| old(self).in_bounds(px, py) implies #[trigger] self.at(
                px,
                py,
            ) == (if on_line(x0 as int, y0 as int, x1 as int, y1 as int, px, py) {
                cell.spec_blend(old(self).at(px, py))
            } else {
                old(self).at(px, py)
            }) by {
                lemma_walk_point(
                    x0 as int,
                    y0 as int,
                    x1 as int,
                    y1 as int,
                    i,
                    k,
                    xs as int,
                    ys as int,
                    err as int,
                );
            }
        }
    }

    /// A view of this canvas through `rect`.
    pub fn region_mut(&mut self, rect: Rect) -> (region: CanvasRegion<'_>)
        requires
            old(self).wf(),
        ensures
            region.wf(),
            *region.canvas == *old(self),
            region.rect == rect,
            *final(self) == *final(region.canvas),
    {
        CanvasRegion { canvas: self, rect }
    }

    /// A view of the whole canvas.
    pub fn as_region_mut(&mut self) -> (region: CanvasRegion<'_>)
        requires
            old(self).wf(),
        ensures
            region.wf(),
            *region.canvas == *old(self),
            region.rect == (Rect {
                x: 0,
                y: 0,
                width: old(self).spec_width() as i32,
                height: old(self).spec_height() as i32,
            }),
            *final(self) == *final(region.canvas),
    {
        let width = #[verifier::truncate] (self.width as i32);
        let height = #[verifier::truncate] (self.height as i32);
        self.region_mut(Rect::new(0, 0, width, height))
    }
}

impl Default for Canvas {
    /// The canvas without cells.
    fn default() -> (canvas: Canvas)
        ensures
            canvas.wf(),
            canvas.spec_width() == 0,
            canvas.spec_height() == 0,
    {
        Canvas { width: 0, height: 0, cells: Vec::new() }
    }
}

impl Clone for Canvas {
    fn clone(&self) -> (canvas: Canvas)
        ensures
            canvas@ == self@,
            canvas.same_size(self),
    {
        let mut cells: Vec<Cell> = Vec::new();
        let mut i: usize = 0;
        while i < self.cells.len()
            invariant
                i <= self.cells.len(),
                cells@ == self.cells@.take(i as int),
            decreases self.cells.len() - i,
        {
            cells.push(self.cells[i]);
            i += 1;
            assert(cells@ =~= self.cells@.take(i as int));
        }
        assert(cells@ =~= self.cells@);
        Canvas { width: self.width, height: self.height, cells }
    }
}

impl<'a> CanvasRegion<'a> {
    pub open spec fn wf(&self) -> bool {
        self.canvas.wf()
    }

    /// The region's own width, whatever the size of the canvas.
    pub fn width(&self) -> (w: u32)
        ensures
            w == self.rect.width as u32,
    {
        #[verifier::truncate]
        (self.rect.width as u32)
    }

    /// The region's own height, whatever the size of the canvas.
    pub fn height(&self) -> (h: u32)
        ensures
            h == self.rect.height as u32,
    {
        #[verifier::truncate]
        (self.rect.height as u32)
    }

    pub fn size(&self) -> (s: (u32, u32))
        ensures
            s == (self.rect.width as u32, self.rect.height as u32),
    {
        (self.width(), self.height())
    }

    /// A view through `rect`, taken relative to this region's corner: the
    /// offsets add up. The corner of the new view has to fit the coordinate
    /// type.
    pub fn region_mut(&mut self, rect: Rect) -> (region: CanvasRegion<'_>)
        requires
            old(self).wf(),
            i32::MIN <= rect.x + old(self).rect.x <= i32::MAX,
            i32::MIN <= rect.y + old(self).rect.y <= i32::MAX,
        ensures
            region.wf(),
            *region.canvas == *old(self).canvas,
            region.rect == (Rect {
                x: (rect.x + old(self).rect.x) as i32,
                y: (rect.y + old(self).rect.y) as i32,
                width: rect.width,
                height: rect.height,
            }),
            final(self).rect == old(self).rect,
            *final(self).canvas == *final(region.canvas),
            *final(final(self).canvas) == *final(old(self).canvas),
    {
        CanvasRegion {
            canvas: &mut *self.canvas,
            rect: Rect::new(rect.x + self.rect.x, rect.y + self.rect.y, rect.width, rect.height),
        }
    }

    /// Makes null every cell of the region that lies in the bounds of the
    /// canvas.
    pub fn clear(&mut self)
        requires
            old(self).wf(),
        ensures
            final(self).wf(),
            final(self).rect == old(self).rect,
            *final(final(self).canvas) == *final(old(self).canvas),
            final(self).canvas.same_size(old(self).canvas),
            forall|x: int, y: int|
                old(self).canvas.in_bounds(x, y) ==> #[trigger] final(self).canvas.at(x, y) == (
                if old(self).rect.contains(x, y) {
                    Cell::spec_null()
                } else {
                    old(self).canvas.at(x, y)
                }),
    {
        self.fill(Cell::null());
    }

    /// Makes every cell of the region that lies in the bounds of the canvas a
    /// copy of `cell`.
    pub fn fill(&mut self, cell: Cell)
        requires
            old(self).wf(),
        ensures
            final(self).wf(),
            final(self).rect == old(self).rect,
            *final(final(self).canvas) == *final(old(self).canvas),
            final(self).canvas.same_size(old(self).canvas),
            forall|x: int, y: int|
                old(self).canvas.in_bounds(x, y) ==> #[trigger] final(self).canvas.at(x, y) == (
                if old(self).rect.contains(x, y) {
                    cell
                } else {
                    old(self).canvas.at(x, y)
                }),
    {
        self.canvas.paint_rect(
            &cell,
            self.rect.x as i64,
            self.rect.y as i64,
            self.rect.width as i64,
            self.rect.height as i64,
            false,
        );
    }

    /// Lays `cell` over every cell of `rect`, taken relative to the region's
    /// corner, that lies in the bounds of the canvas.
    pub fn fill_rect(&mut self, cell: Cell, rect: &Rect)
        requires
            old(self).wf(),
        ensures
            final(self).wf(),
            final(self).rect == old(self).rect,
            *final(final(self).canvas) == *final(old(self).canvas),
            final(self).canvas.same_size(old(self).canvas),
            forall|x: int, y: int|
                old(self).canvas.in_bounds(x, y) ==> #[trigger] final(self).canvas.at(x, y) == (
                if in_span(
                    old(self).rect.x + rect.x,
                    old(self).rect.y + rect.y,
                    rect.width as int,
                    rect.height as int,
                    x,
                    y,
                ) {
                    cell.spec_blend(old(self).canvas.at(x, y))
                } else {
                    old(self).canvas.at(x, y)
                }),
    {
        self.canvas.paint_rect(
            &cell,
            rect.x as i64 + self.rect.x as i64,
            rect.y as i64 + self.rect.y as i64,
            rect.width as i64,
            rect.height as i64,
            true,
        );
    }
}

} // verus!
