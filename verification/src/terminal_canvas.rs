//! A canvas that is shown on a terminal.
//!
//! Two buffers are kept: the back buffer is the frame that the caller draws,
//! the front buffer is the frame that the terminal shows. `present` compares
//! the two cell by cell and writes only what is needed to turn the one into
//! the other: a cursor move where the cursor is not already in place, a
//! color change where the colors in force differ, and the character.

use crate::canvas::Canvas;
use crate::cell::Cell;
use crate::color::Color;
use crate::terminal::Terminal;
use crate::terminal::bg_color_text;
use crate::terminal::clear_text;
use crate::terminal::csi_text;
use crate::terminal::disable_mouse_text;
use crate::terminal::enable_mouse_text;
use crate::terminal::fg_color_text;
use crate::terminal::move_to_text;
use crate::terminal::reset_text;
use vstd::prelude::*;

verus! {

/// What `present` keeps track of while it writes a frame: where the cursor
/// of the terminal stands, and the colors in force.
pub struct Pen {
    pub x: int,
    pub y: int,
    pub fg: Color,
    pub bg: Color,
}

/// The text written so far for a frame, and the pen after it.
pub struct Frame {
    pub text: Seq<char>,
    pub pen: Pen,
}

pub open spec fn transparent() -> Color {
    Color::spec_rgba(0, 0, 0, 0)
}

/// The pen at the start of a frame: the cursor is nowhere on the grid, and no
/// color is in force.
pub open spec fn initial_pen() -> Pen {
    Pen { x: -1, y: -1, fg: transparent(), bg: transparent() }
}

/// The background that a cell asks of the terminal: its own, or none where
/// that is fully transparent.
pub open spec fn shown_bg(cell: Cell) -> Color {
    if cell.bg.a > 0 {
        cell.bg
    } else {
        transparent()
    }
}

pub open spec fn no_text() -> Seq<char> {
    Seq::<char>::empty()
}

/// The colors that are written before the character of `cell` while `fg`
/// and `bg` are in force: the background where it differs from `bg` (a reset
/// where the cell has none, which also drops the foreground in force), then
/// the foreground where it differs.
pub open spec fn color_text(fg: Color, bg: Color, cell: Cell) -> Seq<char> {
    let shown = shown_bg(cell);
    let fg_in_force = if bg != shown && shown == transparent() {
        transparent()
    } else {
        fg
    };
    (if bg == shown {
        no_text()
    } else if shown == transparent() {
        reset_text()
    } else {
        bg_color_text(cell.bg)
    }) + (if fg_in_force == cell.fg {
        no_text()
    } else {
        fg_color_text(cell.fg)
    })
}

/// What is written for a cell without a character while `fg` and `bg` are in
/// force: a reset if any color is in force, and a space.
pub open spec fn blank_text(fg: Color, bg: Color) -> Seq<char> {
    (if fg != transparent() || bg != transparent() {
        reset_text()
    } else {
        no_text()
    }) + seq![' ']
}

/// What is written to show `cell` at `(x, y)`: a cursor move unless the
/// cursor stands there already; then, for a cell without a character, a
/// reset if any color is in force and a space; for any other cell, its
/// colors as far as they differ from those in force, and its character.
pub open spec fn cell_text(pen: Pen, x: int, y: int, cell: Cell) -> Seq<char> {
    (if pen.x != x || pen.y != y {
        move_to_text(x as u32, y as u32)
    } else {
        no_text()
    }) + (if cell.symbol == '\0' {
        blank_text(pen.fg, pen.bg)
    } else {
        color_text(pen.fg, pen.bg, cell) + seq![cell.symbol]
    })
}

/// The pen after `cell` was shown at `(x, y)`: the cursor has moved on by one
/// column, and the colors of the cell are in force.
pub open spec fn pen_after(x: int, y: int, cell: Cell) -> Pen {
    if cell.symbol == '\0' {
        Pen { x: x + 1, y, fg: transparent(), bg: transparent() }
    } else {
        Pen { x: x + 1, y, fg: cell.fg, bg: shown_bg(cell) }
    }
}

/// The frame after the first `n` cells, row by row, of a grid of the given
/// width: a reset of all attributes, then each cell of `back` that differs
/// from the one in `front`.
pub open spec fn frame_prefix(front: Seq<Cell>, back: Seq<Cell>, width: int, n: int) -> Frame
    decreases n,
{
    if n <= 0 {
        Frame { text: reset_text(), pen: initial_pen() }
    } else {
        let before = frame_prefix(front, back, width, n - 1);
        let i = n - 1;
        if back[i] == front[i] {
            before
        } else {
            Frame {
                text: before.text + cell_text(before.pen, i % width, i / width, back[i]),
                pen: pen_after(i % width, i / width, back[i]),
            }
        }
    }
}

/// All that is written to turn the frame `front` into the frame `back`: the
/// changed cells, and at the end the cursor is sent home.
pub open spec fn frame_text(front: Seq<Cell>, back: Seq<Cell>, width: int) -> Seq<char> {
    frame_prefix(front, back, width, front.len() as int).text + move_to_text(0, 0)
}

/// What is written to take over a terminal: the alternate screen, no cursor,
/// mouse reports, and an erased screen with the cursor at home.
pub open spec fn attach_text() -> Seq<char> {
    csi_text("?1049h"@) + csi_text("?25l"@) + enable_mouse_text() + csi_text("?1003h"@)
        + clear_text() + move_to_text(0, 0)
}

/// What is written to give a terminal back: the main screen, the cursor, and
/// no mouse reports.
pub open spec fn detach_text() -> Seq<char> {
    csi_text("?1049l"@) + csi_text("?25h"@) + csi_text("?1003l"@) + disable_mouse_text()
}

/// The cells of a canvas without content.
pub open spec fn null_cells(n: nat) -> Seq<Cell> {
    Seq::new(n, |i: int| Cell::spec_null())
}

pub struct TerminalCanvas {
    term: Terminal,
    front_buffer: Canvas,
    back_buffer: Canvas,
}

impl TerminalCanvas {
    /// The back buffer: the frame that the caller draws.
    pub closed spec fn back(&self) -> Canvas {
        self.back_buffer
    }

    /// The front buffer: the frame that the terminal shows.
    pub closed spec fn front(&self) -> Canvas {
        self.front_buffer
    }

    pub closed spec fn term(&self) -> Terminal {
        self.term
    }

    pub open spec fn wf(&self) -> bool {
        self.term().wf() && self.front().wf() && self.back().wf()
    }

    /// The size of the grid of the terminal.
    pub open spec fn term_size(&self) -> (u32, u32) {
        self.term().geometry().term
    }

    /// Whether a buffer has the size of the grid of the terminal.
    pub open spec fn fits(&self, buffer: Canvas) -> bool {
        (buffer.spec_width(), buffer.spec_height()) == self.term_size()
    }

    /// The back buffer once it has the size of the terminal: as it is, or
    /// without content where it had another size.
    pub open spec fn synced_back(&self) -> Seq<Cell> {
        if self.fits(self.back()) {
            self.back()@
        } else {
            null_cells((self.term_size().0 * self.term_size().1) as nat)
        }
    }

    /// The front buffer once it has the size of the terminal: as it is, or
    /// without content where a buffer had another size.
    pub open spec fn synced_front(&self) -> Seq<Cell> {
        if self.fits(self.back()) && self.fits(self.front()) {
            self.front()@
        } else {
            null_cells((self.term_size().0 * self.term_size().1) as nat)
        }
    }

    /// A canvas for `term`, with both buffers of the size of its grid and
    /// without content.
    pub fn new(term: Terminal) -> (canvas: TerminalCanvas)
        requires
            term.wf(),
        ensures
            canvas.wf(),
            canvas.term() == term,
            canvas.fits(canvas.front()),
            canvas.fits(canvas.back()),
            canvas.front()@ == null_cells((canvas.term_size().0 * canvas.term_size().1) as nat),
            canvas.back()@ == canvas.front()@,
    {
        let w = term.width();
        let h = term.height();
        assert(w * h <= usize::MAX) by (nonlinear_arith)
            requires
                w <= 0xffff,
                h <= 0xffff,
                usize::MAX >= 0xffff_ffff,
        ;
        let front_buffer = Canvas::new(w, h);
        let back_buffer = Canvas::new(w, h);
        Self { term, front_buffer, back_buffer }
    }

    /// The frame that the caller draws.
    pub fn canvas(&self) -> (canvas: &Canvas)
        ensures
            *canvas == self.back(),
    {
        &self.back_buffer
    }

    /// The frame that the caller draws, for writing.
    pub fn canvas_mut(&mut self) -> (canvas: &mut Canvas)
        ensures
            *canvas == old(self).back(),
            final(self).back() == *final(canvas),
            final(self).front() == old(self).front(),
            final(self).term() == old(self).term(),
    {
        &mut self.back_buffer
    }

    pub fn terminal(&self) -> (term: &Terminal)
        ensures
            *term == self.term(),
    {
        &self.term
    }

    /// The terminal, for the host to hand in measurements and to take the
    /// output.
    pub fn terminal_mut(&mut self) -> (term: &mut Terminal)
        ensures
            *term == old(self).term(),
            final(self).term() == *final(term),
            final(self).front() == old(self).front(),
            final(self).back() == old(self).back(),
    {
        &mut self.term
    }

    /// The width of the grid of the terminal.
    pub fn width(&self) -> (w: u32)
        ensures
            w == self.term_size().0,
    {
        self.term.width()
    }

    /// The height of the grid of the terminal.
    pub fn height(&self) -> (h: u32)
        ensures
            h == self.term_size().1,
    {
        self.term.height()
    }

    /// Writes what takes over the terminal.
    pub fn attach(&mut self)
        ensures
            final(self).term().wrote(&old(self).term(), attach_text()),
            final(self).front() == old(self).front(),
            final(self).back() == old(self).back(),
    {
        let term = &mut self.term;
        let ghost before = term.output();
        term.alt_screen();
        term.hide_cursor();
        term.enable_mouse();
        term.enable_mouse_move();
        term.clear();
        term.move_to(0, 0);
        assert(term.output() =~= before + attach_text());
    }

    /// Writes what gives the terminal back.
    pub fn detach(&mut self)
        ensures
            final(self).term().wrote(&old(self).term(), detach_text()),
            final(self).front() == old(self).front(),
            final(self).back() == old(self).back(),
    {
        let term = &mut self.term;
        let ghost before = term.output();
        term.main_screen();
        term.show_cursor();
        term.disable_mouse_move();
        term.disable_mouse();
        assert(term.output() =~= before + detach_text());
    }

    /// Puts `cell` on the frame at `(x, y)`; nothing happens for a position
    /// outside the grid.
    pub fn set_cell(&mut self, x: i32, y: i32, cell: Cell)
        requires
            old(self).back().wf(),
        ensures
            final(self).back().wf(),
            final(self).back().same_size(&old(self).back()),
            final(self).back()@ == (if old(self).back().in_bounds(x as int, y as int) {
                old(self).back()@.update(old(self).back().spec_index(x as int, y as int), cell)
            } else {
                old(self).back()@
            }),
            final(self).front() == old(self).front(),
            final(self).term() == old(self).term(),
    {
        if let Some(dst) = self.back_buffer.cell_mut(x, y) {
            *dst = cell;
        }
    }

    /// Makes every cell of the frame null.
    pub fn clear(&mut self)
        requires
            old(self).back().wf(),
        ensures
            final(self).back().wf(),
            final(self).back().same_size(&old(self).back()),
            final(self).back()@ == null_cells(old(self).back()@.len()),
            final(self).front() == old(self).front(),
            final(self).term() == old(self).term(),
    {
        self.back_buffer.clear();
    }

    /// Gives both buffers the size of the grid of the terminal. A buffer of
    /// another size loses its content; and where the back buffer does, the
    /// front buffer does too.
    pub fn refresh_size(&mut self)
        requires
            old(self).wf(),
        ensures
            final(self).wf(),
            final(self).term() == old(self).term(),
            final(self).fits(final(self).front()),
            final(self).fits(final(self).back()),
            final(self).back()@ == old(self).synced_back(),
            final(self).front()@ == old(self).synced_front(),
    {
        let w = self.term.width();
        let h = self.term.height();
        assert(w * h <= usize::MAX) by (nonlinear_arith)
            requires
                w <= 0xffff,
                h <= 0xffff,
                usize::MAX >= 0xffff_ffff,
        ;
        if w != self.back_buffer.width() || h != self.back_buffer.height() {
            self.back_buffer.resize(w, h);
            self.front_buffer.resize(w, h);
        } else if w != self.front_buffer.width() || h != self.front_buffer.height() {
            self.front_buffer.resize(w, h);
        }
    }

    /// Writes the colors of `cell` as far as they differ from those in force.
    fn show_colors(term: &mut Terminal, cell: Cell, colors: (Color, Color))
        ensures
            final(term).wrote(old(term), color_text(colors.0, colors.1, cell)),
    {
        let (mut cursor_fg, cursor_bg) = colors;
        let bg = if cell.bg.a > 0 {
            cell.bg
        } else {
            Color::transparent()
        };
        if cursor_bg != bg {
            if bg == Color::transparent() {
                term.reset();
                cursor_fg = Color::transparent();
            } else {
                term.bg_color(cell.bg);
            }
        }
        if cursor_fg != cell.fg {
            term.fg_color(cell.fg);
        }
        assert(term.output() =~= old(term).output() + color_text(colors.0, colors.1, cell));
    }

    /// Writes a cell without a character: a space, after a reset if any color
    /// is in force.
    fn show_blank(term: &mut Terminal, colors: (Color, Color))
        ensures
            final(term).wrote(old(term), blank_text(colors.0, colors.1)),
    {
        if colors.0 != Color::transparent() || colors.1 != Color::transparent() {
            term.reset();
        }
        term.write_char(' ');
        assert(term.output() =~= old(term).output() + blank_text(colors.0, colors.1));
    }

    /// Shows `cell`, which has just changed, at `(x, y)`, and gives the pen
    /// after it: the cursor, then the colors in force.
    fn show_cell(
        term: &mut Terminal,
        x: u32,
        y: u32,
        cell: Cell,
        cursor: (i64, i64),
        colors: (Color, Color),
    ) -> (r: ((i64, i64), (Color, Color)))
        ensures
            final(term).wrote(
                old(term),
                cell_text(
                    Pen { x: cursor.0 as int, y: cursor.1 as int, fg: colors.0, bg: colors.1 },
                    x as int,
                    y as int,
                    cell,
                ),
            ),
            (Pen { x: r.0.0 as int, y: r.0.1 as int, fg: r.1.0, bg: r.1.1 }) == pen_after(
                x as int,
                y as int,
                cell,
            ),
    {
        let ghost pen = Pen { x: cursor.0 as int, y: cursor.1 as int, fg: colors.0, bg: colors.1 };
        if x as i64 != cursor.0 || y as i64 != cursor.1 {
            term.move_to(x, y);
        }
        let ghost moved = term.output();
        let after = if cell.symbol == '\0' {
            Self::show_blank(term, colors);
            (Color::transparent(), Color::transparent())
        } else {
            Self::show_colors(term, cell, colors);
            term.write_char(cell.symbol);
            assert(term.output() =~= moved + (color_text(colors.0, colors.1, cell) + seq![
                cell.symbol,
            ]));
            let bg = if cell.bg.a > 0 {
                cell.bg
            } else {
                Color::transparent()
            };
            (cell.fg, bg)
        };
        assert(term.output() =~= old(term).output() + cell_text(pen, x as int, y as int, cell));
        ((x as i64 + 1, y as i64), after)
    }

    /// Makes the terminal show the frame.
    ///
    /// The buffers are first given the size of the terminal. Then all
    /// attributes are reset, each cell that differs from what the terminal
    /// shows is written, and the cursor is sent home. Afterwards the front
    /// buffer equals the back buffer.
    pub fn present(&mut self)
        requires
            old(self).wf(),
        ensures
            final(self).wf(),
            final(self).fits(final(self).front()),
            final(self).fits(final(self).back()),
            final(self).back()@ == old(self).synced_back(),
            final(self).front()@ == final(self).back()@,
            final(self).term().wrote(
                &old(self).term(),
                frame_text(
                    old(self).synced_front(),
                    old(self).synced_back(),
                    old(self).term_size().0 as int,
                ),
            ),
    {
        self.refresh_size();
        let w = self.front_buffer.width();
        let h = self.front_buffer.height();
        let ghost front0 = self.front_buffer@;
        let ghost back0 = self.back_buffer@;
        let ghost out0 = self.term.output();
        let mut cursor: (i64, i64) = (-1, -1);
        let mut colors: (Color, Color) = (Color::transparent(), Color::transparent());
        self.term.reset();
        let mut y: u32 = 0;
        while y < h
            invariant
                self.wf(),
                self.term().geometry() == old(self).term().geometry(),
                self.fits(self.front()),
                self.fits(self.back()),
                w == self.front().spec_width(),
                h == self.front().spec_height(),
                w <= 0xffff,
                h <= 0xffff,
                y <= h,
                front0.len() == w * h,
                self.back()@ == back0,
                self.front()@.len() == front0.len(),
                forall|i: int| 0 <= i < y * w ==> #[trigger] self.front()@[i] == back0[i],
                forall|i: int| y * w <= i < front0.len() ==> #[trigger] self.front()@[i] == front0[i],
                self.term().output() == out0 + frame_prefix(front0, back0, w as int, y * w).text,
                (Pen { x: cursor.0 as int, y: cursor.1 as int, fg: colors.0, bg: colors.1 })
                    == frame_prefix(front0, back0, w as int, y * w).pen,
            decreases h - y,
        {
            let mut x: u32 = 0;
            proof {
                assert(y * w + w <= h * w && y * w >= 0) by (nonlinear_arith)
                    requires
                        0 <= y < h,
                        0 <= w,
                ;
            }
            while x < w
                invariant
                    self.wf(),
                    self.term().geometry() == old(self).term().geometry(),
                    self.fits(self.front()),
                    self.fits(self.back()),
                    w == self.front().spec_width(),
                    h == self.front().spec_height(),
                    w <= 0xffff,
                    h <= 0xffff,
                    y < h,
                    x <= w,
                    y * w + w <= h * w,
                    y * w >= 0,
                    front0.len() == w * h,
                    self.back()@ == back0,
                    self.front()@.len() == front0.len(),
                    forall|i: int| 0 <= i < y * w + x ==> #[trigger] self.front()@[i] == back0[i],
                    forall|i: int|
                        y * w + x <= i < front0.len() ==> #[trigger] self.front()@[i] == front0[i],
                    self.term().output() == out0 + frame_prefix(
                        front0,
                        back0,
                        w as int,
                        y * w + x,
                    ).text,
                    (Pen { x: cursor.0 as int, y: cursor.1 as int, fg: colors.0, bg: colors.1 })
                        == frame_prefix(front0, back0, w as int, y * w + x).pen,
                decreases w - x,
            {
                let ghost n = y * w + x;
                proof {
                    assert(w * h == h * w) by (nonlinear_arith);
                    vstd::arithmetic::div_mod::lemma_fundamental_div_mod_converse(
                        n,
                        w as int,
                        y as int,
                        x as int,
                    );
                }
                let back_cell = match self.back_buffer.cell(x as i32, y as i32) {
                    Some(c) => *c,
                    None => Cell::null(),
                };
                let front_cell = match self.front_buffer.cell(x as i32, y as i32) {
                    Some(c) => *c,
                    None => Cell::null(),
                };
                assert(back_cell == back0[n]);
                assert(front_cell == front0[n]);
                if back_cell != front_cell {
                    if let Some(dst) = self.front_buffer.cell_mut(x as i32, y as i32) {
                        *dst = back_cell;
                    }
                    let next = Self::show_cell(&mut self.term, x, y, back_cell, cursor, colors);
                    cursor = next.0;
                    colors = next.1;
                    assert(self.term.output() =~= out0 + frame_prefix(
                        front0,
                        back0,
                        w as int,
                        n + 1,
                    ).text);
                }
                x += 1;
            }
            y += 1;
            proof {
                assert((y - 1) * w + w == y * w) by (nonlinear_arith);
            }
        }
        proof {
            assert(y * w == w * h) by (nonlinear_arith)
                requires
                    y == h,
            ;
            assert(self.front()@ =~= self.back()@);
        }
        self.term.move_to(0, 0);
        assert(self.term.output() =~= out0 + frame_text(front0, back0, w as int)) by {
            assert(old(self).term().output() == out0);
        }
    }
}

/// A frame that the terminal shows already costs nothing beyond the reset at
/// its start and the cursor move at its end.
pub proof fn lemma_same_frame_writes_nothing(cells: Seq<Cell>, width: int)
    ensures
        frame_text(cells, cells, width) == reset_text() + move_to_text(0, 0),
{
    lemma_same_frame_prefix(cells, width, cells.len() as int);
}

/// Right after `present` a second `present` writes nothing beyond the reset
/// at its start and the cursor move at its end: both buffers have the size of
/// the terminal and hold the same cells.
pub proof fn lemma_present_again_writes_nothing(screen: TerminalCanvas)
    requires
        screen.fits(screen.front()),
        screen.fits(screen.back()),
        screen.front()@ == screen.back()@,
    ensures
        frame_text(screen.synced_front(), screen.synced_back(), screen.term_size().0 as int)
            == reset_text() + move_to_text(0, 0),
{
    lemma_same_frame_writes_nothing(screen.back()@, screen.term_size().0 as int);
}

proof fn lemma_same_frame_prefix(cells: Seq<Cell>, width: int, n: int)
    ensures
        frame_prefix(cells, cells, width, n) == (Frame { text: reset_text(), pen: initial_pen() }),
    decreases n,
{
    if n > 0 {
        lemma_same_frame_prefix(cells, width, n - 1);
    }
}

} // verus!
