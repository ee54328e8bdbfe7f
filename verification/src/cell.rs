//! Grid cells and the rules for laying one cell over another.
//!
//! A cell holds a foreground color, a background color and one character.
//! Line-drawing characters that meet in one cell are joined: each is described
//! by the set of cell edges it touches, and two of them merge into the
//! character that touches the union of their edges.

use crate::color::lemma_blend_opaque;
use crate::color::lemma_blend_transparent;
use crate::color::Color;
use vstd::prelude::*;

verus! {

/// The edge mask bit of a character that touches the top of its cell.
pub const TOP: u8 = 1;

/// The edge mask bit of a character that touches the right of its cell.
pub const RIGHT: u8 = 2;

/// The edge mask bit of a character that touches the bottom of its cell.
pub const BOTTOM: u8 = 4;

/// The edge mask bit of a character that touches the left of its cell.
pub const LEFT: u8 = 8;

/// The edges that a line-drawing character touches, as a mask; 0 for every
/// other character.
pub open spec fn edges_of(c: char) -> u8 {
    if c == '\u{2575}' {
        1
    } else if c == '\u{2576}' {
        2
    } else if c == '\u{2514}' {
        3
    } else if c == '\u{2577}' {
        4
    } else if c == '\u{2502}' {
        5
    } else if c == '\u{250c}' {
        6
    } else if c == '\u{251c}' {
        7
    } else if c == '\u{2574}' {
        8
    } else if c == '\u{2518}' {
        9
    } else if c == '\u{2500}' {
        10
    } else if c == '\u{2534}' {
        11
    } else if c == '\u{2510}' {
        12
    } else if c == '\u{2524}' {
        13
    } else if c == '\u{252c}' {
        14
    } else if c == '\u{253c}' {
        15
    } else {
        0
    }
}

/// The line-drawing character that touches exactly the edges of a mask from 1
/// to 15; `default` for any other mask.
pub open spec fn glyph_of(edges: u8, default: char) -> char {
    if edges == 1 {
        '\u{2575}'
    } else if edges == 2 {
        '\u{2576}'
    } else if edges == 3 {
        '\u{2514}'
    } else if edges == 4 {
        '\u{2577}'
    } else if edges == 5 {
        '\u{2502}'
    } else if edges == 6 {
        '\u{250c}'
    } else if edges == 7 {
        '\u{251c}'
    } else if edges == 8 {
        '\u{2574}'
    } else if edges == 9 {
        '\u{2518}'
    } else if edges == 10 {
        '\u{2500}'
    } else if edges == 11 {
        '\u{2534}'
    } else if edges == 12 {
        '\u{2510}'
    } else if edges == 13 {
        '\u{2524}'
    } else if edges == 14 {
        '\u{252c}'
    } else if edges == 15 {
        '\u{253c}'
    } else {
        default
    }
}

/// The character shown where `front` is drawn translucently over `back`.
pub open spec fn merged_symbol(front: char, back: char) -> char {
    if front == ' ' || (front == '\0' && back != '\0') {
        back
    } else if edges_of(front) == 0 || edges_of(back) == 0 {
        front
    } else {
        glyph_of(edges_of(front) | edges_of(back), front)
    }
}

/// The edge mask of a character.
pub fn get_edges(c: char) -> (edges: u8)
    ensures
        edges == edges_of(c),
        edges <= 15,
{
    let n: u32 = c as u32;
    if n < 0x2500 {
        return 0;
    }
    if n == 0x2575 {
        TOP
    } else if n == 0x2576 {
        RIGHT
    } else if n == 0x2514 {
        TOP + RIGHT
    } else if n == 0x2577 {
        BOTTOM
    } else if n == 0x2502 {
        TOP + BOTTOM
    } else if n == 0x250c {
        RIGHT + BOTTOM
    } else if n == 0x251c {
        TOP + RIGHT + BOTTOM
    } else if n == 0x2574 {
        LEFT
    } else if n == 0x2518 {
        TOP + LEFT
    } else if n == 0x2500 {
        RIGHT + LEFT
    } else if n == 0x2534 {
        TOP + RIGHT + LEFT
    } else if n == 0x2510 {
        BOTTOM + LEFT
    } else if n == 0x2524 {
        TOP + BOTTOM + LEFT
    } else if n == 0x252c {
        RIGHT + BOTTOM + LEFT
    } else if n == 0x253c {
        TOP + RIGHT + BOTTOM + LEFT
    } else {
        0
    }
}

/// The character for an edge mask, or `default` where the mask is empty or
/// names no character.
pub fn get_char(edges: u8, default: char) -> (c: char)
    ensures
        c == glyph_of(edges, default),
{
    match edges {
        1 => '\u{2575}',
        2 => '\u{2576}',
        3 => '\u{2514}',
        4 => '\u{2577}',
        5 => '\u{2502}',
        6 => '\u{250c}',
        7 => '\u{251c}',
        8 => '\u{2574}',
        9 => '\u{2518}',
        10 => '\u{2500}',
        11 => '\u{2534}',
        12 => '\u{2510}',
        13 => '\u{2524}',
        14 => '\u{252c}',
        15 => '\u{253c}',
        _ => default,
    }
}

/// Merges the character of a translucent cell with the one beneath it.
pub fn blend_symbol(front: char, back: char) -> (c: char)
    ensures
        c == merged_symbol(front, back),
{
    if front == ' ' || (front == '\0' && back != '\0') {
        return back;
    }
    let c0 = get_edges(front);
    if c0 == 0 {
        return front;
    }
    let c1 = get_edges(back);
    if c1 == 0 {
        return front;
    }
    get_char(c0 | c1, front)
}

#[derive(Debug, Clone, Copy, PartialEq, Eq, Structural)]
pub struct Cell {
    pub bg: Color,
    pub fg: Color,
    pub symbol: char,
}

impl Cell {
    /// The cell that shows nothing: transparent colors and the zero character.
    pub open spec fn spec_null() -> Cell {
        Cell {
            fg: Color { r: 0, g: 0, b: 0, a: 0 },
            bg: Color { r: 0, g: 0, b: 0, a: 0 },
            symbol: '\0',
        }
    }

    /// A cell shows no character of its own when its symbol is a space or the
    /// zero character.
    pub open spec fn is_blank(self) -> bool {
        self.symbol == ' ' || self.symbol == '\0'
    }

    /// This cell laid over `back`.
    pub open spec fn spec_blend(self, back: Cell) -> Cell {
        let bg = self.bg.spec_blend(back.bg);
        if self.is_blank() && back.symbol != '\0' {
            Cell { bg, fg: self.bg.spec_blend(back.fg), symbol: back.symbol }
        } else if self.bg.a < 250 {
            Cell {
                bg,
                fg: self.fg.spec_blend(bg),
                symbol: merged_symbol(self.symbol, back.symbol),
            }
        } else {
            Cell { bg, fg: self.fg.spec_blend(bg), symbol: self.symbol }
        }
    }

    pub fn null() -> (c: Cell)
        ensures
            c == Self::spec_null(),
    {
        Self {
            fg: Color { r: 0, g: 0, b: 0, a: 0 },
            bg: Color { r: 0, g: 0, b: 0, a: 0 },
            symbol: '\0',
        }
    }

    pub fn is_null(&self) -> (b: bool)
        ensures
            b == (*self == Self::spec_null()),
    {
        Cell::null() == *self
    }

    /// Lays this cell over `cell`.
    ///
    /// The backgrounds are composited. A blank cell lets the character
    /// beneath show through, tinted by this cell's background. Otherwise this
    /// cell's character wins, except that under a translucent background
    /// (alpha below 250) line-drawing characters are merged.
    pub fn blend(&self, cell: &Cell) -> (c: Cell)
        ensures
            c == self.spec_blend(*cell),
    {
        let bg = self.bg.blend(&cell.bg);
        if (self.symbol == ' ' || self.symbol == '\0') && cell.symbol != '\0' {
            Cell { fg: self.bg.blend(&cell.fg), bg, symbol: cell.symbol }
        } else if self.bg.a < 250 {
            Cell { fg: self.fg.blend(&bg), bg, symbol: blend_symbol(self.symbol, cell.symbol) }
        } else {
            Cell { fg: self.fg.blend(&bg), bg, symbol: self.symbol }
        }
    }
}

impl Default for Cell {
    fn default() -> (c: Cell)
        ensures
            c == Cell::spec_null(),
    {
        Cell::null()
    }
}

/// Every mask from 1 to 15 names a character, and that character touches
/// exactly the edges of the mask.
pub proof fn lemma_glyph_edges(edges: u8, default: char)
    requires
        1 <= edges <= 15,
    ensures
        edges_of(glyph_of(edges, default)) == edges,
{
}

/// Two line-drawing characters merge into the character that touches the
/// edges of both.
pub proof fn lemma_merge_joins_edges(front: char, back: char)
    requires
        edges_of(front) != 0,
        edges_of(back) != 0,
    ensures
        edges_of(merged_symbol(front, back)) == edges_of(front) | edges_of(back),
{
    let f = edges_of(front);
    let b = edges_of(back);
    assert(1 <= (f | b) <= 15) by (bit_vector)
        requires
            1 <= f <= 15,
            1 <= b <= 15,
    ;
    lemma_glyph_edges(f | b, front);
}

/// A cell with a character of its own keeps that character over the null
/// cell. (A space under a translucent background is no character of its own:
/// there the zero character beneath shows through.)
pub proof fn lemma_blend_over_null_keeps_symbol(front: Cell)
    requires
        front.symbol != '\0',
        front.symbol != ' ' || front.bg.a >= 250,
    ensures
        front.spec_blend(Cell::spec_null()).symbol == front.symbol,
{
}

/// A blank cell shows the character beneath it, in that character's
/// foreground seen through the blank cell's background.
pub proof fn lemma_blend_blank_shows_back(front: Cell, back: Cell)
    requires
        front.is_blank(),
        back.symbol != '\0',
    ensures
        front.spec_blend(back).symbol == back.symbol,
        front.spec_blend(back).fg == front.bg.spec_blend(back.fg),
{
}

/// A cell with opaque colors and a character of its own hides the cell
/// beneath it.
pub proof fn lemma_opaque_cell_hides_back(front: Cell, back: Cell)
    requires
        front.fg.a == 255,
        front.bg.a == 255,
        !front.is_blank(),
    ensures
        front.spec_blend(back) == front,
{
    lemma_blend_opaque(front.bg, back.bg);
    lemma_blend_opaque(front.fg, front.bg.spec_blend(back.bg));
}

/// The null cell shows the cell beneath it unchanged, provided that cell has
/// a character and each of its colors carries some alpha or is transparent
/// black.
pub proof fn lemma_null_cell_shows_back(back: Cell)
    requires
        back.symbol != '\0',
        back.fg.a == 0 ==> back.fg == Color::spec_rgba(0, 0, 0, 0),
        back.bg.a == 0 ==> back.bg == Color::spec_rgba(0, 0, 0, 0),
    ensures
        Cell::spec_null().spec_blend(back) == back,
{
    lemma_blend_transparent(Color::spec_rgba(0, 0, 0, 0), back.bg);
    lemma_blend_transparent(Color::spec_rgba(0, 0, 0, 0), back.fg);
}

} // verus!
