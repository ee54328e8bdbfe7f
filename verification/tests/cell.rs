use termcanvas::cell::blend_symbol;
use termcanvas::cell::get_char;
use termcanvas::cell::get_edges;
use termcanvas::cell::BOTTOM;
use termcanvas::cell::LEFT;
use termcanvas::cell::RIGHT;
use termcanvas::cell::TOP;
use termcanvas::Cell;
use termcanvas::Color;

fn glyph(symbol: char, bg_alpha: u8) -> Cell {
    Cell { fg: Color::white(), bg: Color::rgba(0, 0, 0, bg_alpha), symbol }
}

#[test]
fn null_cell() {
    let null = Cell::null();
    assert_eq!(null.symbol, '\0');
    assert_eq!(null.fg, Color::transparent());
    assert_eq!(null.bg, Color::transparent());
    assert!(null.is_null());
    assert!(Cell::default().is_null());
    assert!(!glyph('x', 0).is_null());
    assert!(!Cell { fg: Color::transparent(), bg: Color::rgba(1, 0, 0, 0), symbol: '\0' }.is_null());
}

#[test]
fn edges_of_line_glyphs() {
    assert_eq!(get_edges(' '), 0);
    assert_eq!(get_edges('x'), 0);
    assert_eq!(get_edges('\u{2550}'), 0);
    assert_eq!(get_edges('╵'), TOP);
    assert_eq!(get_edges('╶'), RIGHT);
    assert_eq!(get_edges('╷'), BOTTOM);
    assert_eq!(get_edges('╴'), LEFT);
    assert_eq!(get_edges('─'), RIGHT | LEFT);
    assert_eq!(get_edges('│'), TOP | BOTTOM);
    assert_eq!(get_edges('┼'), TOP | RIGHT | BOTTOM | LEFT);
    assert_eq!(get_edges('┌'), RIGHT | BOTTOM);
    assert_eq!(get_edges('┘'), TOP | LEFT);
    assert_eq!(get_edges('┐'), BOTTOM | LEFT);
    assert_eq!(get_edges('└'), TOP | RIGHT);
    assert_eq!(get_edges('┴'), TOP | RIGHT | LEFT);
    assert_eq!(get_edges('┤'), TOP | BOTTOM | LEFT);
    assert_eq!(get_edges('┬'), RIGHT | BOTTOM | LEFT);
    assert_eq!(get_edges('├'), TOP | RIGHT | BOTTOM);
}

#[test]
fn glyph_of_each_mask() {
    let glyphs = ['╵', '╶', '└', '╷', '│', '┌', '├', '╴', '┘', '─', '┴', '┐', '┤', '┬', '┼'];
    for edges in 1u8..16 {
        let c = get_char(edges, 'x');
        assert_eq!(c, glyphs[(edges - 1) as usize]);
        assert_eq!(get_edges(c), edges);
    }
    assert_eq!(get_char(0, 'x'), 'x');
    assert_eq!(get_char(16, 'x'), 'x');
    assert_eq!(get_char(255, 'y'), 'y');
}

#[test]
fn symbols_merge_by_their_edges() {
    assert_eq!(blend_symbol('─', '│'), '┼');
    assert_eq!(blend_symbol('│', '─'), '┼');
    assert_eq!(blend_symbol('╵', '╶'), '└');
    assert_eq!(blend_symbol('┌', '┘'), '┼');
    assert_eq!(blend_symbol('─', '─'), '─');
    assert_eq!(blend_symbol('─', 'x'), '─');
    assert_eq!(blend_symbol('x', '─'), 'x');
    assert_eq!(blend_symbol(' ', '─'), '─');
    assert_eq!(blend_symbol(' ', '\0'), '\0');
    assert_eq!(blend_symbol('\0', 'x'), 'x');
    assert_eq!(blend_symbol('\0', '\0'), '\0');
}

#[test]
fn translucent_lines_join_into_a_cross() {
    let front = glyph('─', 100);
    let back = glyph('│', 255);
    assert_eq!(front.blend(&back).symbol, '┼');
}

#[test]
fn opaque_front_keeps_its_line() {
    let front = glyph('─', 250);
    let back = glyph('│', 255);
    assert_eq!(front.blend(&back).symbol, '─');
    assert_eq!(glyph('─', 249).blend(&back).symbol, '┼');
}

#[test]
fn front_symbol_stays_over_null() {
    assert_eq!(glyph('x', 255).blend(&Cell::null()).symbol, 'x');
    assert_eq!(glyph('x', 0).blend(&Cell::null()).symbol, 'x');
    assert_eq!(glyph('─', 0).blend(&Cell::null()).symbol, '─');
    assert_eq!(glyph(' ', 255).blend(&Cell::null()).symbol, ' ');
}

#[test]
fn translucent_space_over_null_shows_nothing() {
    assert_eq!(glyph(' ', 0).blend(&Cell::null()).symbol, '\0');
}

#[test]
fn blank_front_shows_the_back_symbol() {
    let back = Cell { fg: Color::rgb(200, 100, 0), bg: Color::blue(), symbol: 'b' };
    for symbol in [' ', '\0'] {
        let front = Cell { fg: Color::red(), bg: Color::rgba(0, 0, 0, 128), symbol };
        let out = front.blend(&back);
        assert_eq!(out.symbol, 'b');
        assert_eq!(out.fg, front.bg.blend(&back.fg));
        assert_eq!(out.bg, front.bg.blend(&back.bg));
    }
}

#[test]
fn front_colors_are_laid_over_the_blended_background() {
    let front = Cell { fg: Color::rgba(255, 255, 255, 128), bg: Color::rgba(0, 0, 0, 128), symbol: 'f' };
    let back = Cell { fg: Color::red(), bg: Color::white(), symbol: 'b' };
    let out = front.blend(&back);
    let bg = front.bg.blend(&back.bg);
    assert_eq!(bg, Color::rgba(127, 127, 127, 255));
    assert_eq!(out.bg, bg);
    assert_eq!(out.fg, front.fg.blend(&bg));
    assert_eq!(out.symbol, 'f');
}

#[test]
fn null_over_a_cell_changes_nothing() {
    let back = Cell { fg: Color::red(), bg: Color::rgba(1, 2, 3, 200), symbol: 'b' };
    assert_eq!(Cell::null().blend(&back), back);
}
