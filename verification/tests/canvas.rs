use termcanvas::Canvas;
use termcanvas::Cell;
use termcanvas::Color;
use termcanvas::Rect;

fn solid(symbol: char) -> Cell {
    Cell { fg: Color::white(), bg: Color::black(), symbol }
}

fn veil() -> Cell {
    Cell { fg: Color::transparent(), bg: Color::rgba(0, 0, 0, 128), symbol: ' ' }
}

fn symbols(canvas: &Canvas) -> Vec<String> {
    let mut rows = Vec::new();
    for y in 0..canvas.height() {
        let mut row = String::new();
        for x in 0..canvas.width() {
            let c = canvas.cell(x as i32, y as i32).unwrap().symbol;
            row.push(if c == '\0' { '.' } else { c });
        }
        rows.push(row);
    }
    rows
}

#[test]
fn new_canvas_is_null() {
    let canvas = Canvas::new(4, 3);
    assert_eq!(canvas.width(), 4);
    assert_eq!(canvas.height(), 3);
    assert_eq!(canvas.size(), (4, 3));
    for y in 0..3 {
        for x in 0..4 {
            assert!(canvas.cell(x, y).unwrap().is_null());
        }
    }
    let empty = Canvas::default();
    assert_eq!(empty.size(), (0, 0));
    assert_eq!(empty.index(0, 0), None);
    assert_eq!(Canvas::new(0, 5).index(0, 0), None);
}

#[test]
fn index_is_row_major_and_bounded() {
    let canvas = Canvas::new(4, 3);
    assert_eq!(canvas.index(0, 0), Some(0));
    assert_eq!(canvas.index(3, 0), Some(3));
    assert_eq!(canvas.index(0, 1), Some(4));
    assert_eq!(canvas.index(2, 1), Some(6));
    assert_eq!(canvas.index(3, 2), Some(11));
    for y in 0..3 {
        for x in 0..4 {
            assert_eq!(canvas.index(x, y), Some((x + y * 4) as usize));
        }
    }
    assert_eq!(canvas.index(-1, 0), None);
    assert_eq!(canvas.index(0, -1), None);
    assert_eq!(canvas.index(4, 0), None);
    assert_eq!(canvas.index(0, 3), None);
    assert_eq!(canvas.index(i32::MIN, i32::MIN), None);
    assert_eq!(canvas.index(i32::MAX, i32::MAX), None);
    assert_eq!(canvas.index(-1, 1), None);
}

#[test]
fn cell_access() {
    let mut canvas = Canvas::new(3, 2);
    assert!(canvas.cell(3, 0).is_none());
    assert!(canvas.cell(0, 2).is_none());
    assert!(canvas.cell(-1, 0).is_none());
    assert!(canvas.cell_mut(3, 0).is_none());
    assert!(canvas.cell_mut(0, -1).is_none());
    *canvas.cell_mut(2, 1).unwrap() = solid('x');
    assert_eq!(canvas.cell(2, 1), Some(&solid('x')));
    assert_eq!(symbols(&canvas), ["...", "..x"]);
}

#[test]
fn fill_clear_resize() {
    let mut canvas = Canvas::new(3, 2);
    canvas.fill(solid('a'));
    assert_eq!(symbols(&canvas), ["aaa", "aaa"]);
    assert_eq!(canvas.cell(1, 1), Some(&solid('a')));
    canvas.fill(veil());
    assert_eq!(canvas.cell(1, 1), Some(&veil()));
    canvas.fill(solid('a'));
    canvas.clear();
    assert_eq!(symbols(&canvas), ["...", "..."]);
    assert!(canvas.cell(0, 0).unwrap().is_null());
    canvas.fill(solid('a'));
    canvas.resize(2, 3);
    assert_eq!(canvas.size(), (2, 3));
    assert_eq!(symbols(&canvas), ["..", "..", ".."]);
    let copy = canvas.clone();
    assert_eq!(copy.size(), (2, 3));
    canvas.resize(0, 0);
    assert_eq!(canvas.size(), (0, 0));
    assert_eq!(canvas.index(0, 0), None);
    assert_eq!(copy.index(1, 2), Some(5));
}

#[test]
fn clone_keeps_the_cells() {
    let mut canvas = Canvas::new(2, 2);
    *canvas.cell_mut(1, 0).unwrap() = solid('q');
    let copy = canvas.clone();
    canvas.clear();
    assert_eq!(symbols(&copy), [".q", ".."]);
    assert_eq!(symbols(&canvas), ["..", ".."]);
}

#[test]
fn fill_rect_is_clipped() {
    let mut canvas = Canvas::new(4, 3);
    canvas.fill_rect(solid('r'), &Rect::new(1, 1, 2, 1));
    assert_eq!(symbols(&canvas), ["....", ".rr.", "...."]);
    canvas.fill_rect(solid('s'), &Rect::new(-2, -2, 3, 3));
    assert_eq!(symbols(&canvas), ["s...", ".rr.", "...."]);
    canvas.fill_rect(solid('t'), &Rect::new(3, 2, 100, 100));
    assert_eq!(symbols(&canvas), ["s...", ".rr.", "...t"]);
    canvas.fill_rect(solid('u'), &Rect::new(0, 0, 0, 5));
    canvas.fill_rect(solid('u'), &Rect::new(0, 0, 5, -1));
    canvas.fill_rect(solid('u'), &Rect::new(4, 0, 5, 5));
    canvas.fill_rect(solid('u'), &Rect::new(i32::MAX, i32::MAX, i32::MAX, i32::MAX));
    canvas.fill_rect(solid('u'), &Rect::new(i32::MIN, i32::MIN, i32::MAX, i32::MAX));
    assert_eq!(symbols(&canvas), ["s...", ".rr.", "...t"]);
}

#[test]
fn fill_rect_lays_the_cell_over_what_was_there() {
    let mut canvas = Canvas::new(2, 1);
    canvas.fill(solid('a'));
    canvas.fill_rect(veil(), &Rect::new(0, 0, 1, 1));
    assert_eq!(canvas.cell(0, 0), Some(&veil().blend(&solid('a'))));
    assert_eq!(canvas.cell(0, 0).unwrap().symbol, 'a');
    assert_eq!(canvas.cell(0, 0).unwrap().fg, Color::rgb(127, 127, 127));
    assert_eq!(canvas.cell(1, 0), Some(&solid('a')));
}

#[test]
fn draw_text_puts_one_char_in_each_cell() {
    let mut canvas = Canvas::new(5, 2);
    canvas.draw_text(1, 0, Color::white(), Color::black(), "hey");
    assert_eq!(symbols(&canvas), [".hey.", "....."]);
    assert_eq!(canvas.cell(2, 0), Some(&solid('e')));
    canvas.draw_text(3, 1, Color::white(), Color::black(), "wide");
    assert_eq!(symbols(&canvas), [".hey.", "...wi"]);
    canvas.draw_text(-2, 1, Color::white(), Color::black(), "abcd");
    assert_eq!(symbols(&canvas), [".hey.", "cd.wi"]);
    canvas.draw_text(0, 2, Color::white(), Color::black(), "out");
    canvas.draw_text(0, -1, Color::white(), Color::black(), "out");
    canvas.draw_text(5, 0, Color::white(), Color::black(), "out");
    canvas.draw_text(i32::MAX, 0, Color::white(), Color::black(), "out");
    canvas.draw_text(i32::MIN, 0, Color::white(), Color::black(), "out");
    canvas.draw_text(0, 0, Color::white(), Color::black(), "");
    assert_eq!(symbols(&canvas), [".hey.", "cd.wi"]);
    canvas.draw_text(0, 0, Color::white(), Color::black(), "\u{4e2d}\u{e9}");
    assert_eq!(symbols(&canvas), ["\u{4e2d}\u{e9}ey.", "cd.wi"]);
}

#[test]
fn draw_text_blends_over_the_cells() {
    let mut canvas = Canvas::new(2, 1);
    canvas.fill(solid('a'));
    canvas.draw_text(0, 0, Color::red(), Color::rgba(0, 0, 0, 128), " x");
    let space = Cell { fg: Color::red(), bg: Color::rgba(0, 0, 0, 128), symbol: ' ' };
    let ex = Cell { fg: Color::red(), bg: Color::rgba(0, 0, 0, 128), symbol: 'x' };
    assert_eq!(canvas.cell(0, 0), Some(&space.blend(&solid('a'))));
    assert_eq!(canvas.cell(1, 0), Some(&ex.blend(&solid('a'))));
    assert_eq!(canvas.cell(0, 0).unwrap().symbol, 'a');
    assert_eq!(canvas.cell(1, 0).unwrap().symbol, 'x');
}

#[test]
fn draw_canvas_composites_with_clipping() {
    let mut src = Canvas::new(2, 2);
    src.fill(solid('s'));
    *src.cell_mut(1, 1).unwrap() = solid('t');
    let mut dst = Canvas::new(4, 3);
    dst.draw_canvas(1, 1, &src);
    assert_eq!(symbols(&dst), ["....", ".ss.", ".st."]);
    let mut dst = Canvas::new(4, 3);
    dst.draw_canvas(3, 2, &src);
    assert_eq!(symbols(&dst), ["....", "....", "...s"]);
    let mut dst = Canvas::new(4, 3);
    dst.draw_canvas(-1, -1, &src);
    assert_eq!(symbols(&dst), ["t...", "....", "...."]);
    let mut dst = Canvas::new(4, 3);
    dst.draw_canvas(4, 0, &src);
    dst.draw_canvas(0, 3, &src);
    dst.draw_canvas(-2, 0, &src);
    dst.draw_canvas(i32::MAX, i32::MAX, &src);
    dst.draw_canvas(i32::MIN, i32::MIN, &src);
    dst.draw_canvas(0, 0, &Canvas::new(0, 0));
    assert_eq!(symbols(&dst), ["....", "....", "...."]);
    let mut small = Canvas::new(1, 1);
    let mut big = Canvas::new(3, 3);
    big.fill(solid('b'));
    *big.cell_mut(1, 1).unwrap() = solid('c');
    small.draw_canvas(-1, -1, &big);
    assert_eq!(symbols(&small), ["c"]);
}

#[test]
fn draw_canvas_blends_source_over_destination() {
    let mut src = Canvas::new(1, 1);
    src.fill(veil());
    let mut dst = Canvas::new(2, 1);
    dst.fill(solid('d'));
    dst.draw_canvas(1, 0, &src);
    assert_eq!(dst.cell(0, 0), Some(&solid('d')));
    assert_eq!(dst.cell(1, 0), Some(&veil().blend(&solid('d'))));
    let mut dst = Canvas::new(2, 1);
    dst.fill(solid('d'));
    dst.draw_canvas(0, 0, &Canvas::new(2, 1));
    assert_eq!(dst.cell(0, 0), Some(&Cell::null().blend(&solid('d'))));
    assert_eq!(symbols(&dst), ["dd"]);
}

#[test]
fn region_reports_its_own_size() {
    let mut canvas = Canvas::new(4, 3);
    {
        let whole = canvas.as_region_mut();
        assert_eq!(whole.size(), (4, 3));
        assert_eq!(whole.rect, Rect::new(0, 0, 4, 3));
    }
    let mut region = canvas.region_mut(Rect::new(2, 1, 10, 20));
    assert_eq!(region.width(), 10);
    assert_eq!(region.height(), 20);
    assert_eq!(region.size(), (10, 20));
    let nested = region.region_mut(Rect::new(-1, 5, 3, 4));
    assert_eq!(nested.rect, Rect::new(1, 6, 3, 4));
    assert_eq!(nested.size(), (3, 4));
}

#[test]
fn region_fill_is_offset_and_clipped() {
    let mut canvas = Canvas::new(4, 3);
    canvas.region_mut(Rect::new(1, 1, 2, 1)).fill(solid('f'));
    assert_eq!(symbols(&canvas), ["....", ".ff.", "...."]);
    canvas.region_mut(Rect::new(3, 2, 5, 5)).fill(solid('g'));
    assert_eq!(symbols(&canvas), ["....", ".ff.", "...g"]);
    canvas.region_mut(Rect::new(-1, -1, 2, 2)).fill(solid('h'));
    assert_eq!(symbols(&canvas), ["h...", ".ff.", "...g"]);
    canvas.region_mut(Rect::new(1, 0, 3, 2)).clear();
    assert_eq!(symbols(&canvas), ["h...", "....", "...g"]);
    assert!(canvas.cell(1, 1).unwrap().is_null());
    canvas.as_region_mut().fill(solid('w'));
    assert_eq!(symbols(&canvas), ["wwww", "wwww", "wwww"]);
    canvas.as_region_mut().clear();
    assert_eq!(symbols(&canvas), ["....", "....", "...."]);
}

#[test]
fn region_fill_overwrites() {
    let mut canvas = Canvas::new(2, 1);
    canvas.fill(solid('a'));
    canvas.region_mut(Rect::new(0, 0, 1, 1)).fill(veil());
    assert_eq!(canvas.cell(0, 0), Some(&veil()));
    assert_eq!(canvas.cell(1, 0), Some(&solid('a')));
}

#[test]
fn region_fill_rect_is_relative_to_the_region() {
    let mut canvas = Canvas::new(5, 4);
    let mut region = canvas.region_mut(Rect::new(1, 1, 2, 2));
    region.fill_rect(solid('r'), &Rect::new(1, 0, 1, 2));
    region.fill_rect(solid('s'), &Rect::new(3, 2, 9, 9));
    region.fill_rect(solid('t'), &Rect::new(-1, -1, 1, 1));
    assert_eq!(symbols(&canvas), ["t....", "..r..", "..r..", "....s"]);
    canvas.fill(solid('a'));
    canvas.region_mut(Rect::new(1, 1, 2, 2)).fill_rect(veil(), &Rect::new(0, 0, 1, 1));
    assert_eq!(canvas.cell(1, 1), Some(&veil().blend(&solid('a'))));
    assert_eq!(canvas.cell(2, 1), Some(&solid('a')));
}

#[test]
fn nested_regions_add_their_offsets() {
    let mut canvas = Canvas::new(6, 5);
    let mut outer = canvas.region_mut(Rect::new(1, 1, 4, 3));
    let mut inner = outer.region_mut(Rect::new(2, 1, 1, 1));
    inner.fill(solid('i'));
    let mut innermost = inner.region_mut(Rect::new(1, 1, 2, 1));
    innermost.fill(solid('j'));
    innermost.fill_rect(solid('k'), &Rect::new(-4, -3, 1, 1));
    assert_eq!(symbols(&canvas), ["k.....", "......", "...i..", "....jj", "......"]);
}
