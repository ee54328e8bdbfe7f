use termcanvas::Canvas;
use termcanvas::Cell;
use termcanvas::Color;

fn mark() -> Cell {
    Cell { fg: Color::white(), bg: Color::black(), symbol: '#' }
}

fn picture(canvas: &Canvas) -> Vec<String> {
    let mut rows = Vec::new();
    for y in 0..canvas.height() {
        let mut row = String::new();
        for x in 0..canvas.width() {
            let c = canvas.cell(x as i32, y as i32).unwrap().symbol;
            row.push(if c == '\0' { '.' } else { c });
        }
        rows.push(row);
    }
    rows
}

fn drawn(w: u32, h: u32, x0: i32, y0: i32, x1: i32, y1: i32) -> Vec<String> {
    let mut canvas = Canvas::new(w, h);
    canvas.draw_line(x0, y0, x1, y1, mark());
    picture(&canvas)
}

fn on_line(x0: i64, y0: i64, x1: i64, y1: i64, px: i64, py: i64) -> bool {
    let xd = (x1 - x0).abs();
    let yd = (y1 - y0).abs();
    let toward = |a: i64, b: i64, k: i64| if a < b { a + k } else { a - k };
    let steps = |a: i64, b: i64, p: i64| if a < b { p - a } else { a - p };
    let minor = |i: i64, major: i64, minor: i64| (2 * i * minor + major - 1).div_euclid(2 * major);
    if xd == 0 && yd == 0 {
        px == x0 && py == y0
    } else if xd >= yd {
        let i = steps(x0, x1, px);
        0 <= i && i <= xd && py == toward(y0, y1, minor(i, xd, yd))
    } else {
        let i = steps(y0, y1, py);
        0 <= i && i <= yd && px == toward(x0, x1, minor(i, yd, xd))
    }
}

#[test]
fn horizontal_line_sets_exactly_its_cells() {
    let mut canvas = Canvas::new(6, 3);
    canvas.draw_line(0, 0, 3, 0, mark());
    for y in 0..3 {
        for x in 0..6 {
            let expected = if y == 0 && x <= 3 { mark() } else { Cell::null() };
            assert_eq!(canvas.cell(x, y), Some(&expected));
        }
    }
    assert_eq!(picture(&canvas), ["####..", "......", "......"]);
}

#[test]
fn lines_include_both_ends() {
    assert_eq!(drawn(3, 1, 1, 0, 1, 0), [".#."]);
    assert_eq!(drawn(4, 1, 3, 0, 1, 0), [".###"]);
    assert_eq!(drawn(2, 4, 1, 0, 1, 3), [".#", ".#", ".#", ".#"]);
    assert_eq!(drawn(2, 4, 0, 3, 0, 1), ["..", "#.", "#.", "#."]);
    assert_eq!(drawn(3, 3, 0, 0, 2, 2), ["#..", ".#.", "..#"]);
    assert_eq!(drawn(3, 3, 2, 0, 0, 2), ["..#", ".#.", "#.."]);
}

#[test]
fn shallow_and_steep_lines() {
    assert_eq!(drawn(4, 2, 0, 0, 3, 1), ["##..", "..##"]);
    assert_eq!(drawn(4, 2, 3, 1, 0, 0), ["##..", "..##"]);
    assert_eq!(drawn(3, 2, 0, 0, 2, 1), ["##.", "..#"]);
    assert_eq!(drawn(3, 2, 2, 1, 0, 0), ["#..", ".##"]);
    assert_eq!(drawn(2, 4, 0, 0, 1, 3), ["#.", "#.", ".#", ".#"]);
    assert_eq!(drawn(2, 3, 0, 0, 1, 2), ["#.", "#.", ".#"]);
    assert_eq!(drawn(6, 3, 0, 0, 5, 2), ["##....", "..##..", "....##"]);
    assert_eq!(drawn(8, 3, 0, 2, 7, 0), ["......##", "..####..", "##......"]);
}

#[test]
fn lines_are_clipped() {
    assert_eq!(drawn(3, 3, -2, 1, 5, 1), ["...", "###", "..."]);
    assert_eq!(drawn(3, 3, -1, -1, 3, 3), ["#..", ".#.", "..#"]);
    assert_eq!(drawn(3, 3, 1, -5, 1, 0), [".#.", "...", "..."]);
    assert_eq!(drawn(3, 3, 5, 0, 9, 2), ["...", "...", "..."]);
    assert_eq!(drawn(3, 3, -4, -4, -1, -1), ["...", "...", "..."]);
    assert_eq!(drawn(0, 0, 0, 0, 3, 3), Vec::<String>::new());
}

#[test]
fn each_cell_of_a_line_is_blended_once() {
    let veil = Cell { fg: Color::transparent(), bg: Color::rgba(0, 0, 0, 128), symbol: ' ' };
    let under = Cell { fg: Color::white(), bg: Color::white(), symbol: 'u' };
    let mut canvas = Canvas::new(4, 3);
    canvas.fill(under);
    canvas.draw_line(0, 0, 3, 2, veil);
    for y in 0..3 {
        for x in 0..4 {
            let expected = if on_line(0, 0, 3, 2, x, y) { veil.blend(&under) } else { under };
            assert_eq!(canvas.cell(x as i32, y as i32), Some(&expected));
        }
    }
}

#[test]
fn lines_cover_the_stated_cells() {
    let ends = [-3i32, -1, 0, 1, 2, 4, 6, 9];
    for &x0 in &ends {
        for &y0 in &ends {
            for &x1 in &ends {
                for &y1 in &ends {
                    let mut canvas = Canvas::new(7, 7);
                    canvas.draw_line(x0, y0, x1, y1, mark());
                    for y in 0..7 {
                        for x in 0..7 {
                            let hit = on_line(x0 as i64, y0 as i64, x1 as i64, y1 as i64, x, y);
                            let expected = if hit { mark() } else { Cell::null() };
                            assert_eq!(canvas.cell(x as i32, y as i32), Some(&expected));
                        }
                    }
                }
            }
        }
    }
}

#[test]
fn far_ends_do_not_overflow() {
    assert_eq!(drawn(2, 2, i32::MIN, 0, i32::MIN + 5, 0), ["..", ".."]);
    assert_eq!(drawn(2, 2, i32::MAX - 3, 1, i32::MAX, 1), ["..", ".."]);
}
