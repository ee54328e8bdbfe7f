use termcanvas::resize::WindowSize;
use termcanvas::Color;
use termcanvas::Event;
use termcanvas::Terminal;

fn written(write: fn(&mut Terminal)) -> String {
    let mut term = Terminal::new();
    write(&mut term);
    term.take_output()
}

#[test]
fn terminal_starts_silent_and_unmeasured() {
    let mut term = Terminal::new();
    assert_eq!(term.take_output(), "");
    assert_eq!(term.size(), (0, 0));
    assert_eq!((term.width(), term.height()), (0, 0));
    assert_eq!((term.pixel_width(), term.pixel_height()), (0, 0));
    assert_eq!((term.font_width(), term.font_height()), (16, 32));
}

#[test]
fn terminal_takes_in_measurements() {
    let mut term = Terminal::new();
    term.write("x");
    let size = WindowSize { cols: 120, rows: 48, xpixel: 1920, ypixel: 1536 };
    assert_eq!(term.refresh_size(size), [
        Event::Resize(120, 48),
        Event::PixelResize(1920, 1536),
    ]);
    assert_eq!(term.refresh_size(size), []);
    assert_eq!(term.size(), (120, 48));
    assert_eq!((term.pixel_width(), term.pixel_height()), (1920, 1536));
    assert_eq!((term.font_width(), term.font_height()), (16, 32));
    assert_eq!(term.take_output(), "x");
}

#[test]
fn output_is_taken_once() {
    let mut term = Terminal::new();
    term.write("abc");
    term.write_char('d');
    assert_eq!(term.take_output(), "abcd");
    assert_eq!(term.take_output(), "");
    term.write("e");
    assert_eq!(term.take_output(), "e");
}

#[test]
fn text_is_written_as_it_is() {
    assert_eq!(written(|t| t.write("h\u{e9}llo \u{4e2d}")), "h\u{e9}llo \u{4e2d}");
    assert_eq!(written(|t| t.write("")), "");
    assert_eq!(written(|t| t.write_char('\u{253c}')), "\u{253c}");
    assert_eq!(written(|t| t.write_char(' ')), " ");
}

#[test]
fn control_sequences_start_with_the_introducer() {
    assert_eq!(written(|t| t.csi("2J")), "\x1b[2J");
    assert_eq!(written(|t| t.csi("")), "\x1b[");
    assert_eq!(written(|t| t.reset()), "\x1b[m");
    assert_eq!(written(|t| t.clear()), "\x1b[m\x1b[2J");
}

#[test]
fn screen_and_cursor_sequences() {
    assert_eq!(written(|t| t.alt_screen()), "\x1b[?1049h");
    assert_eq!(written(|t| t.main_screen()), "\x1b[?1049l");
    assert_eq!(written(|t| t.show_cursor()), "\x1b[?25h");
    assert_eq!(written(|t| t.hide_cursor()), "\x1b[?25l");
}

#[test]
fn cursor_position_is_row_then_column_from_one() {
    assert_eq!(written(|t| t.move_to(0, 0)), "\x1b[1;1H");
    assert_eq!(written(|t| t.move_to(9, 4)), "\x1b[5;10H");
    assert_eq!(written(|t| t.move_to(99, 1000)), "\x1b[1001;100H");
    assert_eq!(written(|t| t.move_to(u32::MAX, 8)), "\x1b[9;4294967296H");
}

#[test]
fn true_color_sequences() {
    assert_eq!(written(|t| t.fg_color(Color::rgb(255, 128, 0))), "\x1b[38;2;255;128;0m");
    assert_eq!(written(|t| t.bg_color(Color::rgb(1, 20, 100))), "\x1b[48;2;1;20;100m");
    assert_eq!(written(|t| t.fg_color(Color::rgba(9, 10, 11, 0))), "\x1b[38;2;9;10;11m");
    assert_eq!(
        written(|t| t.color(Color::white(), Color::black())),
        "\x1b[38;2;255;255;255m\x1b[48;2;0;0;0m"
    );
}

#[test]
fn palette_color_sequences() {
    assert_eq!(written(|t| t.fg_8bit_color(Color::red())), "\x1b[38;5;196m");
    assert_eq!(written(|t| t.bg_8bit_color(Color::black())), "\x1b[48;5;16m");
    assert_eq!(written(|t| t.bg_8bit_color(Color::white())), "\x1b[48;5;231m");
    assert_eq!(written(|t| t.fg_8bit_color(Color::rgb(51, 102, 153))), "\x1b[38;5;67m");
}

#[test]
fn mouse_sequences() {
    assert_eq!(written(|t| t.enable_mouse()), "\x1b[?1000h\x1b[?1002h\x1b[?1006h");
    assert_eq!(written(|t| t.disable_mouse()), "\x1b[?1006l\x1b[?1002l\x1b[?1000l");
    assert_eq!(written(|t| t.enable_mouse_move()), "\x1b[?1003h");
    assert_eq!(written(|t| t.disable_mouse_move()), "\x1b[?1003l");
}
