use termcanvas::resize::Geometry;
use termcanvas::resize::WindowSize;
use termcanvas::Event;

fn window(cols: u16, rows: u16, xpixel: u16, ypixel: u16) -> WindowSize {
    WindowSize { cols, rows, xpixel, ypixel }
}

#[test]
fn geometry_starts_empty_with_the_default_font() {
    let g = Geometry::new();
    assert_eq!((g.width(), g.height()), (0, 0));
    assert_eq!((g.pixel_width(), g.pixel_height()), (0, 0));
    assert_eq!((g.font_width(), g.font_height()), (16, 32));
}

#[test]
fn unchanged_geometry_gives_no_event() {
    let mut g = Geometry::new();
    assert_eq!(g.update(window(0, 0, 0, 0)), []);
    g.update(window(80, 24, 800, 480));
    assert_eq!(g.update(window(80, 24, 800, 480)), []);
    assert_eq!(g.update(window(80, 24, 800, 480)), []);
}

#[test]
fn new_grid_alone_gives_one_resize() {
    let mut g = Geometry::new();
    assert_eq!(g.update(window(80, 24, 0, 0)), [Event::Resize(80, 24)]);
    assert_eq!((g.width(), g.height()), (80, 24));
    assert_eq!((g.font_width(), g.font_height()), (16, 32));
    assert_eq!(g.update(window(81, 24, 0, 0)), [Event::Resize(81, 24)]);
    assert_eq!(g.update(window(81, 25, 0, 0)), [Event::Resize(81, 25)]);
    g.update(window(80, 24, 800, 480));
    assert_eq!(g.update(window(79, 24, 800, 480)), [Event::Resize(79, 24)]);
}

#[test]
fn each_changed_metric_gives_its_event_in_order() {
    let mut g = Geometry::new();
    assert_eq!(g.update(window(80, 24, 800, 480)), [
        Event::Resize(80, 24),
        Event::PixelResize(800, 480),
        Event::FontResize(10, 20),
    ]);
    assert_eq!((g.pixel_width(), g.pixel_height()), (800, 480));
    assert_eq!((g.font_width(), g.font_height()), (10, 20));
    assert_eq!(g.update(window(100, 24, 800, 480)), [
        Event::Resize(100, 24),
        Event::FontResize(8, 20),
    ]);
    assert_eq!(g.update(window(100, 24, 1000, 480)), [
        Event::PixelResize(1000, 480),
        Event::FontResize(10, 20),
    ]);
    assert_eq!(g.update(window(100, 24, 1001, 481)), [Event::PixelResize(1001, 481)]);
    assert_eq!(g.update(window(50, 12, 500, 240)), [
        Event::Resize(50, 12),
        Event::PixelResize(500, 240),
    ]);
}

#[test]
fn font_falls_back_to_the_default() {
    for size in [
        window(0, 24, 800, 480),
        window(80, 0, 800, 480),
        window(80, 24, 0, 480),
        window(80, 24, 800, 0),
        window(80, 24, 79, 480),
        window(80, 24, 800, 23),
        window(0, 0, 0, 0),
        window(1, 1, 0, 0),
    ] {
        let mut g = Geometry::new();
        g.update(window(80, 24, 800, 480));
        let events = g.update(size);
        assert_eq!((g.font_width(), g.font_height()), (16, 32));
        assert_eq!(events.last(), Some(&Event::FontResize(16, 32)));
    }
    let mut g = Geometry::new();
    g.update(window(u16::MAX, u16::MAX, u16::MAX, u16::MAX));
    assert_eq!((g.width(), g.height()), (65535, 65535));
    assert_eq!((g.font_width(), g.font_height()), (1, 1));
}
