//! The cached geometry of a terminal window and the events that a change of
//! it gives rise to.
//!
//! The host measures the window (columns, rows, and the size in pixels) each
//! time it is told of a resize, and hands the measurement to
//! [`Geometry::update`]. The cache answers with one event for each of the
//! three metrics that changed: the grid, the size in pixels, and the size of
//! one cell in pixels.

use crate::event::Event;
use vstd::prelude::*;

verus! {

/// The cell width that is assumed where the window does not report one.
pub const DEFAULT_FONT_WIDTH: u32 = 16;

/// The cell height that is assumed where the window does not report one.
pub const DEFAULT_FONT_HEIGHT: u32 = 32;

/// A window as the host measured it: columns, rows, and the size in pixels.
#[derive(Debug, Clone, Copy, PartialEq, Eq, Structural)]
pub struct WindowSize {
    pub cols: u16,
    pub rows: u16,
    pub xpixel: u16,
    pub ypixel: u16,
}

#[derive(Debug, Clone, Copy, PartialEq, Eq, Structural)]
pub struct Geometry {
    term_width: u32,
    term_height: u32,
    pixel_width: u32,
    pixel_height: u32,
    font_width: u32,
    font_height: u32,
}

/// The metrics of a geometry, as plain values.
pub struct Metrics {
    pub term: (u32, u32),
    pub pixel: (u32, u32),
    pub font: (u32, u32),
}

/// The size of one cell of a window: the pixels of each axis shared out among
/// the cells, or the default size where the window reports no cells or no
/// pixels, or fewer pixels than cells.
pub open spec fn font_size(size: WindowSize) -> (u32, u32) {
    if size.cols == 0 || size.rows == 0 || size.xpixel / size.cols == 0 || size.ypixel / size.rows
        == 0 {
        (DEFAULT_FONT_WIDTH, DEFAULT_FONT_HEIGHT)
    } else {
        ((size.xpixel / size.cols) as u32, (size.ypixel / size.rows) as u32)
    }
}

/// The metrics before the first measurement: no cells, no pixels, and cells
/// of the default size.
pub open spec fn initial_metrics() -> Metrics {
    Metrics { term: (0, 0), pixel: (0, 0), font: (DEFAULT_FONT_WIDTH, DEFAULT_FONT_HEIGHT) }
}

/// The metrics of a window.
pub open spec fn metrics_of(size: WindowSize) -> Metrics {
    Metrics {
        term: (size.cols as u32, size.rows as u32),
        pixel: (size.xpixel as u32, size.ypixel as u32),
        font: font_size(size),
    }
}

/// The events for a change of metrics: one for the grid, one for the pixels
/// and one for the cell size, in this order, each only if it changed.
pub open spec fn resize_events(old: Metrics, new: Metrics) -> Seq<Event> {
    (if old.term != new.term {
        seq![Event::Resize(new.term.0, new.term.1)]
    } else {
        Seq::<Event>::empty()
    }) + (if old.pixel != new.pixel {
        seq![Event::PixelResize(new.pixel.0, new.pixel.1)]
    } else {
        Seq::<Event>::empty()
    }) + (if old.font != new.font {
        seq![Event::FontResize(new.font.0, new.font.1)]
    } else {
        Seq::<Event>::empty()
    })
}

impl Geometry {
    pub closed spec fn view(&self) -> Metrics {
        Metrics {
            term: (self.term_width, self.term_height),
            pixel: (self.pixel_width, self.pixel_height),
            font: (self.font_width, self.font_height),
        }
    }

    /// The grid of a cached geometry came from a measurement: neither side
    /// is longer than 65535 cells.
    pub open spec fn wf(&self) -> bool {
        self@.term.0 <= 0xffff && self@.term.1 <= 0xffff
    }

    /// The geometry before the first measurement.
    pub fn new() -> (g: Geometry)
        ensures
            g.wf(),
            g@ == initial_metrics(),
    {
        Geometry {
            term_width: 0,
            term_height: 0,
            pixel_width: 0,
            pixel_height: 0,
            font_width: DEFAULT_FONT_WIDTH,
            font_height: DEFAULT_FONT_HEIGHT,
        }
    }

    /// Takes in a measurement of the window and tells what changed.
    pub fn update(&mut self, size: WindowSize) -> (events: Vec<Event>)
        ensures
            final(self).wf(),
            final(self)@ == metrics_of(size),
            events@ == resize_events(old(self)@, metrics_of(size)),
    {
        let mut events: Vec<Event> = Vec::new();
        let term_width = size.cols as u32;
        let term_height = size.rows as u32;
        if self.term_width != term_width || self.term_height != term_height {
            self.term_width = term_width;
            self.term_height = term_height;
            events.push(Event::Resize(term_width, term_height));
        }
        let pixel_width = size.xpixel as u32;
        let pixel_height = size.ypixel as u32;
        if self.pixel_width != pixel_width || self.pixel_height != pixel_height {
            self.pixel_width = pixel_width;
            self.pixel_height = pixel_height;
            events.push(Event::PixelResize(pixel_width, pixel_height));
        }
        let mut font_width: u32 = DEFAULT_FONT_WIDTH;
        let mut font_height: u32 = DEFAULT_FONT_HEIGHT;
        if size.cols != 0 && size.rows != 0 {
            let fw = (size.xpixel / size.cols) as u32;
            let fh = (size.ypixel / size.rows) as u32;
            if fw != 0 && fh != 0 {
                font_width = fw;
                font_height = fh;
            }
        }
        if self.font_width != font_width || self.font_height != font_height {
            self.font_width = font_width;
            self.font_height = font_height;
            events.push(Event::FontResize(font_width, font_height));
        }
        assert(events@ =~= resize_events(old(self)@, metrics_of(size)));
        events
    }

    pub fn width(&self) -> (w: u32)
        ensures
            w == self@.term.0,
    {
        self.term_width
    }

    pub fn height(&self) -> (h: u32)
        ensures
            h == self@.term.1,
    {
        self.term_height
    }

    pub fn pixel_width(&self) -> (w: u32)
        ensures
            w == self@.pixel.0,
    {
        self.pixel_width
    }

    pub fn pixel_height(&self) -> (h: u32)
        ensures
            h == self@.pixel.1,
    {
        self.pixel_height
    }

    pub fn font_width(&self) -> (w: u32)
        ensures
            w == self@.font.0,
    {
        self.font_width
    }

    pub fn font_height(&self) -> (h: u32)
        ensures
            h == self@.font.1,
    {
        self.font_height
    }
}

/// A measurement that repeats the cached geometry gives no event.
pub proof fn lemma_unchanged_geometry_is_silent(size: WindowSize)
    ensures
        resize_events(metrics_of(size), metrics_of(size)) == Seq::<Event>::empty(),
{
    assert(resize_events(metrics_of(size), metrics_of(size)) =~= Seq::<Event>::empty());
}

/// A new grid with the pixels and the cell size unchanged gives exactly one
/// event, for the grid. (With the pixels unchanged the cell size may still
/// change, since it is derived from both: then a second event follows.)
pub proof fn lemma_grid_change_alone(before: WindowSize, after: WindowSize)
    requires
        (before.cols, before.rows) != (after.cols, after.rows),
        (before.xpixel, before.ypixel) == (after.xpixel, after.ypixel),
        font_size(before) == font_size(after),
    ensures
        resize_events(metrics_of(before), metrics_of(after)) == seq![
            Event::Resize(after.cols as u32, after.rows as u32),
        ],
{
    assert(resize_events(metrics_of(before), metrics_of(after)) =~= seq![
        Event::Resize(after.cols as u32, after.rows as u32),
    ]);
}

} // verus!
