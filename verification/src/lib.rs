//! A character-cell rendering engine: colors, cells, canvases, a differential
//! renderer and a terminal input decoder.

pub mod canvas;
pub mod cell;
pub mod color;
pub mod event;
pub mod geom;
pub mod input;
pub mod line;
pub mod modes;
pub mod resize;
pub mod terminal;
pub mod terminal_canvas;
pub mod text;

pub use canvas::Canvas;
pub use canvas::CanvasRegion;
pub use cell::Cell;
pub use color::Ansi8BitColor;
pub use color::Color;
pub use event::Event;
pub use event::MouseButton;
pub use geom::Rect;
pub use input::InputParser;
pub use terminal::Terminal;
pub use terminal_canvas::TerminalCanvas;
