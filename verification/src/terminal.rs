//! The control surface of a terminal.
//!
//! A `Terminal` turns requests (move the cursor, set a color, switch to the
//! alternate screen) into the escape codes that a terminal understands, and
//! collects them in an output buffer. The host takes the buffer with
//! [`Terminal::take_output`] and writes it to the device. The terminal also
//! keeps the geometry of the window as the host last measured it.
//!
//! Every control sequence starts with the control sequence introducer,
//! `ESC [`.

use crate::color::Color;
use crate::event::Event;
use crate::resize::Geometry;
use crate::resize::Metrics;
use crate::resize::WindowSize;
use crate::resize::initial_metrics;
use crate::resize::metrics_of;
use crate::resize::resize_events;
use vstd::prelude::*;
use vstd::string::StringExecFns;

verus! {

/// The decimal digit for a value below 10.
pub open spec fn digit_char(v: nat) -> char {
    (('0' as u32 + v) as u32) as char
}

/// A number in decimal, without leading zeros.
pub open spec fn decimal_text(n: nat) -> Seq<char>
    decreases n,
{
    if n < 10 {
        seq![digit_char(n)]
    } else {
        decimal_text(n / 10).push(digit_char(n % 10))
    }
}

/// A control sequence: the introducer `ESC [`, then `body`.
pub open spec fn csi_text(body: Seq<char>) -> Seq<char> {
    seq!['\x1b', '['] + body
}

/// The sequence that puts the cursor on column `x` and row `y`, both counted
/// from 0 here and from 1 on the wire: `ESC [ row ; column H`.
pub open spec fn move_to_text(x: u32, y: u32) -> Seq<char> {
    csi_text(decimal_text((y + 1) as nat) + seq![';'] + decimal_text((x + 1) as nat) + seq!['H'])
}

/// The red, green and blue channel of a color in decimal, separated by `;`.
pub open spec fn rgb_text(color: Color) -> Seq<char> {
    decimal_text(color.r as nat) + seq![';'] + decimal_text(color.g as nat) + seq![';']
        + decimal_text(color.b as nat)
}

/// The sequence that sets a 24-bit foreground color: `ESC [ 38;2;r;g;b m`.
pub open spec fn fg_color_text(color: Color) -> Seq<char> {
    csi_text("38;2;"@ + rgb_text(color) + seq!['m'])
}

/// The sequence that sets a 24-bit background color: `ESC [ 48;2;r;g;b m`.
pub open spec fn bg_color_text(color: Color) -> Seq<char> {
    csi_text("48;2;"@ + rgb_text(color) + seq!['m'])
}

/// The index of the nearest entry of the 6 x 6 x 6 color cube of the 8-bit
/// palette.
pub open spec fn ansi_8bit(color: Color) -> nat {
    (16 + 36 * (color.r / 51) + 6 * (color.g / 51) + color.b / 51) as nat
}

/// The sequence that sets an indexed foreground color: `ESC [ 38;5;n m`.
pub open spec fn fg_8bit_color_text(color: Color) -> Seq<char> {
    csi_text("38;5;"@ + decimal_text(ansi_8bit(color)) + seq!['m'])
}

/// The sequence that sets an indexed background color: `ESC [ 48;5;n m`.
pub open spec fn bg_8bit_color_text(color: Color) -> Seq<char> {
    csi_text("48;5;"@ + decimal_text(ansi_8bit(color)) + seq!['m'])
}

/// The sequence that resets all attributes: `ESC [ m`.
pub open spec fn reset_text() -> Seq<char> {
    csi_text("m"@)
}

/// The sequences that reset all attributes and erase the screen.
pub open spec fn clear_text() -> Seq<char> {
    reset_text() + csi_text("2J"@)
}

/// The sequences that switch on mouse reports, reports of motion while a
/// button is held, and decimal coordinates.
pub open spec fn enable_mouse_text() -> Seq<char> {
    csi_text("?1000h"@) + csi_text("?1002h"@) + csi_text("?1006h"@)
}

/// The sequences that switch mouse reports off again, in reverse order.
pub open spec fn disable_mouse_text() -> Seq<char> {
    csi_text("?1006l"@) + csi_text("?1002l"@) + csi_text("?1000l"@)
}

fn push_decimal(out: &mut String, n: u64)
    ensures
        final(out)@ == old(out)@ + decimal_text(n as nat),
    decreases n,
{
    if n >= 10 {
        push_decimal(out, n / 10);
    }
    let d: u8 = (n % 10) as u8;
    out.push((48u8 + d) as char);
    assert(out@ =~= old(out)@ + decimal_text(n as nat));
}

pub struct Terminal {
    geometry: Geometry,
    output: String,
}

impl Terminal {
    /// What was written and not yet taken by the host.
    pub closed spec fn output(&self) -> Seq<char> {
        self.output@
    }

    /// The geometry of the window as it was last measured.
    pub closed spec fn geometry(&self) -> Metrics {
        self.geometry@
    }

    /// The grid came from a measurement: neither side is longer than 65535
    /// cells.
    pub open spec fn wf(&self) -> bool {
        self.geometry().term.0 <= 0xffff && self.geometry().term.1 <= 0xffff
    }

    /// That `text` was written, and nothing else changed.
    pub open spec fn wrote(&self, before: &Terminal, text: Seq<char>) -> bool {
        &&& self.wf() == before.wf()
        &&& self.geometry() == before.geometry()
        &&& self.output() == before.output() + text
    }

    /// A terminal that has written nothing and has not been measured yet.
    pub fn new() -> (term: Terminal)
        ensures
            term.wf(),
            term.output() == Seq::<char>::empty(),
            term.geometry() == initial_metrics(),
    {
        Terminal { geometry: Geometry::new(), output: String::new() }
    }

    /// Takes what was written since the last call, for the host to send to
    /// the device.
    pub fn take_output(&mut self) -> (text: String)
        ensures
            text@ == old(self).output(),
            final(self).output() == Seq::<char>::empty(),
            final(self).geometry() == old(self).geometry(),
            final(self).wf() == old(self).wf(),
    {
        let mut text = String::new();
        core::mem::swap(&mut text, &mut self.output);
        text
    }

    /// Takes in a measurement of the window and tells what changed.
    pub fn refresh_size(&mut self, size: WindowSize) -> (events: Vec<Event>)
        ensures
            final(self).wf(),
            final(self).output() == old(self).output(),
            final(self).geometry() == metrics_of(size),
            events@ == resize_events(old(self).geometry(), metrics_of(size)),
    {
        self.geometry.update(size)
    }

    pub fn size(&self) -> (s: (u32, u32))
        ensures
            s == self.geometry().term,
    {
        (self.width(), self.height())
    }

    pub fn width(&self) -> (w: u32)
        ensures
            w == self.geometry().term.0,
            self.wf() ==> w <= 0xffff,
    {
        self.geometry.width()
    }

    pub fn height(&self) -> (h: u32)
        ensures
            h == self.geometry().term.1,
            self.wf() ==> h <= 0xffff,
    {
        self.geometry.height()
    }

    pub fn pixel_width(&self) -> (w: u32)
        ensures
            w == self.geometry().pixel.0,
    {
        self.geometry.pixel_width()
    }

    pub fn pixel_height(&self) -> (h: u32)
        ensures
            h == self.geometry().pixel.1,
    {
        self.geometry.pixel_height()
    }

    pub fn font_width(&self) -> (w: u32)
        ensures
            w == self.geometry().font.0,
    {
        self.geometry.font_width()
    }

    pub fn font_height(&self) -> (h: u32)
        ensures
            h == self.geometry().font.1,
    {
        self.geometry.font_height()
    }

    /// Writes `output` as it is.
    pub fn write(&mut self, output: &str)
        ensures
            final(self).wrote(old(self), output@),
    {
        self.output.append(output);
    }

    /// Writes one character.
    pub fn write_char(&mut self, output: char)
        ensures
            final(self).wrote(old(self), seq![output]),
    {
        self.output.push(output);
        assert(self.output@ =~= old(self).output@ + seq![output]);
    }

    /// Writes the control sequence with the body `output`.
    pub fn csi(&mut self, output: &str)
        ensures
            final(self).wrote(old(self), csi_text(output@)),
    {
        self.output.push('\x1b');
        self.output.push('[');
        self.output.append(output);
        assert(self.output@ =~= old(self).output@ + csi_text(output@));
    }

    /// Resets all attributes and erases the screen.
    pub fn clear(&mut self)
        ensures
            final(self).wrote(old(self), clear_text()),
    {
        self.reset();
        self.csi("2J");
        assert(self.output@ =~= old(self).output@ + clear_text());
    }

    /// Switches to the alternate screen.
    pub fn alt_screen(&mut self)
        ensures
            final(self).wrote(old(self), csi_text("?1049h"@)),
    {
        self.csi("?1049h");
    }

    /// Switches back to the main screen.
    pub fn main_screen(&mut self)
        ensures
            final(self).wrote(old(self), csi_text("?1049l"@)),
    {
        self.csi("?1049l");
    }

    /// Puts the cursor on column `x` and row `y`, both counted from 0.
    pub fn move_to(&mut self, x: u32, y: u32)
        ensures
            final(self).wrote(old(self), move_to_text(x, y)),
    {
        self.output.push('\x1b');
        self.output.push('[');
        push_decimal(&mut self.output, y as u64 + 1);
        self.output.push(';');
        push_decimal(&mut self.output, x as u64 + 1);
        self.output.push('H');
        assert(self.output@ =~= old(self).output@ + move_to_text(x, y));
    }

    pub fn show_cursor(&mut self)
        ensures
            final(self).wrote(old(self), csi_text("?25h"@)),
    {
        self.csi("?25h");
    }

    pub fn hide_cursor(&mut self)
        ensures
            final(self).wrote(old(self), csi_text("?25l"@)),
    {
        self.csi("?25l");
    }

    fn write_rgb(&mut self, color: Color)
        ensures
            final(self).wrote(old(self), rgb_text(color)),
    {
        push_decimal(&mut self.output, color.r as u64);
        self.output.push(';');
        push_decimal(&mut self.output, color.g as u64);
        self.output.push(';');
        push_decimal(&mut self.output, color.b as u64);
        assert(self.output@ =~= old(self).output@ + rgb_text(color));
    }

    /// Sets the foreground to the red, green and blue of `color`.
    pub fn fg_color(&mut self, color: Color)
        ensures
            final(self).wrote(old(self), fg_color_text(color)),
    {
        self.csi("38;2;");
        self.write_rgb(color);
        self.output.push('m');
        assert(self.output@ =~= old(self).output@ + fg_color_text(color));
    }

    /// Sets the background to the red, green and blue of `color`.
    pub fn bg_color(&mut self, color: Color)
        ensures
            final(self).wrote(old(self), bg_color_text(color)),
    {
        self.csi("48;2;");
        self.write_rgb(color);
        self.output.push('m');
        assert(self.output@ =~= old(self).output@ + bg_color_text(color));
    }

    /// Sets the foreground to the palette entry nearest to `color`.
    pub fn fg_8bit_color(&mut self, color: Color)
        ensures
            final(self).wrote(old(self), fg_8bit_color_text(color)),
    {
        let code = color.as_8bit_ansi();
        self.csi("38;5;");
        push_decimal(&mut self.output, code as u64);
        self.output.push('m');
        assert(self.output@ =~= old(self).output@ + fg_8bit_color_text(color));
    }

    /// Sets the background to the palette entry nearest to `color`.
    pub fn bg_8bit_color(&mut self, color: Color)
        ensures
            final(self).wrote(old(self), bg_8bit_color_text(color)),
    {
        let code = color.as_8bit_ansi();
        self.csi("48;5;");
        push_decimal(&mut self.output, code as u64);
        self.output.push('m');
        assert(self.output@ =~= old(self).output@ + bg_8bit_color_text(color));
    }

    /// Sets the foreground, then the background.
    pub fn color(&mut self, fg: Color, bg: Color)
        ensures
            final(self).wrote(old(self), fg_color_text(fg) + bg_color_text(bg)),
    {
        self.fg_color(fg);
        self.bg_color(bg);
        assert(self.output@ =~= old(self).output@ + (fg_color_text(fg) + bg_color_text(bg)));
    }

    /// Resets all attributes.
    pub fn reset(&mut self)
        ensures
            final(self).wrote(old(self), reset_text()),
    {
        self.csi("m");
    }

    /// Switches on mouse reports with decimal coordinates.
    pub fn enable_mouse(&mut self)
        ensures
            final(self).wrote(old(self), enable_mouse_text()),
    {
        self.csi("?1000h");
        self.csi("?1002h");
        self.csi("?1006h");
        assert(self.output@ =~= old(self).output@ + enable_mouse_text());
    }

    /// Switches mouse reports off.
    pub fn disable_mouse(&mut self)
        ensures
            final(self).wrote(old(self), disable_mouse_text()),
    {
        self.csi("?1006l");
        self.csi("?1002l");
        self.csi("?1000l");
        assert(self.output@ =~= old(self).output@ + disable_mouse_text());
    }

    /// Switches on reports of mouse motion while no button is held.
    pub fn enable_mouse_move(&mut self)
        ensures
            final(self).wrote(old(self), csi_text("?1003h"@)),
    {
        self.csi("?1003h");
    }

    /// Switches reports of mouse motion without a button off.
    pub fn disable_mouse_move(&mut self)
        ensures
            final(self).wrote(old(self), csi_text("?1003l"@)),
    {
        self.csi("?1003l");
    }
}

} // verus!
