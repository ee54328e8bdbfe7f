//! A decoder for the byte stream of a terminal.
//!
//! Plain bytes are key presses. An escape byte that is followed by a control
//! introducer starts an escape sequence; of these the decoder understands the
//! control sequences, and among them the mouse reports with decimal
//! coordinates:
//!
//! ```text
//! ESC [ < button ; column ; row (M | m)
//! ```
//!
//! Anything malformed decodes to `Event::Unknown`. The legacy mouse report
//! `ESC [ M` is not supported: it decodes to `Event::Unknown` and none of the
//! bytes that follow it is consumed.
//!
//! The grammar is stated over a byte sequence that reads as zero past its
//! end. The parser itself never decodes past the end of what it was given: it
//! waits for more input instead.

use crate::event::Event;
use crate::event::MouseButton;
use vstd::prelude::*;
use vstd::slice::slice_subrange;

verus! {

/// The escape byte.
pub const ESC: u8 = 0x1b;

/// The byte at `i`, where a sequence reads as zero past its end.
pub open spec fn byte_at(s: Seq<u8>, i: int) -> u8 {
    if 0 <= i < s.len() {
        s[i]
    } else {
        0
    }
}

/// The bytes that, after an escape byte, introduce an escape sequence:
/// `D E H M N O P V W X Z [ \ ] ^ _`.
pub open spec fn is_ctrl_byte(b: u8) -> bool {
    b == 0x44 || b == 0x45 || b == 0x48 || b == 0x4d || b == 0x4e || b == 0x4f || b == 0x50 || b
        == 0x56 || b == 0x57 || b == 0x58 || b == 0x5a || b == 0x5b || b == 0x5c || b == 0x5d || b
        == 0x5e || b == 0x5f
}

pub open spec fn is_digit(b: u8) -> bool {
    0x30 <= b <= 0x39
}

/// The end of the run of decimal digits that starts at `p`.
pub open spec fn digits_end(s: Seq<u8>, p: int) -> int
    decreases s.len() - p,
{
    if 0 <= p < s.len() && is_digit(s[p]) {
        digits_end(s, p + 1)
    } else {
        p
    }
}

/// The number written by the decimal digits from `from` up to `to`.
pub open spec fn decimal(s: Seq<u8>, from: int, to: int) -> nat
    decreases to - from,
{
    if from >= to {
        0
    } else {
        decimal(s, from, to - 1) * 10 + (s[to - 1] - 0x30) as nat
    }
}

/// The coordinate written by the digits from `from` up to `to`. On the wire
/// coordinates count from 1, here from 0. A numeral that is missing or does
/// not fit 32 bits reads as 1; the numeral 0 wraps around to the largest
/// coordinate.
pub open spec fn coordinate(s: Seq<u8>, from: int, to: int) -> u32 {
    let v = decimal(s, from, to);
    if from >= to || v > u32::MAX {
        0
    } else if v == 0 {
        u32::MAX
    } else {
        (v - 1) as u32
    }
}

/// A decoded event and the position of the first byte after it.
pub struct Parsed {
    pub event: Event,
    pub next: int,
}

/// The button named in a mouse report, whether the report is about motion,
/// and the position after the button.
pub struct ParsedButton {
    pub button: MouseButton,
    pub moving: bool,
    pub next: int,
}

/// The event for a mouse report.
pub open spec fn mouse_event(
    button: MouseButton,
    moving: bool,
    released: bool,
    x: u32,
    y: u32,
) -> Event {
    if moving {
        Event::MouseMove(button, x, y)
    } else if released {
        Event::MouseUp(button, x, y)
    } else {
        Event::MouseDown(button, x, y)
    }
}

/// The button of a mouse report: `0`, `1` and `2` are the left, middle and
/// right button; `32` to `35` are motion with the left, middle, right or no
/// button; `64` and `65` are the wheel.
pub open spec fn parse_button(s: Seq<u8>, p: int) -> ParsedButton {
    let c = byte_at(s, p);
    let d = byte_at(s, p + 1);
    if c == 0x30 {
        ParsedButton { button: MouseButton::Left, moving: false, next: p + 1 }
    } else if c == 0x31 {
        ParsedButton { button: MouseButton::Middle, moving: false, next: p + 1 }
    } else if c == 0x32 {
        ParsedButton { button: MouseButton::Right, moving: false, next: p + 1 }
    } else if c == 0x33 {
        ParsedButton {
            button: if d == 0x32 {
                MouseButton::Left
            } else if d == 0x33 {
                MouseButton::Middle
            } else if d == 0x34 {
                MouseButton::Right
            } else if d == 0x35 {
                MouseButton::NoButton
            } else {
                MouseButton::Unknown
            },
            moving: true,
            next: p + 2,
        }
    } else if c == 0x36 {
        ParsedButton {
            button: if d == 0x34 {
                MouseButton::WheelUp
            } else if d == 0x35 {
                MouseButton::WheelDown
            } else {
                MouseButton::Unknown
            },
            moving: false,
            next: p + 2,
        }
    } else {
        ParsedButton { button: MouseButton::Unknown, moving: false, next: p + 1 }
    }
}

/// The coordinates of a mouse report, from `p`: one or two numerals,
/// separated by `;` and ended by `M` (pressed) or `m` (released). A missing
/// row reads as the first one. Any other byte, or a third numeral, makes the
/// report malformed.
pub open spec fn parse_coordinates(s: Seq<u8>, p: int, button: MouseButton, moving: bool) -> Parsed {
    let e0 = digits_end(s, p);
    let t0 = byte_at(s, e0);
    let e1 = digits_end(s, e0 + 1);
    let t1 = byte_at(s, e1);
    let e2 = digits_end(s, e1 + 1);
    if t0 == 0x6d || t0 == 0x4d {
        Parsed {
            event: mouse_event(button, moving, t0 == 0x6d, coordinate(s, p, e0), 0),
            next: e0 + 1,
        }
    } else if t0 != 0x3b {
        Parsed { event: Event::Unknown, next: e0 + 1 }
    } else if t1 == 0x6d || t1 == 0x4d {
        Parsed {
            event: mouse_event(
                button,
                moving,
                t1 == 0x6d,
                coordinate(s, p, e0),
                coordinate(s, e0 + 1, e1),
            ),
            next: e1 + 1,
        }
    } else if t1 != 0x3b {
        Parsed { event: Event::Unknown, next: e1 + 1 }
    } else {
        Parsed { event: Event::Unknown, next: e2 + 1 }
    }
}

/// A mouse report, from the byte after `ESC [ <`.
pub open spec fn parse_sgr_mouse(s: Seq<u8>, p: int) -> Parsed {
    let b = parse_button(s, p);
    if byte_at(s, b.next) != 0x3b {
        Parsed { event: Event::Unknown, next: b.next + 1 }
    } else {
        parse_coordinates(s, b.next + 1, b.button, b.moving)
    }
}

/// A control sequence, from the byte after `ESC [`.
pub open spec fn parse_ctrl_sequence(s: Seq<u8>, p: int) -> Parsed {
    let c = byte_at(s, p);
    if c == 0x4d {
        Parsed { event: Event::Unknown, next: p + 1 }
    } else if c == 0x3c {
        parse_sgr_mouse(s, p + 1)
    } else {
        Parsed { event: Event::KeyPress(c as char), next: p + 1 }
    }
}

/// An escape sequence, from the byte after `ESC`.
pub open spec fn parse_esc_sequence(s: Seq<u8>, p: int) -> Parsed {
    if byte_at(s, p) == 0x5b {
        parse_ctrl_sequence(s, p + 1)
    } else {
        Parsed { event: Event::Unknown, next: p + 1 }
    }
}

/// The event at the head of `s`.
pub open spec fn parse_event(s: Seq<u8>) -> Parsed {
    let c = byte_at(s, 0);
    if c == ESC && is_ctrl_byte(byte_at(s, 1)) {
        parse_esc_sequence(s, 1)
    } else {
        Parsed { event: Event::KeyPress(c as char), next: 1 }
    }
}

/// How many bytes have to be at hand to decode the event at the head of `s`:
/// the bytes of the event and, after an escape byte, the byte that tells a
/// key press from an escape sequence.
pub open spec fn parse_reach(s: Seq<u8>) -> int {
    if byte_at(s, 0) == ESC && !is_ctrl_byte(byte_at(s, 1)) {
        2
    } else {
        parse_event(s).next
    }
}

/// The run of digits from `p` ends within the sequence, on a byte that is no
/// digit or on the end, and holds digits only.
pub proof fn lemma_digits_end(s: Seq<u8>, p: int)
    requires
        0 <= p <= s.len(),
    ensures
        p <= digits_end(s, p) <= s.len(),
        !is_digit(byte_at(s, digits_end(s, p))),
        forall|i: int| p <= i < digits_end(s, p) ==> is_digit(#[trigger] s[i]),
    decreases s.len() - p,
{
    if p < s.len() && is_digit(s[p]) {
        lemma_digits_end(s, p + 1);
    }
}

/// A run of digits that ends at `e` is the run from each of its positions.
proof fn lemma_digits_run(s: Seq<u8>, p: int, e: int)
    requires
        0 <= p <= e <= s.len(),
        forall|i: int| p <= i < e ==> is_digit(#[trigger] s[i]),
        !is_digit(byte_at(s, e)),
    ensures
        digits_end(s, p) == e,
    decreases e - p,
{
    if p < e {
        assert(is_digit(s[p]));
        lemma_digits_run(s, p + 1, e);
    }
}

/// Whether `c` introduces an escape sequence after an escape byte.
pub fn is_ctrl_char(c: char) -> (b: bool)
    ensures
        b == (c as u32 <= 0xff && is_ctrl_byte(c as u8)),
{
    let n: u32 = c as u32;
    n == 0x44 || n == 0x45 || n == 0x48 || n == 0x4d || n == 0x4e || n == 0x4f || n == 0x50 || n
        == 0x56 || n == 0x57 || n == 0x58 || n == 0x5a || n == 0x5b || n == 0x5c || n == 0x5d || n
        == 0x5e || n == 0x5f
}

/// A streaming decoder: bytes are fed in as they arrive, and events are
/// taken out as soon as they are complete.
pub struct InputParser {
    bytes: Vec<u8>,
    pos: usize,
}

impl InputParser {
    /// The bytes that were fed in and not yet decoded.
    pub closed spec fn view(&self) -> Seq<u8> {
        self.bytes@.skip(self.pos as int)
    }

    pub closed spec fn wf(&self) -> bool {
        self.pos <= self.bytes@.len()
    }

    /// A parser that holds `stream` as its first input.
    pub fn new(stream: Vec<u8>) -> (parser: InputParser)
        ensures
            parser.wf(),
            parser@ == stream@,
    {
        let parser = InputParser { bytes: stream, pos: 0 };
        assert(parser.bytes@.skip(0) =~= stream@);
        parser
    }

    /// Appends input that has just arrived.
    pub fn feed(&mut self, input: &[u8])
        requires
            old(self).wf(),
        ensures
            final(self).wf(),
            final(self)@ == old(self)@ + input@,
    {
        if self.pos == self.bytes.len() {
            self.bytes.clear();
            self.pos = 0;
        }
        assert(self@ =~= old(self)@);
        let mut i: usize = 0;
        while i < input.len()
            invariant
                self.wf(),
                i <= input@.len(),
                self@ == old(self)@ + input@.take(i as int),
            decreases input.len() - i,
        {
            let ghost before = self.bytes@;
            self.bytes.push(input[i]);
            i += 1;
            assert(self.bytes@.skip(self.pos as int) =~= before.skip(self.pos as int).push(
                input@[i - 1],
            ));
            assert(input@.take(i as int) =~= input@.take(i - 1).push(input@[i - 1]));
            assert(self@ =~= old(self)@ + input@.take(i as int));
        }
        assert(input@.take(i as int) =~= input@);
    }

    /// Reads one numeral of a mouse report: the digits from `p`. Gives the
    /// coordinate they write and the position of the byte that ends them, or
    /// `None` where the input ends first.
    fn scan_chars(input: &[u8], p: usize) -> (r: Option<(u32, usize)>)
        requires
            p <= input@.len(),
        ensures
            match r {
                Some((value, end)) => end == digits_end(input@, p as int) && end < input@.len()
                    && value == coordinate(input@, p as int, end as int),
                None => digits_end(input@, p as int) == input@.len(),
            },
    {
        let mut q: usize = p;
        let mut acc: u64 = 0;
        while q < input.len() && input[q] >= 0x30 && input[q] <= 0x39
            invariant
                p <= q <= input@.len(),
                forall|i: int| p <= i < q ==> is_digit(#[trigger] input@[i]),
                acc <= u32::MAX ==> acc == decimal(input@, p as int, q as int),
                acc > u32::MAX ==> decimal(input@, p as int, q as int) > u32::MAX,
                acc <= 0xffff_ffff * 10 + 9,
            decreases input@.len() - q,
        {
            if acc <= 0xffff_ffff {
                acc = acc * 10 + (input[q] - 0x30) as u64;
            }
            q += 1;
        }
        proof {
            lemma_digits_run(input@, p as int, q as int);
        }
        if q >= input.len() {
            return None;
        }
        let value: u32 = if q == p || acc > 0xffff_ffff {
            0
        } else if acc == 0 {
            0xffff_ffff
        } else {
            (acc - 1) as u32
        };
        Some((value, q))
    }

    /// Decodes the button of a mouse report, from `p`.
    fn read_button(input: &[u8], p: usize) -> (r: Option<(MouseButton, bool, usize)>)
        requires
            p <= input@.len(),
        ensures
            match r {
                Some((button, moving, next)) => next <= input@.len() && (ParsedButton {
                    button,
                    moving,
                    next: next as int,
                }) == parse_button(input@, p as int),
                None => parse_button(input@, p as int).next > input@.len(),
            },
    {
        if p >= input.len() {
            return None;
        }
        let c = input[p];
        if c == 0x30 {
            Some((MouseButton::Left, false, p + 1))
        } else if c == 0x31 {
            Some((MouseButton::Middle, false, p + 1))
        } else if c == 0x32 {
            Some((MouseButton::Right, false, p + 1))
        } else if c == 0x33 {
            if p + 1 >= input.len() {
                return None;
            }
            let d = input[p + 1];
            let button = if d == 0x32 {
                MouseButton::Left
            } else if d == 0x33 {
                MouseButton::Middle
            } else if d == 0x34 {
                MouseButton::Right
            } else if d == 0x35 {
                MouseButton::NoButton
            } else {
                MouseButton::Unknown
            };
            Some((button, true, p + 2))
        } else if c == 0x36 {
            if p + 1 >= input.len() {
                return None;
            }
            let d = input[p + 1];
            let button = if d == 0x34 {
                MouseButton::WheelUp
            } else if d == 0x35 {
                MouseButton::WheelDown
            } else {
                MouseButton::Unknown
            };
            Some((button, false, p + 2))
        } else {
            Some((MouseButton::Unknown, false, p + 1))
        }
    }

    /// Decodes the coordinates of a mouse report, from `p`.
    fn read_coordinates(input: &[u8], p: usize, button: MouseButton, moving: bool) -> (r: Option<
        (Event, usize),
    >)
        requires
            p <= input@.len(),
        ensures
            match r {
                Some((event, next)) => next <= input@.len() && (Parsed { event, next: next as int })
                    == parse_coordinates(input@, p as int, button, moving),
                None => parse_coordinates(input@, p as int, button, moving).next > input@.len(),
            },
    {
        proof {
            lemma_digits_end(input@, p as int);
        }
        let (x, e0) = match Self::scan_chars(input, p) {
            Some(field) => field,
            None => {
                return None;
            },
        };
        let t0 = input[e0];
        proof {
            lemma_digits_end(input@, e0 + 1);
        }
        if t0 == 0x6d || t0 == 0x4d {
            let event = if moving {
                Event::MouseMove(button, x, 0)
            } else if t0 == 0x6d {
                Event::MouseUp(button, x, 0)
            } else {
                Event::MouseDown(button, x, 0)
            };
            return Some((event, e0 + 1));
        }
        if t0 != 0x3b {
            return Some((Event::Unknown, e0 + 1));
        }
        let (y, e1) = match Self::scan_chars(input, e0 + 1) {
            Some(field) => field,
            None => {
                return None;
            },
        };
        let t1 = input[e1];
        proof {
            lemma_digits_end(input@, e1 + 1);
        }
        if t1 == 0x6d || t1 == 0x4d {
            let event = if moving {
                Event::MouseMove(button, x, y)
            } else if t1 == 0x6d {
                Event::MouseUp(button, x, y)
            } else {
                Event::MouseDown(button, x, y)
            };
            return Some((event, e1 + 1));
        }
        if t1 != 0x3b {
            return Some((Event::Unknown, e1 + 1));
        }
        match Self::scan_chars(input, e1 + 1) {
            Some((_, e2)) => Some((Event::Unknown, e2 + 1)),
            None => None,
        }
    }

    /// Decodes a mouse report with decimal coordinates, from the byte after
    /// `ESC [ <`.
    fn read_sgr_mouse(input: &[u8], p: usize) -> (r: Option<(Event, usize)>)
        requires
            p <= input@.len(),
        ensures
            match r {
                Some((event, next)) => next <= input@.len() && (Parsed { event, next: next as int })
                    == parse_sgr_mouse(input@, p as int),
                None => parse_sgr_mouse(input@, p as int).next > input@.len(),
            },
    {
        let (button, moving, q) = match Self::read_button(input, p) {
            Some(b) => b,
            None => {
                proof {
                    let b = parse_button(input@, p as int);
                    lemma_digits_end(input@, input@.len() as int);
                    if byte_at(input@, b.next) == 0x3b {
                    }
                }
                return None;
            },
        };
        if q >= input.len() {
            return None;
        }
        if input[q] != 0x3b {
            return Some((Event::Unknown, q + 1));
        }
        Self::read_coordinates(input, q + 1, button, moving)
    }

    /// The legacy mouse report is not supported: it decodes to an unknown
    /// event, and none of the bytes after `ESC [ M` is consumed.
    fn read_x10_mouse(p: usize) -> (r: (Event, usize))
        ensures
            r == (Event::Unknown, p),
    {
        (Event::Unknown, p)
    }

    /// Decodes a control sequence, from the byte after `ESC [`.
    fn read_ctrl_sequence(input: &[u8], p: usize) -> (r: Option<(Event, usize)>)
        requires
            p <= input@.len(),
        ensures
            match r {
                Some((event, next)) => next <= input@.len() && (Parsed { event, next: next as int })
                    == parse_ctrl_sequence(input@, p as int),
                None => parse_ctrl_sequence(input@, p as int).next > input@.len(),
            },
    {
        if p >= input.len() {
            return None;
        }
        let c = input[p];
        if c == 0x4d {
            Some(Self::read_x10_mouse(p + 1))
        } else if c == 0x3c {
            let r = Self::read_sgr_mouse(input, p + 1);
            r
        } else {
            Some((Event::KeyPress(c as char), p + 1))
        }
    }

    /// Decodes an escape sequence, from the byte after `ESC`.
    fn read_esc_sequence(input: &[u8], p: usize) -> (r: Option<(Event, usize)>)
        requires
            p <= input@.len(),
        ensures
            match r {
                Some((event, next)) => next <= input@.len() && (Parsed { event, next: next as int })
                    == parse_esc_sequence(input@, p as int),
                None => parse_esc_sequence(input@, p as int).next > input@.len(),
            },
    {
        if p >= input.len() {
            return None;
        }
        if input[p] == 0x5b {
            Self::read_ctrl_sequence(input, p + 1)
        } else {
            Some((Event::Unknown, p + 1))
        }
    }

    /// Takes the next event out of the input. Gives `None`, and consumes
    /// nothing, as long as the input at hand does not hold a whole event.
    pub fn next_event(&mut self) -> (r: Option<Event>)
        requires
            old(self).wf(),
        ensures
            final(self).wf(),
            match r {
                Some(event) => parse_reach(old(self)@) <= old(self)@.len() && event == parse_event(
                    old(self)@,
                ).event && final(self)@ == old(self)@.skip(parse_event(old(self)@).next),
                None => parse_reach(old(self)@) > old(self)@.len() && final(self)@ == old(self)@,
            },
    {
        let len = self.bytes.len();
        let input = slice_subrange(self.bytes.as_slice(), self.pos, len);
        assert(input@ =~= self@);
        if input.len() == 0 {
            return None;
        }
        let c = input[0];
        let decoded = if c == ESC {
            if input.len() < 2 {
                return None;
            }
            if is_ctrl_char(input[1] as char) {
                Self::read_esc_sequence(input, 1)
            } else {
                Some((Event::KeyPress(c as char), 1))
            }
        } else {
            Some((Event::KeyPress(c as char), 1))
        };
        match decoded {
            Some((event, next)) => {
                self.pos = self.pos + next;
                assert(self@ =~= old(self)@.skip(next as int));
                Some(event)
            },
            None => None,
        }
    }

    /// Takes the next byte out of the input; 0 where there is none.
    pub fn next_byte(&mut self) -> (b: u8)
        requires
            old(self).wf(),
        ensures
            final(self).wf(),
            b == byte_at(old(self)@, 0),
            final(self)@ == (if old(self)@.len() > 0 {
                old(self)@.skip(1)
            } else {
                old(self)@
            }),
    {
        if self.pos < self.bytes.len() {
            let b = self.bytes[self.pos];
            self.pos = self.pos + 1;
            assert(self@ =~= old(self)@.skip(1));
            b
        } else {
            0
        }
    }

    /// Takes the next byte out of the input, as a character.
    pub fn next_char(&mut self) -> (c: char)
        requires
            old(self).wf(),
        ensures
            final(self).wf(),
            c == byte_at(old(self)@, 0) as char,
            final(self)@ == (if old(self)@.len() > 0 {
                old(self)@.skip(1)
            } else {
                old(self)@
            }),
    {
        self.next_byte() as char
    }

    /// The next byte of the input, which stays there; 0 where there is none.
    pub fn peek_byte(&self) -> (b: u8)
        requires
            self.wf(),
        ensures
            b == byte_at(self@, 0),
    {
        if self.pos < self.bytes.len() {
            self.bytes[self.pos]
        } else {
            0
        }
    }

    /// The next byte of the input, as a character.
    pub fn peek_char(&self) -> (c: char)
        requires
            self.wf(),
        ensures
            c == byte_at(self@, 0) as char,
    {
        self.peek_byte() as char
    }
}

} // verus!
