//! Four-channel colors with "over" alpha compositing.
//!
//! Channels are bytes. An alpha of 255 is fully opaque and an alpha of 0 is
//! fully transparent. Compositing is defined over exact integer arithmetic:
//! every quotient is rounded toward zero.

use crate::text::chars_of;
use vstd::prelude::*;

verus! {

pub type Ansi8BitColor = u8;

#[derive(Debug, Clone, Copy, PartialEq, Eq, Structural)]
pub struct Color {
    pub a: u8,
    pub r: u8,
    pub g: u8,
    pub b: u8,
}

/// The weight of the composite of a foreground alpha over a background alpha,
/// scaled by 255 * 255.
pub open spec fn blend_weight(fg_a: int, bg_a: int) -> int {
    (255 - fg_a) * bg_a + 255 * fg_a
}

/// One composited color channel: the alpha-weighted mean of the background and
/// foreground channel values, or 0 where the composite carries no weight.
pub open spec fn blend_channel(fg_a: int, bg_a: int, fg_c: int, bg_c: int) -> int {
    let w = blend_weight(fg_a, bg_a);
    if w == 0 {
        0
    } else {
        ((255 - fg_a) * bg_a * bg_c + 255 * fg_a * fg_c) / w
    }
}

/// The value of a hexadecimal digit, in either case.
pub open spec fn hex_value(c: char) -> Option<u8> {
    if '0' <= c <= '9' {
        Some((c as u32 - '0' as u32) as u8)
    } else if 'a' <= c <= 'f' {
        Some((c as u32 - 'a' as u32 + 10) as u8)
    } else if 'A' <= c <= 'F' {
        Some((c as u32 - 'A' as u32 + 10) as u8)
    } else {
        None
    }
}

/// The lower-case hexadecimal digit for a value below 16.
pub open spec fn hex_digit(v: int) -> char {
    if v < 10 {
        (('0' as u32 + v) as u32) as char
    } else {
        (('a' as u32 + v - 10) as u32) as char
    }
}

/// The two lower-case hexadecimal digits of a byte.
pub open spec fn hex_pair(v: u8) -> Seq<char> {
    seq![hex_digit(v as int / 16), hex_digit(v as int % 16)]
}

/// The digits of a textual color: the text without one leading `#`.
pub open spec fn hex_digits(s: Seq<char>) -> Seq<char> {
    if s.len() > 0 && s[0] == '#' {
        s.skip(1)
    } else {
        s
    }
}

/// A textual color is well formed when it holds six or eight hexadecimal
/// digits after an optional leading `#`.
pub open spec fn hex_well_formed(s: Seq<char>) -> bool {
    let d = hex_digits(s);
    (d.len() == 6 || d.len() == 8) && forall|i: int| 0 <= i < d.len() ==> hex_value(#[trigger] d[i]) is Some
}

/// The byte written by the two hexadecimal digits at `i` and `i + 1`.
pub open spec fn hex_byte(d: Seq<char>, i: int) -> u8 {
    (hex_value(d[i]).unwrap() * 16 + hex_value(d[i + 1]).unwrap()) as u8
}

/// The color that a text denotes: `rrggbb` or `rrggbbaa`, optionally after a
/// `#`; opaque black for anything else.
pub open spec fn color_of_hex(s: Seq<char>) -> Color {
    let d = hex_digits(s);
    if hex_well_formed(s) {
        Color {
            r: hex_byte(d, 0),
            g: hex_byte(d, 2),
            b: hex_byte(d, 4),
            a: if d.len() == 8 {
                hex_byte(d, 6)
            } else {
                255
            },
        }
    } else {
        Color { r: 0, g: 0, b: 0, a: 255 }
    }
}

/// The color packed in a 32-bit word: alpha in the lowest byte, then red,
/// green and blue in the highest.
pub open spec fn color_of_u32(v: u32) -> Color {
    Color {
        a: (v as int % 256) as u8,
        r: (v as int / 0x100 % 256) as u8,
        g: (v as int / 0x1_0000 % 256) as u8,
        b: (v as int / 0x100_0000 % 256) as u8,
    }
}

fn hex_digit_of(v: u8) -> (c: char)
    requires
        v < 16,
    ensures
        c == hex_digit(v as int),
{
    if v < 10 {
        (48u8 + v) as char
    } else {
        (87u8 + v) as char
    }
}

fn push_hex_pair(s: &mut String, v: u8)
    ensures
        final(s)@ == old(s)@ + hex_pair(v),
{
    s.push(hex_digit_of(v / 16));
    s.push(hex_digit_of(v % 16));
    assert(s@ =~= old(s)@ + hex_pair(v));
}

fn hex_byte_at(d: &Vec<char>, start: usize, i: usize) -> (v: Option<u8>)
    requires
        start + i + 1 < d.len(),
    ensures
        match v {
            Some(b) => hex_value(d@[start + i]) is Some && hex_value(d@[start + i + 1]) is Some && b
                == hex_byte(d@.skip(start as int), i as int),
            None => hex_value(d@[start + i]) is None || hex_value(d@[start + i + 1]) is None,
        },
{
    match (hex_value_of(d[start + i]), hex_value_of(d[start + i + 1])) {
        (Some(hi), Some(lo)) => Some(hi * 16 + lo),
        _ => None,
    }
}

fn hex_value_of(c: char) -> (v: Option<u8>)
    ensures
        v == hex_value(c),
        v matches Some(d) ==> d < 16,
{
    let n: u32 = c as u32;
    if 48 <= n && n <= 57 {
        Some((n - 48) as u8)
    } else if 97 <= n && n <= 102 {
        Some((n - 97 + 10) as u8)
    } else if 65 <= n && n <= 70 {
        Some((n - 65 + 10) as u8)
    } else {
        None
    }
}

impl Color {
    pub open spec fn spec_rgba(r: u8, g: u8, b: u8, a: u8) -> Color {
        Color { a, r, g, b }
    }

    /// This color composited over `bg`.
    pub open spec fn spec_blend(self, bg: Color) -> Color {
        Color {
            a: (blend_weight(self.a as int, bg.a as int) / 255) as u8,
            r: blend_channel(self.a as int, bg.a as int, self.r as int, bg.r as int) as u8,
            g: blend_channel(self.a as int, bg.a as int, self.g as int, bg.g as int) as u8,
            b: blend_channel(self.a as int, bg.a as int, self.b as int, bg.b as int) as u8,
        }
    }

    /// The color as a 32-bit word: alpha in the lowest byte, then red, green
    /// and blue in the highest.
    pub open spec fn spec_as_u32(self) -> u32 {
        (self.a as int + 0x100 * self.r as int + 0x1_0000 * self.g as int + 0x100_0000
            * self.b as int) as u32
    }

    pub fn rgb(r: u8, g: u8, b: u8) -> (c: Color)
        ensures
            c == Self::spec_rgba(r, g, b, 255),
    {
        Self::rgba(r, g, b, 255)
    }

    pub fn rgba(r: u8, g: u8, b: u8, a: u8) -> (c: Color)
        ensures
            c == Self::spec_rgba(r, g, b, a),
    {
        Self { r, g, b, a }
    }

    pub fn grey(val: u8) -> (c: Color)
        ensures
            c == Self::spec_rgba(val, val, val, 255),
    {
        Self::rgb(val, val, val)
    }

    pub fn gray(val: u8) -> (c: Color)
        ensures
            c == Self::spec_rgba(val, val, val, 255),
    {
        Self::grey(val)
    }

    pub fn transparent() -> (c: Color)
        ensures
            c == Self::spec_rgba(0, 0, 0, 0),
    {
        Self { r: 0, g: 0, b: 0, a: 0 }
    }

    pub fn black() -> (c: Color)
        ensures
            c == Self::spec_rgba(0, 0, 0, 255),
    {
        Self { r: 0, g: 0, b: 0, a: 255 }
    }

    pub fn white() -> (c: Color)
        ensures
            c == Self::spec_rgba(255, 255, 255, 255),
    {
        Self { r: 255, g: 255, b: 255, a: 255 }
    }

    pub fn red() -> (c: Color)
        ensures
            c == Self::spec_rgba(255, 0, 0, 255),
    {
        Self { r: 255, g: 0, b: 0, a: 255 }
    }

    pub fn green() -> (c: Color)
        ensures
            c == Self::spec_rgba(0, 255, 0, 255),
    {
        Self { r: 0, g: 255, b: 0, a: 255 }
    }

    pub fn blue() -> (c: Color)
        ensures
            c == Self::spec_rgba(0, 0, 255, 255),
    {
        Self { r: 0, g: 0, b: 255, a: 255 }
    }

    pub fn yellow() -> (c: Color)
        ensures
            c == Self::spec_rgba(255, 255, 0, 255),
    {
        Self { r: 255, g: 255, b: 0, a: 255 }
    }

    pub fn magenta() -> (c: Color)
        ensures
            c == Self::spec_rgba(255, 0, 255, 255),
    {
        Self { r: 255, g: 0, b: 255, a: 255 }
    }

    pub fn cyan() -> (c: Color)
        ensures
            c == Self::spec_rgba(0, 255, 255, 255),
    {
        Self { r: 0, g: 255, b: 255, a: 255 }
    }

    /// The index of the nearest entry of the 6 x 6 x 6 color cube of the 8-bit
    /// palette.
    pub fn as_8bit_ansi(&self) -> (code: Ansi8BitColor)
        ensures
            code == 16 + 36 * (self.r / 51) + 6 * (self.g / 51) + self.b / 51,
    {
        let r = self.r / 51;
        let g = self.g / 51;
        let b = self.b / 51;

        16 + 36 * r + 6 * g + b
    }

    pub fn as_rgb(&self) -> (t: (u8, u8, u8))
        ensures
            t == (self.r, self.g, self.b),
    {
        (self.r, self.g, self.b)
    }

    pub fn as_rgba(&self) -> (t: (u8, u8, u8, u8))
        ensures
            t == (self.r, self.g, self.b, self.a),
    {
        (self.r, self.g, self.b, self.a)
    }

    pub fn as_argb(&self) -> (t: (u8, u8, u8, u8))
        ensures
            t == (self.a, self.r, self.g, self.b),
    {
        (self.a, self.r, self.g, self.b)
    }

    pub fn as_abgr(&self) -> (t: (u8, u8, u8, u8))
        ensures
            t == (self.a, self.b, self.g, self.r),
    {
        (self.a, self.b, self.g, self.r)
    }

    pub fn as_bgra(&self) -> (t: (u8, u8, u8, u8))
        ensures
            t == (self.b, self.g, self.r, self.a),
    {
        (self.b, self.g, self.r, self.a)
    }

    pub fn as_u32(&self) -> (v: u32)
        ensures
            v == self.spec_as_u32(),
            color_of_u32(v) == *self,
    {
        let a: u32 = self.a as u32;
        let r: u32 = self.r as u32;
        let g: u32 = self.g as u32;
        let b: u32 = self.b as u32;
        let v: u32 = a + 0x100 * r + 0x1_0000 * g + 0x100_0000 * b;
        assert(v % 256 == a && v / 0x100 % 256 == r && v / 0x1_0000 % 256 == g && v / 0x100_0000
            % 256 == b) by (bit_vector)
            requires
                a < 256 && r < 256 && g < 256 && b < 256,
                v == a + 0x100 * r + 0x1_0000 * g + 0x100_0000 * b,
        ;
        v
    }

    pub fn as_rgb_hex(&self) -> (s: String)
        ensures
            s@ == hex_pair(self.r) + hex_pair(self.g) + hex_pair(self.b),
    {
        let mut s = String::new();
        push_hex_pair(&mut s, self.r);
        push_hex_pair(&mut s, self.g);
        push_hex_pair(&mut s, self.b);
        assert(s@ =~= hex_pair(self.r) + hex_pair(self.g) + hex_pair(self.b));
        s
    }

    pub fn as_rgba_hex(&self) -> (s: String)
        ensures
            s@ == hex_pair(self.r) + hex_pair(self.g) + hex_pair(self.b) + hex_pair(self.a),
    {
        let mut s = String::new();
        push_hex_pair(&mut s, self.r);
        push_hex_pair(&mut s, self.g);
        push_hex_pair(&mut s, self.b);
        push_hex_pair(&mut s, self.a);
        assert(s@ =~= hex_pair(self.r) + hex_pair(self.g) + hex_pair(self.b) + hex_pair(self.a));
        s
    }

    /// Composites this color over `bg`.
    pub fn blend(&self, bg: &Color) -> (c: Color)
        ensures
            c == self.spec_blend(*bg),
    {
        if self.a == 0xff {
            proof {
                lemma_blend_opaque(*self, *bg);
            }
            return *self;
        }
        let fa: u32 = self.a as u32;
        let ba: u32 = bg.a as u32;
        assert((255 - fa) * ba <= 255 * 255) by (nonlinear_arith)
            requires
                fa <= 255,
                ba <= 255,
        ;
        let back: u32 = (255 - fa) * ba;
        let front: u32 = 255 * fa;
        let w: u32 = back + front;
        assert(w == blend_weight(self.a as int, bg.a as int));
        if w == 0 {
            return Color { r: 0, g: 0, b: 0, a: 0 };
        }
        let r = blend_one(back, front, self.r, bg.r);
        let g = blend_one(back, front, self.g, bg.g);
        let b = blend_one(back, front, self.b, bg.b);
        assert(w <= 255 * 255) by (nonlinear_arith)
            requires
                w == (255 - fa) * ba + 255 * fa,
                fa <= 255,
                ba <= 255,
        ;
        Color { r, g, b, a: (w / 255) as u8 }
    }
}

impl Default for Color {
    fn default() -> (c: Color)
        ensures
            c == Color::spec_rgba(0, 0, 0, 0),
    {
        Color { a: 0, r: 0, g: 0, b: 0 }
    }
}

impl From<&str> for Color {
    /// Reads `rrggbb` or `rrggbbaa`, optionally after a `#`. Any other text
    /// gives opaque black.
    fn from(hex: &str) -> (c: Color) {
        let d = chars_of(hex);
        let start: usize = if d.len() > 0 && d[0] == '#' {
            1
        } else {
            0
        };
        let n = d.len() - start;
        assert(d@.skip(start as int) =~= hex_digits(hex@));
        if n != 6 && n != 8 {
            return Color::black();
        }
        let r = hex_byte_at(&d, start, 0);
        let g = hex_byte_at(&d, start, 2);
        let b = hex_byte_at(&d, start, 4);
        let a = if n == 8 {
            hex_byte_at(&d, start, 6)
        } else {
            Some(255u8)
        };
        match (r, g, b, a) {
            (Some(r), Some(g), Some(b), Some(a)) => {
                assert(hex_well_formed(hex@)) by {
                    let dd = hex_digits(hex@);
                    assert forall|i: int| 0 <= i < dd.len() implies hex_value(#[trigger] dd[i]) is Some by {
                        assert(dd[i] == d@[start + i]);
                    }
                }
                Color::rgba(r, g, b, a)
            },
            _ => {
                assert(!hex_well_formed(hex@)) by {
                    let dd = hex_digits(hex@);
                    assert(forall|i: int| 0 <= i < dd.len() ==> dd[i] == d@[start + i]);
                }
                Color::black()
            },
        }
    }
}

impl vstd::std_specs::convert::FromSpecImpl<&str> for Color {
    open spec fn obeys_from_spec() -> bool {
        true
    }

    open spec fn from_spec(hex: &str) -> Color {
        color_of_hex(hex@)
    }
}

impl From<String> for Color {
    fn from(hex: String) -> (c: Color) {
        Color::from(hex.as_str())
    }
}

impl vstd::std_specs::convert::FromSpecImpl<String> for Color {
    open spec fn obeys_from_spec() -> bool {
        true
    }

    open spec fn from_spec(hex: String) -> Color {
        color_of_hex(hex@)
    }
}

impl From<u32> for Color {
    /// Unpacks a word with alpha in its lowest byte, then red, green and blue.
    fn from(color: u32) -> (c: Color) {
        Color {
            a: (color % 256) as u8,
            r: (color / 0x100 % 256) as u8,
            g: (color / 0x1_0000 % 256) as u8,
            b: (color / 0x100_0000 % 256) as u8,
        }
    }
}

impl vstd::std_specs::convert::FromSpecImpl<u32> for Color {
    open spec fn obeys_from_spec() -> bool {
        true
    }

    open spec fn from_spec(color: u32) -> Color {
        color_of_u32(color)
    }
}

impl From<u64> for Color {
    /// Unpacks the low 32 bits of the word.
    fn from(color: u64) -> (c: Color) {
        Color::from((color % 0x1_0000_0000) as u32)
    }
}

impl vstd::std_specs::convert::FromSpecImpl<u64> for Color {
    open spec fn obeys_from_spec() -> bool {
        true
    }

    open spec fn from_spec(color: u64) -> Color {
        color_of_u32((color as int % 0x1_0000_0000) as u32)
    }
}

impl From<(u8, u8, u8)> for Color {
    fn from(color: (u8, u8, u8)) -> (c: Color) {
        Color::rgb(color.0, color.1, color.2)
    }
}

impl vstd::std_specs::convert::FromSpecImpl<(u8, u8, u8)> for Color {
    open spec fn obeys_from_spec() -> bool {
        true
    }

    open spec fn from_spec(color: (u8, u8, u8)) -> Color {
        Color::spec_rgba(color.0, color.1, color.2, 255)
    }
}

impl From<[u8; 3]> for Color {
    fn from(color: [u8; 3]) -> (c: Color) {
        Color::rgb(color[0], color[1], color[2])
    }
}

impl vstd::std_specs::convert::FromSpecImpl<[u8; 3]> for Color {
    open spec fn obeys_from_spec() -> bool {
        true
    }

    open spec fn from_spec(color: [u8; 3]) -> Color {
        Color::spec_rgba(color@[0], color@[1], color@[2], 255)
    }
}

impl From<(u8, u8, u8, u8)> for Color {
    fn from(color: (u8, u8, u8, u8)) -> (c: Color) {
        Color::rgba(color.0, color.1, color.2, color.3)
    }
}

impl vstd::std_specs::convert::FromSpecImpl<(u8, u8, u8, u8)> for Color {
    open spec fn obeys_from_spec() -> bool {
        true
    }

    open spec fn from_spec(color: (u8, u8, u8, u8)) -> Color {
        Color::spec_rgba(color.0, color.1, color.2, color.3)
    }
}

impl From<[u8; 4]> for Color {
    fn from(color: [u8; 4]) -> (c: Color) {
        Color::rgba(color[0], color[1], color[2], color[3])
    }
}

impl vstd::std_specs::convert::FromSpecImpl<[u8; 4]> for Color {
    open spec fn obeys_from_spec() -> bool {
        true
    }

    open spec fn from_spec(color: [u8; 4]) -> Color {
        Color::spec_rgba(color@[0], color@[1], color@[2], color@[3])
    }
}

fn blend_one(back: u32, front: u32, fg_c: u8, bg_c: u8) -> (c: u8)
    requires
        back <= 255 * 255,
        front <= 255 * 255,
        back + front > 0,
    ensures
        c == (back * bg_c + front * fg_c) / (back + front),
{
    assert(back * bg_c <= 255 * 255 * 255 && front * fg_c <= 255 * 255 * 255) by (nonlinear_arith)
        requires
            back <= 255 * 255,
            front <= 255 * 255,
            bg_c <= 255,
            fg_c <= 255,
    ;
    let num: u32 = back * (bg_c as u32) + front * (fg_c as u32);
    let den: u32 = back + front;
    assert(num <= 255 * den) by (nonlinear_arith)
        requires
            num == back * bg_c + front * fg_c,
            den == back + front,
            bg_c <= 255,
            fg_c <= 255,
    ;
    assert(num / den <= 255) by (nonlinear_arith)
        requires
            num <= 255 * den,
            den > 0,
    ;
    (num / den) as u8
}

/// An opaque color hides whatever lies beneath it: composited over any
/// background it stays as it is.
pub proof fn lemma_blend_opaque(fg: Color, bg: Color)
    requires
        fg.a == 255,
    ensures
        fg.spec_blend(bg) == fg,
{
    let w = blend_weight(255, bg.a as int);
    assert(w == 255 * 255);
    assert(blend_channel(255, bg.a as int, fg.r as int, bg.r as int) == fg.r) by (nonlinear_arith)
        requires
            0 <= fg.r <= 255,
    ;
    assert(blend_channel(255, bg.a as int, fg.g as int, bg.g as int) == fg.g) by (nonlinear_arith)
        requires
            0 <= fg.g <= 255,
    ;
    assert(blend_channel(255, bg.a as int, fg.b as int, bg.b as int) == fg.b) by (nonlinear_arith)
        requires
            0 <= fg.b <= 255,
    ;
}

/// A fully transparent color shows the background unchanged, provided the
/// background carries some alpha or is itself transparent black. (Over a
/// background of alpha 0 the composite is always transparent black.)
pub proof fn lemma_blend_transparent(fg: Color, bg: Color)
    requires
        fg.a == 0,
        bg.a == 0 ==> bg == Color::spec_rgba(0, 0, 0, 0),
    ensures
        fg.spec_blend(bg) == bg,
{
    let ba = bg.a as int;
    assert(blend_weight(0, ba) == 255 * ba);
    if ba > 0 {
        lemma_weighted_mean(255 * ba, bg.r as int);
        lemma_weighted_mean(255 * ba, bg.g as int);
        lemma_weighted_mean(255 * ba, bg.b as int);
        assert(255 * ba * bg.r + 255 * 0 * fg.r == bg.r * (255 * ba)) by (nonlinear_arith);
        assert(255 * ba * bg.g + 255 * 0 * fg.g == bg.g * (255 * ba)) by (nonlinear_arith);
        assert(255 * ba * bg.b + 255 * 0 * fg.b == bg.b * (255 * ba)) by (nonlinear_arith);
        assert((255 * ba) / 255 == ba) by (nonlinear_arith);
    }
}

/// A color composited over itself keeps its color channels, unless it is
/// fully transparent, and its alpha becomes `a + (255 - a) * a / 255`.
pub proof fn lemma_blend_self(c: Color)
    ensures
        c.a > 0 ==> c.spec_blend(c).r == c.r && c.spec_blend(c).g == c.g && c.spec_blend(c).b
            == c.b,
        c.a == 0 ==> c.spec_blend(c) == Color::spec_rgba(0, 0, 0, 0),
        c.spec_blend(c).a == c.a + (255 - c.a) * c.a / 255,
{
    let a = c.a as int;
    let w = blend_weight(a, a);
    assert(0 <= (255 - a) * a <= 255 * 255 - 255 * a) by (nonlinear_arith)
        requires
            0 <= a <= 255,
    ;
    assert(w / 255 == a + (255 - a) * a / 255) by (nonlinear_arith)
        requires
            w == (255 - a) * a + 255 * a,
    ;
    assert((255 - a) * a / 255 <= 255 - a) by (nonlinear_arith)
        requires
            (255 - a) * a <= 255 * 255 - 255 * a,
    ;
    if a > 0 {
        lemma_weighted_mean(w, c.r as int);
        lemma_weighted_mean(w, c.g as int);
        lemma_weighted_mean(w, c.b as int);
        assert((255 - a) * a * c.r + 255 * a * c.r == c.r * w) by (nonlinear_arith)
            requires
                w == (255 - a) * a + 255 * a,
        ;
        assert((255 - a) * a * c.g + 255 * a * c.g == c.g * w) by (nonlinear_arith)
            requires
                w == (255 - a) * a + 255 * a,
        ;
        assert((255 - a) * a * c.b + 255 * a * c.b == c.b * w) by (nonlinear_arith)
            requires
                w == (255 - a) * a + 255 * a,
        ;
    }
}

/// Compositing a color over itself is not idempotent in general. An opaque
/// color is a fixed point, a color with an alpha from 2 to 253 never is (its
/// alpha grows), and the only other fixed points are transparent black and
/// the colors with alpha 1 or 254, for which the gain in alpha rounds to zero.
pub proof fn lemma_blend_self_fixed_points(c: Color)
    ensures
        c.a == 255 ==> c.spec_blend(c) == c,
        2 <= c.a <= 253 ==> c.spec_blend(c).a > c.a,
        c.spec_blend(c) == c <==> (c.a == 255 || c.a == 254 || c.a == 1 || c == Color::spec_rgba(
            0,
            0,
            0,
            0,
        )),
{
    lemma_blend_self(c);
    let a = c.a as int;
    assert(2 <= a <= 253 ==> (255 - a) * a / 255 >= 1) by (nonlinear_arith)
        requires
            0 <= a <= 255,
    ;
    if a == 0 || a == 1 || a == 254 || a == 255 {
        assert((255 - a) * a / 255 == 0) by (nonlinear_arith)
            requires
                a == 0 || a == 1 || a == 254 || a == 255,
        ;
    }
}

proof fn lemma_weighted_mean(w: int, c: int)
    requires
        w > 0,
    ensures
        (c * w) / w == c,
{
    vstd::arithmetic::div_mod::lemma_div_multiples_vanish(c, w);
    assert(c * w == w * c) by (nonlinear_arith);
}

} // verus!
