//! Paint and font: what a drawing surface is told about colour and type, and
//! what a terminal can make of it.

use vstd::prelude::*;
use crate::style::{Dimension, LengthPercentage, LengthPercentageAuto};
use crate::unit::{Dp, Rect};

verus! {

/// The values of the colours that have a name.
pub const TRANSPARENT: u32 = 0x0000_0000;

pub const BLACK: u32 = 0xFF00_0000;

pub const DARK_GRAY: u32 = 0xFF44_4444;

pub const GRAY: u32 = 0xFF88_8888;

pub const WHITE: u32 = 0xFFFF_FFFF;

pub const RED: u32 = 0xFFFF_0000;

pub const GREEN: u32 = 0xFF00_FF00;

pub const BLUE: u32 = 0xFF00_00FF;

pub const YELLOW: u32 = 0xFFFF_FF00;

pub const CYAN: u32 = 0xFF00_FFFF;

pub const MAGENTA: u32 = 0xFFFF_00FF;

/// A colour: alpha, red, green and blue, eight bits each, alpha highest.
#[derive(Clone, Copy, Debug, PartialEq, Eq)]
pub struct Color(pub u32);

impl Color {
    /// The colour with the given parts.
    pub open spec fn spec_from_argb(a: u8, r: u8, g: u8, b: u8) -> Color {
        Color(((a as u32) << 24) | ((r as u32) << 16) | ((g as u32) << 8) | (b as u32))
    }

    /// The alpha part.
    pub open spec fn spec_a(self) -> u8 {
        (self.0 >> 24) as u8
    }

    /// The red part.
    pub open spec fn spec_r(self) -> u8 {
        ((self.0 >> 16) & 0xff) as u8
    }

    /// The green part.
    pub open spec fn spec_g(self) -> u8 {
        ((self.0 >> 8) & 0xff) as u8
    }

    /// The blue part.
    pub open spec fn spec_b(self) -> u8 {
        (self.0 & 0xff) as u8
    }

    /// The colour with the given parts.
    pub fn from_argb(a: u8, r: u8, g: u8, b: u8) -> (color: Color)
        ensures
            color == Color::spec_from_argb(a, r, g, b),
    {
        Color(((a as u32) << 24) | ((r as u32) << 16) | ((g as u32) << 8) | (b as u32))
    }

    /// The opaque colour with the given parts.
    pub fn from_rgb(r: u8, g: u8, b: u8) -> (color: Color)
        ensures
            color == Color::spec_from_argb(0xff, r, g, b),
    {
        Color::from_argb(0xff, r, g, b)
    }

    /// The alpha part.
    pub fn a(self) -> (part: u8)
        ensures
            part == self.spec_a(),
    {
        let v: u32 = self.0;
        assert((v >> 24) < 256) by (bit_vector);
        (v >> 24) as u8
    }

    /// The red part.
    pub fn r(self) -> (part: u8)
        ensures
            part == self.spec_r(),
    {
        let v: u32 = self.0;
        assert(((v >> 16) & 0xff) < 256) by (bit_vector);
        ((v >> 16) & 0xff) as u8
    }

    /// The green part.
    pub fn g(self) -> (part: u8)
        ensures
            part == self.spec_g(),
    {
        let v: u32 = self.0;
        assert(((v >> 8) & 0xff) < 256) by (bit_vector);
        ((v >> 8) & 0xff) as u8
    }

    /// The blue part.
    pub fn b(self) -> (part: u8)
        ensures
            part == self.spec_b(),
    {
        let v: u32 = self.0;
        assert((v & 0xff) < 256) by (bit_vector);
        (v & 0xff) as u8
    }
}

/// The parts that a colour is made of are the parts that it has.
pub proof fn lemma_color_parts(a: u8, r: u8, g: u8, b: u8)
    ensures
        Color::spec_from_argb(a, r, g, b).spec_a() == a,
        Color::spec_from_argb(a, r, g, b).spec_r() == r,
        Color::spec_from_argb(a, r, g, b).spec_g() == g,
        Color::spec_from_argb(a, r, g, b).spec_b() == b,
{
    let a32: u32 = a as u32;
    let r32: u32 = r as u32;
    let g32: u32 = g as u32;
    let b32: u32 = b as u32;
    let v: u32 = (a32 << 24) | (r32 << 16) | (g32 << 8) | b32;
    assert((v >> 24) == a32 && ((v >> 16) & 0xff) == r32 && ((v >> 8) & 0xff) == g32 && (v
        & 0xff) == b32) by (bit_vector)
        requires
            v == (a32 << 24) | (r32 << 16) | (g32 << 8) | b32,
            a32 < 256,
            r32 < 256,
            g32 < 256,
            b32 < 256,
    ;
}

/// Whether a shape is filled, outlined, or both.
#[derive(Clone, Copy, Debug, PartialEq, Eq)]
pub enum PaintStyle {
    Fill,
    Stroke,
    StrokeAndFill,
}

/// How a shape or a run of text is painted.
#[derive(Clone, Copy, Debug, PartialEq, Eq)]
pub struct Paint {
    pub color: Color,
    pub style: PaintStyle,
}

impl Paint {
    /// The paint that fills with opaque black.
    pub open spec fn spec_black() -> Paint {
        Paint { color: Color(BLACK), style: PaintStyle::Fill }
    }

    /// A paint that fills with `color`.
    pub fn new(color: Color) -> (paint: Paint)
        ensures
            paint == (Paint { color, style: PaintStyle::Fill }),
    {
        Paint { color, style: PaintStyle::Fill }
    }
}

impl Default for Paint {
    fn default() -> (paint: Paint)
        ensures
            paint == Paint::spec_black(),
    {
        Paint { color: Color(BLACK), style: PaintStyle::Fill }
    }
}

/// A colour of a terminal: one of its own, or one mixed from parts.
#[derive(Clone, Copy, Debug, PartialEq, Eq)]
pub enum TerminalColor {
    Red,
    Grey,
    Black,
    White,
    Blue,
    Green,
    Yellow,
    Magenta,
    Cyan,
    DarkGrey,
    Rgb { r: u8, g: u8, b: u8 },
}

/// How a terminal paints a cell: the colour of the glyph and the colour
/// behind it, where one is set.
#[derive(Clone, Copy, Debug, PartialEq, Eq)]
pub struct TerminalPaint {
    pub foreground_color: Option<TerminalColor>,
    pub background_color: Option<TerminalColor>,
}

/// The terminal's colour for `color`: its own where it has one of that
/// value, none for transparency, and a mix of the parts otherwise.
pub open spec fn spec_terminal_color(color: Color) -> Option<TerminalColor> {
    if color.0 == RED {
        Some(TerminalColor::Red)
    } else if color.0 == GRAY {
        Some(TerminalColor::Grey)
    } else if color.0 == BLACK {
        Some(TerminalColor::Black)
    } else if color.0 == WHITE {
        Some(TerminalColor::White)
    } else if color.0 == BLUE {
        Some(TerminalColor::Blue)
    } else if color.0 == GREEN {
        Some(TerminalColor::Green)
    } else if color.0 == YELLOW {
        Some(TerminalColor::Yellow)
    } else if color.0 == MAGENTA {
        Some(TerminalColor::Magenta)
    } else if color.0 == CYAN {
        Some(TerminalColor::Cyan)
    } else if color.0 == DARK_GRAY {
        Some(TerminalColor::DarkGrey)
    } else if color.0 == TRANSPARENT {
        None
    } else {
        Some(TerminalColor::Rgb { r: color.spec_r(), g: color.spec_g(), b: color.spec_b() })
    }
}

/// What a terminal makes of a paint: the colour goes to the glyph where the
/// paint strokes, and behind it where the paint fills.
pub open spec fn spec_terminal_paint(paint: Paint) -> TerminalPaint {
    let color = spec_terminal_color(paint.color);
    TerminalPaint {
        foreground_color: match paint.style {
            PaintStyle::StrokeAndFill => color,
            PaintStyle::Stroke => color,
            PaintStyle::Fill => None,
        },
        background_color: match paint.style {
            PaintStyle::StrokeAndFill => color,
            PaintStyle::Fill => color,
            PaintStyle::Stroke => None,
        },
    }
}

/// Computes [`spec_terminal_color`].
pub fn terminal_color(color: Color) -> (c: Option<TerminalColor>)
    ensures
        c == spec_terminal_color(color),
{
    if color.0 == RED {
        Some(TerminalColor::Red)
    } else if color.0 == GRAY {
        Some(TerminalColor::Grey)
    } else if color.0 == BLACK {
        Some(TerminalColor::Black)
    } else if color.0 == WHITE {
        Some(TerminalColor::White)
    } else if color.0 == BLUE {
        Some(TerminalColor::Blue)
    } else if color.0 == GREEN {
        Some(TerminalColor::Green)
    } else if color.0 == YELLOW {
        Some(TerminalColor::Yellow)
    } else if color.0 == MAGENTA {
        Some(TerminalColor::Magenta)
    } else if color.0 == CYAN {
        Some(TerminalColor::Cyan)
    } else if color.0 == DARK_GRAY {
        Some(TerminalColor::DarkGrey)
    } else if color.0 == TRANSPARENT {
        None
    } else {
        Some(TerminalColor::Rgb { r: color.r(), g: color.g(), b: color.b() })
    }
}

impl From<Paint> for TerminalPaint {
    fn from(paint: Paint) -> (terminal: TerminalPaint)
        ensures
            terminal == spec_terminal_paint(paint),
    {
        let color = terminal_color(paint.color);
        TerminalPaint {
            foreground_color: match paint.style {
                PaintStyle::StrokeAndFill => color,
                PaintStyle::Stroke => color,
                PaintStyle::Fill => None,
            },
            background_color: match paint.style {
                PaintStyle::StrokeAndFill => color,
                PaintStyle::Fill => color,
                PaintStyle::Stroke => None,
            },
        }
    }
}

impl vstd::std_specs::convert::FromSpecImpl<Paint> for TerminalPaint {
    open spec fn obeys_from_spec() -> bool {
        true
    }

    open spec fn from_spec(paint: Paint) -> TerminalPaint {
        spec_terminal_paint(paint)
    }
}

/// A typeface that the drawing surface knows by number, at a size in points.
#[derive(Clone, Copy, Debug, PartialEq, Eq)]
pub struct Font {
    pub typeface: u32,
    pub size: u32,
}

impl Default for Font {
    fn default() -> (font: Font)
        ensures
            font == (Font { typeface: 0, size: 12 }),
    {
        Font { typeface: 0, size: 12 }
    }
}

/// Values that say how to paint.
pub trait IntoPaint {
    spec fn spec_into_paint(self) -> Paint;

    fn into_paint(self) -> (paint: Paint)
        ensures
            paint == self.spec_into_paint(),
    ;
}

impl IntoPaint for Color {
    open spec fn spec_into_paint(self) -> Paint {
        Paint { color: self, style: PaintStyle::Fill }
    }

    fn into_paint(self) -> (paint: Paint) {
        Paint::new(self)
    }
}

impl IntoPaint for Paint {
    open spec fn spec_into_paint(self) -> Paint {
        self
    }

    fn into_paint(self) -> (paint: Paint) {
        self
    }
}

/// Quantities that have a zero.
pub trait Zero: Sized {
    spec fn spec_zero() -> Self;

    fn zero() -> (zero: Self)
        ensures
            zero == Self::spec_zero(),
    ;
}

impl Zero for i32 {
    open spec fn spec_zero() -> i32 {
        0
    }

    fn zero() -> (zero: i32) {
        0
    }
}

impl Zero for Dp {
    open spec fn spec_zero() -> Dp {
        Dp(0)
    }

    fn zero() -> (zero: Dp) {
        Dp(0)
    }
}

impl Zero for LengthPercentage {
    open spec fn spec_zero() -> LengthPercentage {
        LengthPercentage::Points(0)
    }

    fn zero() -> (zero: LengthPercentage) {
        LengthPercentage::Points(0)
    }
}

impl Zero for LengthPercentageAuto {
    open spec fn spec_zero() -> LengthPercentageAuto {
        LengthPercentageAuto::Points(0)
    }

    fn zero() -> (zero: LengthPercentageAuto) {
        LengthPercentageAuto::Points(0)
    }
}

impl Zero for Dimension {
    open spec fn spec_zero() -> Dimension {
        Dimension::Points(0)
    }

    fn zero() -> (zero: Dimension) {
        Dimension::Points(0)
    }
}

/// Values that stand for four edges.
pub trait IntoRect<T> {
    spec fn spec_into_rect(self) -> Rect<T>;

    fn into_rect(self) -> (rect: Rect<T>)
        ensures
            rect == self.spec_into_rect(),
    ;
}

impl<T> IntoRect<T> for Rect<T> {
    open spec fn spec_into_rect(self) -> Rect<T> {
        self
    }

    fn into_rect(self) -> (rect: Rect<T>) {
        self
    }
}

/// A pair is an offset: the left and the top edge, with nothing at the
/// right and at the bottom.
impl<T: Zero> IntoRect<T> for (T, T) {
    open spec fn spec_into_rect(self) -> Rect<T> {
        Rect { left: self.0, right: T::spec_zero(), top: self.1, bottom: T::spec_zero() }
    }

    fn into_rect(self) -> (rect: Rect<T>) {
        Rect { left: self.0, right: T::zero(), top: self.1, bottom: T::zero() }
    }
}

/// Four values are the left, the right, the top and the bottom edge.
impl<T> IntoRect<T> for (T, T, T, T) {
    open spec fn spec_into_rect(self) -> Rect<T> {
        Rect { left: self.0, right: self.1, top: self.2, bottom: self.3 }
    }

    fn into_rect(self) -> (rect: Rect<T>) {
        Rect { left: self.0, right: self.1, top: self.2, bottom: self.3 }
    }
}

} // verus!
