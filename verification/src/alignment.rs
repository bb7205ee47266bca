//! Alignment: where a piece of content sits inside a larger space.
//!
//! A position along one axis is a bias between `-1` (start) and `+1` (end),
//! counted in thousandths; `0` is the centre and other values interpolate.

use vstd::prelude::*;
use crate::style::AlignItems;
use crate::unit::{
    clamp_i32, lemma_round_div_bounds, lemma_round_div_exact, lemma_round_div_scaled,
    lemma_round_div_split, round_div, rounded_div, saturate, Point, Size,
};

verus! {

/// The offset that a bias gives to content with `room` left over around it:
/// `round((room / 2) * (1 + bias))`, with `bias` in thousandths.
pub open spec fn bias_offset(bias: int, room: int) -> int {
    round_div(room * (1000 + bias), 2000)
}

/// Computes [`bias_offset`], saturated to `i32`.
pub fn offset_by_bias(bias: i32, room: i64) -> (offset: i32)
    ensures
        offset == clamp_i32(bias_offset(bias as int, room as int)),
{
    let factor: i128 = 1000 + bias as i128;
    proof {
        assert(-0x8000_0000_0000_0000 * 0x1_0000_0000 <= (room as int) * (factor as int)
            <= 0x8000_0000_0000_0000 * 0x1_0000_0000) by (nonlinear_arith)
            requires
                -0x8000_0000_0000_0000 <= room < 0x8000_0000_0000_0000,
                -0x1_0000_0000 <= factor <= 0x1_0000_0000,
        ;
    }
    saturate(rounded_div((room as i128) * factor, 2000))
}

/// Computes [`bias_offset`] for room of any size that is left over.
pub fn shift_by_bias(bias: i32, room: i128) -> (shift: i128)
    requires
        0 <= room <= 0x4_0000_0000_0000_0000_0000_0000,
    ensures
        shift == bias_offset(bias as int, room as int),
        -0x1000_0000_0000_0000_0000_0000_0000_0000 <= shift
            <= 0x1000_0000_0000_0000_0000_0000_0000_0000,
{
    let factor: i128 = 1000 + bias as i128;
    let magnitude: i128 = if factor < 0 {
        -factor
    } else {
        factor
    };
    let whole: i128 = room / 2000;
    let rest: i128 = room % 2000;
    proof {
        lemma_round_div_split(room as int, magnitude as int, 2000);
        assert(0 <= whole <= 0x100_0000_0000_0000_0000_0000);
        assert(0 <= (whole as int) * (magnitude as int) <= 0x100_0000_0000_0000_0000_0000
            * 0x1_0000_0000) by (nonlinear_arith)
            requires
                0 <= whole <= 0x100_0000_0000_0000_0000_0000,
                0 <= magnitude <= 0x1_0000_0000,
        ;
        assert(0 <= (rest as int) * (magnitude as int) <= 2000 * 0x1_0000_0000)
            by (nonlinear_arith)
            requires
                0 <= rest < 2000,
                0 <= magnitude <= 0x1_0000_0000,
        ;
        lemma_round_div_bounds((rest as int) * (magnitude as int), 2000);
    }
    let shift: i128 = whole * magnitude + rounded_div(rest * magnitude, 2000);
    if factor < 0 {
        assert((room as int) * (factor as int) == (room as int) * (-(magnitude as int)));
        -shift
    } else {
        shift
    }
}

/// The three named positions of the layout engine nearest to a bias: the
/// start below `-0.5`, the end above `+0.5`, the centre between.
pub open spec fn nearest_position(bias: int) -> AlignItems {
    if bias < -500 {
        AlignItems::Start
    } else if bias > 500 {
        AlignItems::End
    } else {
        AlignItems::Center
    }
}

fn position_of(bias: i32) -> (p: AlignItems)
    ensures
        p == nearest_position(bias as int),
{
    if bias < -500 {
        AlignItems::Start
    } else if bias > 500 {
        AlignItems::End
    } else {
        AlignItems::Center
    }
}

/// A position along the horizontal axis.
#[derive(Clone, Copy, Debug, PartialEq, Eq)]
pub enum Horizontal {
    Start,
    Center,
    End,
    /// A bias in thousandths: `-1000` is the start, `1000` the end.
    Custom(i32),
}

impl Horizontal {
    /// The bias in thousandths.
    pub open spec fn spec_bias(self) -> int {
        match self {
            Horizontal::Start => -1000,
            Horizontal::Center => 0,
            Horizontal::End => 1000,
            Horizontal::Custom(bias) => bias as int,
        }
    }

    /// The offset of content `size` wide inside `space`.
    pub open spec fn spec_align(self, size: int, space: int) -> int {
        clamp_i32(bias_offset(self.spec_bias(), space - size))
    }

    /// The bias in thousandths.
    pub fn bias(&self) -> (bias: i32)
        ensures
            bias == self.spec_bias(),
    {
        match self {
            Horizontal::Start => -1000,
            Horizontal::Center => 0,
            Horizontal::End => 1000,
            Horizontal::Custom(bias) => *bias,
        }
    }

    /// The offset of content of extent `size` inside `space`, saturated.
    pub fn align(&self, size: i32, space: i32) -> (offset: i32)
        ensures
            offset == self.spec_align(size as int, space as int),
    {
        offset_by_bias(self.bias(), space as i64 - size as i64)
    }

    /// The position handed to the layout engine.
    pub fn justify(&self) -> (p: AlignItems)
        ensures
            p == nearest_position(self.spec_bias()),
    {
        position_of(self.bias())
    }
}

impl Default for Horizontal {
    fn default() -> (h: Horizontal)
        ensures
            h == Horizontal::Center,
    {
        Horizontal::Center
    }
}

/// A position along the vertical axis.
#[derive(Clone, Copy, Debug, PartialEq, Eq)]
pub enum Vertical {
    Top,
    Center,
    Bottom,
    /// A bias in thousandths: `-1000` is the top, `1000` the bottom.
    Custom(i32),
}

impl Vertical {
    /// The bias in thousandths.
    pub open spec fn spec_bias(self) -> int {
        match self {
            Vertical::Top => -1000,
            Vertical::Center => 0,
            Vertical::Bottom => 1000,
            Vertical::Custom(bias) => bias as int,
        }
    }

    /// The offset of content `size` high inside `space`.
    pub open spec fn spec_align(self, size: int, space: int) -> int {
        clamp_i32(bias_offset(self.spec_bias(), space - size))
    }

    /// The bias in thousandths.
    pub fn bias(&self) -> (bias: i32)
        ensures
            bias == self.spec_bias(),
    {
        match self {
            Vertical::Top => -1000,
            Vertical::Center => 0,
            Vertical::Bottom => 1000,
            Vertical::Custom(bias) => *bias,
        }
    }

    /// The offset of content of extent `size` inside `space`, saturated.
    pub fn align(&self, size: i32, space: i32) -> (offset: i32)
        ensures
            offset == self.spec_align(size as int, space as int),
    {
        offset_by_bias(self.bias(), space as i64 - size as i64)
    }

    /// The position handed to the layout engine.
    pub fn align_items(&self) -> (p: AlignItems)
        ensures
            p == nearest_position(self.spec_bias()),
    {
        position_of(self.bias())
    }
}

impl Default for Vertical {
    fn default() -> (v: Vertical)
        ensures
            v == Vertical::Center,
    {
        Vertical::Center
    }
}

/// A position on both axes.
#[derive(Clone, Copy, Debug, PartialEq, Eq)]
pub struct Alignment {
    pub horizontal: Horizontal,
    pub vertical: Vertical,
}

impl Alignment {
    /// At the top, at the start.
    pub fn top_start() -> (a: Alignment)
        ensures
            a.horizontal == Horizontal::Start,
            a.vertical == Vertical::Top,
    {
        Alignment { horizontal: Horizontal::Start, vertical: Vertical::Top }
    }

    /// At the top, in the middle.
    pub fn top_center() -> (a: Alignment)
        ensures
            a.horizontal == Horizontal::Center,
            a.vertical == Vertical::Top,
    {
        Alignment { horizontal: Horizontal::Center, vertical: Vertical::Top }
    }

    /// At the top, at the end.
    pub fn top_end() -> (a: Alignment)
        ensures
            a.horizontal == Horizontal::End,
            a.vertical == Vertical::Top,
    {
        Alignment { horizontal: Horizontal::End, vertical: Vertical::Top }
    }

    /// Half way down, at the start.
    pub fn center_start() -> (a: Alignment)
        ensures
            a.horizontal == Horizontal::Start,
            a.vertical == Vertical::Center,
    {
        Alignment { horizontal: Horizontal::Start, vertical: Vertical::Center }
    }

    /// In the middle.
    pub fn center() -> (a: Alignment)
        ensures
            a.horizontal == Horizontal::Center,
            a.vertical == Vertical::Center,
    {
        Alignment { horizontal: Horizontal::Center, vertical: Vertical::Center }
    }

    /// Half way down, at the end.
    pub fn center_end() -> (a: Alignment)
        ensures
            a.horizontal == Horizontal::End,
            a.vertical == Vertical::Center,
    {
        Alignment { horizontal: Horizontal::End, vertical: Vertical::Center }
    }

    /// At the bottom, at the start.
    pub fn bottom_start() -> (a: Alignment)
        ensures
            a.horizontal == Horizontal::Start,
            a.vertical == Vertical::Bottom,
    {
        Alignment { horizontal: Horizontal::Start, vertical: Vertical::Bottom }
    }

    /// At the bottom, in the middle.
    pub fn bottom_center() -> (a: Alignment)
        ensures
            a.horizontal == Horizontal::Center,
            a.vertical == Vertical::Bottom,
    {
        Alignment { horizontal: Horizontal::Center, vertical: Vertical::Bottom }
    }

    /// At the bottom, at the end.
    pub fn bottom_end() -> (a: Alignment)
        ensures
            a.horizontal == Horizontal::End,
            a.vertical == Vertical::Bottom,
    {
        Alignment { horizontal: Horizontal::End, vertical: Vertical::Bottom }
    }

    /// The offset of content of `size` inside `space`, axis by axis.
    pub fn align(&self, size: Size, space: Size) -> (offset: Point)
        ensures
            offset.x == self.horizontal.spec_align(size.width as int, space.width as int),
            offset.y == self.vertical.spec_align(size.height as int, space.height as int),
    {
        Point {
            x: self.horizontal.align(size.width, space.width),
            y: self.vertical.align(size.height, space.height),
        }
    }
}

impl Default for Alignment {
    fn default() -> (a: Alignment)
        ensures
            a.horizontal == Horizontal::Center,
            a.vertical == Vertical::Center,
    {
        Alignment { horizontal: Horizontal::Center, vertical: Vertical::Center }
    }
}

/// The boundary values of the bias scale: at the start content does not move,
/// at the end it takes up all the room that is left, and at the centre it takes
/// half of it, rounded.
pub proof fn lemma_align_boundaries(size: i32, space: i32)
    requires
        size <= space,
        space - size <= i32::MAX,
    ensures
        Horizontal::Start.spec_align(size as int, space as int) == 0,
        Horizontal::End.spec_align(size as int, space as int) == space - size,
        Horizontal::Center.spec_align(size as int, space as int) == round_div(space - size, 2),
        Vertical::Top.spec_align(size as int, space as int) == 0,
        Vertical::Bottom.spec_align(size as int, space as int) == space - size,
        Vertical::Center.spec_align(size as int, space as int) == round_div(space - size, 2),
{
    let room: int = space - size;
    let start: int = 1000 + Horizontal::Start.spec_bias();
    let end: int = 1000 + Horizontal::End.spec_bias();
    let center: int = 1000 + Horizontal::Center.spec_bias();
    assert(room * start == 0) by (nonlinear_arith)
        requires
            start == 0,
    ;
    assert(room * end == room * 2000) by (nonlinear_arith)
        requires
            end == 2000,
    ;
    assert(room * center == room * 1000) by (nonlinear_arith)
        requires
            center == 1000,
    ;
    lemma_round_div_exact(room, 2000);
    lemma_round_div_scaled(room, 2, 1000);
    assert(2 * 1000 == 2000);
    assert(round_div(0, 2000) == 0) by {
        lemma_round_div_exact(0, 2000);
    }
    assert(bias_offset(-1000, room) == 0);
    assert(bias_offset(1000, room) == room);
    assert(bias_offset(0, room) == round_div(room, 2));
    assert(0 <= round_div(room, 2) <= room) by {
        lemma_round_div_bounds(room, 2);
    }
}

/// A bias between start and end keeps content inside the room it is given.
pub proof fn lemma_bias_offset_within(bias: int, room: int)
    requires
        -1000 <= bias <= 1000,
        room >= 0,
    ensures
        0 <= bias_offset(bias, room) <= room,
{
    let factor: int = 1000 + bias;
    let n: int = room * factor;
    let d: int = 2000;
    assert(0 <= n <= room * d) by (nonlinear_arith)
        requires
            n == room * factor,
            0 <= factor <= d,
            room >= 0,
    ;
    assert(0 <= (2 * n + d) / (2 * d) <= room) by (nonlinear_arith)
        requires
            d == 2000,
            0 <= n <= room * d,
    ;
}

} // verus!
