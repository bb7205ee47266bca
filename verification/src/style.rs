//! The description of a node that the layout engine works from.
//!
//! Lengths are whole points; percentages are counted in thousandths.

use vstd::prelude::*;
use crate::unit::{Dp, Rect, Size};

verus! {

/// A position along an axis of a container, as the layout engine knows it.
#[derive(Clone, Copy, Debug, PartialEq, Eq)]
pub enum AlignItems {
    Start,
    End,
    Center,
}

/// The axis along which a container lays out its children.
#[derive(Clone, Copy, Debug, PartialEq, Eq)]
pub enum FlexDirection {
    Row,
    Column,
}

/// A length, or a share of the parent.
#[derive(Clone, Copy, Debug, PartialEq, Eq)]
pub enum LengthPercentage {
    Points(i32),
    Percent(i32),
}

/// A length, a share of the parent, or whatever the engine finds.
#[derive(Clone, Copy, Debug, PartialEq, Eq)]
pub enum LengthPercentageAuto {
    Points(i32),
    Percent(i32),
    Auto,
}

/// The extent of a node along one axis.
#[derive(Clone, Copy, Debug, PartialEq, Eq)]
pub enum Dimension {
    Points(i32),
    Percent(i32),
    Auto,
}

impl LengthPercentage {
    /// A length of so many density-independent pixels.
    pub fn from_dp(dp: Dp) -> (length: LengthPercentage)
        ensures
            length == LengthPercentage::Points(dp.0),
    {
        LengthPercentage::Points(dp.0)
    }
}

/// How a node takes part in layout.
#[derive(Clone, Copy, Debug, PartialEq, Eq)]
pub struct Style {
    pub size: Size<Dimension>,
    pub flex_direction: FlexDirection,
    pub gap: Size<LengthPercentage>,
    pub justify_items: Option<AlignItems>,
    pub justify_self: Option<AlignItems>,
    pub align_items: Option<AlignItems>,
    pub padding: Rect<LengthPercentage>,
    pub inset: Rect<LengthPercentageAuto>,
}

impl Style {
    /// The style of a node about which nothing is said: no fixed size, a row,
    /// no gap, no alignment, no padding, no offset.
    pub open spec fn spec_default() -> Style {
        Style {
            size: Size { width: Dimension::Auto, height: Dimension::Auto },
            flex_direction: FlexDirection::Row,
            gap: Size {
                width: LengthPercentage::Points(0),
                height: LengthPercentage::Points(0),
            },
            justify_items: None,
            justify_self: None,
            align_items: None,
            padding: Rect {
                left: LengthPercentage::Points(0),
                right: LengthPercentage::Points(0),
                top: LengthPercentage::Points(0),
                bottom: LengthPercentage::Points(0),
            },
            inset: Rect {
                left: LengthPercentageAuto::Auto,
                right: LengthPercentageAuto::Auto,
                top: LengthPercentageAuto::Auto,
                bottom: LengthPercentageAuto::Auto,
            },
        }
    }
}

impl Default for Style {
    fn default() -> (style: Style)
        ensures
            style == Style::spec_default(),
    {
        Style {
            size: Size { width: Dimension::Auto, height: Dimension::Auto },
            flex_direction: FlexDirection::Row,
            gap: Size {
                width: LengthPercentage::Points(0),
                height: LengthPercentage::Points(0),
            },
            justify_items: None,
            justify_self: None,
            align_items: None,
            padding: Rect {
                left: LengthPercentage::Points(0),
                right: LengthPercentage::Points(0),
                top: LengthPercentage::Points(0),
                bottom: LengthPercentage::Points(0),
            },
            inset: Rect {
                left: LengthPercentageAuto::Auto,
                right: LengthPercentageAuto::Auto,
                top: LengthPercentageAuto::Auto,
                bottom: LengthPercentageAuto::Auto,
            },
        }
    }
}

} // verus!
