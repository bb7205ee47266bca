//! A declarative UI toolkit core: immutable trees of composable views that are
//! measured into a layout tree, rendered into a list of draw commands and
//! dispatched input events, all over integer pixel geometry.

pub mod alignment;
pub mod arrangement;
pub mod button;
pub mod canvas;
pub mod children;
pub mod layout;
pub mod modifier;
pub mod paint;
pub mod parse;
pub mod plan;
pub mod runner;
pub mod stacking;
pub mod style;
pub mod terminal;
pub mod text;
pub mod unit;
pub mod view;
