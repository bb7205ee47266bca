//! Text: a run of characters in one font and one paint.

use vstd::prelude::*;
use vstd::view::View as _;
use crate::layout::{Layout, LayoutTree, NodeId};
use crate::paint::{Font, IntoPaint, Paint};
use crate::plan::{leaf_plan, lemma_leaf_plan, Plan};
use crate::style::{Dimension, Style};
use crate::unit::{clamp_i32, saturate, Density, Point, Size};
use crate::view::{
    measure_leaf, place_leaf, Action, DrawCommand, Event, RenderContext, View,
};

verus! {

/// The style of a node that asks for exactly `extent`.
pub open spec fn spec_fixed_style(extent: Size) -> Style {
    Style {
        size: Size {
            width: Dimension::Points(extent.width),
            height: Dimension::Points(extent.height),
        },
        ..Style::spec_default()
    }
}

/// Computes [`spec_fixed_style`].
pub fn fixed_style(extent: Size) -> (style: Style)
    ensures
        style == spec_fixed_style(extent),
{
    let mut style = Style::default();
    style.size = Size {
        width: Dimension::Points(extent.width),
        height: Dimension::Points(extent.height),
    };
    style
}

/// A run of text. Its extent on a graphical surface is what the font
/// backend has measured for the text, the font and the paint it holds now;
/// whoever changes one of them measures again.
#[derive(Clone, Debug, PartialEq, Eq)]
pub struct Text {
    pub text: String,
    pub font: Font,
    pub paint: Paint,
    pub extent: Size,
}

impl Text {
    /// The extent that the text asks for: what was measured for it on a
    /// graphical surface, and one cell for each byte, in one line, on a
    /// terminal.
    pub open spec fn spec_extent(&self, terminal: bool) -> Size {
        if terminal {
            Size {
                width: clamp_i32(vstd::utf8::encode_utf8(self.text@).len() as int) as i32,
                height: 1,
            }
        } else {
            self.extent
        }
    }

    /// The same text in another font.
    pub fn font(self, font: Font) -> (text: Text)
        ensures
            text == (Text { font, ..self }),
    {
        Text { text: self.text, font, paint: self.paint, extent: self.extent }
    }

    /// The same text at another size.
    pub fn font_size(self, size: u32) -> (text: Text)
        ensures
            text == (Text { font: Font { size, ..self.font }, ..self }),
    {
        Text {
            text: self.text,
            font: Font { typeface: self.font.typeface, size },
            paint: self.paint,
            extent: self.extent,
        }
    }

    /// The same text with another extent: the one that was measured for it
    /// after its font or its paint was changed.
    pub fn extent(self, extent: Size) -> (text: Text)
        ensures
            text == (Text { extent, ..self }),
    {
        Text { text: self.text, font: self.font, paint: self.paint, extent }
    }

    /// The same text in another paint.
    pub fn paint<P: IntoPaint>(self, paint: P) -> (text: Text)
        ensures
            text == (Text { paint: paint.spec_into_paint(), ..self }),
    {
        Text { text: self.text, font: self.font, paint: paint.into_paint(), extent: self.extent }
    }
}

impl View for Text {
    open spec fn plan(&self, terminal: bool) -> Seq<Plan> {
        leaf_plan(spec_fixed_style(self.spec_extent(terminal)))
    }

    open spec fn spec_ev(&self, event: Event, how: RenderContext) -> Seq<Action> {
        Seq::empty()
    }

    open spec fn spec_render(&self, how: RenderContext) -> Seq<DrawCommand> {
        seq![
            DrawCommand::Text {
                text: self.text,
                position: how.layout.location,
                font: self.font,
                paint: self.paint,
            },
        ]
    }

    open spec fn spec_size(&self, terminal: bool) -> Size {
        self.spec_extent(terminal)
    }

    open spec fn spec_layouts(
        &self,
        position: Point,
        canvas: Size,
        density: Density,
        terminal: bool,
    ) -> Seq<Layout> {
        seq![Layout { size: self.spec_size(terminal), location: position }]
    }

    proof fn lemma_layouts(&self, position: Point, canvas: Size, density: Density, terminal: bool) {
    }

    proof fn lemma_plan(&self, terminal: bool) {
        lemma_leaf_plan(spec_fixed_style(self.spec_extent(terminal)));
    }

    fn style(&self, terminal: bool) -> (style: Style) {
        fixed_style(self.size(terminal))
    }

    fn size(&self, terminal: bool) -> (size: Size) {
        if terminal {
            let bytes = self.text.as_str().as_bytes();
            Size { width: saturate(bytes.len() as i128), height: 1 }
        } else {
            self.extent
        }
    }

    fn measure(&self, current: Option<NodeId>, tree: &mut LayoutTree, terminal: bool) -> (node:
        NodeId) {
        measure_leaf(self.style(terminal), current, tree)
    }

    fn place(
        &self,
        node: NodeId,
        position: Point,
        canvas: Size,
        density: Density,
        tree: &mut LayoutTree,
        terminal: bool,
    ) {
        place_leaf(node, position, self.size(terminal), tree)
    }

    fn render(&self, how: &RenderContext, out: &mut Vec<DrawCommand>) {
        out.push(
            DrawCommand::Text {
                text: self.text.clone(),
                position: how.layout.location,
                font: self.font,
                paint: self.paint,
            },
        );
        assert(out@ =~= old(out)@ + self.spec_render(*how));
    }

    fn ev(&self, event: &Event, how: &RenderContext, out: &mut Vec<Action>) {
        assert(out@ =~= old(out)@ + self.spec_ev(*event, *how));
    }
}

/// A run of text in the default font, painted black, of the extent that was
/// measured for it.
pub fn text(content: &str, extent: Size) -> (view: Text)
    ensures
        view.text@ == content@,
        view.font == (Font { typeface: 0, size: 12 }),
        view.paint == Paint::spec_black(),
        view.extent == extent,
{
    Text { text: content.to_owned(), font: Font::default(), paint: Paint::default(), extent }
}

} // verus!
