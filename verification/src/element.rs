//! The widget tree.

use vstd::prelude::*;

use crate::font::{glyph_run, run_fits, run_height, run_width, FontManager, Glyph};
use crate::engine::MAX_GRID_CHILDREN;
use crate::style::{Display, Style};
use crate::utils::Color;

verus! {

/// A box that may have a background, children and a click handler.
///
/// `H` is what the application keeps for a click: a message, an index into
/// its own table, or a boxed callback.
pub struct Div<H> {
    pub style: Style,
    pub children: Vec<Element<H>>,
    pub click_handler: Option<H>,
    pub background_color: Option<Color>,
}

/// A leaf that shows a string in one font, size and color.
pub struct Text {
    pub content: String,
    /// Pixels per em.
    pub size: u16,
    pub color: Color,
    pub font_manager: FontManager,
}

/// A node of the widget tree.
pub enum Element<H> {
    Div(Div<H>),
    Text(Text),
}

/// The nodes in the first `k` trees of a list.
pub open spec fn count_nodes<H>(children: Seq<Element<H>>, k: nat) -> nat
    decreases children, k,
{
    if k == 0 || k > children.len() {
        0
    } else {
        count_nodes(children, (k - 1) as nat) + children[k - 1].node_count()
    }
}

impl<H> Div<H> {
    /// A box without background, children and click handler, sized by the
    /// layout engine.
    pub fn new() -> (d: Self)
        ensures
            d.style == Style::initial(),
            d.children@ == Seq::<Element<H>>::empty(),
            d.click_handler is None,
            d.background_color is None,
    {
        Div { style: Style::new(), children: Vec::new(), click_handler: None, background_color: None }
    }

    /// Gives the box a background color in place of the one it had.
    pub fn bg(self, color: Color) -> (d: Self)
        ensures
            d == (Div { background_color: Some(color), ..self }),
    {
        let mut d = self;
        d.background_color = Some(color);
        d
    }

    /// Makes `child` the only child of the box.
    pub fn child(self, child: Element<H>) -> (d: Self)
        ensures
            d.children@ == seq![child],
            d.style == self.style,
            d.click_handler == self.click_handler,
            d.background_color == self.background_color,
    {
        let mut d = self;
        d.children = vec![child];
        d
    }

    /// Makes `children` the children of the box, the first to be painted
    /// first.
    pub fn children(self, children: Vec<Element<H>>) -> (d: Self)
        ensures
            d == (Div { children, ..self }),
    {
        let mut d = self;
        d.children = children;
        d
    }
}

impl<H> From<Div<H>> for Element<H> {
    fn from(d: Div<H>) -> (e: Self)
    {
        Element::Div(d)
    }
}

impl<H> vstd::std_specs::convert::FromSpecImpl<Div<H>> for Element<H> {
    open spec fn obeys_from_spec() -> bool {
        true
    }

    open spec fn from_spec(d: Div<H>) -> Self {
        Element::Div(d)
    }
}

impl<H> From<Text> for Element<H> {
    fn from(t: Text) -> (e: Self)
    {
        Element::Text(t)
    }
}

impl<H> vstd::std_specs::convert::FromSpecImpl<Text> for Element<H> {
    open spec fn obeys_from_spec() -> bool {
        true
    }

    open spec fn from_spec(t: Text) -> Self {
        Element::Text(t)
    }
}

/// A box without background, children and click handler.
pub fn div<H>() -> (d: Div<H>)
    ensures
        d.style == Style::initial(),
        d.children@ == Seq::<Element<H>>::empty(),
        d.click_handler is None,
        d.background_color is None,
{
    Div::new()
}

/// A text in black at 16 pixels per em.
pub fn text(content: &str, font_manager: FontManager) -> (t: Text)
    ensures
        t.content@ == content@,
        t.size == 16,
        t.color == (Color { r: 0, g: 0, b: 0, a: 255 }),
        t.font_manager == font_manager,
{
    Text::new(content, font_manager)
}

impl Text {
    /// A text in black at 16 pixels per em.
    pub fn new(content: &str, font_manager: FontManager) -> (t: Self)
        ensures
            t.content@ == content@,
            t.size == 16,
            t.color == (Color { r: 0, g: 0, b: 0, a: 255 }),
            t.font_manager == font_manager,
    {
        Text { content: content.to_owned(), size: 16, color: Color::rgb(0, 0, 0), font_manager }
    }

    /// Sets the size in pixels per em.
    pub fn size(self, size: u16) -> (t: Self)
        ensures
            t == (Text { size, ..self }),
    {
        let mut t = self;
        t.size = size;
        t
    }

    /// Sets the color.
    pub fn color(self, color: Color) -> (t: Self)
        ensures
            t == (Text { color, ..self }),
    {
        let mut t = self;
        t.color = color;
        t
    }

    /// The glyphs of the content in this text's font and size.
    pub open spec fn glyphs(&self) -> Seq<Glyph> {
        glyph_run(*self.font_manager.default_font, self.content@, self.size)
    }

    /// Whether the bitmap of this text can be made and laid over a raster:
    /// it can be held in memory, and its sides are no longer than a raster's
    /// can be.
    pub open spec fn drawable(&self) -> bool {
        &&& run_fits(self.glyphs())
        &&& run_width(self.glyphs(), self.glyphs().len()) <= u32::MAX
        &&& run_height(self.glyphs(), self.glyphs().len()) <= u32::MAX
    }

    /// Whether the bitmap of this text can be made and its sides can be
    /// given to the layout engine as lengths, which end at 65535 pixels.
    pub open spec fn measurable(&self) -> bool {
        &&& run_fits(self.glyphs())
        &&& run_width(self.glyphs(), self.glyphs().len()) <= u16::MAX
        &&& run_height(self.glyphs(), self.glyphs().len()) <= u16::MAX
    }

    /// The style of a text in layout: the fixed size of its bitmap.
    pub open spec fn layout_style(&self) -> Style {
        Style::fixed(
            run_width(self.glyphs(), self.glyphs().len()) as u16,
            run_height(self.glyphs(), self.glyphs().len()) as u16,
        )
    }
}

impl<H> Element<H> {
    /// The number of nodes of this tree.
    pub open spec fn node_count(self) -> nat
        decreases self,
    {
        match self {
            Element::Div(d) => 1 + count_nodes(d.children@, d.children@.len()),
            Element::Text(_) => 1,
        }
    }

    /// The style that this node has in layout.
    pub open spec fn layout_style(self) -> Style {
        match self {
            Element::Div(d) => d.style,
            Element::Text(t) => t.layout_style(),
        }
    }

    /// Whether no grid of this tree has more children than the engine's grid
    /// can count.
    pub open spec fn grids_fit(self) -> bool
        decreases self,
    {
        match self {
            Element::Div(d) => {
                &&& d.style.display == Display::Grid ==> d.children@.len() <= MAX_GRID_CHILDREN
                &&& forall|i: int| 0 <= i < d.children@.len() ==> (#[trigger] d.children@[i]).grids_fit()
            },
            Element::Text(_) => true,
        }
    }

    /// Whether every text of this tree is drawable.
    pub open spec fn drawable(self) -> bool
        decreases self,
    {
        match self {
            Element::Div(d) => forall|i: int|
                0 <= i < d.children@.len() ==> (#[trigger] d.children@[i]).drawable(),
            Element::Text(t) => t.drawable(),
        }
    }

    /// Whether every text of this tree is measurable.
    pub open spec fn measurable(self) -> bool
        decreases self,
    {
        match self {
            Element::Div(d) => forall|i: int|
                0 <= i < d.children@.len() ==> (#[trigger] d.children@[i]).measurable(),
            Element::Text(t) => t.measurable(),
        }
    }

    /// Whether the engine's node `node` and the nodes below it are nodes of
    /// the tree, each with as many children as its widget.
    pub open spec fn shaped(self, kids: Map<u64, Seq<u64>>, node: u64) -> bool
        decreases self,
    {
        &&& kids.dom().contains(node)
        &&& match self {
            Element::Div(d) => {
                &&& kids[node].len() == d.children@.len()
                &&& forall|i: int|
                    0 <= i < d.children@.len() ==> (#[trigger] d.children@[i]).shaped(kids, kids[node][i])
            },
            Element::Text(_) => kids[node].len() == 0,
        }
    }

    /// Whether the engine's node `node` and the nodes below it are shaped as
    /// this tree is: each node has the style of its widget and as many
    /// children as its widget, in the same order.
    pub open spec fn mirrors(self, kids: Map<u64, Seq<u64>>, styles: Map<u64, Style>, node: u64) -> bool
        decreases self,
    {
        &&& self.shaped(kids, node)
        &&& styles[node] == self.layout_style()
        &&& match self {
            Element::Div(d) => {
                forall|i: int|
                    0 <= i < d.children@.len() ==> (#[trigger] d.children@[i]).mirrors(
                        kids,
                        styles,
                        kids[node][i],
                    )
            },
            Element::Text(_) => true,
        }
    }
}

/// A tree whose texts can be measured for layout can be drawn.
pub proof fn lemma_measurable_is_drawable<H>(element: Element<H>)
    requires
        element.measurable(),
    ensures
        element.drawable(),
    decreases element,
{
    match element {
        Element::Div(d) => {
            assert forall|i: int| 0 <= i < d.children@.len() implies (#[trigger] d.children@[i]).drawable() by {
                lemma_measurable_is_drawable(d.children@[i]);
            }
        },
        Element::Text(_) => {},
    }
}

} // verus!
