//! What widgets can do, one trait for each ability: be laid out and painted,
//! show their children, be styled, take clicks.

use vstd::prelude::*;

use crate::buffer::Buffer;
use crate::element::{Div, Element, Text};
use crate::engine::{node_total, tree_children, tree_layout, tree_styles, MAX_NODES};
use crate::layout::{keeps, laid_out, solve_built, LayoutError};
use crate::style::{Direction, Display, Size, Style};

verus! {

/// What can be laid out and painted: a node of a widget tree whose boxes
/// keep an `H` for a click.
pub trait Paintable<H>: Sized {
    /// This node as an element of a widget tree.
    spec fn as_element(&self) -> Element<H>;

    /// Lays this node and what is below it out within `available_space`.
    ///
    /// Adds to `tree` one node for each node of the widget tree, in the same
    /// shape and with the widget's style, a text with the fixed size of its
    /// bitmap; then has the engine solve the new subtree once, from its root.
    /// Gives the id of the root's node. What `tree` held before stays as it
    /// was, also where the layout fails.
    ///
    /// Succeeds exactly when the engine can hold that many nodes more, no
    /// grid has more children than the engine's grid can count, and every
    /// text is measurable. Fails with `TooManyNodes` exactly when the engine
    /// cannot hold the nodes, else with `GridTooLong` exactly when a grid is
    /// too long, and else with `TextTooLarge`.
    fn compute_layout(&self, tree: &mut taffy::TaffyTree, available_space: Size) -> (r: Result<
        u64,
        LayoutError,
    >)
        ensures
            r is Ok <==> tree_children(*old(tree)).dom().len() + self.as_element().node_count()
                <= MAX_NODES && self.as_element().grids_fit() && self.as_element().measurable(),
            r matches Ok(root) ==> laid_out(self.as_element(), *old(tree), *final(tree), root, available_space),
            r == Err::<u64, LayoutError>(LayoutError::TooManyNodes) <==> tree_children(
                *old(tree),
            ).dom().len() + self.as_element().node_count() > MAX_NODES,
            r == Err::<u64, LayoutError>(LayoutError::GridTooLong) <==> tree_children(
                *old(tree),
            ).dom().len() + self.as_element().node_count() <= MAX_NODES && !self.as_element().grids_fit(),
            r matches Err(e) ==> e == LayoutError::TooManyNodes || e == LayoutError::GridTooLong || e
                == LayoutError::TextTooLarge,
            keeps(
                tree_children(*old(tree)),
                tree_styles(*old(tree)),
                tree_children(*final(tree)),
                tree_styles(*final(tree)),
            ),
    ;

    /// Paints this node and what is below it into a raster of the size that
    /// the layout gave the node.
    fn paint(&self, tree: &taffy::TaffyTree, root_node: u64) -> (buffer: Buffer)
        requires
            self.as_element().shaped(tree_children(*tree), root_node),
            self.as_element().paintable(tree_layout(*tree), tree_children(*tree), root_node),
        ensures
            buffer.wf(),
            buffer.width == tree_layout(*tree)[root_node].width,
            buffer.height == tree_layout(*tree)[root_node].height,
            buffer.data@ == self.as_element().painted(tree_layout(*tree), tree_children(*tree), root_node),
    ;

    /// The children of this node in the order in which they are painted, if
    /// it is of a kind that has children.
    fn as_childable(&self) -> (r: Option<&Vec<Element<H>>>)
        ensures
            match self.as_element() {
                Element::Div(d) => r matches Some(children) && *children == d.children,
                Element::Text(_) => r is None,
            },
    ;
}

/// What has children: a node that holds other nodes in the order in which
/// they are painted.
pub trait Childable<H>: Paintable<H> {
    fn children(&self) -> (r: &Vec<Element<H>>)
        ensures
            self.as_element() matches Element::Div(d) && *r == d.children,
    ;
}

/// What can be styled: a node with a layout style of its own.
pub trait Stylable: Sized {
    /// The node's style.
    spec fn styled(&self) -> Style;

    /// The node with another style and nothing else changed.
    spec fn restyled(self, style: Style) -> Self;

    /// The node's style.
    fn style(&self) -> (s: &Style)
        ensures
            *s == self.styled(),
    ;

    /// Replaces the node's style.
    fn set_style(&mut self, style: Style)
        ensures
            *final(self) == old(self).restyled(style),
    ;

    /// Gives the node a fixed width in pixels.
    fn w(self, width: u16) -> (r: Self)
        ensures
            r == self.restyled(Style { width: Some(width), ..self.styled() }),
    {
        let mut node = self;
        let style = *node.style();
        node.set_style(Style { width: Some(width), ..style });
        node
    }

    /// Gives the node a fixed height in pixels.
    fn h(self, height: u16) -> (r: Self)
        ensures
            r == self.restyled(Style { height: Some(height), ..self.styled() }),
    {
        let mut node = self;
        let style = *node.style();
        node.set_style(Style { height: Some(height), ..style });
        node
    }

    /// Sets how the node lays out its children.
    fn display(self, display: Display) -> (r: Self)
        ensures
            r == self.restyled(Style { display, ..self.styled() }),
    {
        let mut node = self;
        let style = *node.style();
        node.set_style(Style { display, ..style });
        node
    }

    /// Sets the direction in which the node lays out its children.
    fn flex_direction(self, direction: Direction) -> (r: Self)
        ensures
            r == self.restyled(Style { flex_direction: direction, ..self.styled() }),
    {
        let mut node = self;
        let style = *node.style();
        node.set_style(Style { flex_direction: direction, ..style });
        node
    }

    /// Sets how the node aligns its children across the direction of
    /// layout.
    fn align_items(self, align: taffy::AlignItems) -> (r: Self)
        ensures
            r == self.restyled(Style { align_items: Some(align), ..self.styled() }),
    {
        let mut node = self;
        let style = *node.style();
        node.set_style(Style { align_items: Some(align), ..style });
        node
    }

    /// Sets how the node spreads its children along the direction of
    /// layout.
    fn justify_content(self, justify: taffy::JustifyContent) -> (r: Self)
        ensures
            r == self.restyled(Style { justify_content: Some(justify), ..self.styled() }),
    {
        let mut node = self;
        let style = *node.style();
        node.set_style(Style { justify_content: Some(justify), ..style });
        node
    }
}

/// What can take a click: a node that may hold one click handler.
pub trait Touchable: Sized {
    /// What the node keeps for a click.
    type Handler;

    /// The node's click handler.
    spec fn handler(&self) -> Option<Self::Handler>;

    /// The node with another click handler and nothing else changed.
    spec fn rehandled(self, handler: Option<Self::Handler>) -> Self;

    /// The node's click handler.
    fn click_handler(&self) -> (r: Option<&Self::Handler>)
        ensures
            r is Some <==> self.handler() is Some,
            r matches Some(h) ==> *h == self.handler()->0,
    ;

    /// Replaces the node's click handler; `None` takes it away.
    fn set_click_handler(&mut self, handler: Option<Self::Handler>)
        ensures
            *final(self) == old(self).rehandled(handler),
    ;

    /// Gives the node a click handler in place of the one it had.
    fn on_click(self, callback: Self::Handler) -> (r: Self)
        ensures
            r == self.rehandled(Some(callback)),
    {
        let mut node = self;
        node.set_click_handler(Some(callback));
        node
    }
}

/// What an application shows: something that can be turned into a widget
/// tree.
pub trait Render {
    /// What the application keeps for a click.
    type Handler;

    fn render(&self) -> Element<Self::Handler>;
}

impl<H> Stylable for Div<H> {
    open spec fn styled(&self) -> Style {
        self.style
    }

    open spec fn restyled(self, style: Style) -> Self {
        Div { style, ..self }
    }

    fn style(&self) -> (s: &Style) {
        &self.style
    }

    fn set_style(&mut self, style: Style) {
        self.style = style;
    }
}

impl<H> Touchable for Div<H> {
    type Handler = H;

    open spec fn handler(&self) -> Option<H> {
        self.click_handler
    }

    open spec fn rehandled(self, handler: Option<H>) -> Self {
        Div { click_handler: handler, ..self }
    }

    fn click_handler(&self) -> (r: Option<&H>) {
        self.click_handler.as_ref()
    }

    fn set_click_handler(&mut self, handler: Option<H>) {
        self.click_handler = handler;
    }
}

/// A box with the width `width`, as `w` makes it.
pub open spec fn widened<H>(d: Div<H>, width: u16) -> Div<H> {
    d.restyled(Style { width: Some(width), ..d.styled() })
}

/// A box with the height `height`, as `h` makes it.
pub open spec fn heightened<H>(d: Div<H>, height: u16) -> Div<H> {
    d.restyled(Style { height: Some(height), ..d.styled() })
}

/// Of two widths, heights or click handlers given to a box one after the
/// other, the second stays, and the box is as if the first was never given.
pub proof fn lemma_last_setting_wins<H>(d: Div<H>, first: u16, second: u16, h1: H, h2: H)
    ensures
        widened(widened(d, first), second) == widened(d, second),
        heightened(heightened(d, first), second) == heightened(d, second),
        d.rehandled(Some(h1)).rehandled(Some(h2)) == d.rehandled(Some(h2)),
{
}

impl<H> Paintable<H> for Div<H> {
    open spec fn as_element(&self) -> Element<H> {
        Element::Div(*self)
    }

    fn compute_layout(&self, tree: &mut taffy::TaffyTree, available_space: Size) -> (r: Result<
        u64,
        LayoutError,
    >) {
        Div::compute_layout(self, tree, available_space)
    }

    fn paint(&self, tree: &taffy::TaffyTree, root_node: u64) -> (buffer: Buffer) {
        Div::paint(self, tree, root_node)
    }

    fn as_childable(&self) -> (r: Option<&Vec<Element<H>>>) {
        Some(&self.children)
    }
}

impl<H> Childable<H> for Div<H> {
    fn children(&self) -> (r: &Vec<Element<H>>) {
        &self.children
    }
}

impl<H> Paintable<H> for Text {
    open spec fn as_element(&self) -> Element<H> {
        Element::Text(*self)
    }

    fn compute_layout(&self, tree: &mut taffy::TaffyTree, available_space: Size) -> (r: Result<
        u64,
        LayoutError,
    >) {
        let ghost before = *tree;
        let held = node_total(tree);
        if held >= MAX_NODES {
            return Err(LayoutError::TooManyNodes);
        }
        let root = match self.build(tree) {
            Ok(root) => root,
            Err(e) => {
                return Err(e);
            },
        };
        solve_built::<H>(Ghost(Element::Text(*self)), Ghost(before), tree, root, available_space)
    }

    fn paint(&self, tree: &taffy::TaffyTree, root_node: u64) -> (buffer: Buffer) {
        Text::paint(self, tree, root_node)
    }

    fn as_childable(&self) -> (r: Option<&Vec<Element<H>>>) {
        None
    }
}

impl<H> Paintable<H> for Element<H> {
    open spec fn as_element(&self) -> Element<H> {
        *self
    }

    fn compute_layout(&self, tree: &mut taffy::TaffyTree, available_space: Size) -> (r: Result<
        u64,
        LayoutError,
    >) {
        Element::compute_layout(self, tree, available_space)
    }

    fn paint(&self, tree: &taffy::TaffyTree, root_node: u64) -> (buffer: Buffer) {
        Element::paint(self, tree, root_node)
    }

    fn as_childable(&self) -> (r: Option<&Vec<Element<H>>>) {
        match self {
            Element::Div(d) => Some(&d.children),
            Element::Text(_) => None,
        }
    }
}

} // verus!
