//! The render context: one widget tree with its solved layout, from which
//! the window is painted and every click is resolved.

use vstd::prelude::*;

use crate::buffer::Buffer;
use crate::element::{count_nodes, lemma_measurable_is_drawable, Div, Element};
use crate::engine::{new_tree, tree_children, tree_layout, tree_styles, MAX_NODES};
use crate::hit::find_mouse_target;
use crate::layout::{count_children, create_node, grids_fit_in, laid_out, solve_built, LayoutError};
use crate::mouse::MouseEvent;
use crate::style::{AvailableSpace, Size, Style};
use crate::window::WindowSettings;

verus! {

/// Why no window could be opened.
#[derive(Clone, Copy, Debug, PartialEq, Eq, Structural)]
pub enum OpenError {
    /// A side of the window is longer than 65535 pixels, the longest that
    /// the layout engine is asked for.
    WindowTooLarge,
    /// The layout failed.
    Layout(LayoutError),
    /// A raster for the window, or for a node in it, cannot be held in
    /// memory.
    BufferTooLarge,
}

/// A widget tree with the layout that was solved for it.
///
/// The root is a box of the size of the window that holds what the
/// application shows. The tree is laid out once, when the context is made;
/// painting and click resolution then read the same geometry.
pub struct AppContext<H> {
    taffy: taffy::TaffyTree,
    root_node_id: u64,
    root_element: Div<H>,
}

impl<H> AppContext<H> {
    /// The layout mirrors the widget tree, and the tree can be painted.
    #[verifier::type_invariant]
    closed spec fn inv(self) -> bool {
        &&& Element::Div(self.root_element).mirrors(
            tree_children(self.taffy),
            tree_styles(self.taffy),
            self.root_node_id,
        )
        &&& Element::Div(self.root_element).paintable(
            tree_layout(self.taffy),
            tree_children(self.taffy),
            self.root_node_id,
        )
    }

    /// The box of the size of the window.
    pub closed spec fn root(self) -> Div<H> {
        self.root_element
    }

    /// The engine's tree.
    pub closed spec fn tree(self) -> taffy::TaffyTree {
        self.taffy
    }

    /// The engine's node of the root.
    pub closed spec fn root_node(self) -> u64 {
        self.root_node_id
    }

    /// The length of the root's side for the room along one axis: the room
    /// itself where it is definite, and nothing else.
    pub open spec fn side(space: AvailableSpace) -> u16 {
        match space {
            AvailableSpace::Definite(length) => length,
            AvailableSpace::MinContent => 0,
            AvailableSpace::MaxContent => 0,
        }
    }

    /// Whether this context holds the layout of `content` within `space`:
    /// the root is a box of the size of the room, without background and
    /// click handler, whose only child is `content`; and the layout was made
    /// for it in a tree that held nothing before, and solved within `space`.
    pub open spec fn frames(self, content: Element<H>, space: Size) -> bool {
        &&& self.root().style == Style::fixed(Self::side(space.width), Self::side(space.height))
        &&& self.root().children@ == seq![content]
        &&& self.root().click_handler is None
        &&& self.root().background_color is None
        &&& exists|fresh: taffy::TaffyTree|
            tree_children(fresh).dom() == Set::<u64>::empty() && #[trigger] laid_out(
                Element::Div(self.root()),
                fresh,
                self.tree(),
                self.root_node(),
                space,
            )
    }

    /// Whether a raster can be held in memory for every node of the layout
    /// that this context holds.
    pub open spec fn roomy(self) -> bool {
        Element::Div(self.root()).roomy(tree_layout(self.tree()), tree_children(self.tree()), self.root_node())
    }

    /// Whether this context shows `content` within `space`: it holds the
    /// layout of `content`, and the layout can be painted.
    pub open spec fn shows(self, content: Element<H>, space: Size) -> bool {
        &&& self.frames(content, space)
        &&& content.measurable()
        &&& self.roomy()
    }

    /// Whether `buffer` is what this context paints.
    pub open spec fn paints(self, buffer: Buffer) -> bool {
        &&& buffer.wf()
        &&& buffer.width == tree_layout(self.tree())[self.root_node()].width
        &&& buffer.height == tree_layout(self.tree())[self.root_node()].height
        &&& buffer.data@ == self.root().painted(
            tree_layout(self.tree()),
            tree_children(self.tree()),
            self.root_node(),
        )
    }

    /// Lays `content` out within `space`, in a root box of the size of the
    /// room where the room is definite and of no size where it is not.
    ///
    /// Fails with `TooManyNodes` exactly when the tree has more nodes than
    /// the engine can hold; else with `GridTooLong` exactly when a grid has
    /// more children than the engine's grid can count; else with
    /// `TextTooLarge` exactly when a text is not measurable; and else with
    /// `BufferTooLarge`, only where the layout gave a node a rectangle for
    /// which no raster can be held in memory.
    pub fn within(content: Element<H>, space: Size) -> (r: Result<Self, OpenError>)
        ensures
            r matches Ok(ctx) ==> ctx.shows(content, space),
            r matches Err(OpenError::Layout(LayoutError::TooManyNodes)) <==> content.node_count() + 1
                > MAX_NODES,
            r matches Err(OpenError::Layout(LayoutError::GridTooLong)) <==> content.node_count() + 1
                <= MAX_NODES && !content.grids_fit(),
            r matches Err(OpenError::Layout(LayoutError::TextTooLarge)) <==> content.node_count() + 1
                <= MAX_NODES && content.grids_fit() && !content.measurable(),
            r matches Err(OpenError::BufferTooLarge) ==> exists|ctx: AppContext<H>| #[trigger]
                ctx.frames(content, space) && !ctx.roomy(),
            r matches Err(e) ==> e == OpenError::Layout(LayoutError::TooManyNodes) || e
                == OpenError::Layout(LayoutError::GridTooLong) || e == OpenError::Layout(
                LayoutError::TextTooLarge,
            ) || e == OpenError::BufferTooLarge,
    {
        let width = match space.width {
            AvailableSpace::Definite(length) => length,
            _ => 0,
        };
        let height = match space.height {
            AvailableSpace::Definite(length) => length,
            _ => 0,
        };
        let root = Div {
            style: Style::of_size(width, height),
            children: vec![content],
            click_handler: None,
            background_color: None,
        };
        proof {
            assert(root.children@ =~= seq![content]);
            assert(count_nodes(root.children@, 1) == count_nodes(root.children@, 0) + content.node_count());
            assert(Element::Div(root).measurable() == content.measurable());
            assert(Element::Div(root).grids_fit() == content.grids_fit());
        }
        let mut tree = new_tree();
        let ghost fresh = tree;
        if count_children(&root.children, MAX_NODES - 1).is_none() {
            return Err(OpenError::Layout(LayoutError::TooManyNodes));
        }
        if !grids_fit_in(&root.children) {
            return Err(OpenError::Layout(LayoutError::GridTooLong));
        }
        let node = match create_node(&mut tree, &root.style, &root.children) {
            Ok(node) => node,
            Err(e) => {
                return Err(OpenError::Layout(e));
            },
        };
        let node = match solve_built::<H>(Ghost(Element::Div(root)), Ghost(fresh), &mut tree, node, space) {
            Ok(node) => node,
            Err(e) => {
                return Err(OpenError::Layout(e));
            },
        };
        let room = root.has_room(&tree, node);
        proof {
            lemma_measurable_is_drawable(Element::Div(root));
        }
        if !room {
            let ghost ctx = AppContext { taffy: tree, root_node_id: node, root_element: root };
            proof {
                assert(tree_children(fresh).dom() == Set::<u64>::empty());
                assert(laid_out(Element::Div(ctx.root()), fresh, ctx.tree(), ctx.root_node(), space));
                assert(ctx.frames(content, space) && !ctx.roomy());
            }
            return Err(OpenError::BufferTooLarge);
        }
        let ctx = AppContext { taffy: tree, root_node_id: node, root_element: root };
        proof {
            assert(tree_children(fresh).dom() == Set::<u64>::empty());
            assert(laid_out(Element::Div(ctx.root()), fresh, ctx.tree(), ctx.root_node(), space));
        }
        Ok(ctx)
    }

    /// Lays `content` out in a window of the size that `settings` give.
    ///
    /// Fails with `WindowTooLarge` exactly when a side of the window is
    /// longer than 65535 pixels, and else as `within` does for a room of the
    /// size of the window.
    pub fn open(content: Element<H>, settings: WindowSettings) -> (r: Result<Self, OpenError>)
        ensures
            r matches Ok(ctx) ==> ctx.shows(
                content,
                Size::exactly(settings.width as u16, settings.height as u16),
            ),
            r matches Err(OpenError::WindowTooLarge) <==> settings.width > 0xFFFF || settings.height
                > 0xFFFF,
            r matches Err(OpenError::Layout(LayoutError::TooManyNodes)) <==> settings.width <= 0xFFFF
                && settings.height <= 0xFFFF && content.node_count() + 1 > MAX_NODES,
            r matches Err(OpenError::Layout(LayoutError::GridTooLong)) <==> settings.width <= 0xFFFF
                && settings.height <= 0xFFFF && content.node_count() + 1 <= MAX_NODES
                && !content.grids_fit(),
            r matches Err(OpenError::Layout(LayoutError::TextTooLarge)) <==> settings.width <= 0xFFFF
                && settings.height <= 0xFFFF && content.node_count() + 1 <= MAX_NODES
                && content.grids_fit() && !content.measurable(),
            r matches Err(OpenError::BufferTooLarge) ==> exists|ctx: AppContext<H>| #[trigger]
                ctx.frames(content, Size::exactly(settings.width as u16, settings.height as u16))
                    && !ctx.roomy(),
            r matches Err(e) ==> e == OpenError::WindowTooLarge || e == OpenError::Layout(
                LayoutError::TooManyNodes,
            ) || e == OpenError::Layout(LayoutError::GridTooLong) || e == OpenError::Layout(
                LayoutError::TextTooLarge,
            ) || e == OpenError::BufferTooLarge,
    {
        if settings.width > 0xFFFF || settings.height > 0xFFFF {
            return Err(OpenError::WindowTooLarge);
        }
        Self::within(content, Size::definite(settings.width as u16, settings.height as u16))
    }

    /// Paints the window: a raster of the size that the layout gave the
    /// root.
    pub fn paint(&self) -> (buffer: Buffer)
        ensures
            self.paints(buffer),
    {
        proof {
            use_type_invariant(self);
        }
        self.root_element.paint(&self.taffy, self.root_node_id)
    }

    /// The box that takes a click at `(x, y)`, in the coordinates of the
    /// painted raster.
    pub fn find_mouse_target(&self, x: i32, y: i32) -> (r: Option<&Div<H>>)
        ensures
            match self.root().target(
                tree_layout(self.tree()),
                tree_children(self.tree()),
                self.root_node(),
                x as int,
                y as int,
            ) {
                Some(target) => r matches Some(found) && *found == target,
                None => r is None,
            },
    {
        proof {
            use_type_invariant(self);
        }
        find_mouse_target(&self.root_element, &self.taffy, self.root_node_id, x, y)
    }

    /// The click handler to call for a pointer event: that of the box that
    /// takes the click, if there is one.
    pub fn dispatch(&self, event: &MouseEvent) -> (r: Option<&H>)
        ensures
            match self.root().target(
                tree_layout(self.tree()),
                tree_children(self.tree()),
                self.root_node(),
                event.x as int,
                event.y as int,
            ) {
                Some(target) => r matches Some(handler) && target.click_handler == Some(*handler),
                None => r is None,
            },
    {
        match self.find_mouse_target(event.x, event.y) {
            Some(target) => {
                proof {
                    crate::hit::lemma_target_has_handler(
                        self.root(),
                        tree_layout(self.tree()),
                        tree_children(self.tree()),
                        self.root_node(),
                        event.x as int,
                        event.y as int,
                    );
                }
                target.click_handler.as_ref()
            },
            None => None,
        }
    }
}

impl<H> Element<H> {
    /// Renders this tree by itself: lays it out within `available_space` in
    /// a tree of its own, in a root box of the size of the room, and paints
    /// the root. Fails as `AppContext::within` does.
    pub fn to_buffer(self, available_space: Size) -> (r: Result<Buffer, OpenError>)
        ensures
            r matches Ok(buffer) ==> exists|ctx: AppContext<H>| #[trigger]
                ctx.shows(self, available_space) && ctx.paints(buffer),
            r matches Err(OpenError::Layout(LayoutError::TooManyNodes)) <==> self.node_count() + 1
                > MAX_NODES,
            r matches Err(OpenError::Layout(LayoutError::GridTooLong)) <==> self.node_count() + 1
                <= MAX_NODES && !self.grids_fit(),
            r matches Err(OpenError::Layout(LayoutError::TextTooLarge)) <==> self.node_count() + 1
                <= MAX_NODES && self.grids_fit() && !self.measurable(),
            r matches Err(OpenError::BufferTooLarge) ==> exists|ctx: AppContext<H>| #[trigger]
                ctx.frames(self, available_space) && !ctx.roomy(),
            r matches Err(e) ==> e == OpenError::Layout(LayoutError::TooManyNodes) || e
                == OpenError::Layout(LayoutError::GridTooLong) || e == OpenError::Layout(
                LayoutError::TextTooLarge,
            ) || e == OpenError::BufferTooLarge,
    {
        match AppContext::within(self, available_space) {
            Ok(ctx) => {
                let buffer = ctx.paint();
                assert(ctx.shows(self, available_space) && ctx.paints(buffer));
                Ok(buffer)
            },
            Err(e) => Err(e),
        }
    }
}

} // verus!
