//! The boundary to the layout engine.
//!
//! The engine keeps a forest of nodes, each with a style, an ordered list of
//! children and, once solved, a rectangle. The functions that call the engine
//! are not proved: each states what the engine's own code does, in terms of
//! maps from node ids that stand for what the engine holds.

use vstd::prelude::*;

use taffy::style_helpers::length;

use crate::style::{AvailableSpace, Direction, Display, Size, Style};

verus! {

/// The engine's tree, of which only the functions of this module know
/// anything.
#[verifier::external_type_specification]
#[verifier::external_body]
#[verifier::reject_recursive_types(NodeContext)]
pub struct ExTaffyTree<NodeContext>(taffy::TaffyTree<NodeContext>);

/// The engine's error, which is carried to where it is turned into a
/// `LayoutError`.
#[verifier::external_type_specification]
#[verifier::external_body]
pub struct ExTaffyError(taffy::TaffyError);

/// The engine's direction of layout.
#[verifier::external_type_specification]
#[verifier::external_body]
pub struct ExFlexDirection(taffy::FlexDirection);

/// The engine's alignment of items across the direction of layout, which a
/// style carries as it is.
#[verifier::external_type_specification]
#[verifier::external_body]
pub struct ExAlignItems(taffy::AlignItems);

/// The engine's distribution of content along the direction of layout, which
/// a style carries as it is.
#[verifier::external_type_specification]
#[verifier::external_body]
pub struct ExAlignContent(taffy::AlignContent);

/// Where the engine put a node: the offset of its top left corner from that
/// of its parent, and its size, in whole pixels.
#[derive(Clone, Copy, Debug, PartialEq, Eq, Structural)]
pub struct Rect {
    pub x: u32,
    pub y: u32,
    pub width: u32,
    pub height: u32,
}

/// The engine's slot map refuses an insertion once it holds this many nodes.
pub const MAX_NODES: usize = 0xFFFF_FFFE;

/// The nodes that a tree holds, each with the ids of its children in order.
pub uninterp spec fn tree_children(tree: taffy::TaffyTree) -> Map<u64, Seq<u64>>;

/// The style that a tree holds for each node, as far as `Style` can say it:
/// the display mode, the direction, both alignments, and each side's length
/// where it has one.
pub uninterp spec fn tree_styles(tree: taffy::TaffyTree) -> Map<u64, Style>;

/// The direction that an engine's direction stands for.
pub uninterp spec fn direction_view(direction: taffy::FlexDirection) -> Direction;

/// The rectangle that a tree holds for each node, rounded to whole pixels.
pub uninterp spec fn tree_layout(tree: taffy::TaffyTree) -> Map<u64, Rect>;

/// The rectangles that a tree holds once the engine has solved the subtree
/// under `root` within `space`.
pub uninterp spec fn tree_solution(tree: taffy::TaffyTree, root: u64, space: Size) -> Map<u64, Rect>;

/// The engine's grid counts its lines in 16 bits with a sign, and gives each
/// child of a grid without a template a row of its own: a grid can have this
/// many children and no more.
pub const MAX_GRID_CHILDREN: usize = 32767;

/// Whether the engine can solve the subtree under `node`: the nodes reached
/// from `node` through at most `depth` levels of children are all nodes of
/// the tree, with no level left below them, and none of them is a grid of
/// more than `MAX_GRID_CHILDREN` children.
pub open spec fn solvable_within(
    kids: Map<u64, Seq<u64>>,
    styles: Map<u64, Style>,
    node: u64,
    depth: nat,
) -> bool
    decreases depth,
{
    &&& depth > 0
    &&& kids.dom().contains(node)
    &&& styles[node].display == Display::Grid ==> kids[node].len() <= MAX_GRID_CHILDREN
    &&& forall|i: int|
        0 <= i < kids[node].len() ==> solvable_within(
            kids,
            styles,
            #[trigger] kids[node][i],
            (depth - 1) as nat,
        )
}

/// Whether every node of the first tree has the same rectangle in the
/// second.
pub open spec fn rects_stay(before: taffy::TaffyTree, after: taffy::TaffyTree) -> bool {
    forall|n: u64| #[trigger]
        tree_children(before).dom().contains(n) ==> tree_layout(after)[n] == tree_layout(before)[n]
}

/// The set of the nodes of a tree that holds none.
pub open spec fn no_nodes() -> Set<u64> {
    Set::empty()
}

/// Whether a tree holds `n` nodes.
pub open spec fn counted(kids: Map<u64, Seq<u64>>, n: nat) -> bool {
    kids.dom().finite() && kids.dom().len() == n
}

/// `TaffyTree::new`: a tree without nodes.
#[verifier::external_body]
pub(crate) fn new_tree() -> (tree: taffy::TaffyTree)
    ensures
        tree_children(tree).dom() == no_nodes(),
{
    taffy::TaffyTree::new()
}

/// `TaffyTree::total_node_count`: the number of nodes that the tree holds,
/// which is finite.
#[verifier::external_body]
pub(crate) fn node_total(tree: &taffy::TaffyTree) -> (n: usize)
    ensures
        counted(tree_children(*tree), n as nat),
{
    tree.total_node_count()
}

/// The variant of the engine's `FlexDirection` of the same name.
#[verifier::external_body]
pub(crate) fn engine_direction(direction: Direction) -> (d: taffy::FlexDirection)
    ensures
        direction_view(d) == direction,
{
    match direction {
        Direction::Row => taffy::FlexDirection::Row,
        Direction::Column => taffy::FlexDirection::Column,
        Direction::RowReverse => taffy::FlexDirection::RowReverse,
        Direction::ColumnReverse => taffy::FlexDirection::ColumnReverse,
    }
}

/// `TaffyTree::new_with_children`: adds a node with the given style above the
/// given children, which must be nodes of the tree. The style handed to the
/// engine is its default with display mode, direction, lengths and alignments
/// set; `direction` must be what `style` names. The engine picks an id that no
/// node of the tree has, changes no other node's children, style or
/// rectangle, and ends in `Ok` on every path. It panics on a child that it does not hold and when
/// its slot map is full, so both are required here.
#[verifier::external_body]
pub(crate) fn add_node(
    tree: &mut taffy::TaffyTree,
    style: &Style,
    direction: taffy::FlexDirection,
    children: &Vec<u64>,
) -> (r: Result<u64, taffy::TaffyError>)
    requires
        direction_view(direction) == style.flex_direction,
        tree_children(*old(tree)).dom().finite(),
        tree_children(*old(tree)).dom().len() < MAX_NODES,
        forall|i: int|
            0 <= i < children.len() ==> tree_children(*old(tree)).dom().contains(#[trigger] children[i]),
    ensures
        r is Ok,
        r matches Ok(id) ==> {
            &&& !tree_children(*old(tree)).dom().contains(id)
            &&& tree_children(*final(tree)) == tree_children(*old(tree)).insert(id, children@)
            &&& tree_styles(*final(tree)) == tree_styles(*old(tree)).insert(id, *style)
            &&& rects_stay(*old(tree), *final(tree))
        },
{
    let mut s = taffy::Style::default();
    s.display = match style.display {
        Display::Block => taffy::Display::Block,
        Display::Flex => taffy::Display::Flex,
        Display::Grid => taffy::Display::Grid,
        Display::Hidden => taffy::Display::None,
    };
    s.flex_direction = direction;
    s.size.width = style.width.map_or(taffy::Dimension::Auto, length);
    s.size.height = style.height.map_or(taffy::Dimension::Auto, length);
    s.align_items = style.align_items;
    s.justify_content = style.justify_content;
    let kids: Vec<taffy::NodeId> = children.iter().map(|c| taffy::NodeId::from(*c)).collect();
    tree.new_with_children(s, &kids).map(u64::from)
}

/// `TaffyTree::compute_layout`: solves the subtree under `root` within
/// `space`. The engine walks down from `root` through the children lists, so
/// the subtree must be finite and hold only nodes of the tree. Its grid
/// layout panics where a grid has more children than it can count, so such
/// a grid must not be in the subtree. Solving changes the rectangles and
/// neither children nor styles, and ends in `Ok` on every path.
#[verifier::external_body]
pub(crate) fn solve(tree: &mut taffy::TaffyTree, root: u64, space: &Size) -> (r: Result<
    (),
    taffy::TaffyError,
>)
    requires
        exists|depth: nat| solvable_within(tree_children(*old(tree)), tree_styles(*old(tree)), root, depth),
    ensures
        r is Ok,
        tree_children(*final(tree)) == tree_children(*old(tree)),
        tree_styles(*final(tree)) == tree_styles(*old(tree)),
        tree_layout(*final(tree)) == tree_solution(*old(tree), root, *space),
{
    let width = match space.width {
        AvailableSpace::Definite(w) => taffy::AvailableSpace::Definite(w.into()),
        AvailableSpace::MinContent => taffy::AvailableSpace::MinContent,
        AvailableSpace::MaxContent => taffy::AvailableSpace::MaxContent,
    };
    let height = match space.height {
        AvailableSpace::Definite(h) => taffy::AvailableSpace::Definite(h.into()),
        AvailableSpace::MinContent => taffy::AvailableSpace::MinContent,
        AvailableSpace::MaxContent => taffy::AvailableSpace::MaxContent,
    };
    tree.compute_layout(taffy::NodeId::from(root), taffy::Size { width, height })
}

/// `TaffyTree::layout`: the rectangle of a node of the tree, which the engine
/// reads from its table and always gives. Offsets and sizes are rounded to
/// the nearest pixel; what lies below zero or beyond `u32::MAX` is taken to
/// the nearest such value.
#[verifier::external_body]
pub(crate) fn layout_of(tree: &taffy::TaffyTree, node: u64) -> (r: Result<Rect, taffy::TaffyError>)
    requires
        tree_children(*tree).dom().contains(node),
    ensures
        r is Ok,
        r matches Ok(rect) ==> rect == tree_layout(*tree)[node],
{
    match tree.layout(taffy::NodeId::from(node)) {
        Ok(l) => Ok(
            Rect {
                x: l.location.x.round() as u32,
                y: l.location.y.round() as u32,
                width: l.size.width.round() as u32,
                height: l.size.height.round() as u32,
            },
        ),
        Err(e) => Err(e),
    }
}

/// `TaffyTree::children`: the ids of the children of a node of the tree, in
/// order, which the engine reads from its table and always gives.
#[verifier::external_body]
pub(crate) fn children_of(tree: &taffy::TaffyTree, node: u64) -> (r: Result<Vec<u64>, taffy::TaffyError>)
    requires
        tree_children(*tree).dom().contains(node),
    ensures
        r is Ok,
        r matches Ok(v) ==> v@ == tree_children(*tree)[node],
{
    match tree.children(taffy::NodeId::from(node)) {
        Ok(v) => Ok(v.into_iter().map(u64::from).collect()),
        Err(e) => Err(e),
    }
}

/// Adds a node with the given style above the given children, and gives its
/// id: one that no node of the tree had. No other node's children or style
/// change.
pub(crate) fn make_node(tree: &mut taffy::TaffyTree, style: &Style, children: &Vec<u64>) -> (r: Result<
    u64,
    taffy::TaffyError,
>)
    requires
        tree_children(*old(tree)).dom().finite(),
        tree_children(*old(tree)).dom().len() < MAX_NODES,
        forall|i: int|
            0 <= i < children.len() ==> tree_children(*old(tree)).dom().contains(#[trigger] children[i]),
    ensures
        r is Ok,
        r matches Ok(id) ==> {
            &&& !tree_children(*old(tree)).dom().contains(id)
            &&& tree_children(*final(tree)) == tree_children(*old(tree)).insert(id, children@)
            &&& tree_styles(*final(tree)) == tree_styles(*old(tree)).insert(id, *style)
            &&& rects_stay(*old(tree), *final(tree))
        },
{
    let direction = engine_direction(style.flex_direction);
    add_node(tree, style, direction, children)
}

/// The rectangle that the tree holds for one of its nodes.
pub(crate) fn rect_of(tree: &taffy::TaffyTree, node: u64) -> (rect: Rect)
    requires
        tree_children(*tree).dom().contains(node),
    ensures
        rect == tree_layout(*tree)[node],
{
    match layout_of(tree, node) {
        Ok(rect) => rect,
        Err(_) => vstd::pervasive::unreached(),
    }
}

/// The ids of the children of one of the tree's nodes, in order.
pub(crate) fn child_ids(tree: &taffy::TaffyTree, node: u64) -> (ids: Vec<u64>)
    requires
        tree_children(*tree).dom().contains(node),
    ensures
        ids@ == tree_children(*tree)[node],
{
    match children_of(tree, node) {
        Ok(ids) => ids,
        Err(_) => vstd::pervasive::unreached(),
    }
}

} // verus!
