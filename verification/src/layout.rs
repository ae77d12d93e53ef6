//! From a widget tree to a solved layout: one engine node for each widget,
//! in the same shape, solved once from the root.

use vstd::prelude::*;

use crate::element::{count_nodes, Div, Element, Text};
use crate::engine::{
    make_node, new_tree, node_total, rects_stay, solvable_within, solve, tree_children, tree_layout,
    tree_solution, tree_styles, MAX_GRID_CHILDREN, MAX_NODES,
};
use crate::style::{Display, Size, Style};

verus! {

/// Why no layout was made.
#[derive(Clone, Copy, Debug, PartialEq, Eq, Structural)]
pub enum LayoutError {
    /// The engine cannot hold the nodes of the tree beside those it has.
    TooManyNodes,
    /// A grid has more children than the engine's grid can count.
    GridTooLong,
    /// The bitmap of a text cannot be made, or is larger than a length that
    /// the engine is given can say.
    TextTooLarge,
    /// The engine refused a node or the solve. The engine that the library
    /// is built with never does.
    Engine,
}

/// Whether `after` holds what `before` held and `added` nodes more: every
/// node of `before` is still there with its children and style.
pub open spec fn extends(before: taffy::TaffyTree, after: taffy::TaffyTree, added: nat) -> bool {
    &&& tree_children(after).dom().finite()
    &&& tree_children(after).dom().len() == tree_children(before).dom().len() + added
    &&& keeps(tree_children(before), tree_styles(before), tree_children(after), tree_styles(after))
}

/// Whether every node of the first pair of maps is in the second with the
/// same children and style.
pub open spec fn keeps(
    kids: Map<u64, Seq<u64>>,
    styles: Map<u64, Style>,
    kids2: Map<u64, Seq<u64>>,
    styles2: Map<u64, Style>,
) -> bool {
    forall|n: u64| #[trigger]
        kids.dom().contains(n) ==> kids2.dom().contains(n) && kids2[n] == kids[n] && styles2[n] == styles[n]
}

/// Whether `after` is `before` with the layout of `element` added under
/// `root` and solved within `space`.
pub open spec fn laid_out<H>(
    element: Element<H>,
    before: taffy::TaffyTree,
    after: taffy::TaffyTree,
    root: u64,
    space: Size,
) -> bool {
    &&& extends(before, after, element.node_count())
    &&& !tree_children(before).dom().contains(root)
    &&& element.mirrors(tree_children(after), tree_styles(after), root)
    &&& exists|built: taffy::TaffyTree|
        {
            &&& tree_children(built) == tree_children(after)
            &&& tree_styles(built) == tree_styles(after)
            &&& tree_layout(after) == #[trigger] tree_solution(built, root, space)
        }
}

/// The first trees of a list have no more nodes than more of them.
pub proof fn lemma_count_grows<H>(children: Seq<Element<H>>, j: nat, k: nat)
    requires
        j <= k <= children.len(),
    ensures
        count_nodes(children, j) <= count_nodes(children, k),
    decreases k,
{
    if j < k {
        lemma_count_grows(children, j, (k - 1) as nat);
    }
}

/// A tree in a list has no more nodes than the list.
pub proof fn lemma_count_covers<H>(children: Seq<Element<H>>, i: int)
    requires
        0 <= i < children.len(),
    ensures
        children[i].node_count() <= count_nodes(children, children.len()),
{
    lemma_count_grows(children, (i + 1) as nat, children.len());
}

/// A mirror of a widget tree stays one when the engine's tree gets more
/// nodes.
pub proof fn lemma_mirror_stays<H>(
    element: Element<H>,
    kids: Map<u64, Seq<u64>>,
    styles: Map<u64, Style>,
    kids2: Map<u64, Seq<u64>>,
    styles2: Map<u64, Style>,
    node: u64,
)
    requires
        element.mirrors(kids, styles, node),
        keeps(kids, styles, kids2, styles2),
    ensures
        element.mirrors(kids2, styles2, node),
    decreases element,
{
    match element {
        Element::Div(d) => {
            assert forall|i: int| 0 <= i < d.children@.len() implies (#[trigger] d.children@[i]).mirrors(
                kids2,
                styles2,
                kids2[node][i],
            ) by {
                lemma_mirror_stays(d.children@[i], kids, styles, kids2, styles2, kids[node][i]);
            }
        },
        Element::Text(_) => {},
    }
}

/// What can be solved within some depth can be solved within any greater
/// depth.
pub proof fn lemma_subtree_deeper(
    kids: Map<u64, Seq<u64>>,
    styles: Map<u64, Style>,
    node: u64,
    depth: nat,
    deeper: nat,
)
    requires
        solvable_within(kids, styles, node, depth),
        depth <= deeper,
    ensures
        solvable_within(kids, styles, node, deeper),
    decreases depth,
{
    assert forall|i: int| 0 <= i < kids[node].len() implies solvable_within(
        kids,
        styles,
        #[trigger] kids[node][i],
        (deeper - 1) as nat,
    ) by {
        lemma_subtree_deeper(kids, styles, kids[node][i], (depth - 1) as nat, (deeper - 1) as nat);
    }
}

/// The mirror of a widget tree whose grids fit is a finite tree of engine
/// nodes that the engine can solve, no deeper than the widget tree has
/// nodes.
pub proof fn lemma_mirror_is_solvable<H>(
    element: Element<H>,
    kids: Map<u64, Seq<u64>>,
    styles: Map<u64, Style>,
    node: u64,
)
    requires
        element.mirrors(kids, styles, node),
        element.grids_fit(),
    ensures
        solvable_within(kids, styles, node, element.node_count()),
    decreases element,
{
    match element {
        Element::Div(d) => {
            assert forall|i: int| 0 <= i < kids[node].len() implies solvable_within(
                kids,
                styles,
                #[trigger] kids[node][i],
                (element.node_count() - 1) as nat,
            ) by {
                lemma_mirror_is_solvable(d.children@[i], kids, styles, kids[node][i]);
                lemma_count_covers(d.children@, i);
                lemma_subtree_deeper(
                    kids,
                    styles,
                    kids[node][i],
                    d.children@[i].node_count(),
                    (element.node_count() - 1) as nat,
                );
            }
        },
        Element::Text(_) => {},
    }
}

/// A tree of the layout engine that holds no node.
pub fn empty_tree() -> (tree: taffy::TaffyTree)
    ensures
        tree_children(tree).dom() == Set::<u64>::empty(),
{
    new_tree()
}

/// The number of nodes that a tree of the layout engine holds, which is
/// finite.
pub fn nodes_held(tree: &taffy::TaffyTree) -> (n: usize)
    ensures
        tree_children(*tree).dom().finite(),
        n == tree_children(*tree).dom().len(),
{
    node_total(tree)
}

/// Whether no grid in a list of trees has more children than the engine's
/// grid can count.
pub fn grids_fit_in<H>(children: &Vec<Element<H>>) -> (r: bool)
    ensures
        r == forall|i: int| 0 <= i < children@.len() ==> (#[trigger] children@[i]).grids_fit(),
    decreases children,
{
    let n = children.len();
    let mut i: usize = 0;
    while i < n
        invariant
            n == children.len(),
            i <= n,
            forall|j: int| 0 <= j < i ==> (#[trigger] children@[j]).grids_fit(),
        decreases n - i,
    {
        if !children[i].check_grids() {
            return false;
        }
        i = i + 1;
    }
    true
}

impl Text {
    /// The sides of this text's bitmap, which are the lengths that the text
    /// has in layout; `None` exactly when the text is not measurable.
    pub fn intrinsic_size(&self) -> (r: Option<(u16, u16)>)
        ensures
            r is Some <==> self.measurable(),
            r matches Some((w, h)) ==> Style::fixed(w, h) == self.layout_style(),
    {
        match self.font_manager.render_text(self.content.as_str(), self.size, self.color) {
            Some(bitmap) => {
                if bitmap.width <= 0xFFFF && bitmap.height <= 0xFFFF {
                    Some((bitmap.width as u16, bitmap.height as u16))
                } else {
                    None
                }
            },
            None => None,
        }
    }
}

/// The number of nodes in a list of trees, unless it is more than `budget`.
pub fn count_children<H>(children: &Vec<Element<H>>, budget: usize) -> (r: Option<usize>)
    ensures
        r is Some <==> count_nodes(children@, children@.len()) <= budget,
        r matches Some(n) ==> n == count_nodes(children@, children@.len()),
    decreases children,
{
    let n = children.len();
    let mut total: usize = 0;
    let mut i: usize = 0;
    while i < n
        invariant
            n == children.len(),
            i <= n,
            total == count_nodes(children@, i as nat),
            total <= budget,
        decreases n - i,
    {
        proof {
            lemma_count_grows(children@, (i + 1) as nat, n as nat);
        }
        match children[i].count_within(budget - total) {
            Some(c) => {
                total = total + c;
            },
            None => {
                return None;
            },
        }
        i = i + 1;
    }
    Some(total)
}

/// Adds one engine node for each node of the trees in `children`, and above
/// them one node with `style` whose children are the roots of those trees, in
/// order. Gives the id of that node. Nothing is solved.
///
/// Fails, with `TextTooLarge`, exactly when a text in `children` is not
/// measurable.
pub fn create_node<H>(tree: &mut taffy::TaffyTree, style: &Style, children: &Vec<Element<H>>) -> (r: Result<
    u64,
    LayoutError,
>)
    requires
        tree_children(*old(tree)).dom().finite(),
        tree_children(*old(tree)).dom().len() + 1 + count_nodes(children@, children@.len()) <= MAX_NODES,
    ensures
        r matches Ok(root) ==> {
            &&& extends(*old(tree), *final(tree), 1 + count_nodes(children@, children@.len()))
            &&& !tree_children(*old(tree)).dom().contains(root)
            &&& tree_children(*final(tree)).dom().contains(root)
            &&& tree_styles(*final(tree))[root] == *style
            &&& tree_children(*final(tree))[root].len() == children@.len()
            &&& forall|i: int|
                0 <= i < children@.len() ==> (#[trigger] children@[i]).mirrors(
                    tree_children(*final(tree)),
                    tree_styles(*final(tree)),
                    tree_children(*final(tree))[root][i],
                )
        },
        r is Err <==> exists|i: int| 0 <= i < children@.len() && !(#[trigger] children@[i]).measurable(),
        r matches Err(e) ==> e == LayoutError::TextTooLarge,
        keeps(
            tree_children(*old(tree)),
            tree_styles(*old(tree)),
            tree_children(*final(tree)),
            tree_styles(*final(tree)),
        ),
        rects_stay(*old(tree), *final(tree)),
    decreases children,
{
    let ghost before = *tree;
    let n = children.len();
    let mut ids: Vec<u64> = Vec::new();
    let mut i: usize = 0;
    while i < n
        invariant
            n == children.len(),
            i <= n,
            ids.len() == i,
            before == *old(tree),
            tree_children(before).dom().finite(),
            tree_children(before).dom().len() + 1 + count_nodes(children@, children@.len()) <= MAX_NODES,
            extends(before, *tree, count_nodes(children@, i as nat)),
            rects_stay(before, *tree),
            forall|j: int|
                0 <= j < i ==> (#[trigger] children@[j]).mirrors(
                    tree_children(*tree),
                    tree_styles(*tree),
                    ids@[j],
                ),
            forall|j: int| 0 <= j < i ==> (#[trigger] children@[j]).measurable(),
        decreases n - i,
    {
        let ghost mid = *tree;
        proof {
            lemma_count_grows(children@, (i + 1) as nat, n as nat);
        }
        let id = match children[i].build(tree) {
            Ok(id) => id,
            Err(e) => {
                return Err(e);
            },
        };
        proof {
            assert forall|j: int| 0 <= j < i implies (#[trigger] children@[j]).mirrors(
                tree_children(*tree),
                tree_styles(*tree),
                ids@[j],
            ) by {
                lemma_mirror_stays(
                    children@[j],
                    tree_children(mid),
                    tree_styles(mid),
                    tree_children(*tree),
                    tree_styles(*tree),
                    ids@[j],
                );
            }
        }
        ids.push(id);
        i = i + 1;
    }
    let ghost mid = *tree;
    proof {
        assert forall|j: int| 0 <= j < ids.len() implies tree_children(mid).dom().contains(
            #[trigger] ids[j],
        ) by {
            assert(children@[j].mirrors(tree_children(mid), tree_styles(mid), ids@[j]));
        }
    }
    match make_node(tree, style, &ids) {
        Ok(id) => {
            proof {
                assert forall|j: int| 0 <= j < n implies (#[trigger] children@[j]).mirrors(
                    tree_children(*tree),
                    tree_styles(*tree),
                    tree_children(*tree)[id][j],
                ) by {
                    lemma_mirror_stays(
                        children@[j],
                        tree_children(mid),
                        tree_styles(mid),
                        tree_children(*tree),
                        tree_styles(*tree),
                        ids@[j],
                    );
                }
            }
            Ok(id)
        },
        Err(_) => Err(LayoutError::Engine),
    }
}

/// Has the engine solve, within `space`, the subtree that was just built
/// under `root` for `element`, and gives `root` back.
pub(crate) fn solve_built<H>(
    Ghost(element): Ghost<Element<H>>,
    Ghost(before): Ghost<taffy::TaffyTree>,
    tree: &mut taffy::TaffyTree,
    root: u64,
    space: Size,
) -> (r: Result<u64, LayoutError>)
    requires
        extends(before, *old(tree), element.node_count()),
        !tree_children(before).dom().contains(root),
        element.mirrors(tree_children(*old(tree)), tree_styles(*old(tree)), root),
        element.grids_fit(),
    ensures
        r == Ok::<u64, LayoutError>(root),
        laid_out(element, before, *final(tree), root, space),
{
    let ghost built = *tree;
    proof {
        lemma_mirror_is_solvable(element, tree_children(built), tree_styles(built), root);
    }
    match solve(tree, root, &space) {
        Ok(()) => {
            assert(tree_layout(*tree) == tree_solution(built, root, space));
            Ok(root)
        },
        Err(_) => Err(LayoutError::Engine),
    }
}

impl Text {
    /// Adds one engine node of the fixed size of this text's bitmap. Fails,
    /// with `TextTooLarge`, exactly when this text is not measurable.
    pub fn build(&self, tree: &mut taffy::TaffyTree) -> (r: Result<u64, LayoutError>)
        requires
            tree_children(*old(tree)).dom().finite(),
            tree_children(*old(tree)).dom().len() + 1 <= MAX_NODES,
        ensures
            r matches Ok(root) ==> {
                &&& extends(*old(tree), *final(tree), 1)
                &&& !tree_children(*old(tree)).dom().contains(root)
                &&& tree_children(*final(tree)).dom().contains(root)
                &&& tree_children(*final(tree))[root].len() == 0
                &&& tree_styles(*final(tree))[root] == self.layout_style()
            },
            r is Err <==> !self.measurable(),
            r matches Err(e) ==> e == LayoutError::TextTooLarge,
            keeps(
                tree_children(*old(tree)),
                tree_styles(*old(tree)),
                tree_children(*final(tree)),
                tree_styles(*final(tree)),
            ),
            rects_stay(*old(tree), *final(tree)),
    {
        let (w, h) = match self.intrinsic_size() {
            Some(size) => size,
            None => return Err(LayoutError::TextTooLarge),
        };
        let style = Style::of_size(w, h);
        let none: Vec<u64> = Vec::new();
        match make_node(tree, &style, &none) {
            Ok(id) => Ok(id),
            Err(_) => Err(LayoutError::Engine),
        }
    }
}

impl<H> Div<H> {
    /// Lays this box and what is in it out within `available_space`.
    ///
    /// Adds to `tree` one node for each node of the widget tree, in the same
    /// shape and with the widget's style, a text with the fixed size of its
    /// bitmap; then has the engine solve the new subtree once, from its root.
    /// Gives the id of the root's node. What `tree` held before stays as it
    /// was, also where the layout fails.
    ///
    /// Succeeds exactly when the engine can hold that many nodes more, no
    /// grid has more children than the engine's grid can count, and every
    /// text is measurable. Fails with `TooManyNodes` exactly when the engine
    /// cannot hold the nodes, else with `GridTooLong` exactly when a grid is
    /// too long, and else with `TextTooLarge`.
    pub fn compute_layout(&self, tree: &mut taffy::TaffyTree, available_space: Size) -> (r: Result<
        u64,
        LayoutError,
    >)
        ensures
            r is Ok <==> tree_children(*old(tree)).dom().len() + Element::Div(*self).node_count()
                <= MAX_NODES && Element::Div(*self).grids_fit() && Element::Div(*self).measurable(),
            r matches Ok(root) ==> laid_out(
                Element::Div(*self),
                *old(tree),
                *final(tree),
                root,
                available_space,
            ),
            r == Err::<u64, LayoutError>(LayoutError::TooManyNodes) <==> tree_children(
                *old(tree),
            ).dom().len() + Element::Div(*self).node_count() > MAX_NODES,
            r == Err::<u64, LayoutError>(LayoutError::GridTooLong) <==> tree_children(
                *old(tree),
            ).dom().len() + Element::Div(*self).node_count() <= MAX_NODES && !Element::Div(
                *self,
            ).grids_fit(),
            r matches Err(e) ==> e == LayoutError::TooManyNodes || e == LayoutError::GridTooLong || e
                == LayoutError::TextTooLarge,
            keeps(
                tree_children(*old(tree)),
                tree_styles(*old(tree)),
                tree_children(*final(tree)),
                tree_styles(*final(tree)),
            ),
    {
        let ghost before = *tree;
        let held = node_total(tree);
        if held >= MAX_NODES {
            return Err(LayoutError::TooManyNodes);
        }
        if count_children(&self.children, MAX_NODES - held - 1).is_none() {
            return Err(LayoutError::TooManyNodes);
        }
        if !self.check_grids() {
            return Err(LayoutError::GridTooLong);
        }
        let root = match create_node(tree, &self.style, &self.children) {
            Ok(root) => root,
            Err(e) => {
                return Err(e);
            },
        };
        solve_built::<H>(Ghost(Element::Div(*self)), Ghost(before), tree, root, available_space)
    }
}

impl<H> Div<H> {
    /// Whether neither this box nor a box in it is a grid of more children
    /// than the engine's grid can count.
    pub fn check_grids(&self) -> (r: bool)
        ensures
            r == Element::Div(*self).grids_fit(),
        decreases self,
    {
        match self.style.display {
            Display::Grid => {
                if self.children.len() > MAX_GRID_CHILDREN {
                    return false;
                }
            },
            _ => {},
        }
        assert(decreases_to!(*self => self.children));
        grids_fit_in(&self.children)
    }
}

impl<H> Element<H> {
    /// Whether no grid of this tree has more children than the engine's grid
    /// can count.
    pub fn check_grids(&self) -> (r: bool)
        ensures
            r == self.grids_fit(),
        decreases self,
    {
        match self {
            Element::Div(d) => d.check_grids(),
            Element::Text(_) => true,
        }
    }

    /// The number of nodes of this tree, unless it is more than `budget`.
    pub fn count_within(&self, budget: usize) -> (r: Option<usize>)
        ensures
            r is Some <==> self.node_count() <= budget,
            r matches Some(n) ==> n == self.node_count(),
        decreases self,
    {
        if budget < 1 {
            return None;
        }
        match self {
            Element::Text(_) => Some(1),
            Element::Div(d) => match count_children(&d.children, budget - 1) {
                Some(n) => Some(n + 1),
                None => None,
            },
        }
    }

    /// Adds one engine node for each node of this tree, children before
    /// their parent, and gives the id of the node of the root. Nothing is
    /// solved. Fails, with `TextTooLarge`, exactly when a text of this tree
    /// is not measurable.
    pub fn build(&self, tree: &mut taffy::TaffyTree) -> (r: Result<u64, LayoutError>)
        requires
            tree_children(*old(tree)).dom().finite(),
            tree_children(*old(tree)).dom().len() + self.node_count() <= MAX_NODES,
        ensures
            r matches Ok(root) ==> {
                &&& extends(*old(tree), *final(tree), self.node_count())
                &&& !tree_children(*old(tree)).dom().contains(root)
                &&& self.mirrors(tree_children(*final(tree)), tree_styles(*final(tree)), root)
            },
            r is Err <==> !self.measurable(),
            r matches Err(e) ==> e == LayoutError::TextTooLarge,
            keeps(
                tree_children(*old(tree)),
                tree_styles(*old(tree)),
                tree_children(*final(tree)),
                tree_styles(*final(tree)),
            ),
            rects_stay(*old(tree), *final(tree)),
        decreases self,
    {
        match self {
            Element::Text(t) => t.build(tree),
            Element::Div(d) => create_node(tree, &d.style, &d.children),
        }
    }

    /// Lays this tree out within `available_space`, as `Div::compute_layout`
    /// does for a box.
    pub fn compute_layout(&self, tree: &mut taffy::TaffyTree, available_space: Size) -> (r: Result<
        u64,
        LayoutError,
    >)
        ensures
            r is Ok <==> tree_children(*old(tree)).dom().len() + self.node_count() <= MAX_NODES
                && self.grids_fit() && self.measurable(),
            r matches Ok(root) ==> laid_out(*self, *old(tree), *final(tree), root, available_space),
            r == Err::<u64, LayoutError>(LayoutError::TooManyNodes) <==> tree_children(
                *old(tree),
            ).dom().len() + self.node_count() > MAX_NODES,
            r == Err::<u64, LayoutError>(LayoutError::GridTooLong) <==> tree_children(
                *old(tree),
            ).dom().len() + self.node_count() <= MAX_NODES && !self.grids_fit(),
            r matches Err(e) ==> e == LayoutError::TooManyNodes || e == LayoutError::GridTooLong || e
                == LayoutError::TextTooLarge,
            keeps(
                tree_children(*old(tree)),
                tree_styles(*old(tree)),
                tree_children(*final(tree)),
                tree_styles(*final(tree)),
            ),
    {
        let ghost before = *tree;
        let held = node_total(tree);
        if held > MAX_NODES {
            return Err(LayoutError::TooManyNodes);
        }
        if self.count_within(MAX_NODES - held).is_none() {
            return Err(LayoutError::TooManyNodes);
        }
        if !self.check_grids() {
            return Err(LayoutError::GridTooLong);
        }
        let root = match self.build(tree) {
            Ok(root) => root,
            Err(e) => {
                return Err(e);
            },
        };
        solve_built::<H>(Ghost(*self), Ghost(before), tree, root, available_space)
    }
}

} // verus!
