//! From a pointer position to the widget that takes the click.
//!
//! The search walks the tree as painting does. A box is asked only when the
//! point lies on its rectangle; its children are asked last one first, with
//! the point taken relative to the box; the first that answers wins. A box
//! whose children do not answer answers itself if it has a click handler.
//! Texts take no clicks.

use vstd::prelude::*;

use crate::element::{Div, Element};
use crate::engine::{child_ids, rect_of, tree_children, tree_layout, Rect};

verus! {

impl Rect {
    /// Whether the point lies on this rectangle, its edges included.
    pub open spec fn holds(self, x: int, y: int) -> bool {
        &&& self.x <= x <= self.x + self.width
        &&& self.y <= y <= self.y + self.height
    }

    /// Whether the point lies on this rectangle, its edges included.
    pub fn contains(&self, x: i32, y: i32) -> (r: bool)
        ensures
            r == self.holds(x as int, y as int),
    {
        let px: i64 = x as i64;
        let py: i64 = y as i64;
        let left: i64 = self.x as i64;
        let top: i64 = self.y as i64;
        left <= px && px <= left + self.width as i64 && top <= py && py <= top + self.height as i64
    }
}

impl<H> Div<H> {
    /// The box that a path leads to: each number of the path picks a child
    /// of the box reached so far.
    pub open spec fn descendant(self, path: Seq<int>) -> Div<H>
        decreases path.len(),
    {
        if path.len() == 0 {
            self
        } else if 0 <= path[0] < self.children@.len() {
            match self.children@[path[0]] {
                Element::Div(child) => child.descendant(path.drop_first()),
                Element::Text(_) => self,
            }
        } else {
            self
        }
    }

    /// The path to the box that takes a click at `(x, y)`, where the point
    /// is relative to the origin of this box's parent.
    pub open spec fn hit(self, geo: Map<u64, Rect>, kids: Map<u64, Seq<u64>>, node: u64, x: int, y: int) -> Option<
        Seq<int>,
    >
        decreases self, self.children@.len() + 1,
    {
        if !geo[node].holds(x, y) {
            None
        } else {
            match self.hit_among(
                geo,
                kids,
                node,
                x - geo[node].x,
                y - geo[node].y,
                self.children@.len(),
            ) {
                Some(path) => Some(path),
                None => if self.click_handler is Some {
                    Some(Seq::empty())
                } else {
                    None
                },
            }
        }
    }

    /// The path to the box among the first `k` children of this box, or
    /// below them, that takes a click at `(x, y)`, where the point is
    /// relative to the origin of this box. Later children are asked first.
    pub open spec fn hit_among(
        self,
        geo: Map<u64, Rect>,
        kids: Map<u64, Seq<u64>>,
        node: u64,
        x: int,
        y: int,
        k: nat,
    ) -> Option<Seq<int>>
        decreases self, k,
    {
        if k == 0 || k > self.children@.len() {
            None
        } else {
            match self.children@[k - 1] {
                Element::Div(child) => match child.hit(geo, kids, kids[node][k - 1], x, y) {
                    Some(path) => Some(seq![k - 1].add(path)),
                    None => self.hit_among(geo, kids, node, x, y, (k - 1) as nat),
                },
                Element::Text(_) => self.hit_among(geo, kids, node, x, y, (k - 1) as nat),
            }
        }
    }

    /// The box that takes a click at `(x, y)`, if there is one.
    pub open spec fn target(self, geo: Map<u64, Rect>, kids: Map<u64, Seq<u64>>, node: u64, x: int, y: int) -> Option<
        Div<H>,
    > {
        match self.hit(geo, kids, node, x, y) {
            Some(path) => Some(self.descendant(path)),
            None => None,
        }
    }
}

/// The box that takes a click has a click handler.
pub proof fn lemma_target_has_handler<H>(
    d: Div<H>,
    geo: Map<u64, Rect>,
    kids: Map<u64, Seq<u64>>,
    node: u64,
    x: int,
    y: int,
)
    ensures
        d.target(geo, kids, node, x, y) matches Some(t) ==> t.click_handler is Some,
    decreases d, d.children@.len() + 1,
{
    if geo[node].holds(x, y) {
        lemma_hit_among_has_handler(d, geo, kids, node, x - geo[node].x, y - geo[node].y, d.children@.len());
    }
}

/// The box that takes a click among the first `k` children of a box has a
/// click handler.
pub proof fn lemma_hit_among_has_handler<H>(
    d: Div<H>,
    geo: Map<u64, Rect>,
    kids: Map<u64, Seq<u64>>,
    node: u64,
    x: int,
    y: int,
    k: nat,
)
    ensures
        d.hit_among(geo, kids, node, x, y, k) matches Some(path) ==> d.descendant(path).click_handler is Some,
    decreases d, k,
{
    if k == 0 || k > d.children@.len() {
    } else {
        match d.children@[k - 1] {
            Element::Div(child) => {
                lemma_target_has_handler(child, geo, kids, kids[node][k - 1], x, y);
                match child.hit(geo, kids, kids[node][k - 1], x, y) {
                    Some(path) => {
                        assert(seq![k - 1].add(path).drop_first() =~= path);
                    },
                    None => {
                        lemma_hit_among_has_handler(d, geo, kids, node, x, y, (k - 1) as nat);
                    },
                }
            },
            Element::Text(_) => {
                lemma_hit_among_has_handler(d, geo, kids, node, x, y, (k - 1) as nat);
            },
        }
    }
}

/// A point beside a box's rectangle is taken by nothing in the box.
pub proof fn lemma_outside_is_miss<H>(
    d: Div<H>,
    geo: Map<u64, Rect>,
    kids: Map<u64, Seq<u64>>,
    node: u64,
    x: int,
    y: int,
)
    requires
        !geo[node].holds(x, y),
    ensures
        d.target(geo, kids, node, x, y) is None,
{
}

/// Whether child `i` of a box, or a box below it, takes a click at `(x, y)`,
/// where the point is relative to the origin of the box.
pub open spec fn child_answers<H>(
    d: Div<H>,
    geo: Map<u64, Rect>,
    kids: Map<u64, Seq<u64>>,
    node: u64,
    x: int,
    y: int,
    i: int,
) -> bool {
    d.children@[i] matches Element::Div(child) && child.hit(geo, kids, kids[node][i], x, y) is Some
}

/// Where child `j` answers and no child after it does, the search among the
/// first `k` children, for any `k` beyond `j`, finds what child `j` answers.
pub proof fn lemma_last_answer_wins<H>(
    d: Div<H>,
    geo: Map<u64, Rect>,
    kids: Map<u64, Seq<u64>>,
    node: u64,
    x: int,
    y: int,
    j: int,
    k: nat,
)
    requires
        0 <= j < k <= d.children@.len(),
        child_answers(d, geo, kids, node, x, y, j),
        forall|i: int| j < i < d.children@.len() ==> !child_answers(d, geo, kids, node, x, y, i),
    ensures
        d.children@[j] matches Element::Div(child) && d.hit_among(geo, kids, node, x, y, k) == Some(
            seq![j].add(child.hit(geo, kids, kids[node][j], x, y)->0),
        ),
    decreases k,
{
    if k - 1 > j {
        assert(!child_answers(d, geo, kids, node, x, y, k - 1));
        lemma_last_answer_wins(d, geo, kids, node, x, y, j, (k - 1) as nat);
    }
}

/// Of the children of a box that answer for a point, the one painted last
/// wins: the click goes where that child sends it. The children are asked
/// for the point `(cx, cy)`, which is `(x, y)` relative to the box.
pub proof fn lemma_front_most_wins<H>(
    d: Div<H>,
    geo: Map<u64, Rect>,
    kids: Map<u64, Seq<u64>>,
    node: u64,
    x: int,
    y: int,
    cx: int,
    cy: int,
    j: int,
)
    requires
        geo[node].holds(x, y),
        cx == x - geo[node].x,
        cy == y - geo[node].y,
        0 <= j < d.children@.len(),
        child_answers(d, geo, kids, node, cx, cy, j),
        forall|i: int| j < i < d.children@.len() ==> !child_answers(d, geo, kids, node, cx, cy, i),
    ensures
        d.children@[j] matches Element::Div(child) && d.target(geo, kids, node, x, y) == child.target(
            geo,
            kids,
            kids[node][j],
            cx,
            cy,
        ),
{
    lemma_last_answer_wins(d, geo, kids, node, cx, cy, j, d.children@.len());
    match d.children@[j] {
        Element::Div(child) => {
            let path = child.hit(geo, kids, kids[node][j], cx, cy)->0;
            assert(seq![j].add(path).drop_first() =~= path);
        },
        Element::Text(_) => {},
    }
}

/// A box with a click handler and without children takes every click on its
/// rectangle.
pub proof fn lemma_plain_box_answers<H>(
    d: Div<H>,
    geo: Map<u64, Rect>,
    kids: Map<u64, Seq<u64>>,
    node: u64,
    x: int,
    y: int,
)
    requires
        d.children@.len() == 0,
        d.click_handler is Some,
        geo[node].holds(x, y),
    ensures
        d.hit(geo, kids, node, x, y) == Some(Seq::<int>::empty()),
        d.target(geo, kids, node, x, y) == Some(d),
{
}

/// Of two boxes with click handlers in one parent that both lie under a
/// point, the second takes the click.
pub proof fn lemma_second_sibling_wins<H>(
    parent: Div<H>,
    first: Element<H>,
    second: Div<H>,
    geo: Map<u64, Rect>,
    kids: Map<u64, Seq<u64>>,
    node: u64,
    x: int,
    y: int,
)
    requires
        parent.children@ == seq![first, Element::Div(second)],
        second.children@.len() == 0,
        second.click_handler is Some,
        geo[node].holds(x, y),
        geo[kids[node][1]].holds(x - geo[node].x, y - geo[node].y),
    ensures
        parent.target(geo, kids, node, x, y) == Some(second),
{
    lemma_plain_box_answers(second, geo, kids, kids[node][1], x - geo[node].x, y - geo[node].y);
    lemma_front_most_wins(parent, geo, kids, node, x, y, x - geo[node].x, y - geo[node].y, 1);
}

/// Where no child of a box answers for a point, the search among its
/// children finds nothing.
pub proof fn lemma_no_answer<H>(
    d: Div<H>,
    geo: Map<u64, Rect>,
    kids: Map<u64, Seq<u64>>,
    node: u64,
    x: int,
    y: int,
    k: nat,
)
    requires
        forall|i: int| 0 <= i < d.children@.len() ==> !child_answers(d, geo, kids, node, x, y, i),
    ensures
        d.hit_among(geo, kids, node, x, y, k) is None,
    decreases k,
{
    if 0 < k <= d.children@.len() {
        assert(!child_answers(d, geo, kids, node, x, y, k - 1));
        lemma_no_answer(d, geo, kids, node, x, y, (k - 1) as nat);
    }
}

/// Whether a node is a leaf that takes no click: a text, or a box without
/// children and click handler.
pub open spec fn deaf_leaf<H>(element: Element<H>) -> bool {
    match element {
        Element::Div(d) => d.children@.len() == 0 && d.click_handler is None,
        Element::Text(_) => true,
    }
}

/// A box with a click handler whose children are leaves that take no click
/// takes every click on its rectangle itself, on its leaves too.
pub proof fn lemma_box_answers_for_deaf_leaves<H>(
    d: Div<H>,
    geo: Map<u64, Rect>,
    kids: Map<u64, Seq<u64>>,
    node: u64,
    x: int,
    y: int,
)
    requires
        d.click_handler is Some,
        forall|i: int| 0 <= i < d.children@.len() ==> deaf_leaf(#[trigger] d.children@[i]),
        geo[node].holds(x, y),
    ensures
        d.target(geo, kids, node, x, y) == Some(d),
{
    let cx = x - geo[node].x;
    let cy = y - geo[node].y;
    assert forall|i: int| 0 <= i < d.children@.len() implies !child_answers(d, geo, kids, node, cx, cy, i) by {
        assert(deaf_leaf(d.children@[i]));
    }
    lemma_no_answer(d, geo, kids, node, cx, cy, d.children@.len());
}

/// The box that takes a click at `(x, y)`: the deepest box on whose
/// rectangle the point lies and that has a click handler, the one painted
/// last where several do. `None` where no such box is; a box with a handler
/// does not answer for a point that one of the boxes in it answers for.
pub fn find_mouse_target<'a, H>(
    element: &'a Div<H>,
    tree: &taffy::TaffyTree,
    node_id: u64,
    x: i32,
    y: i32,
) -> (r: Option<&'a Div<H>>)
    requires
        Element::Div(*element).shaped(tree_children(*tree), node_id),
    ensures
        match element.target(tree_layout(*tree), tree_children(*tree), node_id, x as int, y as int) {
            Some(target) => r matches Some(found) && *found == target,
            None => r is None,
        },
    decreases element,
{
    let ghost geo = tree_layout(*tree);
    let ghost kids = tree_children(*tree);
    let rect = rect_of(tree, node_id);
    if !rect.contains(x, y) {
        return None;
    }
    let cx: i32 = ((x as i64) - (rect.x as i64)) as i32;
    let cy: i32 = ((y as i64) - (rect.y as i64)) as i32;
    let ids = child_ids(tree, node_id);
    let n = element.children.len();
    let mut k: usize = n;
    while k > 0
        invariant
            decreases_to!(*element => element.children),
            Element::Div(*element).shaped(kids, node_id),
            geo == tree_layout(*tree),
            kids == tree_children(*tree),
            ids@ == kids[node_id],
            geo[node_id].holds(x as int, y as int),
            cx == x - geo[node_id].x,
            cy == y - geo[node_id].y,
            n == element.children.len(),
            k <= n,
            element.hit_among(geo, kids, node_id, cx as int, cy as int, n as nat) == element.hit_among(
                geo,
                kids,
                node_id,
                cx as int,
                cy as int,
                k as nat,
            ),
        decreases k,
    {
        let i = k - 1;
        assert(element.children@[i as int].shaped(kids, ids@[i as int]));
        match &element.children[i] {
            Element::Div(child) => {
                match find_mouse_target(child, tree, ids[i], cx, cy) {
                    Some(found) => {
                        proof {
                            let path = child.hit(geo, kids, ids@[i as int], cx as int, cy as int)->0;
                            assert(seq![i as int].add(path).drop_first() =~= path);
                        }
                        return Some(found);
                    },
                    None => {},
                }
            },
            Element::Text(_) => {},
        }
        k = k - 1;
    }
    if element.click_handler.is_some() {
        Some(element)
    } else {
        None
    }
}

} // verus!
