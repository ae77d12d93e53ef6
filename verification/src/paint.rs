//! From a solved layout to pixels.
//!
//! Every node paints a raster of its own size. A box starts from its
//! background, or from transparent pixels where it has none, and lays the
//! raster of each child over its own at the child's offset, first child
//! first. A text lays its bitmap over transparent pixels.

use vstd::prelude::*;

use crate::buffer::{
    blank, composite, lemma_beside_source_unchanged, lemma_opaque_color_replaces, lemma_pixel_in_bounds,
    pixel_index, solid, Buffer,
};
use crate::element::{Div, Element, Text};
use crate::engine::{child_ids, rect_of, tree_children, tree_layout, Rect};
use crate::font::{run_height, run_pixels, run_width};
use crate::utils::Color;

verus! {

impl Text {
    /// The bytes of this text's raster in a node of the size of `rect`: the
    /// text's bitmap laid over transparent pixels from the top left corner.
    pub open spec fn painted(&self, rect: Rect) -> Seq<u8> {
        composite(
            blank(rect.width * rect.height),
            rect.width as int,
            run_pixels(self.glyphs(), self.color),
            run_width(self.glyphs(), self.glyphs().len()) as int,
            run_height(self.glyphs(), self.glyphs().len()) as int,
            0,
            0,
        )
    }

    /// Paints this text into a raster of the size that the layout gave its
    /// node.
    pub fn paint(&self, tree: &taffy::TaffyTree, node_id: u64) -> (buffer: Buffer)
        requires
            tree_children(*tree).dom().contains(node_id),
            self.drawable(),
            Buffer::fits(tree_layout(*tree)[node_id].width, tree_layout(*tree)[node_id].height),
        ensures
            buffer.wf(),
            buffer.width == tree_layout(*tree)[node_id].width,
            buffer.height == tree_layout(*tree)[node_id].height,
            buffer.data@ == self.painted(tree_layout(*tree)[node_id]),
    {
        let rect = rect_of(tree, node_id);
        let mut buffer = Buffer::new(rect.width, rect.height);
        match self.font_manager.render_text(self.content.as_str(), self.size, self.color) {
            Some(bitmap) => {
                let source = Buffer {
                    data: bitmap.buffer,
                    width: bitmap.width as u32,
                    height: bitmap.height as u32,
                };
                buffer.blend(&source, 0, 0);
            },
            None => {},
        }
        buffer
    }
}

impl<H> Div<H> {
    /// The bytes from which this box starts in a node of the size of `rect`:
    /// its background in every pixel, or transparent pixels.
    pub open spec fn ground(self, rect: Rect) -> Seq<u8> {
        match self.background_color {
            Some(color) => solid(rect.width * rect.height, color),
            None => blank(rect.width * rect.height),
        }
    }

    /// The bytes of this box's raster after its first `k` children were laid
    /// over its ground.
    pub open spec fn painted_upto(self, geo: Map<u64, Rect>, kids: Map<u64, Seq<u64>>, node: u64, k: nat) -> Seq<
        u8,
    >
        decreases self, k,
    {
        if k == 0 || k > self.children@.len() {
            self.ground(geo[node])
        } else {
            let child = kids[node][k - 1];
            composite(
                self.painted_upto(geo, kids, node, (k - 1) as nat),
                geo[node].width as int,
                self.children@[k - 1].painted(geo, kids, child),
                geo[child].width as int,
                geo[child].height as int,
                geo[child].x as int,
                geo[child].y as int,
            )
        }
    }

    /// The bytes of this box's raster.
    pub open spec fn painted(self, geo: Map<u64, Rect>, kids: Map<u64, Seq<u64>>, node: u64) -> Seq<u8> {
        self.painted_upto(geo, kids, node, self.children@.len())
    }

    /// Whether a raster can be held in memory for this box and for each node
    /// in it.
    pub fn has_room(&self, tree: &taffy::TaffyTree, node: u64) -> (r: bool)
        requires
            Element::Div(*self).shaped(tree_children(*tree), node),
        ensures
            r == Element::Div(*self).roomy(tree_layout(*tree), tree_children(*tree), node),
        decreases self,
    {
        let ghost geo = tree_layout(*tree);
        let ghost kids = tree_children(*tree);
        let rect = rect_of(tree, node);
        if Buffer::byte_len(rect.width, rect.height).is_none() {
            return false;
        }
        let ids = child_ids(tree, node);
        let n = self.children.len();
        let mut i: usize = 0;
        while i < n
            invariant
                decreases_to!(*self => self.children),
                Element::Div(*self).shaped(kids, node),
                geo == tree_layout(*tree),
                kids == tree_children(*tree),
                ids@ == kids[node],
                n == self.children.len(),
                i <= n,
                forall|j: int| 0 <= j < i ==> (#[trigger] self.children@[j]).roomy(geo, kids, kids[node][j]),
            decreases n - i,
        {
            assert(self.children@[i as int].shaped(kids, ids@[i as int]));
            if !self.children[i].has_room(tree, ids[i]) {
                return false;
            }
            i = i + 1;
        }
        true
    }

    /// Paints this box and what is in it into a raster of the size that the
    /// layout gave its node.
    pub fn paint(&self, tree: &taffy::TaffyTree, root_node: u64) -> (buffer: Buffer)
        requires
            Element::Div(*self).shaped(tree_children(*tree), root_node),
            Element::Div(*self).paintable(tree_layout(*tree), tree_children(*tree), root_node),
        ensures
            buffer.wf(),
            buffer.width == tree_layout(*tree)[root_node].width,
            buffer.height == tree_layout(*tree)[root_node].height,
            buffer.data@ == self.painted(tree_layout(*tree), tree_children(*tree), root_node),
        decreases self,
    {
        let ghost geo = tree_layout(*tree);
        let ghost kids = tree_children(*tree);
        let rect = rect_of(tree, root_node);
        let mut buffer = Buffer::new(rect.width, rect.height);
        match self.background_color {
            Some(color) => {
                buffer.fill(color);
            },
            None => {},
        }
        let ids = child_ids(tree, root_node);
        let n = self.children.len();
        let mut i: usize = 0;
        while i < n
            invariant
                decreases_to!(*self => self.children),
                Element::Div(*self).shaped(kids, root_node),
                Element::Div(*self).paintable(geo, kids, root_node),
                geo == tree_layout(*tree),
                kids == tree_children(*tree),
                ids@ == kids[root_node],
                n == self.children.len(),
                i <= n,
                buffer.wf(),
                buffer.width == geo[root_node].width,
                buffer.height == geo[root_node].height,
                buffer.data@ == self.painted_upto(geo, kids, root_node, i as nat),
            decreases n - i,
        {
            let child = ids[i];
            assert(self.children@[i as int].shaped(kids, child));
            assert(self.children@[i as int].drawable());
            assert(self.children@[i as int].roomy(geo, kids, child));
            let raster = self.children[i].paint(tree, child);
            let place = rect_of(tree, child);
            buffer.blend(&raster, place.x, place.y);
            i = i + 1;
        }
        buffer
    }
}

impl<H> Element<H> {
    /// Whether a raster can be held in memory for this node and for each
    /// node below it.
    pub open spec fn roomy(self, geo: Map<u64, Rect>, kids: Map<u64, Seq<u64>>, node: u64) -> bool
        decreases self,
    {
        &&& Buffer::fits(geo[node].width, geo[node].height)
        &&& match self {
            Element::Div(d) => forall|i: int|
                0 <= i < d.children@.len() ==> (#[trigger] d.children@[i]).roomy(geo, kids, kids[node][i]),
            Element::Text(_) => true,
        }
    }

    /// Whether this tree can be painted: the bitmap of every text can be
    /// made, and a raster can be held in memory for every node.
    pub open spec fn paintable(self, geo: Map<u64, Rect>, kids: Map<u64, Seq<u64>>, node: u64) -> bool {
        self.drawable() && self.roomy(geo, kids, node)
    }

    /// Whether a raster can be held in memory for this node and for each
    /// node below it.
    pub fn has_room(&self, tree: &taffy::TaffyTree, node: u64) -> (r: bool)
        requires
            self.shaped(tree_children(*tree), node),
        ensures
            r == self.roomy(tree_layout(*tree), tree_children(*tree), node),
        decreases self,
    {
        match self {
            Element::Div(d) => d.has_room(tree, node),
            Element::Text(_) => {
                let rect = rect_of(tree, node);
                Buffer::byte_len(rect.width, rect.height).is_some()
            },
        }
    }

    /// The bytes of this node's raster, given the rectangle and the children
    /// that the layout has for each node.
    pub open spec fn painted(self, geo: Map<u64, Rect>, kids: Map<u64, Seq<u64>>, node: u64) -> Seq<u8>
        decreases self, 0nat,
    {
        match self {
            Element::Div(d) => d.painted_upto(geo, kids, node, d.children@.len()),
            Element::Text(t) => t.painted(geo[node]),
        }
    }

    /// Paints this node and what is below it into a raster of the size that
    /// the layout gave the node.
    pub fn paint(&self, tree: &taffy::TaffyTree, root_node: u64) -> (buffer: Buffer)
        requires
            self.shaped(tree_children(*tree), root_node),
            self.paintable(tree_layout(*tree), tree_children(*tree), root_node),
        ensures
            buffer.wf(),
            buffer.width == tree_layout(*tree)[root_node].width,
            buffer.height == tree_layout(*tree)[root_node].height,
            buffer.data@ == self.painted(tree_layout(*tree), tree_children(*tree), root_node),
        decreases self,
    {
        match self {
            Element::Div(d) => d.paint(tree, root_node),
            Element::Text(t) => t.paint(tree, root_node),
        }
    }
}

/// A box with a background and without children paints its background in
/// every pixel.
pub proof fn lemma_plain_box_is_solid<H>(
    d: Div<H>,
    color: Color,
    geo: Map<u64, Rect>,
    kids: Map<u64, Seq<u64>>,
    node: u64,
)
    requires
        d.children@.len() == 0,
        d.background_color == Some(color),
    ensures
        d.painted(geo, kids, node) == solid(geo[node].width * geo[node].height, color),
{
}

/// A box without background and children paints transparent pixels only.
pub proof fn lemma_empty_box_is_blank<H>(d: Div<H>, geo: Map<u64, Rect>, kids: Map<u64, Seq<u64>>, node: u64)
    requires
        d.children@.len() == 0,
        d.background_color is None,
    ensures
        d.painted(geo, kids, node) == blank(geo[node].width * geo[node].height),
{
}

/// A box without background whose only child is a box with a background and
/// without children paints, in every pixel beside the child, transparent
/// black; and where the background is opaque, in every pixel of the child,
/// the background.
pub proof fn lemma_plain_box_on_blank_canvas<H>(
    canvas: Div<H>,
    d: Div<H>,
    color: Color,
    geo: Map<u64, Rect>,
    kids: Map<u64, Seq<u64>>,
    node: u64,
    px: int,
    py: int,
    c: int,
)
    requires
        canvas.background_color is None,
        canvas.children@ == seq![Element::Div(d)],
        d.children@.len() == 0,
        d.background_color == Some(color),
        0 <= px < geo[node].width,
        0 <= py < geo[node].height,
        0 <= c < 4,
    ensures
        ({
            let place = geo[kids[node][0]];
            let byte = canvas.painted(geo, kids, node)[pixel_index(geo[node].width as int, px, py) + c];
            let inside = place.x <= px < place.x + place.width && place.y <= py < place.y + place.height;
            &&& !inside ==> byte == 0
            &&& inside && color.a == 255 ==> byte == color.channel(c)
        }),
{
    let child = kids[node][0];
    let place = geo[child];
    let width = geo[node].width as int;
    let height = geo[node].height as int;
    let ground = blank(width * height);
    lemma_plain_box_is_solid(d, color, geo, kids, child);
    assert(canvas.painted_upto(geo, kids, node, 0) == ground);
    assert(canvas.children@[0] == Element::Div(d));
    assert(Element::Div(d).painted(geo, kids, child) == d.painted(geo, kids, child));
    assert(canvas.painted_upto(geo, kids, node, 1) == composite(
        canvas.painted_upto(geo, kids, node, 0),
        width,
        canvas.children@[0].painted(geo, kids, child),
        place.width as int,
        place.height as int,
        place.x as int,
        place.y as int,
    ));
    assert(canvas.painted(geo, kids, node) == composite(
        ground,
        width,
        solid(place.width * place.height, color),
        place.width as int,
        place.height as int,
        place.x as int,
        place.y as int,
    ));
    lemma_pixel_in_bounds(width, height, px, py);
    let inside = place.x <= px < place.x + place.width && place.y <= py < place.y + place.height;
    if inside {
        if color.a == 255 {
            lemma_opaque_color_replaces(
                ground,
                width,
                color,
                place.width as int,
                place.height as int,
                place.x as int,
                place.y as int,
                px,
                py,
                c,
            );
        }
    } else {
        lemma_beside_source_unchanged(
            ground,
            width,
            solid(place.width * place.height, color),
            place.width as int,
            place.height as int,
            place.x as int,
            place.y as int,
            px,
            py,
            c,
        );
    }
}

/// Two rasters that were painted from the same tree over the same layout are
/// the same, byte for byte.
pub proof fn lemma_paint_repeats<H>(
    element: Element<H>,
    geo: Map<u64, Rect>,
    kids: Map<u64, Seq<u64>>,
    node: u64,
    first: Buffer,
    second: Buffer,
)
    requires
        first.width == geo[node].width && first.height == geo[node].height,
        second.width == geo[node].width && second.height == geo[node].height,
        first.data@ == element.painted(geo, kids, node),
        second.data@ == element.painted(geo, kids, node),
    ensures
        first.width == second.width,
        first.height == second.height,
        first.data@ == second.data@,
{
}

} // verus!
