//! Visual edges, the index from edge identity to visual edge, edge colours and
//! the pointer hit test.
use vstd::prelude::*;

use crate::edge::{edge_slot, edge_total, edge_valid, lemma_slot_in_range, lemma_slot_injective, Edge, Fence};

verus! {

/// Nominal length of an edge's hit box, in local units.
pub const EDGE_LENGTH: i64 = 80;

/// Nominal half-thickness of an edge's hit box, in local units.
pub const HIT_THICKNESS: i64 = 10;

/// Placement of a visual element: translation and per-axis scale.
#[derive(Clone, Copy, Debug, PartialEq, Eq, Structural)]
pub struct Transform {
    pub x: i64,
    pub y: i64,
    pub scale_x: i64,
    pub scale_y: i64,
}

/// The visual element of one edge: which edge it is, where it stands, the size
/// of its drawn rectangle, and the fence state it currently shows.
#[derive(Clone, Copy, Debug, PartialEq, Eq, Structural)]
pub struct VisualEdge {
    pub edge: Edge,
    pub transform: Transform,
    pub width: i64,
    pub height: i64,
    pub display: Fence,
}

pub open spec fn abs(a: int) -> int {
    if a < 0 { -a } else { a }
}

/// Whether the pointer at (`px`, `py`) lies in the hit box of `v`.
///
/// A horizontal edge's box runs right from its translation, a vertical edge's
/// runs down from it; both are scaled by the edge's own transform.
pub open spec fn edge_hit(v: VisualEdge, px: int, py: int) -> bool {
    let dx = px - v.transform.x;
    let dy = py - v.transform.y;
    match v.edge {
        Edge::H(_) => 0 < dx < EDGE_LENGTH * v.transform.scale_x && abs(dy) < HIT_THICKNESS
            * v.transform.scale_y,
        Edge::V(_) => -EDGE_LENGTH * v.transform.scale_y < dy < 0 && abs(dx) < HIT_THICKNESS
            * v.transform.scale_x,
    }
}

/// Whether `edges[i]` is the edge that a hit test at (`px`, `py`) reports: it is
/// hit, and no edge before it is.
pub open spec fn reported(edges: Seq<VisualEdge>, px: int, py: int, i: int) -> bool {
    &&& 0 <= i < edges.len()
    &&& edge_hit(edges[i], px, py)
    &&& forall|j: int| 0 <= j < i ==> !edge_hit(#[trigger] edges[j], px, py)
}

/// The edge that a hit test at (`px`, `py`) reports, if any.
pub open spec fn hover_of(edges: Seq<VisualEdge>, px: int, py: int) -> Option<Edge> {
    if exists|i: int| reported(edges, px, py, i) {
        Some(edges[choose|i: int| reported(edges, px, py, i)].edge)
    } else {
        None
    }
}

/// At any pointer position at most one edge is reported as hovered.
pub proof fn lemma_hover_exclusive(edges: Seq<VisualEdge>, px: int, py: int, i: int, j: int)
    requires
        reported(edges, px, py, i),
        reported(edges, px, py, j),
    ensures
        i == j,
{
}

impl VisualEdge {
    /// Whether the pointer at (`px`, `py`) lies in this edge's hit box.
    pub fn hits(&self, px: i64, py: i64) -> (r: bool)
        ensures
            r == edge_hit(*self, px as int, py as int),
    {
        let sx = self.transform.scale_x as i128;
        let sy = self.transform.scale_y as i128;
        assert(EDGE_LENGTH == 80 && HIT_THICKNESS == 10);
        let dx: i128 = px as i128 - self.transform.x as i128;
        let dy: i128 = py as i128 - self.transform.y as i128;
        let len_x: i128 = 80 * sx;
        let len_y: i128 = 80 * sy;
        let thick_x: i128 = 10 * sx;
        let thick_y: i128 = 10 * sy;
        let adx: i128 = if dx < 0 { -dx } else { dx };
        let ady: i128 = if dy < 0 { -dy } else { dy };
        match self.edge {
            Edge::H(_) => 0 < dx && dx < len_x && ady < thick_y,
            Edge::V(_) => -len_y < dy && dy < 0 && adx < thick_x,
        }
    }
}

/// The edge under the pointer at (`px`, `py`): the first of `edges`, in their
/// order, whose hit box holds the pointer, or `None` where no box does.
pub fn hit_test(edges: &Vec<VisualEdge>, px: i64, py: i64) -> (r: Option<Edge>)
    ensures
        r is None <==> forall|i: int| 0 <= i < edges@.len() ==> !edge_hit(#[trigger] edges@[i], px as int, py as int),
        r is Some ==> exists|i: int| reported(edges@, px as int, py as int, i) && edges@[i].edge == r->0,
        r == hover_of(edges@, px as int, py as int),
{
    let mut k: usize = 0;
    while k < edges.len()
        invariant
            0 <= k <= edges@.len(),
            forall|j: int| 0 <= j < k ==> !edge_hit(#[trigger] edges@[j], px as int, py as int),
        decreases edges@.len() - k,
    {
        if edges[k].hits(px, py) {
            assert(reported(edges@, px as int, py as int, k as int));
            proof {
                let c = choose|i: int| reported(edges@, px as int, py as int, i);
                lemma_hover_exclusive(edges@, px as int, py as int, c, k as int);
            }
            return Some(edges[k].edge);
        }
        k = k + 1;
    }
    None
}

/// The visual edges of a board, each at its edge's slot.
pub struct ViewIndex {
    pub rows: usize,
    pub cols: usize,
    pub edges: Vec<VisualEdge>,
}

impl ViewIndex {
    pub open spec fn wf(&self) -> bool {
        &&& self.rows >= 1
        &&& self.cols >= 1
        &&& edge_total(self.rows as int, self.cols as int) <= usize::MAX
        &&& self.edges@.len() == edge_total(self.rows as int, self.cols as int)
        &&& forall|i: int|
            0 <= i < self.edges@.len() ==> {
                &&& edge_valid(self.rows as int, self.cols as int, (#[trigger] self.edges@[i]).edge)
                &&& edge_slot(self.rows as int, self.cols as int, self.edges@[i].edge) == i
            }
    }

    /// The fence state shown by each visual edge, in slot order.
    pub open spec fn displays(&self) -> Seq<Fence> {
        self.edges@.map_values(|v: VisualEdge| v.display)
    }

    /// Every edge of the board is held, at its slot.
    pub proof fn lemma_complete(&self, e: Edge)
        requires
            self.wf(),
            edge_valid(self.rows as int, self.cols as int, e),
        ensures
            0 <= edge_slot(self.rows as int, self.cols as int, e) < self.edges@.len(),
            self.edges@[edge_slot(self.rows as int, self.cols as int, e)].edge == e,
    {
        lemma_slot_in_range(self.rows as int, self.cols as int, e);
        let v = self.edges@[edge_slot(self.rows as int, self.cols as int, e)];
        lemma_slot_injective(self.rows as int, self.cols as int, v.edge, e);
    }

    /// The handle (position in `edges`) of the visual edge of `e`, or `None`
    /// where `e` is no edge of the board.
    pub fn handle(&self, e: Edge) -> (r: Option<usize>)
        requires
            self.wf(),
        ensures
            r is Some <==> edge_valid(self.rows as int, self.cols as int, e),
            r is Some ==> {
                &&& r->0 == edge_slot(self.rows as int, self.cols as int, e)
                &&& r->0 < self.edges@.len()
                &&& self.edges@[r->0 as int].edge == e
            },
    {
        let fits = match e {
            Edge::H(p) => p.row <= self.rows && p.col < self.cols,
            Edge::V(p) => p.row < self.rows && p.col <= self.cols,
        };
        if !fits {
            return None;
        }
        proof {
            self.lemma_complete(e);
        }
        Some(e.slot(self.rows, self.cols))
    }

    /// Sets the state shown by the visual edge at `handle`; nothing else changes.
    pub fn set_display(&mut self, handle: usize, f: Fence)
        requires
            old(self).wf(),
            handle < old(self).edges@.len(),
        ensures
            final(self).wf(),
            final(self).rows == old(self).rows,
            final(self).cols == old(self).cols,
            final(self).edges@ == old(self).edges@.update(
                handle as int,
                VisualEdge { display: f, ..old(self).edges@[handle as int] },
            ),
    {
        let mut v = self.edges[handle];
        v.display = f;
        self.edges.set(handle, v);
    }
}

/// A colour, eight bits per channel.
#[derive(Clone, Copy, Debug, PartialEq, Eq, Structural)]
pub struct Rgba {
    pub r: u8,
    pub g: u8,
    pub b: u8,
    pub a: u8,
}

/// The colours in which edges are drawn: for an unset, an on and an off fence.
#[derive(Clone, Copy, Debug)]
pub struct BoardAssets {
    pub edge_colors: (Rgba, Rgba, Rgba),
}

impl Default for BoardAssets {
    /// Unset fences are transparent, on fences green, off fences grey.
    fn default() -> (r: Self)
        ensures
            r.edge_colors == (
                Rgba { r: 0, g: 0, b: 0, a: 0 },
                Rgba { r: 0, g: 255, b: 0, a: 255 },
                Rgba { r: 128, g: 128, b: 128, a: 255 },
            ),
    {
        BoardAssets {
            edge_colors: (
                Rgba { r: 0, g: 0, b: 0, a: 0 },
                Rgba { r: 0, g: 255, b: 0, a: 255 },
                Rgba { r: 128, g: 128, b: 128, a: 255 },
            ),
        }
    }
}

impl BoardAssets {
    /// The colour of a fence in state `f`.
    pub open spec fn color_of(&self, f: Fence) -> Rgba {
        match f.0 {
            Some(true) => self.edge_colors.1,
            Some(false) => self.edge_colors.2,
            None => self.edge_colors.0,
        }
    }

    /// The colour in which an edge in state `edge` is drawn.
    pub fn edge_color(&self, edge: &Fence) -> (r: Rgba)
        ensures
            r == self.color_of(*edge),
    {
        match edge.0 {
            Some(true) => self.edge_colors.1,
            Some(false) => self.edge_colors.2,
            None => self.edge_colors.0,
        }
    }
}

} // verus!
