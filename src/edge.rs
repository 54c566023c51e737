//! Edge identities of a grid, and their dense numbering.
use vstd::prelude::*;

verus! {

/// A grid position.
#[derive(Clone, Copy, Debug, PartialEq, Eq, Structural)]
pub struct Pos {
    pub row: usize,
    pub col: usize,
}

/// One candidate fence of the grid.
///
/// `H(p)` joins node `p` to the node right of it; `V(p)` joins node `p` to the
/// node below it.
#[derive(Clone, Copy, Debug, PartialEq, Eq, Structural)]
pub enum Edge {
    H(Pos),
    V(Pos),
}

/// The state of one fence: unset (`None`), on (`Some(true)`) or off (`Some(false)`).
#[derive(Clone, Copy, Debug, PartialEq, Eq, Structural)]
pub struct Fence(pub Option<bool>);

/// Number of horizontal edges of a `rows` x `cols` board.
pub open spec fn h_count(rows: int, cols: int) -> int {
    (rows + 1) * cols
}

/// Number of vertical edges of a `rows` x `cols` board.
pub open spec fn v_count(rows: int, cols: int) -> int {
    rows * (cols + 1)
}

/// Number of edges of a `rows` x `cols` board.
pub open spec fn edge_total(rows: int, cols: int) -> int {
    h_count(rows, cols) + v_count(rows, cols)
}

/// Whether `e` is an edge of a `rows` x `cols` board.
pub open spec fn edge_valid(rows: int, cols: int, e: Edge) -> bool {
    match e {
        Edge::H(p) => p.row <= rows && p.col < cols,
        Edge::V(p) => p.row < rows && p.col <= cols,
    }
}

/// Position of `e` in the board's edge enumeration: horizontal edges first,
/// row by row, then vertical edges, row by row.
pub open spec fn edge_slot(rows: int, cols: int, e: Edge) -> int {
    match e {
        Edge::H(p) => p.row * cols + p.col,
        Edge::V(p) => h_count(rows, cols) + p.row * (cols + 1) + p.col,
    }
}

/// The edge named by `direction` (0 horizontal, 1 vertical) and `idx`, as a
/// move records it.
pub open spec fn edge_of(direction: u8, idx: Pos) -> Option<Edge> {
    if direction == 0 {
        Some(Edge::H(idx))
    } else if direction == 1 {
        Some(Edge::V(idx))
    } else {
        None
    }
}

proof fn lemma_row_major_bound(r: int, c: int, rows: int, cols: int)
    requires
        0 <= r <= rows,
        0 <= c < cols,
    ensures
        0 <= r * cols + c < (rows + 1) * cols,
{
    assert(r * cols + c < (r + 1) * cols) by (nonlinear_arith)
        requires
            0 <= c < cols,
    ;
    assert((r + 1) * cols <= (rows + 1) * cols) by (nonlinear_arith)
        requires
            0 <= r <= rows,
            0 <= cols,
    ;
    assert(0 <= r * cols) by (nonlinear_arith)
        requires
            0 <= r,
            0 <= cols,
    ;
}

proof fn lemma_row_major_unique(r1: int, c1: int, r2: int, c2: int, cols: int)
    requires
        0 <= r1,
        0 <= r2,
        0 <= c1 < cols,
        0 <= c2 < cols,
        r1 * cols + c1 == r2 * cols + c2,
    ensures
        r1 == r2,
        c1 == c2,
{
    if r1 < r2 {
        assert(r1 * cols + c1 < r2 * cols) by (nonlinear_arith)
            requires
                r1 < r2,
                0 <= c1 < cols,
        ;
    } else if r2 < r1 {
        assert(r2 * cols + c2 < r1 * cols) by (nonlinear_arith)
            requires
                r2 < r1,
                0 <= c2 < cols,
        ;
    }
}

/// Every edge of the board has a slot below the edge count.
pub proof fn lemma_slot_in_range(rows: int, cols: int, e: Edge)
    requires
        0 <= rows,
        0 <= cols,
        edge_valid(rows, cols, e),
    ensures
        0 <= edge_slot(rows, cols, e) < edge_total(rows, cols),
        e is H ==> edge_slot(rows, cols, e) < h_count(rows, cols),
        e is V ==> edge_slot(rows, cols, e) >= h_count(rows, cols),
{
    assert(0 <= h_count(rows, cols)) by (nonlinear_arith)
        requires
            0 <= rows,
            0 <= cols,
    ;
    match e {
        Edge::H(p) => {
            lemma_row_major_bound(p.row as int, p.col as int, rows, cols);
            assert(0 <= v_count(rows, cols)) by (nonlinear_arith)
                requires
                    0 <= rows,
                    0 <= cols,
            ;
        },
        Edge::V(p) => {
            lemma_row_major_bound(p.row as int, p.col as int, rows - 1, cols + 1);
        },
    }
}

/// Distinct edges of the board have distinct slots.
pub proof fn lemma_slot_injective(rows: int, cols: int, e1: Edge, e2: Edge)
    requires
        0 <= rows,
        0 <= cols,
        edge_valid(rows, cols, e1),
        edge_valid(rows, cols, e2),
        edge_slot(rows, cols, e1) == edge_slot(rows, cols, e2),
    ensures
        e1 == e2,
{
    lemma_slot_in_range(rows, cols, e1);
    lemma_slot_in_range(rows, cols, e2);
    match (e1, e2) {
        (Edge::H(p1), Edge::H(p2)) => {
            lemma_row_major_unique(p1.row as int, p1.col as int, p2.row as int, p2.col as int, cols);
        },
        (Edge::V(p1), Edge::V(p2)) => {
            lemma_row_major_unique(p1.row as int, p1.col as int, p2.row as int, p2.col as int, cols + 1);
        },
        _ => {},
    }
}

/// The node an edge starts from.
pub open spec fn edge_pos(e: Edge) -> Pos {
    match e {
        Edge::H(p) => p,
        Edge::V(p) => p,
    }
}

impl Edge {
    /// The edge that a move with this `direction` (0 horizontal, 1 vertical)
    /// and `idx` names, if any.
    pub fn from_move(direction: u8, idx: Pos) -> (r: Option<Edge>)
        ensures
            r == edge_of(direction, idx),
    {
        if direction == 0 {
            Some(Edge::H(idx))
        } else if direction == 1 {
            Some(Edge::V(idx))
        } else {
            None
        }
    }

    /// The direction code of a move on this edge: 0 horizontal, 1 vertical.
    pub fn direction(&self) -> (r: u8)
        ensures
            edge_of(r, edge_pos(*self)) == Some(*self),
    {
        match self {
            Edge::H(_) => 0,
            Edge::V(_) => 1,
        }
    }

    /// The node this edge starts from.
    pub fn pos(&self) -> (r: Pos)
        ensures
            r == edge_pos(*self),
    {
        match self {
            Edge::H(p) => *p,
            Edge::V(p) => *p,
        }
    }

    /// Position of this edge in the enumeration of a `rows` x `cols` board.
    pub fn slot(&self, rows: usize, cols: usize) -> (r: usize)
        requires
            edge_valid(rows as int, cols as int, *self),
            edge_total(rows as int, cols as int) <= usize::MAX,
        ensures
            r == edge_slot(rows as int, cols as int, *self),
    {
        proof {
            lemma_slot_in_range(rows as int, cols as int, *self);
        }
        match self {
            Edge::H(p) => {
                proof {
                    lemma_nonneg_product(p.row as int, cols as int);
                }
                p.row * cols + p.col
            },
            Edge::V(p) => {
                proof {
                    lemma_nonneg_product(rows as int, cols as int);
                    lemma_nonneg_product(p.row as int, cols as int + 1);
                    assert(h_count(rows as int, cols as int) == rows * cols + cols) by (nonlinear_arith);
                }
                let h = rows * cols + cols;
                h + p.row * (cols + 1) + p.col
            },
        }
    }
}

proof fn lemma_nonneg_product(a: int, b: int)
    requires
        0 <= a,
        0 <= b,
    ensures
        0 <= a * b,
{
    assert(0 <= a * b) by (nonlinear_arith)
        requires
            0 <= a,
            0 <= b,
    ;
}

} // verus!
