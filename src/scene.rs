//! Placement of the board's nodes, cells and edges in a viewport, and the
//! construction of the view index.
use vstd::prelude::*;

use vstd::arithmetic::div_mod::{lemma_fundamental_div_mod, lemma_mod_bound};

use crate::board::Board;
use crate::edge::{
    edge_slot, edge_total, edge_valid, h_count, lemma_slot_in_range, v_count, Edge, Fence, Pos,
};
use crate::view::{Transform, ViewIndex, VisualEdge};

verus! {

/// Drawn thickness of an edge.
pub const EDGE_THICKNESS: i64 = 10;

/// Radius of a node marker.
pub const NODE_RADIUS: i64 = 10;

/// How much narrower than the grid spacing a cell's square is drawn.
pub const CELL_INSET: i64 = 10;

pub open spec fn min(a: int, b: int) -> int {
    if a <= b { a } else { b }
}

/// Grid spacing for a board of `rows` x `cols` cells in a viewport of
/// `height` x `width`: the largest spacing that fits both ways, times 4/5 to
/// leave a border.
pub open spec fn layout_scale(height: int, width: int, rows: int, cols: int) -> int {
    min(height / rows, width / cols) * 4 / 5
}

/// Horizontal position of node column `col`; the board is centred on 0.
pub open spec fn node_x(scale: int, cols: int, col: int) -> int {
    scale * col - scale * cols / 2
}

/// Vertical position of node row `row`; rows run downwards from the top.
pub open spec fn node_y(scale: int, rows: int, row: int) -> int {
    scale * rows / 2 - scale * row
}

/// Whether a grid spacing keeps the whole board within 32-bit extents.
pub open spec fn scale_fits(scale: int, rows: int, cols: int) -> bool {
    &&& 0 <= scale <= u32::MAX
    &&& scale * rows <= u32::MAX
    &&& scale * cols <= u32::MAX
}

/// The marker of one grid intersection.
#[derive(Clone, Copy, Debug, PartialEq, Eq, Structural)]
pub struct NodeView {
    pub idx: Pos,
    pub x: i64,
    pub y: i64,
    pub radius: i64,
}

/// The square of one cell, with its task hint.
#[derive(Clone, Copy, Debug, PartialEq, Eq, Structural)]
pub struct CellView {
    pub idx: Pos,
    pub x: i64,
    pub y: i64,
    pub size: i64,
    pub task: Option<u8>,
}

/// Everything drawn for a board: the grid spacing, the backdrop's size, the
/// node markers, the cells and the visual edges.
pub struct Scene {
    pub scale: i64,
    pub backdrop_width: i64,
    pub backdrop_height: i64,
    pub nodes: Vec<NodeView>,
    pub cells: Vec<CellView>,
    pub view: ViewIndex,
}

/// Place of node `p` in the node list: column by column, top to bottom.
pub open spec fn node_index(rows: int, p: Pos) -> int {
    p.col * (rows + 1) + p.row
}

/// Place of cell `p` in the cell list: row by row.
pub open spec fn cell_index(cols: int, p: Pos) -> int {
    p.row * cols + p.col
}

/// Whether `n` is the marker of a node of the board, drawn where it belongs.
pub open spec fn node_placed(scale: int, rows: int, cols: int, n: NodeView) -> bool {
    &&& n.idx.row <= rows
    &&& n.idx.col <= cols
    &&& n.x == node_x(scale, cols, n.idx.col as int)
    &&& n.y == node_y(scale, rows, n.idx.row as int)
    &&& n.radius == NODE_RADIUS
}

/// Whether `c` is the square of a cell of the board, drawn half a spacing right
/// of and below its top-left node, with hint `task`.
pub open spec fn cell_placed(scale: int, rows: int, cols: int, c: CellView, task: Option<u8>) -> bool {
    &&& c.idx.row < rows
    &&& c.idx.col < cols
    &&& c.x == node_x(scale, cols, c.idx.col as int) + scale / 2
    &&& c.y == node_y(scale, rows, c.idx.row as int) - scale / 2
    &&& c.size == scale - CELL_INSET
    &&& c.task == task
}

/// Whether `v` is drawn where its edge belongs: half a spacing from its start
/// node along its direction, one spacing long, at unit scale, showing `f`.
pub open spec fn edge_placed(scale: int, rows: int, cols: int, v: VisualEdge, f: Fence) -> bool {
    &&& v.transform.scale_x == 1
    &&& v.transform.scale_y == 1
    &&& v.display == f
    &&& match v.edge {
        Edge::H(p) => {
            &&& v.transform.x == node_x(scale, cols, p.col as int) + scale / 2
            &&& v.transform.y == node_y(scale, rows, p.row as int)
            &&& v.width == scale
            &&& v.height == EDGE_THICKNESS
        },
        Edge::V(p) => {
            &&& v.transform.x == node_x(scale, cols, p.col as int)
            &&& v.transform.y == node_y(scale, rows, p.row as int) - scale / 2
            &&& v.width == EDGE_THICKNESS
            &&& v.height == scale
        },
    }
}

proof fn lemma_scaled_le(scale: int, k: int, n: int)
    requires
        0 <= scale,
        0 <= k <= n,
    ensures
        0 <= scale * k <= scale * n,
{
    assert(0 <= scale * k <= scale * n) by (nonlinear_arith)
        requires
            0 <= scale,
            0 <= k <= n,
    ;
}

proof fn lemma_quotient_fits(m: int, whole: int, n: int)
    requires
        0 <= m,
        0 <= whole,
        1 <= n,
        m <= whole / n,
    ensures
        m * n <= whole,
{
    lemma_fundamental_div_mod(whole, n);
    lemma_mod_bound(whole, n);
    let q = whole / n;
    assert(m * n <= q * n) by (nonlinear_arith)
        requires
            m <= q,
            1 <= n,
    ;
}

/// The grid spacing for a board of `rows` x `cols` cells in a viewport of
/// `height` x `width`.
pub fn layout_scale_of(height: u32, width: u32, rows: usize, cols: usize) -> (r: i64)
    requires
        rows >= 1,
        cols >= 1,
    ensures
        r == layout_scale(height as int, width as int, rows as int, cols as int),
        scale_fits(r as int, rows as int, cols as int),
{
    let a: u128 = height as u128 / rows as u128;
    let b: u128 = width as u128 / cols as u128;
    let m: u128 = if a <= b { a } else { b };
    let s: u128 = m * 4 / 5;
    proof {
        lemma_quotient_fits(s as int, height as int, rows as int);
        lemma_quotient_fits(s as int, width as int, cols as int);
    }
    s as i64
}

fn node_xy(scale: i64, rows: usize, cols: usize, p: Pos) -> (r: (i64, i64))
    requires
        scale_fits(scale as int, rows as int, cols as int),
        p.row <= rows,
        p.col <= cols,
    ensures
        r.0 == node_x(scale as int, cols as int, p.col as int),
        r.1 == node_y(scale as int, rows as int, p.row as int),
        -(u32::MAX as int) <= r.0 <= u32::MAX,
        -(u32::MAX as int) <= r.1 <= u32::MAX,
{
    proof {
        lemma_scaled_le(scale as int, p.col as int, cols as int);
        lemma_scaled_le(scale as int, p.row as int, rows as int);
    }
    let s = scale as i128;
    let x: i128 = s * (p.col as i128) - s * (cols as i128) / 2;
    let y: i128 = s * (rows as i128) / 2 - s * (p.row as i128);
    (x as i64, y as i64)
}

/// The visual edge of `e`, showing `f`.
fn place_edge(scale: i64, rows: usize, cols: usize, e: Edge, f: Fence) -> (r: VisualEdge)
    requires
        scale_fits(scale as int, rows as int, cols as int),
        edge_valid(rows as int, cols as int, e),
    ensures
        r.edge == e,
        edge_placed(scale as int, rows as int, cols as int, r, f),
{
    let (x, y) = match e {
        Edge::H(p) => node_xy(scale, rows, cols, p),
        Edge::V(p) => node_xy(scale, rows, cols, p),
    };
    let half = scale / 2;
    match e {
        Edge::H(_) => VisualEdge {
            edge: e,
            transform: Transform { x: x + half, y, scale_x: 1, scale_y: 1 },
            width: scale,
            height: EDGE_THICKNESS,
            display: f,
        },
        Edge::V(_) => VisualEdge {
            edge: e,
            transform: Transform { x, y: y - half, scale_x: 1, scale_y: 1 },
            width: EDGE_THICKNESS,
            height: scale,
            display: f,
        },
    }
}

/// The node markers, column by column, each node once.
fn build_nodes(scale: i64, rows: usize, cols: usize) -> (r: Vec<NodeView>)
    requires
        scale_fits(scale as int, rows as int, cols as int),
        (rows + 1) * (cols + 1) <= usize::MAX,
    ensures
        r@.len() == (rows + 1) * (cols + 1),
        forall|k: int|
            0 <= k < r@.len() ==> {
                &&& node_index(rows as int, (#[trigger] r@[k]).idx) == k
                &&& node_placed(scale as int, rows as int, cols as int, r@[k])
            },
{
    assert(rows + 1 <= (rows + 1) * (cols + 1)) by (nonlinear_arith);
    assert(cols + 1 <= (rows + 1) * (cols + 1)) by (nonlinear_arith);
    let n_rows = rows + 1;
    let n_cols = cols + 1;
    let mut nodes: Vec<NodeView> = Vec::new();
    let mut col: usize = 0;
    while col < n_cols
        invariant
            scale_fits(scale as int, rows as int, cols as int),
            n_rows == rows + 1,
            n_cols == cols + 1,
            col <= n_cols,
            nodes@.len() == col * n_rows,
            forall|k: int|
                0 <= k < nodes@.len() ==> {
                    &&& node_index(rows as int, (#[trigger] nodes@[k]).idx) == k
                    &&& node_placed(scale as int, rows as int, cols as int, nodes@[k])
                },
        decreases n_cols - col,
    {
        let mut row: usize = 0;
        while row < n_rows
            invariant
                scale_fits(scale as int, rows as int, cols as int),
                n_rows == rows + 1,
                n_cols == cols + 1,
                col < n_cols,
                row <= n_rows,
                nodes@.len() == col * n_rows + row,
                forall|k: int|
                    0 <= k < nodes@.len() ==> {
                        &&& node_index(rows as int, (#[trigger] nodes@[k]).idx) == k
                        &&& node_placed(scale as int, rows as int, cols as int, nodes@[k])
                    },
            decreases n_rows - row,
        {
            let p = Pos { row, col };
            let (x, y) = node_xy(scale, rows, cols, p);
            nodes.push(NodeView { idx: p, x, y, radius: NODE_RADIUS });
            row = row + 1;
        }
        assert(col * n_rows + n_rows == (col + 1) * n_rows) by (nonlinear_arith);
        col = col + 1;
    }
    assert(n_cols * n_rows == (rows + 1) * (cols + 1)) by (nonlinear_arith)
        requires
            n_rows == rows + 1,
            n_cols == cols + 1,
    ;
    nodes
}

/// The cell squares, row by row, each with its hint from `tasks`.
fn build_cells(scale: i64, rows: usize, cols: usize, tasks: &Vec<Option<u8>>) -> (r: Vec<CellView>)
    requires
        scale_fits(scale as int, rows as int, cols as int),
        tasks@.len() == rows * cols,
    ensures
        r@.len() == rows * cols,
        forall|k: int|
            0 <= k < r@.len() ==> {
                &&& cell_index(cols as int, (#[trigger] r@[k]).idx) == k
                &&& cell_placed(scale as int, rows as int, cols as int, r@[k], tasks@[k])
            },
{
    let mut cells: Vec<CellView> = Vec::new();
    let mut row: usize = 0;
    while row < rows
        invariant
            scale_fits(scale as int, rows as int, cols as int),
            tasks@.len() == rows * cols,
            row <= rows,
            cells@.len() == row * cols,
            forall|k: int|
                0 <= k < cells@.len() ==> {
                    &&& cell_index(cols as int, (#[trigger] cells@[k]).idx) == k
                    &&& cell_placed(scale as int, rows as int, cols as int, cells@[k], tasks@[k])
                },
        decreases rows - row,
    {
        let mut col: usize = 0;
        while col < cols
            invariant
                scale_fits(scale as int, rows as int, cols as int),
                tasks@.len() == rows * cols,
                row < rows,
                col <= cols,
                cells@.len() == row * cols + col,
                forall|k: int|
                    0 <= k < cells@.len() ==> {
                        &&& cell_index(cols as int, (#[trigger] cells@[k]).idx) == k
                        &&& cell_placed(scale as int, rows as int, cols as int, cells@[k], tasks@[k])
                    },
            decreases cols - col,
        {
            assert(row * cols + col < rows * cols) by (nonlinear_arith)
                requires
                    row < rows,
                    col < cols,
            ;
            let p = Pos { row, col };
            let (x, y) = node_xy(scale, rows, cols, p);
            let half = scale / 2;
            let task = tasks[cells.len()];
            cells.push(CellView { idx: p, x: x + half, y: y - half, size: scale - CELL_INSET, task });
            col = col + 1;
        }
        assert(row * cols + cols == (row + 1) * cols) by (nonlinear_arith);
        row = row + 1;
    }
    cells
}

/// The view index of a `rows` x `cols` board whose edges show `fences`:
/// horizontal edges row by row, then vertical edges row by row.
fn build_edges(scale: i64, rows: usize, cols: usize, fences: &Vec<Fence>) -> (r: ViewIndex)
    requires
        scale_fits(scale as int, rows as int, cols as int),
        rows >= 1,
        cols >= 1,
        edge_total(rows as int, cols as int) <= usize::MAX,
        fences@.len() == edge_total(rows as int, cols as int),
    ensures
        r.wf(),
        r.rows == rows,
        r.cols == cols,
        forall|k: int|
            0 <= k < r.edges@.len() ==> edge_placed(scale as int, rows as int, cols as int, #[trigger] r.edges@[k], fences@[k]),
{
    let mut edges: Vec<VisualEdge> = Vec::new();
    assert(rows + 1 <= h_count(rows as int, cols as int)) by (nonlinear_arith)
        requires
            cols >= 1,
    ;
    assert(cols + 1 <= v_count(rows as int, cols as int)) by (nonlinear_arith)
        requires
            rows >= 1,
    ;
    assert(0 <= v_count(rows as int, cols as int)) by (nonlinear_arith)
        requires
            rows >= 1,
    ;
    let mut row: usize = 0;
    while row < rows + 1
        invariant
            scale_fits(scale as int, rows as int, cols as int),
            rows >= 1,
            cols >= 1,
            rows + 1 <= edge_total(rows as int, cols as int) <= usize::MAX,
            fences@.len() == edge_total(rows as int, cols as int),
            row <= rows + 1,
            edges@.len() == row * cols,
            forall|k: int|
                0 <= k < edges@.len() ==> {
                    &&& edge_valid(rows as int, cols as int, (#[trigger] edges@[k]).edge)
                    &&& edge_slot(rows as int, cols as int, edges@[k].edge) == k
                    &&& edge_placed(scale as int, rows as int, cols as int, edges@[k], fences@[k])
                },
        decreases rows + 1 - row,
    {
        let mut col: usize = 0;
        while col < cols
            invariant
                scale_fits(scale as int, rows as int, cols as int),
                rows >= 1,
                cols >= 1,
                rows + 1 <= edge_total(rows as int, cols as int) <= usize::MAX,
                fences@.len() == edge_total(rows as int, cols as int),
                row < rows + 1,
                col <= cols,
                edges@.len() == row * cols + col,
                forall|k: int|
                    0 <= k < edges@.len() ==> {
                        &&& edge_valid(rows as int, cols as int, (#[trigger] edges@[k]).edge)
                        &&& edge_slot(rows as int, cols as int, edges@[k].edge) == k
                        &&& edge_placed(scale as int, rows as int, cols as int, edges@[k], fences@[k])
                    },
            decreases cols - col,
        {
            let e = Edge::H(Pos { row, col });
            proof {
                lemma_slot_in_range(rows as int, cols as int, e);
            }
            let f = fences[edges.len()];
            edges.push(place_edge(scale, rows, cols, e, f));
            col = col + 1;
        }
        assert(row * cols + cols == (row + 1) * cols) by (nonlinear_arith);
        row = row + 1;
    }
    let ghost h = h_count(rows as int, cols as int);
    assert(edges@.len() == h);
    let mut row: usize = 0;
    while row < rows
        invariant
            scale_fits(scale as int, rows as int, cols as int),
            rows >= 1,
            cols >= 1,
            cols + 1 <= edge_total(rows as int, cols as int) <= usize::MAX,
            h == h_count(rows as int, cols as int),
            fences@.len() == edge_total(rows as int, cols as int),
            row <= rows,
            edges@.len() == h + row * (cols + 1),
            forall|k: int|
                0 <= k < edges@.len() ==> {
                    &&& edge_valid(rows as int, cols as int, (#[trigger] edges@[k]).edge)
                    &&& edge_slot(rows as int, cols as int, edges@[k].edge) == k
                    &&& edge_placed(scale as int, rows as int, cols as int, edges@[k], fences@[k])
                },
        decreases rows - row,
    {
        let mut col: usize = 0;
        while col < cols + 1
            invariant
                scale_fits(scale as int, rows as int, cols as int),
                rows >= 1,
                cols >= 1,
                cols + 1 <= edge_total(rows as int, cols as int) <= usize::MAX,
                h == h_count(rows as int, cols as int),
                fences@.len() == edge_total(rows as int, cols as int),
                row < rows,
                col <= cols + 1,
                edges@.len() == h + row * (cols + 1) + col,
                forall|k: int|
                    0 <= k < edges@.len() ==> {
                        &&& edge_valid(rows as int, cols as int, (#[trigger] edges@[k]).edge)
                        &&& edge_slot(rows as int, cols as int, edges@[k].edge) == k
                        &&& edge_placed(scale as int, rows as int, cols as int, edges@[k], fences@[k])
                    },
            decreases cols + 1 - col,
        {
            let e = Edge::V(Pos { row, col });
            proof {
                lemma_slot_in_range(rows as int, cols as int, e);
            }
            let f = fences[edges.len()];
            edges.push(place_edge(scale, rows, cols, e, f));
            col = col + 1;
        }
        assert(row * (cols + 1) + (cols + 1) == (row + 1) * (cols + 1)) by (nonlinear_arith);
        row = row + 1;
    }
    ViewIndex { rows, cols, edges }
}

/// Lays out `board` in a viewport of `viewport_height` x `viewport_width`:
/// one marker per node, one square per cell, and one visual edge per edge,
/// showing the edge's current state, in a view index holding every edge once.
pub fn build_scene(board: &Board, viewport_height: u32, viewport_width: u32) -> (r: Scene)
    requires
        board.wf(),
    ensures
        ({
            let rows = board.puzzle.rows as int;
            let cols = board.puzzle.cols as int;
            let scale = r.scale as int;
            &&& scale == layout_scale(viewport_height as int, viewport_width as int, rows, cols)
            &&& r.backdrop_width == cols * scale * 6 / 5
            &&& r.backdrop_height == rows * scale * 6 / 5
            &&& r.nodes@.len() == (rows + 1) * (cols + 1)
            &&& forall|k: int|
                0 <= k < r.nodes@.len() ==> {
                    &&& node_index(rows, (#[trigger] r.nodes@[k]).idx) == k
                    &&& node_placed(scale, rows, cols, r.nodes@[k])
                }
            &&& r.cells@.len() == rows * cols
            &&& forall|k: int|
                0 <= k < r.cells@.len() ==> {
                    &&& cell_index(cols, (#[trigger] r.cells@[k]).idx) == k
                    &&& cell_placed(scale, rows, cols, r.cells@[k], board.puzzle.tasks@[k])
                }
            &&& r.view.wf()
            &&& r.view.rows == board.puzzle.rows
            &&& r.view.cols == board.puzzle.cols
            &&& r.view.edges@.len() == rows * (cols + 1) + cols * (rows + 1)
            &&& forall|e: Edge|
                edge_valid(rows, cols, e) ==> (#[trigger] r.view.edges@[edge_slot(rows, cols, e)]).edge == e
            &&& forall|k: int|
                0 <= k < r.view.edges@.len() ==> edge_placed(
                    scale,
                    rows,
                    cols,
                    #[trigger] r.view.edges@[k],
                    board.puzzle.fences@[k],
                )
            &&& r.view.displays() == board.puzzle.fences@
        }),
{
    let rows = board.puzzle.rows;
    let cols = board.puzzle.cols;
    let scale = layout_scale_of(viewport_height, viewport_width, rows, cols);
    assert((rows + 1) * (cols + 1) <= edge_total(rows as int, cols as int)) by (nonlinear_arith)
        requires
            rows >= 1,
            cols >= 1,
    ;
    let nodes = build_nodes(scale, rows, cols);
    let cells = build_cells(scale, rows, cols, &board.puzzle.tasks);
    let view = build_edges(scale, rows, cols, &board.puzzle.fences);
    proof {
        assert forall|e: Edge| edge_valid(rows as int, cols as int, e) implies (#[trigger] view.edges@[edge_slot(rows as int, cols as int, e)]).edge == e by {
            view.lemma_complete(e);
        }
        assert(view.displays() =~= board.puzzle.fences@);
        lemma_scaled_le(scale as int, cols as int, cols as int);
        lemma_scaled_le(scale as int, rows as int, rows as int);
        assert(cols * scale == scale * cols && rows * scale == scale * rows) by (nonlinear_arith);
    }
    let s = scale as i128;
    let backdrop_width = ((cols as i128) * s * 6 / 5) as i64;
    let backdrop_height = ((rows as i128) * s * 6 / 5) as i64;
    Scene { scale, backdrop_width, backdrop_height, nodes, cells, view }
}

} // verus!
