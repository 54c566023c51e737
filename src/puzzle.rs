//! The puzzle board as the view layer sees it: its size, the task hints of its
//! cells, the state of every fence, and the append-only log of moves.
use vstd::prelude::*;

use crate::edge::{
    edge_of, edge_slot, edge_total, edge_valid, h_count, lemma_slot_in_range, v_count, Edge,
    Fence, Pos,
};

verus! {

/// One logged change of one fence. Its sequence number is its place in the log.
#[derive(Debug)]
pub struct Move {
    /// 0 for a horizontal edge, 1 for a vertical one.
    pub direction: u8,
    pub idx: Pos,
    pub value: bool,
    pub label: String,
}

/// The edge that move `m` sets, if its direction is a known one.
pub open spec fn move_edge(m: Move) -> Option<Edge> {
    edge_of(m.direction, m.idx)
}

/// Whether move `m` names an edge of a `rows` x `cols` board.
pub open spec fn move_fits(rows: int, cols: int, m: Move) -> bool {
    &&& move_edge(m) is Some
    &&& edge_valid(rows, cols, move_edge(m)->0)
}

/// Why a board could not be built, or a move not played.
#[derive(Clone, Copy, Debug, PartialEq, Eq, Structural)]
pub enum BoardError {
    /// The board has no rows or no columns.
    EmptyBoard,
    /// The number of edges does not fit in a `usize`.
    TooLarge,
    /// The task list does not hold one entry per cell.
    TaskCount,
    /// The fence list does not hold one entry per edge.
    FenceCount,
    /// A move names no edge of the board.
    NoSuchEdge,
}

/// The puzzle state.
///
/// `tasks` holds one optional hint per cell, row by row; `fences` holds the state
/// of every edge, at the edge's slot (see `edge_slot`); `moves` is the log.
pub struct PuzzleBoard {
    pub rows: usize,
    pub cols: usize,
    pub tasks: Vec<Option<u8>>,
    pub fences: Vec<Fence>,
    pub moves: Vec<Move>,
}

impl PuzzleBoard {
    pub open spec fn wf(&self) -> bool {
        &&& self.rows >= 1
        &&& self.cols >= 1
        &&& edge_total(self.rows as int, self.cols as int) <= usize::MAX
        &&& self.tasks@.len() == self.rows * self.cols
        &&& self.fences@.len() == edge_total(self.rows as int, self.cols as int)
        &&& forall|i: int|
            0 <= i < self.moves@.len() ==> move_fits(self.rows as int, self.cols as int, #[trigger] self.moves@[i])
    }

    /// Builds a board of `rows` x `cols` cells with the given hints and fence
    /// states and an empty move log.
    pub fn from_parts(rows: usize, cols: usize, tasks: Vec<Option<u8>>, fences: Vec<Fence>) -> (r: Result<PuzzleBoard, BoardError>)
        ensures
            (rows == 0 || cols == 0) <==> r == Err::<PuzzleBoard, _>(BoardError::EmptyBoard),
            (rows >= 1 && cols >= 1 && edge_total(rows as int, cols as int) > usize::MAX)
                <==> r == Err::<PuzzleBoard, _>(BoardError::TooLarge),
            (rows >= 1 && cols >= 1 && edge_total(rows as int, cols as int) <= usize::MAX
                && tasks@.len() != rows * cols) <==> r == Err::<PuzzleBoard, _>(BoardError::TaskCount),
            (rows >= 1 && cols >= 1 && edge_total(rows as int, cols as int) <= usize::MAX
                && tasks@.len() == rows * cols && fences@.len() != edge_total(rows as int, cols as int))
                <==> r == Err::<PuzzleBoard, _>(BoardError::FenceCount),
            r is Ok ==> {
                let b = r->Ok_0;
                &&& b.wf()
                &&& b.rows == rows
                &&& b.cols == cols
                &&& b.tasks@ == tasks@
                &&& b.fences@ == fences@
                &&& b.moves@.len() == 0
            },
    {
        if rows == 0 || cols == 0 {
            return Err(BoardError::EmptyBoard);
        }
        proof {
            assert(rows + 1 <= h_count(rows as int, cols as int)) by (nonlinear_arith)
                requires
                    cols >= 1,
            ;
            assert(cols + 1 <= v_count(rows as int, cols as int)) by (nonlinear_arith)
                requires
                    rows >= 1,
            ;
            assert(rows * cols <= v_count(rows as int, cols as int)) by (nonlinear_arith)
                requires
                    rows >= 1,
            ;
            assert(0 <= h_count(rows as int, cols as int)) by (nonlinear_arith)
                requires
                    cols >= 1,
            ;
        }
        let total = match rows.checked_add(1) {
            None => None,
            Some(r1) => match cols.checked_add(1) {
                None => None,
                Some(c1) => match r1.checked_mul(cols) {
                    None => None,
                    Some(h) => match rows.checked_mul(c1) {
                        None => None,
                        Some(v) => h.checked_add(v),
                    },
                },
            },
        };
        let total = match total {
            None => {
                return Err(BoardError::TooLarge);
            },
            Some(t) => t,
        };
        if tasks.len() != rows * cols {
            return Err(BoardError::TaskCount);
        }
        if fences.len() != total {
            return Err(BoardError::FenceCount);
        }
        Ok(PuzzleBoard { rows, cols, tasks, fences, moves: Vec::new() })
    }

    /// The board's size: (rows, columns).
    pub fn size(&self) -> (r: (usize, usize))
        ensures
            r == (self.rows, self.cols),
    {
        (self.rows, self.cols)
    }

    /// Number of edges of the board.
    pub fn edge_count(&self) -> (r: usize)
        requires
            self.wf(),
        ensures
            r == edge_total(self.rows as int, self.cols as int),
    {
        proof {
            assert(h_count(self.rows as int, self.cols as int) == self.rows * self.cols + self.cols)
                by (nonlinear_arith);
            assert(v_count(self.rows as int, self.cols as int) == self.rows * self.cols + self.rows)
                by (nonlinear_arith);
            assert(0 <= self.rows * self.cols) by (nonlinear_arith)
                requires
                    self.rows >= 1,
                    self.cols >= 1,
            ;
        }
        let rc = self.rows * self.cols;
        rc + self.cols + rc + self.rows
    }

    /// The task hint of the cell at `p`.
    pub fn task(&self, p: Pos) -> (r: Option<u8>)
        requires
            self.wf(),
            p.row < self.rows,
            p.col < self.cols,
        ensures
            r == self.tasks@[p.row * self.cols + p.col],
    {
        proof {
            assert(p.row * self.cols + p.col < self.rows * self.cols) by (nonlinear_arith)
                requires
                    p.row < self.rows,
                    p.col < self.cols,
            ;
            assert(0 <= p.row * self.cols) by (nonlinear_arith);
            assert(self.rows * self.cols <= v_count(self.rows as int, self.cols as int))
                by (nonlinear_arith);
            assert(0 <= h_count(self.rows as int, self.cols as int)) by (nonlinear_arith)
                requires
                    self.cols >= 1,
            ;
        }
        self.tasks[p.row * self.cols + p.col]
    }

    /// The current state of edge `e`.
    pub fn fence(&self, e: Edge) -> (r: Fence)
        requires
            self.wf(),
            edge_valid(self.rows as int, self.cols as int, e),
        ensures
            r == self.fences@[edge_slot(self.rows as int, self.cols as int, e)],
    {
        proof {
            lemma_slot_in_range(self.rows as int, self.cols as int, e);
        }
        self.fences[e.slot(self.rows, self.cols)]
    }

    /// The move log, oldest first.
    pub fn moves(&self) -> (r: &Vec<Move>)
        ensures
            r@ == self.moves@,
    {
        &self.moves
    }

    /// Appends a move setting the fence named by `direction` and `idx` to
    /// `value`, and sets that fence. A move naming no edge of the board is
    /// refused and changes nothing.
    pub fn play(&mut self, direction: u8, idx: Pos, value: bool, label: String) -> (r: Result<(), BoardError>)
        requires
            old(self).wf(),
        ensures
            final(self).wf(),
            final(self).rows == old(self).rows,
            final(self).cols == old(self).cols,
            final(self).tasks@ == old(self).tasks@,
            match edge_of(direction, idx) {
                Some(e) if edge_valid(old(self).rows as int, old(self).cols as int, e) => {
                    &&& r is Ok
                    &&& final(self).moves@ == old(self).moves@.push(
                        Move { direction, idx, value, label },
                    )
                    &&& final(self).fences@ == old(self).fences@.update(
                        edge_slot(old(self).rows as int, old(self).cols as int, e),
                        Fence(Some(value)),
                    )
                },
                _ => {
                    &&& r == Err::<(), _>(BoardError::NoSuchEdge)
                    &&& final(self).moves@ == old(self).moves@
                    &&& final(self).fences@ == old(self).fences@
                },
            },
    {
        let e = match Edge::from_move(direction, idx) {
            None => {
                return Err(BoardError::NoSuchEdge);
            },
            Some(e) => e,
        };
        let fits = match e {
            Edge::H(p) => p.row <= self.rows && p.col < self.cols,
            Edge::V(p) => p.row < self.rows && p.col <= self.cols,
        };
        if !fits {
            return Err(BoardError::NoSuchEdge);
        }
        proof {
            lemma_slot_in_range(self.rows as int, self.cols as int, e);
        }
        let slot = e.slot(self.rows, self.cols);
        self.fences.set(slot, Fence(Some(value)));
        let m = Move { direction, idx, value, label };
        self.moves.push(m);
        assert(forall|i: int| 0 <= i < self.moves@.len() ==> move_fits(self.rows as int, self.cols as int, #[trigger] self.moves@[i]) ) by {
            assert(forall|i: int| 0 <= i < self.moves@.len() - 1 ==> self.moves@[i] == old(self).moves@[i]);
        }
        Ok(())
    }
}

} // verus!
