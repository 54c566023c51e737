//! The board with its synchronisation watermark, and the incremental replay of
//! new moves onto the view.
use vstd::prelude::*;

use crate::edge::{edge_of, edge_slot, edge_valid, Edge, Fence, Pos};
use crate::puzzle::{move_edge, move_fits, BoardError, Move, PuzzleBoard};
use crate::view::{ViewIndex, VisualEdge};

verus! {

/// The fence states `d` after the moves `ms` were applied to it in log order,
/// each at the slot of its edge on a `rows` x `cols` board (a move naming no
/// slot of `d` changes nothing).
pub open spec fn replay(rows: int, cols: int, d: Seq<Fence>, ms: Seq<Move>) -> Seq<Fence>
    decreases ms.len(),
{
    if ms.len() == 0 {
        d
    } else {
        let m = ms.last();
        let before = replay(rows, cols, d, ms.drop_last());
        match move_edge(m) {
            Some(e) if 0 <= edge_slot(rows, cols, e) < before.len() => before.update(
                edge_slot(rows, cols, e),
                Fence(Some(m.value)),
            ),
            _ => before,
        }
    }
}

/// Whether move `m` sets the edge at slot `s` of a `rows` x `cols` board.
pub open spec fn touches(rows: int, cols: int, m: Move, s: int) -> bool {
    &&& move_edge(m) is Some
    &&& edge_slot(rows, cols, move_edge(m)->0) == s
}

/// Whether `new` is `old` with at most the shown fence states changed.
pub open spec fn same_but_display(old_edges: Seq<VisualEdge>, new_edges: Seq<VisualEdge>) -> bool {
    &&& new_edges.len() == old_edges.len()
    &&& forall|i: int|
        0 <= i < old_edges.len() ==> (#[trigger] new_edges[i]) == VisualEdge {
            display: new_edges[i].display,
            ..old_edges[i]
        }
}

/// Replaying moves keeps the number of fence states.
pub proof fn lemma_replay_len(rows: int, cols: int, d: Seq<Fence>, ms: Seq<Move>)
    ensures
        replay(rows, cols, d, ms).len() == d.len(),
    decreases ms.len(),
{
    if ms.len() > 0 {
        lemma_replay_len(rows, cols, d, ms.drop_last());
    }
}

/// Replaying two runs of moves one after the other is replaying them joined:
/// how the moves were split into synchronisation passes does not matter.
pub proof fn lemma_replay_batching(rows: int, cols: int, d: Seq<Fence>, first: Seq<Move>, second: Seq<Move>)
    ensures
        replay(rows, cols, replay(rows, cols, d, first), second) == replay(rows, cols, d, first + second),
    decreases second.len(),
{
    if second.len() == 0 {
        assert(first + second =~= first);
    } else {
        lemma_replay_batching(rows, cols, d, first, second.drop_last());
        assert((first + second).drop_last() =~= first + second.drop_last());
        assert((first + second).last() == second.last());
    }
}

/// Two synchronisation passes, one up to watermark `mid` and one from there to
/// `end`, show what a single pass from `start` to `end` shows.
pub proof fn lemma_two_passes(rows: int, cols: int, d: Seq<Fence>, ms: Seq<Move>, start: int, mid: int, end: int)
    requires
        0 <= start <= mid <= end <= ms.len(),
    ensures
        replay(rows, cols, replay(rows, cols, d, ms.subrange(start, mid)), ms.subrange(mid, end))
            == replay(rows, cols, d, ms.subrange(start, end)),
{
    lemma_replay_batching(rows, cols, d, ms.subrange(start, mid), ms.subrange(mid, end));
    assert(ms.subrange(start, mid) + ms.subrange(mid, end) =~= ms.subrange(start, end));
}

/// The state shown at slot `s` after a replay is the value of the last move that
/// touches `s`.
pub proof fn lemma_last_move_wins(rows: int, cols: int, d: Seq<Fence>, ms: Seq<Move>, s: int, k: int)
    requires
        0 <= s < d.len(),
        0 <= k < ms.len(),
        touches(rows, cols, ms[k], s),
        forall|j: int| k < j < ms.len() ==> !touches(rows, cols, #[trigger] ms[j], s),
    ensures
        replay(rows, cols, d, ms).len() == d.len(),
        replay(rows, cols, d, ms)[s] == Fence(Some(ms[k].value)),
    decreases ms.len(),
{
    lemma_replay_len(rows, cols, d, ms);
    lemma_replay_len(rows, cols, d, ms.drop_last());
    let rest = ms.drop_last();
    if k < ms.len() - 1 {
        assert(!touches(rows, cols, ms[ms.len() - 1], s));
        assert forall|j: int| k < j < rest.len() implies !touches(rows, cols, #[trigger] rest[j], s) by {
            assert(rest[j] == ms[j]);
        }
        lemma_last_move_wins(rows, cols, d, rest, s, k);
    }
}

/// A slot that no move touches keeps the state it had before the replay.
pub proof fn lemma_untouched_slot_kept(rows: int, cols: int, d: Seq<Fence>, ms: Seq<Move>, s: int)
    requires
        0 <= s < d.len(),
        forall|j: int| 0 <= j < ms.len() ==> !touches(rows, cols, #[trigger] ms[j], s),
    ensures
        replay(rows, cols, d, ms).len() == d.len(),
        replay(rows, cols, d, ms)[s] == d[s],
    decreases ms.len(),
{
    lemma_replay_len(rows, cols, d, ms);
    if ms.len() > 0 {
        let rest = ms.drop_last();
        lemma_replay_len(rows, cols, d, rest);
        assert(!touches(rows, cols, ms[ms.len() - 1], s));
        assert forall|j: int| 0 <= j < rest.len() implies !touches(rows, cols, #[trigger] rest[j], s) by {
            assert(rest[j] == ms[j]);
        }
        lemma_untouched_slot_kept(rows, cols, d, rest, s);
    }
}

/// After a pass that caught up with the log, a second pass with no new moves
/// replays nothing and leaves every shown state as it is.
pub proof fn lemma_sync_idempotent(rows: int, cols: int, d: Seq<Fence>, ms: Seq<Move>, cursor: int)
    requires
        0 <= cursor <= ms.len(),
    ensures
        ({
            let once = replay(rows, cols, d, ms.subrange(cursor, ms.len() as int));
            replay(rows, cols, once, ms.subrange(ms.len() as int, ms.len() as int)) == once
        }),
{
    assert(ms.subrange(ms.len() as int, ms.len() as int).len() == 0);
}

/// The puzzle board together with the number of its moves that the view shows.
pub struct Board {
    pub puzzle: PuzzleBoard,
    /// The watermark: how many moves of the log the view already shows.
    pub cursor: usize,
}

impl Board {
    pub open spec fn wf(&self) -> bool {
        &&& self.puzzle.wf()
        &&& self.cursor <= self.puzzle.moves@.len()
    }

    /// Wraps a board whose current state the view will be built from: the moves
    /// already in its log count as shown.
    pub fn new(puzzle: PuzzleBoard) -> (r: Board)
        requires
            puzzle.wf(),
        ensures
            r.wf(),
            r.puzzle == puzzle,
            r.cursor == puzzle.moves@.len(),
    {
        let cursor = puzzle.moves.len();
        Board { puzzle, cursor }
    }

    /// Whether the log holds moves that the view does not show yet.
    pub fn is_updated(&self) -> (r: bool)
        ensures
            r == (self.cursor != self.puzzle.moves@.len()),
    {
        self.cursor != self.puzzle.moves.len()
    }

    /// Plays a move on the puzzle (see `PuzzleBoard::play`); the watermark stays.
    pub fn play(&mut self, direction: u8, idx: Pos, value: bool, label: String) -> (r: Result<(), BoardError>)
        requires
            old(self).wf(),
        ensures
            final(self).wf(),
            final(self).cursor == old(self).cursor,
            final(self).puzzle.rows == old(self).puzzle.rows,
            final(self).puzzle.cols == old(self).puzzle.cols,
            final(self).puzzle.tasks@ == old(self).puzzle.tasks@,
            match edge_of(direction, idx) {
                Some(e) if edge_valid(old(self).puzzle.rows as int, old(self).puzzle.cols as int, e) => {
                    &&& r is Ok
                    &&& final(self).puzzle.moves@ == old(self).puzzle.moves@.push(
                        Move { direction, idx, value, label },
                    )
                    &&& final(self).puzzle.fences@ == old(self).puzzle.fences@.update(
                        edge_slot(old(self).puzzle.rows as int, old(self).puzzle.cols as int, e),
                        Fence(Some(value)),
                    )
                },
                _ => {
                    &&& r == Err::<(), _>(BoardError::NoSuchEdge)
                    &&& final(self).puzzle.moves@ == old(self).puzzle.moves@
                    &&& final(self).puzzle.fences@ == old(self).puzzle.fences@
                },
            },
    {
        self.puzzle.play(direction, idx, value, label)
    }

    /// Shows on `view` the moves played since the last pass, in log order, and
    /// moves the watermark to the end of the log. Only the shown states of the
    /// edges those moves touch change; with no new move nothing changes.
    /// Returns, for each of those moves in order, the handle it set.
    pub fn sync_view(&mut self, view: &mut ViewIndex) -> (r: Vec<usize>)
        requires
            old(self).wf(),
            old(view).wf(),
            old(view).rows == old(self).puzzle.rows,
            old(view).cols == old(self).puzzle.cols,
        ensures
            final(self).wf(),
            final(self).puzzle == old(self).puzzle,
            final(self).cursor == old(self).puzzle.moves@.len(),
            final(view).wf(),
            final(view).rows == old(view).rows,
            final(view).cols == old(view).cols,
            same_but_display(old(view).edges@, final(view).edges@),
            final(view).displays() == replay(
                old(view).rows as int,
                old(view).cols as int,
                old(view).displays(),
                old(self).puzzle.moves@.subrange(old(self).cursor as int, old(self).puzzle.moves@.len() as int),
            ),
            r@.len() == old(self).puzzle.moves@.len() - old(self).cursor,
            forall|j: int|
                0 <= j < r@.len() ==> touches(
                    old(view).rows as int,
                    old(view).cols as int,
                    old(self).puzzle.moves@[old(self).cursor + j],
                    #[trigger] r@[j] as int,
                ),
    {
        let ghost rows = view.rows as int;
        let ghost cols = view.cols as int;
        let ghost d0 = view.displays();
        let ghost e0 = view.edges@;
        let ghost ms = self.puzzle.moves@;
        let start = self.cursor;
        let total = self.puzzle.moves.len();
        let mut i = start;
        let mut set: Vec<usize> = Vec::new();
        assert(ms.subrange(start as int, start as int) =~= Seq::<Move>::empty());
        while i < total
            invariant
                self.wf(),
                self.puzzle.moves@ == ms,
                view.wf(),
                view.rows == rows,
                view.cols == cols,
                rows == self.puzzle.rows,
                cols == self.puzzle.cols,
                start <= i <= total,
                total == ms.len(),
                same_but_display(e0, view.edges@),
                view.displays() == replay(rows, cols, d0, ms.subrange(start as int, i as int)),
                set@.len() == i - start,
                forall|j: int|
                    0 <= j < set@.len() ==> touches(rows, cols, ms[start + j], #[trigger] set@[j] as int),
            decreases total - i,
        {
            let m = &self.puzzle.moves[i];
            assert(move_fits(rows, cols, ms[i as int]));
            let e = Edge::from_move(m.direction, m.idx).unwrap();
            let h = view.handle(e).unwrap();
            let ghost before = view.displays();
            view.set_display(h, Fence(Some(m.value)));
            set.push(h);
            proof {
                let sub = ms.subrange(start as int, i + 1);
                assert(sub.drop_last() =~= ms.subrange(start as int, i as int));
                assert(sub.last() == ms[i as int]);
                assert(view.displays() =~= before.update(h as int, Fence(Some(m.value))));
            }
            i = i + 1;
        }
        self.cursor = total;
        set
    }
}

impl Edge {
    /// Plays, on `board`, a move that sets this edge to `v`.
    pub fn play_in(&self, board: &mut Board, v: bool) -> (r: Result<(), BoardError>)
        requires
            old(board).wf(),
        ensures
            final(board).wf(),
            final(board).cursor == old(board).cursor,
            final(board).puzzle.rows == old(board).puzzle.rows,
            final(board).puzzle.cols == old(board).puzzle.cols,
            final(board).puzzle.tasks@ == old(board).puzzle.tasks@,
            edge_valid(old(board).puzzle.rows as int, old(board).puzzle.cols as int, *self) ==> {
                let ms = final(board).puzzle.moves@;
                &&& r is Ok
                &&& ms.len() == old(board).puzzle.moves@.len() + 1
                &&& ms.drop_last() == old(board).puzzle.moves@
                &&& move_edge(ms.last()) == Some(*self)
                &&& ms.last().value == v
                &&& ms.last().label@ == "Game Move"@
                &&& final(board).puzzle.fences@ == old(board).puzzle.fences@.update(
                    edge_slot(old(board).puzzle.rows as int, old(board).puzzle.cols as int, *self),
                    Fence(Some(v)),
                )
            },
            !edge_valid(old(board).puzzle.rows as int, old(board).puzzle.cols as int, *self) ==> {
                &&& r == Err::<(), _>(BoardError::NoSuchEdge)
                &&& final(board).puzzle.moves@ == old(board).puzzle.moves@
                &&& final(board).puzzle.fences@ == old(board).puzzle.fences@
            },
    {
        let label = "Game Move".to_string();
        proof {
            reveal_strlit("Game Move");
        }
        let r = board.play(self.direction(), self.pos(), v, label);
        proof {
            if edge_valid(old(board).puzzle.rows as int, old(board).puzzle.cols as int, *self) {
                assert(board.puzzle.moves@.drop_last() =~= old(board).puzzle.moves@);
            }
        }
        r
    }
}

} // verus!
