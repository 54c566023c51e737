//! Pointer hover tracking and the buttons that set a fence on or off.
use vstd::prelude::*;

use crate::board::Board;
use crate::edge::{edge_slot, edge_valid, Edge, Fence};
use crate::puzzle::{move_edge, BoardError};
use crate::view::{hit_test, hover_of, ViewIndex};

verus! {

/// A pointer button: the primary one sets a fence on, the secondary one off.
#[derive(Clone, Copy, Debug, PartialEq, Eq, Structural)]
pub enum Button {
    Primary,
    Secondary,
}

/// The edge under the pointer, if any (idle when `None`).
#[derive(Clone, Copy, Debug)]
pub struct InteractionController {
    pub hovered: Option<Edge>,
}

impl InteractionController {
    /// An idle controller.
    pub fn new() -> (r: InteractionController)
        ensures
            r.hovered is None,
    {
        InteractionController { hovered: None }
    }

    /// Handles a pointer move to (`px`, `py`): the hovered edge becomes the
    /// one the hit test reports, replacing any earlier one.
    pub fn pointer_moved(&mut self, view: &ViewIndex, px: i64, py: i64)
        ensures
            final(self).hovered == hover_of(view.edges@, px as int, py as int),
    {
        self.hovered = hit_test(&view.edges, px, py);
    }

    /// Handles a press of `button`: while an edge of the board is hovered, plays
    /// a move setting it on (primary) or off (secondary) and returns `true`;
    /// otherwise changes nothing and returns `false`.
    pub fn button_pressed(&self, button: Button, board: &mut Board) -> (r: bool)
        requires
            old(board).wf(),
        ensures
            final(board).wf(),
            final(board).cursor == old(board).cursor,
            final(board).puzzle.rows == old(board).puzzle.rows,
            final(board).puzzle.cols == old(board).puzzle.cols,
            final(board).puzzle.tasks@ == old(board).puzzle.tasks@,
            r == (self.hovered is Some && edge_valid(
                old(board).puzzle.rows as int,
                old(board).puzzle.cols as int,
                self.hovered->0,
            )),
            r ==> {
                let e = self.hovered->0;
                let ms = final(board).puzzle.moves@;
                let v = button == Button::Primary;
                &&& ms.drop_last() == old(board).puzzle.moves@
                &&& ms.len() == old(board).puzzle.moves@.len() + 1
                &&& move_edge(ms.last()) == Some(e)
                &&& ms.last().value == v
                &&& final(board).puzzle.fences@ == old(board).puzzle.fences@.update(
                    edge_slot(old(board).puzzle.rows as int, old(board).puzzle.cols as int, e),
                    Fence(Some(v)),
                )
            },
            !r ==> {
                &&& final(board).puzzle.moves@ == old(board).puzzle.moves@
                &&& final(board).puzzle.fences@ == old(board).puzzle.fences@
            },
    {
        match self.hovered {
            None => false,
            Some(e) => {
                let v = match button {
                    Button::Primary => true,
                    Button::Secondary => false,
                };
                let played: Result<(), BoardError> = e.play_in(board, v);
                played.is_ok()
            },
        }
    }
}

} // verus!
