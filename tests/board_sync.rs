use fences_view::board::Board;
use fences_view::edge::{Edge, Fence, Pos};
use fences_view::puzzle::{BoardError, PuzzleBoard};
use fences_view::scene::build_scene;
use fences_view::view::ViewIndex;

fn blank_board(rows: usize, cols: usize) -> PuzzleBoard {
    let edges = rows * (cols + 1) + cols * (rows + 1);
    PuzzleBoard::from_parts(rows, cols, vec![None; rows * cols], vec![Fence(None); edges]).unwrap()
}

fn shown(view: &ViewIndex) -> Vec<Fence> {
    view.edges.iter().map(|v| v.display).collect()
}

fn shown_at(view: &ViewIndex, e: Edge) -> Fence {
    view.edges[view.handle(e).unwrap()].display
}

#[test]
fn round_trip_three_by_three() {
    let mut board = Board::new(blank_board(3, 3));
    let mut view = build_scene(&board, 720, 480).view;
    assert_eq!(view.edges.len(), 24);
    assert!(shown(&view).iter().all(|f| *f == Fence(None)));
    assert_eq!(board.cursor, 0);

    board.play(0, Pos { row: 0, col: 0 }, true, "t".to_string()).unwrap();
    let set = board.sync_view(&mut view);
    assert_eq!(board.cursor, 1);
    let h00 = view.handle(Edge::H(Pos { row: 0, col: 0 })).unwrap();
    assert_eq!(set, vec![h00]);
    for (i, f) in shown(&view).iter().enumerate() {
        if i == h00 {
            assert_eq!(*f, Fence(Some(true)));
        } else {
            assert_eq!(*f, Fence(None));
        }
    }

    let before = shown(&view);
    board.play(0, Pos { row: 0, col: 0 }, false, "t".to_string()).unwrap();
    board.sync_view(&mut view);
    assert_eq!(board.cursor, 2);
    let after = shown(&view);
    for i in 0..after.len() {
        if i == h00 {
            assert_eq!(after[i], Fence(Some(false)));
        } else {
            assert_eq!(after[i], before[i]);
        }
    }
}

#[test]
fn sync_twice_changes_nothing() {
    let mut board = Board::new(blank_board(2, 3));
    let mut view = build_scene(&board, 600, 600).view;
    board.play(1, Pos { row: 1, col: 3 }, true, "a".to_string()).unwrap();
    board.play(0, Pos { row: 2, col: 0 }, false, "b".to_string()).unwrap();
    board.sync_view(&mut view);
    let once = view.edges.clone();
    let cursor = board.cursor;
    assert!(!board.is_updated());
    assert!(board.sync_view(&mut view).is_empty());
    assert_eq!(view.edges, once);
    assert_eq!(board.cursor, cursor);
}

#[test]
fn later_move_wins_across_batches() {
    let e = Edge::V(Pos { row: 0, col: 1 });
    let other = Edge::H(Pos { row: 1, col: 1 });

    let mut one_pass = Board::new(blank_board(2, 2));
    let mut view_one = build_scene(&one_pass, 400, 400).view;
    let mut two_pass = Board::new(blank_board(2, 2));
    let mut view_two = build_scene(&two_pass, 400, 400).view;

    one_pass.play(1, Pos { row: 0, col: 1 }, true, "m".to_string()).unwrap();
    one_pass.play(0, Pos { row: 1, col: 1 }, true, "m".to_string()).unwrap();
    one_pass.play(1, Pos { row: 0, col: 1 }, false, "m".to_string()).unwrap();
    one_pass.sync_view(&mut view_one);

    two_pass.play(1, Pos { row: 0, col: 1 }, true, "m".to_string()).unwrap();
    two_pass.sync_view(&mut view_two);
    assert_eq!(shown_at(&view_two, e), Fence(Some(true)));
    two_pass.play(0, Pos { row: 1, col: 1 }, true, "m".to_string()).unwrap();
    two_pass.play(1, Pos { row: 0, col: 1 }, false, "m".to_string()).unwrap();
    let set = two_pass.sync_view(&mut view_two);
    assert_eq!(set, vec![view_two.handle(other).unwrap(), view_two.handle(e).unwrap()]);

    assert_eq!(shown_at(&view_one, e), Fence(Some(false)));
    assert_eq!(shown_at(&view_one, other), Fence(Some(true)));
    assert_eq!(view_one.edges, view_two.edges);
    assert_eq!(one_pass.cursor, 3);
    assert_eq!(two_pass.cursor, 3);
}

#[test]
fn view_holds_every_edge() {
    for (rows, cols) in [(1usize, 1usize), (3, 3), (2, 5), (4, 1)] {
        let board = Board::new(blank_board(rows, cols));
        let view = build_scene(&board, 720, 480).view;
        assert_eq!(view.edges.len(), rows * (cols + 1) + cols * (rows + 1));
        for row in 0..=rows {
            for col in 0..=cols {
                let p = Pos { row, col };
                let h = view.handle(Edge::H(p));
                let v = view.handle(Edge::V(p));
                assert_eq!(h.is_some(), col < cols);
                assert_eq!(v.is_some(), row < rows);
                if let Some(i) = h {
                    assert_eq!(view.edges[i].edge, Edge::H(p));
                }
                if let Some(i) = v {
                    assert_eq!(view.edges[i].edge, Edge::V(p));
                }
            }
        }
    }
}

#[test]
fn initial_fences_are_shown() {
    let mut fences = vec![Fence(None); 12];
    let h = Edge::H(Pos { row: 1, col: 0 }).slot(2, 2);
    let v = Edge::V(Pos { row: 1, col: 2 }).slot(2, 2);
    assert_eq!(h, 2);
    assert_eq!(v, 11);
    fences[h] = Fence(Some(true));
    fences[v] = Fence(Some(false));
    let puzzle = PuzzleBoard::from_parts(2, 2, vec![Some(3), None, Some(0), Some(2)], fences.clone()).unwrap();
    let board = Board::new(puzzle);
    let view = build_scene(&board, 400, 400).view;
    assert_eq!(shown(&view), fences);
}

#[test]
fn from_parts_errors() {
    assert_eq!(PuzzleBoard::from_parts(0, 3, vec![], vec![]).err(), Some(BoardError::EmptyBoard));
    assert_eq!(PuzzleBoard::from_parts(3, 0, vec![], vec![]).err(), Some(BoardError::EmptyBoard));
    assert_eq!(PuzzleBoard::from_parts(usize::MAX, 1, vec![], vec![]).err(), Some(BoardError::TooLarge));
    assert_eq!(
        PuzzleBoard::from_parts(2, 2, vec![None; 3], vec![Fence(None); 12]).err(),
        Some(BoardError::TaskCount)
    );
    assert_eq!(
        PuzzleBoard::from_parts(2, 2, vec![None; 4], vec![Fence(None); 13]).err(),
        Some(BoardError::FenceCount)
    );
    let b = PuzzleBoard::from_parts(2, 3, vec![None; 6], vec![Fence(None); 17]).unwrap();
    assert_eq!(b.size(), (2, 3));
    assert_eq!(b.edge_count(), 17);
    assert!(b.moves().is_empty());
}

#[test]
fn play_refuses_unknown_edges() {
    let mut board = Board::new(blank_board(2, 2));
    assert_eq!(board.play(2, Pos { row: 0, col: 0 }, true, "x".to_string()), Err(BoardError::NoSuchEdge));
    assert_eq!(board.play(0, Pos { row: 0, col: 2 }, true, "x".to_string()), Err(BoardError::NoSuchEdge));
    assert_eq!(board.play(1, Pos { row: 2, col: 0 }, true, "x".to_string()), Err(BoardError::NoSuchEdge));
    assert!(board.puzzle.moves().is_empty());
    assert!(!board.is_updated());
    assert_eq!(board.play(0, Pos { row: 2, col: 1 }, true, "x".to_string()), Ok(()));
    assert_eq!(board.play(1, Pos { row: 1, col: 2 }, false, "y".to_string()), Ok(()));
    assert!(board.is_updated());
    assert_eq!(board.puzzle.moves().len(), 2);
    assert_eq!(board.puzzle.moves()[1].label, "y");
    assert_eq!(board.puzzle.fence(Edge::H(Pos { row: 2, col: 1 })), Fence(Some(true)));
    assert_eq!(board.puzzle.fence(Edge::V(Pos { row: 1, col: 2 })), Fence(Some(false)));
    assert_eq!(board.puzzle.fence(Edge::V(Pos { row: 0, col: 0 })), Fence(None));
}

#[test]
fn board_new_counts_existing_moves_as_shown() {
    let mut puzzle = blank_board(2, 2);
    puzzle.play(0, Pos { row: 0, col: 0 }, true, "pre".to_string()).unwrap();
    let board = Board::new(puzzle);
    assert_eq!(board.cursor, 1);
    assert!(!board.is_updated());
}

#[test]
fn play_in_labels_game_moves() {
    let mut board = Board::new(blank_board(2, 2));
    let e = Edge::V(Pos { row: 1, col: 0 });
    assert_eq!(e.play_in(&mut board, true), Ok(()));
    let m = &board.puzzle.moves()[0];
    assert_eq!((m.direction, m.idx, m.value), (1, Pos { row: 1, col: 0 }, true));
    assert_eq!(m.label, "Game Move");
    assert_eq!(Edge::H(Pos { row: 5, col: 0 }).play_in(&mut board, true), Err(BoardError::NoSuchEdge));
    assert_eq!(board.puzzle.moves().len(), 1);
}

#[test]
fn edge_numbering() {
    assert_eq!(Edge::from_move(0, Pos { row: 1, col: 2 }), Some(Edge::H(Pos { row: 1, col: 2 })));
    assert_eq!(Edge::from_move(1, Pos { row: 1, col: 2 }), Some(Edge::V(Pos { row: 1, col: 2 })));
    assert_eq!(Edge::from_move(7, Pos { row: 1, col: 2 }), None);
    assert_eq!(Edge::V(Pos { row: 3, col: 4 }).direction(), 1);
    assert_eq!(Edge::H(Pos { row: 3, col: 4 }).pos(), Pos { row: 3, col: 4 });
    // 3 x 3: twelve horizontal edges, then vertical rows of four.
    assert_eq!(Edge::H(Pos { row: 3, col: 2 }).slot(3, 3), 11);
    assert_eq!(Edge::V(Pos { row: 0, col: 0 }).slot(3, 3), 12);
    assert_eq!(Edge::V(Pos { row: 2, col: 3 }).slot(3, 3), 23);
}
