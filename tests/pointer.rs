use fences_view::board::Board;
use fences_view::edge::{Edge, Fence, Pos};
use fences_view::interaction::{Button, InteractionController};
use fences_view::puzzle::PuzzleBoard;
use fences_view::scene::build_scene;
use fences_view::view::{hit_test, Transform, VisualEdge};

fn edge_at(edge: Edge, x: i64, y: i64, sx: i64, sy: i64) -> VisualEdge {
    VisualEdge {
        edge,
        transform: Transform { x, y, scale_x: sx, scale_y: sy },
        width: 80,
        height: 10,
        display: Fence(None),
    }
}

#[test]
fn horizontal_hit_boundary() {
    let e = edge_at(Edge::H(Pos { row: 0, col: 0 }), 0, 0, 1, 1);
    assert!(e.hits(40, 0));
    assert!(!e.hits(40, 10));
    assert!(!e.hits(-1, 0));
    assert!(!e.hits(0, 0));
    assert!(!e.hits(80, 0));
    assert!(e.hits(79, -9));
    assert!(!e.hits(40, -10));
}

#[test]
fn vertical_hit_boundary() {
    let e = edge_at(Edge::V(Pos { row: 0, col: 0 }), 100, 50, 1, 1);
    assert!(e.hits(100, 10));
    assert!(!e.hits(100, 50));
    assert!(!e.hits(100, -30));
    assert!(e.hits(109, -29));
    assert!(!e.hits(110, 10));
}

#[test]
fn hit_box_follows_scale() {
    let e = edge_at(Edge::H(Pos { row: 0, col: 0 }), 0, 0, 2, 3);
    assert!(e.hits(150, 0));
    assert!(e.hits(40, 29));
    assert!(!e.hits(160, 0));
    assert!(!e.hits(40, 30));
}

#[test]
fn hit_test_first_match_wins() {
    let a = edge_at(Edge::H(Pos { row: 0, col: 0 }), 0, 0, 1, 1);
    let b = edge_at(Edge::H(Pos { row: 0, col: 1 }), 20, 0, 1, 1);
    let edges = vec![a, b];
    assert_eq!(hit_test(&edges, 30, 0), Some(a.edge));
    assert_eq!(hit_test(&edges, 90, 0), Some(b.edge));
    assert_eq!(hit_test(&edges, 200, 0), None);
    assert_eq!(hit_test(&vec![], 0, 0), None);
}

#[test]
fn hover_exclusive_sweep() {
    let a = edge_at(Edge::H(Pos { row: 0, col: 0 }), 0, 0, 1, 1);
    let b = edge_at(Edge::H(Pos { row: 0, col: 1 }), 80, 0, 1, 1);
    let edges = vec![a, b];
    let mut hover = InteractionController::new();
    let view = build_scene(&Board::new(blank(1, 2)), 100, 200).view;
    for px in -10..=170 {
        for py in [-12i64, -5, 0, 5, 12] {
            let hit: Vec<&VisualEdge> = edges.iter().filter(|e| e.hits(px, py)).collect();
            assert!(hit.len() <= 1);
            let reported = hit_test(&edges, px, py);
            assert_eq!(reported, hit.first().map(|e| e.edge));
            hover.pointer_moved(&view, px, py);
            let on_view = view.edges.iter().filter(|e| e.hits(px, py)).count();
            assert_eq!(hover.hovered.is_some(), on_view > 0);
        }
    }
    assert_eq!(hit_test(&edges, 80, 0), None);
}

fn blank(rows: usize, cols: usize) -> PuzzleBoard {
    let edges = rows * (cols + 1) + cols * (rows + 1);
    PuzzleBoard::from_parts(rows, cols, vec![None; rows * cols], vec![Fence(None); edges]).unwrap()
}

#[test]
fn buttons_set_hovered_edge() {
    let mut board = Board::new(blank(3, 3));
    let mut view = build_scene(&board, 720, 480).view;
    let mut ctl = InteractionController::new();

    assert!(!ctl.button_pressed(Button::Primary, &mut board));
    assert!(board.puzzle.moves().is_empty());

    let target = view.edges[view.handle(Edge::H(Pos { row: 1, col: 1 })).unwrap()];
    let (x, y) = (target.transform.x + 5, target.transform.y);
    ctl.pointer_moved(&view, x, y);
    assert_eq!(ctl.hovered, Some(target.edge));

    assert!(ctl.button_pressed(Button::Primary, &mut board));
    board.sync_view(&mut view);
    assert_eq!(view.edges[view.handle(target.edge).unwrap()].display, Fence(Some(true)));

    assert!(ctl.button_pressed(Button::Secondary, &mut board));
    board.sync_view(&mut view);
    assert_eq!(view.edges[view.handle(target.edge).unwrap()].display, Fence(Some(false)));
    assert_eq!(board.puzzle.moves().len(), 2);

    ctl.pointer_moved(&view, 100_000, 100_000);
    assert_eq!(ctl.hovered, None);
    assert!(!ctl.button_pressed(Button::Secondary, &mut board));
    assert_eq!(board.puzzle.moves().len(), 2);

    let mut elsewhere = Board::new(blank(1, 1));
    ctl.hovered = Some(Edge::H(Pos { row: 2, col: 2 }));
    assert!(!ctl.button_pressed(Button::Primary, &mut elsewhere));
    assert!(elsewhere.puzzle.moves().is_empty());
}
