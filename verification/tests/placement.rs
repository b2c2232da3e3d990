use koala_kombo::board::Coord;
use koala_kombo::session::GameSession;
use koala_kombo::shapes::ShapeId;

fn singles() -> (ShapeId, ShapeId, ShapeId) {
    (ShapeId::Single, ShapeId::Single, ShapeId::Single)
}

#[test]
fn preview_returns_the_translated_cells() {
    let fresh = (ShapeId::Square2, ShapeId::T0, ShapeId::Single);
    let s = GameSession::new_session(fresh);
    let cells = s.preview(0, Coord::new(3, 4)).unwrap();
    assert_eq!(cells.len(), 4);
    for (c, r) in [(3, 4), (4, 4), (3, 5), (4, 5)] {
        assert!(cells.contains(&Coord::new(c, r)));
    }
    let t = s.preview(1, Coord::new(0, 0)).unwrap();
    for (c, r) in [(0, 0), (1, 0), (2, 0), (1, 1)] {
        assert!(t.contains(&Coord::new(c, r)));
    }
}

#[test]
fn placement_rejected_when_any_cell_leaves_the_board() {
    let fresh = (ShapeId::BarV5, ShapeId::BarH5, ShapeId::Square3);
    let s = GameSession::new_session(fresh);
    // vertical 5-bar: rows 4..=8 at row anchor 4 leave the 8×8 board
    assert!(s.preview(0, Coord::new(0, 4)).is_none());
    assert!(s.preview(0, Coord::new(0, 3)).is_some());
    // horizontal 5-bar: columns 4..=8 leave the board
    assert!(s.preview(1, Coord::new(4, 0)).is_none());
    assert!(s.preview(1, Coord::new(3, 0)).is_some());
    // 3×3 square in the far corner fits exactly
    assert!(s.preview(2, Coord::new(5, 5)).is_some());
    assert!(s.preview(2, Coord::new(6, 5)).is_none());
    // anchors far outside the board are rejected, not wrapped
    assert!(s.preview(0, Coord::new(usize::MAX, 0)).is_none());
    assert!(s.preview(0, Coord::new(0, usize::MAX)).is_none());
}

#[test]
fn placement_rejected_on_overlap() {
    let fresh = singles();
    let mut s = GameSession::new_session(fresh);
    assert!(s.commit_placement(0, Coord::new(4, 4), fresh));
    // the occupied cell rejects any shape that covers it
    assert!(s.preview(1, Coord::new(4, 4)).is_none());
    assert!(!s.commit_placement(1, Coord::new(4, 4), fresh));
    // a neighbouring cell is still free
    assert!(s.preview(1, Coord::new(3, 4)).is_some());
}

#[test]
fn off_board_and_overlap_are_indistinguishable() {
    let fresh = (ShapeId::BarH2, ShapeId::BarH2, ShapeId::Single);
    let mut s = GameSession::new_session(fresh);
    assert!(s.commit_placement(2, Coord::new(0, 0), fresh));
    // overlap and off-board both yield the same negative answer
    assert_eq!(s.preview(0, Coord::new(0, 0)).is_none(), s.preview(0, Coord::new(7, 0)).is_none());
}

#[test]
fn validator_usable_directly_on_the_board() {
    let fresh = singles();
    let s = GameSession::new_session(fresh);
    let cells = s.board().can_place(ShapeId::BigL, Coord::new(1, 2)).unwrap();
    assert_eq!(cells.len(), 5);
    for (c, r) in [(1, 2), (2, 2), (3, 2), (1, 3), (1, 4)] {
        assert!(cells.contains(&Coord::new(c, r)));
    }
    assert!(s.board().can_place(ShapeId::BigL, Coord::new(6, 6)).is_none());
}

#[test]
fn preview_of_bad_slots_is_negative() {
    let fresh = singles();
    let mut s = GameSession::new_session(fresh);
    // out-of-range slot index
    assert!(s.preview(3, Coord::new(0, 0)).is_none());
    assert!(s.preview(usize::MAX, Coord::new(0, 0)).is_none());
    // used slot
    assert!(s.commit_placement(1, Coord::new(5, 5), fresh));
    assert!(s.preview(1, Coord::new(0, 0)).is_none());
}
