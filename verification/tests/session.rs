use koala_kombo::board::Coord;
use koala_kombo::session::GameSession;
use koala_kombo::shapes::ShapeId;

fn singles() -> (ShapeId, ShapeId, ShapeId) {
    (ShapeId::Single, ShapeId::Single, ShapeId::Single)
}

#[test]
fn new_session_starts_empty() {
    let fresh = (ShapeId::BarH3, ShapeId::Square2, ShapeId::T90);
    let s = GameSession::new_session(fresh);
    assert_eq!(s.size(), 8);
    assert_eq!(s.score(), 0);
    for y in 0..8 {
        for x in 0..8 {
            assert!(!s.is_filled(Coord::new(x, y)));
        }
    }
    assert_eq!(s.slot(0).shape, ShapeId::BarH3);
    assert_eq!(s.slot(1).shape, ShapeId::Square2);
    assert_eq!(s.slot(2).shape, ShapeId::T90);
    assert!(!s.slot(0).used && !s.slot(1).used && !s.slot(2).used);
}

#[test]
fn horizontal_bar_commit_and_out_of_range_anchor() {
    let fresh = (ShapeId::BarH3, ShapeId::BarH3, ShapeId::Single);
    let mut s = GameSession::new_session(fresh);
    assert!(s.commit_placement(0, Coord::new(0, 0), fresh));
    assert!(s.is_filled(Coord::new(0, 0)));
    assert!(s.is_filled(Coord::new(1, 0)));
    assert!(s.is_filled(Coord::new(2, 0)));
    assert!(!s.is_filled(Coord::new(3, 0)));
    // anchored at column 6 the bar would cover columns 6, 7 and 8: rejected
    assert!(s.preview(1, Coord::new(6, 0)).is_none());
    assert!(!s.commit_placement(1, Coord::new(6, 0), fresh));
}

#[test]
fn filling_a_row_cell_by_cell_scores_on_the_last_commit() {
    let fresh = singles();
    let mut s = GameSession::new_session(fresh);
    for x in 0..8usize {
        assert!(s.commit_placement(x % 3, Coord::new(x, 0), fresh));
        if x < 7 {
            assert_eq!(s.score(), 0);
            assert!(s.is_filled(Coord::new(x, 0)));
        } else {
            assert_eq!(s.score(), 8);
        }
    }
    // the completed row was cleared
    for x in 0..8usize {
        assert!(!s.is_filled(Coord::new(x, 0)));
    }
}

#[test]
fn simultaneous_row_and_column_clear_counts_both() {
    let fresh = singles();
    let mut s = GameSession::new_session(fresh);
    let mut k: usize = 0;
    for x in 1..8usize {
        assert!(s.commit_placement(k % 3, Coord::new(x, 0), fresh));
        k += 1;
    }
    for y in 1..8usize {
        assert!(s.commit_placement(k % 3, Coord::new(0, y), fresh));
        k += 1;
    }
    assert_eq!(s.score(), 0);
    // this commit completes row 0 and column 0 at once
    assert!(s.commit_placement(k % 3, Coord::new(0, 0), fresh));
    assert_eq!(s.score(), 16);
    // the intersection cell ends empty, as does everything else
    assert!(!s.is_filled(Coord::new(0, 0)));
    for y in 0..8 {
        for x in 0..8 {
            assert!(!s.is_filled(Coord::new(x, y)));
        }
    }
}

#[test]
fn column_clear_with_vertical_bars() {
    let fresh = (ShapeId::BarV5, ShapeId::BarV3, ShapeId::Single);
    let mut s = GameSession::new_session(fresh);
    assert!(s.commit_placement(0, Coord::new(2, 0), fresh));
    assert!(s.commit_placement(2, Coord::new(5, 5), fresh));
    assert_eq!(s.score(), 0);
    // rows 5..=7 of column 2 complete the column
    assert!(s.commit_placement(1, Coord::new(2, 5), fresh));
    assert_eq!(s.score(), 8);
    for y in 0..8 {
        assert!(!s.is_filled(Coord::new(2, y)));
    }
    // the unrelated cell survives the clear
    assert!(s.is_filled(Coord::new(5, 5)));
}

#[test]
fn queue_refills_atomically_after_third_use() {
    let fresh = (ShapeId::Single, ShapeId::BarH2, ShapeId::BarV2);
    let next = (ShapeId::BarH3, ShapeId::BarV3, ShapeId::Square2);
    let mut s = GameSession::new_session(fresh);
    assert!(s.commit_placement(0, Coord::new(0, 0), next));
    assert!(s.slot(0).used);
    assert!(!s.slot(1).used && !s.slot(2).used);
    // a used slot is rejected and changes nothing
    assert!(!s.commit_placement(0, Coord::new(4, 4), next));
    assert!(s.slot(0).used);
    assert!(s.commit_placement(1, Coord::new(0, 2), next));
    assert!(s.slot(0).used && s.slot(1).used && !s.slot(2).used);
    // the queue keeps its shapes until every slot is used
    assert_eq!(s.slot(2).shape, ShapeId::BarV2);
    // using the last slot triggers the atomic refill
    assert!(s.commit_placement(2, Coord::new(0, 4), next));
    assert_eq!(s.slot(0).shape, ShapeId::BarH3);
    assert_eq!(s.slot(1).shape, ShapeId::BarV3);
    assert_eq!(s.slot(2).shape, ShapeId::Square2);
    assert!(!s.slot(0).used && !s.slot(1).used && !s.slot(2).used);
}

#[test]
fn rejected_commits_change_nothing() {
    let fresh = singles();
    let mut s = GameSession::new_session(fresh);
    assert!(s.commit_placement(0, Coord::new(3, 3), fresh));
    // out-of-range slot index
    assert!(!s.commit_placement(3, Coord::new(0, 0), fresh));
    // overlapping anchor
    assert!(!s.commit_placement(1, Coord::new(3, 3), fresh));
    // off-board anchor
    assert!(!s.commit_placement(1, Coord::new(8, 0), fresh));
    // board, score and queue are exactly as after the one accepted commit
    assert_eq!(s.score(), 0);
    assert!(s.slot(0).used);
    assert!(!s.slot(1).used && !s.slot(2).used);
    for y in 0..8 {
        for x in 0..8 {
            assert_eq!(s.is_filled(Coord::new(x, y)), x == 3 && y == 3);
        }
    }
}

#[test]
fn score_accumulates_across_clears() {
    let fresh = (ShapeId::BarH4, ShapeId::BarH4, ShapeId::Single);
    let mut s = GameSession::new_session(fresh);
    // two 4-bars complete row 6
    assert!(s.commit_placement(0, Coord::new(0, 6), fresh));
    assert!(s.commit_placement(1, Coord::new(4, 6), fresh));
    assert_eq!(s.score(), 8);
    // after the refill, clear row 3 the same way: the score adds up
    assert!(s.commit_placement(2, Coord::new(7, 7), fresh));
    assert!(s.commit_placement(0, Coord::new(0, 3), fresh));
    assert!(s.commit_placement(1, Coord::new(4, 3), fresh));
    assert_eq!(s.score(), 16);
}

#[test]
fn smaller_board_scores_by_its_own_side_length() {
    let fresh = (ShapeId::BarH5, ShapeId::Single, ShapeId::Single);
    let mut s = GameSession::new_session_with_size(5, fresh);
    assert_eq!(s.size(), 5);
    // a 5-bar fills a whole row of the 5×5 board at once
    assert!(s.commit_placement(0, Coord::new(0, 2), fresh));
    assert_eq!(s.score(), 5);
    for x in 0..5 {
        assert!(!s.is_filled(Coord::new(x, 2)));
    }
}

#[test]
fn one_by_one_board_clears_both_lines_at_once() {
    let fresh = singles();
    let mut s = GameSession::new_session_with_size(1, fresh);
    assert!(s.commit_placement(0, Coord::new(0, 0), fresh));
    // the single cell completes its row and its column: one times two lines
    assert_eq!(s.score(), 2);
    assert!(!s.is_filled(Coord::new(0, 0)));
}

#[test]
fn refill_happens_even_when_final_commit_clears_lines() {
    let fresh = (ShapeId::BarH4, ShapeId::BarH4, ShapeId::BarH4);
    let next = (ShapeId::Single, ShapeId::Single, ShapeId::Single);
    let mut s = GameSession::new_session(fresh);
    assert!(s.commit_placement(0, Coord::new(0, 0), next));
    assert!(s.commit_placement(1, Coord::new(4, 0), next));
    assert_eq!(s.score(), 8);
    // third use: clears nothing but exhausts the queue
    assert!(s.commit_placement(2, Coord::new(0, 5), next));
    assert!(!s.slot(0).used && !s.slot(1).used && !s.slot(2).used);
    assert_eq!(s.slot(0).shape, ShapeId::Single);
}
