//! The library's laws: properties of the commit transition that hold for
//! every session state and every request, proved once and for all over the
//! mathematical model.  `commit_placement` ensures that the executable
//! session follows `spec_commit` exactly, so each law carries over to every
//! run of the executable code.

use vstd::prelude::*;

use crate::board::abs_cells;
use crate::board::board_at;
use crate::board::board_wf;
use crate::board::in_range;
use crate::board::lemma_place_preserves_wf;
use crate::board::place_cells;
use crate::lines::cleared_board;
use crate::lines::col_full;
use crate::lines::lemma_cleared_preserves_wf;
use crate::lines::lemma_line_score_bounds;
use crate::lines::line_score;
use crate::lines::row_full;
use crate::session::PieceSlot;
use crate::session::SessionModel;
use crate::session::all_used;
use crate::session::fresh_slots;
use crate::session::initial_session;
use crate::session::saturate_u64;
use crate::session::session_wf;
use crate::session::spec_commit;
use crate::session::spec_commit_delta;
use crate::session::spec_commit_ok;
use crate::shapes::ShapeId;

verus! {

/// A commit request, as handed to the transition: slot index, anchor, and
/// the three shapes drawn for a possible refill.
pub ghost struct CommitRequest {
    pub slot: int,
    pub anchor: (int, int),
    pub fresh: (ShapeId, ShapeId, ShapeId),
}

/// The session after a whole sequence of commit requests.
pub open spec fn apply_commits(m: SessionModel, reqs: Seq<CommitRequest>) -> SessionModel
    decreases reqs.len(),
{
    if reqs.len() == 0 {
        m
    } else {
        apply_commits(
            spec_commit(m, reqs[0].slot, reqs[0].anchor, reqs[0].fresh),
            reqs.drop_first(),
        )
    }
}

/// The sum of the line-clear scores awarded over a sequence of commit
/// requests (a rejected request awards zero).
pub open spec fn sum_deltas(m: SessionModel, reqs: Seq<CommitRequest>) -> int
    decreases reqs.len(),
{
    if reqs.len() == 0 {
        0
    } else {
        spec_commit_delta(m, reqs[0].slot, reqs[0].anchor) + sum_deltas(
            spec_commit(m, reqs[0].slot, reqs[0].anchor, reqs[0].fresh),
            reqs.drop_first(),
        )
    }
}

/// Number of used slots in a queue.
pub open spec fn used_count(slots: Seq<PieceSlot>) -> int
    decreases slots.len(),
{
    if slots.len() == 0 {
        0
    } else {
        used_count(slots.drop_last()) + if slots.last().used {
            1int
        } else {
            0int
        }
    }
}

/// The used-slot count of a three-slot queue, slot by slot.
pub proof fn lemma_used_count3(slots: Seq<PieceSlot>)
    requires
        slots.len() == 3,
    ensures
        used_count(slots) == (if slots[0].used {
            1int
        } else {
            0int
        }) + (if slots[1].used {
            1int
        } else {
            0int
        }) + (if slots[2].used {
            1int
        } else {
            0int
        }),
{
    reveal_with_fuel(used_count, 4);
    assert(slots.drop_last().len() == 2);
    assert(slots.drop_last().drop_last().len() == 1);
    assert(slots.drop_last().drop_last().drop_last().len() == 0);
}

/// Every commit keeps the session well-formed: the board stays a square
/// grid of the same side, the queue keeps exactly three slots, and the
/// score stays within its counter.
pub proof fn lemma_commit_preserves_wf(
    m: SessionModel,
    slot: int,
    anchor: (int, int),
    fresh: (ShapeId, ShapeId, ShapeId),
)
    requires
        session_wf(m),
    ensures
        session_wf(spec_commit(m, slot, anchor, fresh)),
        spec_commit(m, slot, anchor, fresh).board.n == m.board.n,
{
    if spec_commit_ok(m, slot, anchor) {
        let placed = place_cells(m.board, abs_cells(m.slots[slot].shape, anchor));
        lemma_place_preserves_wf(m.board, abs_cells(m.slots[slot].shape, anchor));
        lemma_cleared_preserves_wf(placed);
        lemma_line_score_bounds(placed);
    }
}

/// The score a commit awards is never negative.
pub proof fn lemma_commit_delta_nonneg(m: SessionModel, slot: int, anchor: (int, int))
    requires
        session_wf(m),
    ensures
        spec_commit_delta(m, slot, anchor) >= 0,
{
    if spec_commit_ok(m, slot, anchor) {
        let placed = place_cells(m.board, abs_cells(m.slots[slot].shape, anchor));
        lemma_place_preserves_wf(m.board, abs_cells(m.slots[slot].shape, anchor));
        lemma_line_score_bounds(placed);
    }
}

/// The score never decreases, whatever the request and whatever the drawn
/// shapes.
pub proof fn lemma_score_never_decreases(
    m: SessionModel,
    slot: int,
    anchor: (int, int),
    fresh: (ShapeId, ShapeId, ShapeId),
)
    requires
        session_wf(m),
    ensures
        spec_commit(m, slot, anchor, fresh).score >= m.score,
{
    lemma_commit_delta_nonneg(m, slot, anchor);
}

/// A commit is all-or-nothing.  A rejected request leaves the whole session
/// — board, queue and score, byte for byte — unchanged.  An accepted one
/// fills every target cell of the shape (in the pre-clear board), marks the
/// chosen slot used, and adds exactly the line-clear score.
pub proof fn lemma_commit_all_or_nothing(
    m: SessionModel,
    slot: int,
    anchor: (int, int),
    fresh: (ShapeId, ShapeId, ShapeId),
)
    requires
        session_wf(m),
    ensures
        !spec_commit_ok(m, slot, anchor) ==> spec_commit(m, slot, anchor, fresh) == m,
        spec_commit_ok(m, slot, anchor) ==> ({
            let cells = abs_cells(m.slots[slot].shape, anchor);
            let placed = place_cells(m.board, cells);
            forall|j: int|
                0 <= j < cells.len() ==> board_at(placed, (#[trigger] cells[j]).0, cells[j].1)
        }),
        spec_commit_ok(m, slot, anchor) ==> spec_commit(m, slot, anchor, fresh).score
            == saturate_u64(m.score + spec_commit_delta(m, slot, anchor)),
{
    if spec_commit_ok(m, slot, anchor) {
        let cells = abs_cells(m.slots[slot].shape, anchor);
        let placed = place_cells(m.board, cells);
        assert forall|j: int| 0 <= j < cells.len() implies board_at(
            placed,
            (#[trigger] cells[j]).0,
            cells[j].1,
        ) by {
            assert(in_range(m.board, cells[j].0, cells[j].1));
            assert(cells.contains(cells[j]));
        }
    }
}

/// Line clearing after a commit is exact: every line that is complete in
/// the pre-clear snapshot ends empty; a filled cell is vacated only if it
/// lies on some complete line; clearing never fills a cell.
pub proof fn lemma_commit_clears_exact(
    m: SessionModel,
    slot: int,
    anchor: (int, int),
    fresh: (ShapeId, ShapeId, ShapeId),
)
    requires
        session_wf(m),
        spec_commit_ok(m, slot, anchor),
    ensures
        ({
            let placed = place_cells(m.board, abs_cells(m.slots[slot].shape, anchor));
            let after = spec_commit(m, slot, anchor, fresh).board;
            &&& after == cleared_board(placed)
            &&& forall|c: int, r: int|
                in_range(placed, c, r) && row_full(placed, r) ==> !#[trigger] board_at(after, c, r)
            &&& forall|c: int, r: int|
                in_range(placed, c, r) && col_full(placed, c) ==> !#[trigger] board_at(after, c, r)
            &&& forall|c: int, r: int|
                in_range(placed, c, r) && board_at(placed, c, r) && !row_full(placed, r)
                    && !col_full(placed, c) ==> #[trigger] board_at(after, c, r)
            &&& forall|c: int, r: int|
                in_range(placed, c, r) && !board_at(placed, c, r) ==> !#[trigger] board_at(
                    after,
                    c,
                    r,
                )
        }),
{
    let placed = place_cells(m.board, abs_cells(m.slots[slot].shape, anchor));
    lemma_place_preserves_wf(m.board, abs_cells(m.slots[slot].shape, anchor));
}

/// Queue lifecycle.  The queue always has exactly three slots; the
/// used-slot count never exceeds three; a rejected commit does not touch
/// the queue; an accepted commit raises the used count by one, except that
/// using up the last unplayed slot triggers the atomic refill, which resets
/// the count to zero — the only way it ever resets.
pub proof fn lemma_queue_lifecycle(
    m: SessionModel,
    slot: int,
    anchor: (int, int),
    fresh: (ShapeId, ShapeId, ShapeId),
)
    requires
        session_wf(m),
    ensures
        spec_commit(m, slot, anchor, fresh).slots.len() == 3,
        0 <= used_count(m.slots) <= 3,
        !spec_commit_ok(m, slot, anchor) ==> spec_commit(m, slot, anchor, fresh).slots == m.slots,
        spec_commit_ok(m, slot, anchor) && used_count(m.slots) < 2 ==> used_count(
            spec_commit(m, slot, anchor, fresh).slots,
        ) == used_count(m.slots) + 1,
        spec_commit_ok(m, slot, anchor) && used_count(m.slots) == 2 ==> used_count(
            spec_commit(m, slot, anchor, fresh).slots,
        ) == 0,
{
    lemma_used_count3(m.slots);
    if spec_commit_ok(m, slot, anchor) {
        let marked = m.slots.update(slot, PieceSlot { shape: m.slots[slot].shape, used: true });
        lemma_used_count3(marked);
        lemma_used_count3(fresh_slots(fresh));
        assert(used_count(marked) == used_count(m.slots) + 1);
        if all_used(marked) {
            assert(used_count(marked) == 3);
        }
        if used_count(marked) == 3 {
            assert forall|i: int| 0 <= i < marked.len() implies (#[trigger] marked[i]).used by {
                if i != 0 && i != 1 && i != 2 {
                    assert(false);
                }
            }
        }
    }
}

/// Score accounting over a whole game.  As long as the 64-bit score counter
/// does not saturate, the score after any sequence of commits is the
/// starting score plus the sum, over the accepted commits, of the side
/// length times the number of lines each one cleared.
pub proof fn lemma_score_is_sum(m: SessionModel, reqs: Seq<CommitRequest>)
    requires
        session_wf(m),
        m.score + sum_deltas(m, reqs) <= u64::MAX,
    ensures
        apply_commits(m, reqs).score == m.score + sum_deltas(m, reqs),
    decreases reqs.len(),
{
    if reqs.len() > 0 {
        let r = reqs[0];
        let m1 = spec_commit(m, r.slot, r.anchor, r.fresh);
        lemma_commit_preserves_wf(m, r.slot, r.anchor, r.fresh);
        lemma_commit_delta_nonneg(m, r.slot, r.anchor);
        lemma_sum_deltas_nonneg(m1, reqs.drop_first());
        assert(m1.score == m.score + spec_commit_delta(m, r.slot, r.anchor));
        lemma_score_is_sum(m1, reqs.drop_first());
    }
}

/// A fresh session is well-formed: empty board, three unused slots, score
/// zero.
pub proof fn lemma_initial_session(n: int, fresh: (ShapeId, ShapeId, ShapeId))
    requires
        1 <= n <= 255,
    ensures
        session_wf(initial_session(n, fresh)),
        used_count(initial_session(n, fresh).slots) == 0,
        initial_session(n, fresh).score == 0,
        forall|c: int, r: int|
            in_range(initial_session(n, fresh).board, c, r) ==> !#[trigger] board_at(
                initial_session(n, fresh).board,
                c,
                r,
            ),
{
    lemma_used_count3(fresh_slots(fresh));
}

/// Session well-formedness — a square board of unchanged side and a queue
/// of exactly three slots — holds after any sequence of commits.
pub proof fn lemma_apply_commits_wf(m: SessionModel, reqs: Seq<CommitRequest>)
    requires
        session_wf(m),
    ensures
        session_wf(apply_commits(m, reqs)),
        apply_commits(m, reqs).board.n == m.board.n,
    decreases reqs.len(),
{
    if reqs.len() > 0 {
        let r = reqs[0];
        lemma_commit_preserves_wf(m, r.slot, r.anchor, r.fresh);
        lemma_apply_commits_wf(spec_commit(m, r.slot, r.anchor, r.fresh), reqs.drop_first());
    }
}

/// The score never decreases over any sequence of commits, with no proviso:
/// this holds even if the score counter saturates.
pub proof fn lemma_score_monotonic_over_game(m: SessionModel, reqs: Seq<CommitRequest>)
    requires
        session_wf(m),
    ensures
        apply_commits(m, reqs).score >= m.score,
    decreases reqs.len(),
{
    if reqs.len() > 0 {
        let r = reqs[0];
        lemma_score_never_decreases(m, r.slot, r.anchor, r.fresh);
        lemma_commit_preserves_wf(m, r.slot, r.anchor, r.fresh);
        lemma_score_monotonic_over_game(spec_commit(m, r.slot, r.anchor, r.fresh), reqs.drop_first());
    }
}

/// The total score awarded over any sequence of commits is non-negative.
pub proof fn lemma_sum_deltas_nonneg(m: SessionModel, reqs: Seq<CommitRequest>)
    requires
        session_wf(m),
    ensures
        sum_deltas(m, reqs) >= 0,
    decreases reqs.len(),
{
    if reqs.len() > 0 {
        let r = reqs[0];
        lemma_commit_delta_nonneg(m, r.slot, r.anchor);
        lemma_commit_preserves_wf(m, r.slot, r.anchor, r.fresh);
        lemma_sum_deltas_nonneg(
            spec_commit(m, r.slot, r.anchor, r.fresh),
            reqs.drop_first(),
        );
    }
}

} // verus!
