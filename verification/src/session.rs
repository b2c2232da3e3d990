//! The game session: board, piece queue and score, with the single mutating
//! entry point `commit_placement`.
//!
//! The queue has exactly three slots, each a shape and a used flag.  It is
//! replenished atomically, all at once, and only when every slot has been
//! used.  The freshly drawn shapes come from the caller: the uniform random
//! source over the catalog is an external collaborator, so every refill (and
//! the initial fill) takes the three drawn shapes as an argument.

use vstd::prelude::*;

use crate::board::Board;
use crate::board::BoardModel;
use crate::board::Coord;
use crate::board::abs_cells;
use crate::board::board_wf;
use crate::board::empty_board;
use crate::board::in_range;
use crate::board::board_at;
use crate::board::place_cells;
use crate::board::placement_ok;
use crate::lines::cleared_board;
use crate::lines::line_score;
use crate::shapes::ShapeId;

verus! {

/// One slot of the piece queue: a shape and whether it has been played.
#[derive(Clone, Copy, Debug, PartialEq, Eq, Structural)]
pub struct PieceSlot {
    pub shape: ShapeId,
    pub used: bool,
}

/// Mathematical model of a session: board model, the three queue slots, and
/// the score.
#[verifier::ext_equal]
pub ghost struct SessionModel {
    pub board: BoardModel,
    pub slots: Seq<PieceSlot>,
    pub score: int,
}

/// Well-formedness of a session model: a well-formed board, exactly three
/// slots, and a score that fits the 64-bit counter.
pub open spec fn session_wf(m: SessionModel) -> bool {
    &&& board_wf(m.board)
    &&& m.slots.len() == 3
    &&& 0 <= m.score <= u64::MAX
}

/// Three unused slots holding the given freshly drawn shapes, in order.
pub open spec fn fresh_slots(fresh: (ShapeId, ShapeId, ShapeId)) -> Seq<PieceSlot> {
    seq![
        PieceSlot { shape: fresh.0, used: false },
        PieceSlot { shape: fresh.1, used: false },
        PieceSlot { shape: fresh.2, used: false },
    ]
}

/// Every slot of the queue has been used.
pub open spec fn all_used(slots: Seq<PieceSlot>) -> bool {
    forall|i: int| 0 <= i < slots.len() ==> (#[trigger] slots[i]).used
}

/// The session right after game start: empty board of side `n`, the three
/// drawn shapes unused, score zero.
pub open spec fn initial_session(n: int, fresh: (ShapeId, ShapeId, ShapeId)) -> SessionModel {
    SessionModel { board: empty_board(n), slots: fresh_slots(fresh), score: 0 }
}

/// Acceptance of a commit request: the slot index is in range, the slot is
/// still unplayed, and its shape fits at the anchor.
pub open spec fn spec_commit_ok(m: SessionModel, slot: int, anchor: (int, int)) -> bool {
    &&& 0 <= slot < 3
    &&& !m.slots[slot].used
    &&& placement_ok(m.board, m.slots[slot].shape, anchor)
}

/// Addition capped at the capacity of the 64-bit score counter.
pub open spec fn saturate_u64(x: int) -> int {
    if x <= u64::MAX {
        x
    } else {
        u64::MAX as int
    }
}

/// The line-clear score awarded by a commit; zero for a rejected commit.
pub open spec fn spec_commit_delta(m: SessionModel, slot: int, anchor: (int, int)) -> int {
    if spec_commit_ok(m, slot, anchor) {
        line_score(place_cells(m.board, abs_cells(m.slots[slot].shape, anchor)))
    } else {
        0
    }
}

/// The whole-session transition of one commit request.  A rejected request
/// leaves the session untouched.  An accepted one fills the shape's cells,
/// clears every line that is complete in that snapshot, adds the line score,
/// marks the slot used, and — only when all three slots are then used —
/// replaces the entire queue with the three freshly drawn shapes, unused.
pub open spec fn spec_commit(
    m: SessionModel,
    slot: int,
    anchor: (int, int),
    fresh: (ShapeId, ShapeId, ShapeId),
) -> SessionModel {
    if !spec_commit_ok(m, slot, anchor) {
        m
    } else {
        let placed = place_cells(m.board, abs_cells(m.slots[slot].shape, anchor));
        let marked = m.slots.update(slot, PieceSlot { shape: m.slots[slot].shape, used: true });
        SessionModel {
            board: cleared_board(placed),
            slots: if all_used(marked) {
                fresh_slots(fresh)
            } else {
                marked
            },
            score: saturate_u64(m.score + line_score(placed)),
        }
    }
}

/// A game session: the single stateful unit, mutated only through
/// `commit_placement`.
pub struct GameSession {
    board: Board,
    slots: Vec<PieceSlot>,
    score: u64,
}

impl View for GameSession {
    type V = SessionModel;

    closed spec fn view(&self) -> SessionModel {
        SessionModel { board: self.board@, slots: self.slots@, score: self.score as int }
    }
}

impl GameSession {
    /// Representation invariant of the executable session.
    pub closed spec fn wf(self) -> bool {
        &&& self.board.wf()
        &&& self.slots@.len() == 3
    }

    /// A well-formed session has a well-formed model.
    pub proof fn lemma_wf_model(self)
        requires
            self.wf(),
        ensures
            session_wf(self@),
    {
        self.board.lemma_wf_model();
    }

    /// A new session on the default 8×8 board, with the three drawn shapes
    /// in the queue, all unused, and score zero.
    pub fn new_session(fresh: (ShapeId, ShapeId, ShapeId)) -> (s: GameSession)
        ensures
            s.wf(),
            s@ == initial_session(8, fresh),
    {
        Self::new_session_with_size(8, fresh)
    }

    /// A new session on an `n`×`n` board.
    pub fn new_session_with_size(n: usize, fresh: (ShapeId, ShapeId, ShapeId)) -> (s: GameSession)
        requires
            1 <= n <= 255,
        ensures
            s.wf(),
            s@ == initial_session(n as int, fresh),
    {
        let board = Board::new(n);
        let mut slots: Vec<PieceSlot> = Vec::new();
        slots.push(PieceSlot { shape: fresh.0, used: false });
        slots.push(PieceSlot { shape: fresh.1, used: false });
        slots.push(PieceSlot { shape: fresh.2, used: false });
        let s = GameSession { board, slots, score: 0 };
        proof {
            assert(s@.slots =~= fresh_slots(fresh));
            assert(s@ =~~= initial_session(n as int, fresh));
        }
        s
    }

    /// The side length of the board.
    pub fn size(&self) -> (n: usize)
        ensures
            n as int == self@.board.n,
    {
        self.board.size()
    }

    /// The current score.
    pub fn score(&self) -> (sc: u64)
        ensures
            sc as int == self@.score,
    {
        self.score
    }

    /// The queue slot at the given index: shape and used flag.
    pub fn slot(&self, i: usize) -> (p: PieceSlot)
        requires
            self.wf(),
            i < 3,
        ensures
            p == self@.slots[i as int],
    {
        self.slots[i]
    }

    /// Read-only view of the board, for occupancy queries and previews.
    pub fn board(&self) -> (b: &Board)
        requires
            self.wf(),
        ensures
            b@ == self@.board,
            b.wf(),
    {
        &self.board
    }

    /// Occupancy query; the coordinate must address a cell of the board.
    pub fn is_filled(&self, c: Coord) -> (f: bool)
        requires
            self.wf(),
            in_range(self@.board, c@.0, c@.1),
        ensures
            f == board_at(self@.board, c@.0, c@.1),
    {
        self.board.is_filled(c)
    }

    /// The cells a commit of this slot at this anchor would occupy, or
    /// nothing if the commit would be rejected.  Drives preview
    /// highlighting; `commit_placement` accepts exactly when this returns a
    /// cell list.
    pub fn preview(&self, slot: usize, anchor: Coord) -> (res: Option<Vec<Coord>>)
        requires
            self.wf(),
        ensures
            match res {
                Some(v) => spec_commit_ok(self@, slot as int, anchor@) && v@.map_values(
                    |c: Coord| c@,
                ) == abs_cells(self@.slots[slot as int].shape, anchor@),
                None => !spec_commit_ok(self@, slot as int, anchor@),
            },
    {
        if slot >= 3 {
            return None;
        }
        let p = self.slots[slot];
        if p.used {
            return None;
        }
        self.board.can_place(p.shape, anchor)
    }

    /// The sole mutating entry point: validate, place, clear lines, update
    /// score and queue.  Rejected requests — slot index out of range, slot
    /// already used, shape off the board or overlapping — leave the session
    /// unchanged and return false.  `fresh` holds the three shapes drawn by
    /// the external random source; they are installed only if this commit
    /// uses up the last unplayed slot.
    pub fn commit_placement(
        &mut self,
        slot: usize,
        anchor: Coord,
        fresh: (ShapeId, ShapeId, ShapeId),
    ) -> (ok: bool)
        requires
            old(self).wf(),
        ensures
            final(self).wf(),
            ok == spec_commit_ok(old(self)@, slot as int, anchor@),
            final(self)@ == spec_commit(old(self)@, slot as int, anchor@, fresh),
    {
        proof {
            self.lemma_wf_model();
        }
        let ghost orig = self@;
        if slot >= 3 {
            return false;
        }
        let p = self.slots[slot];
        if p.used {
            return false;
        }
        let cells = match self.board.can_place(p.shape, anchor) {
            None => {
                return false;
            },
            Some(v) => v,
        };
        let ghost placed = place_cells(orig.board, abs_cells(p.shape, anchor@));

        proof {
            assert forall|k: int| 0 <= k < cells@.len() implies in_range(
                orig.board,
                (#[trigger] cells@[k])@.0,
                cells@[k]@.1,
            ) by {
                assert(cells@.map_values(|c: Coord| c@)[k] == cells@[k]@);
                assert(abs_cells(p.shape, anchor@)[k] == cells@[k]@);
            }
        }
        self.board.place_all(&cells);
        proof {
            assert(self@.board == placed);
        }
        let delta = self.board.clear_full_lines();

        let d64 = delta as u64;
        if self.score <= u64::MAX - d64 {
            self.score = self.score + d64;
        } else {
            self.score = u64::MAX;
        }

        self.slots[slot] = PieceSlot { shape: p.shape, used: true };
        let ghost marked = orig.slots.update(
            slot as int,
            PieceSlot { shape: p.shape, used: true },
        );
        proof {
            assert(self@.slots =~= marked);
        }

        if self.slots[0].used && self.slots[1].used && self.slots[2].used {
            let mut refill: Vec<PieceSlot> = Vec::new();
            refill.push(PieceSlot { shape: fresh.0, used: false });
            refill.push(PieceSlot { shape: fresh.1, used: false });
            refill.push(PieceSlot { shape: fresh.2, used: false });
            self.slots = refill;
            proof {
                assert(all_used(marked));
                assert(self@.slots =~= fresh_slots(fresh));
            }
        } else {
            proof {
                assert(!all_used(marked));
            }
        }

        proof {
            assert(self@ =~~= spec_commit(orig, slot as int, anchor@, fresh));
        }
        true
    }
}

} // verus!
