//! The line-clearing engine.
//!
//! After a placement, all N rows and all N columns are judged against a
//! single pre-clear snapshot: a line is complete iff all N of its cells are
//! filled.  Every complete row and every complete column is then cleared.
//! Detection is strictly two-pass — scan everything first, then clear — so
//! that clearing one line can never mask another line that shares a cell
//! with it.  The score delta is `N × (complete rows + complete columns)`,
//! with a shared intersection cell counting towards both lines.

use vstd::prelude::*;

use crate::board::Board;
use crate::board::Coord;
use crate::board::BoardModel;
use crate::board::board_at;
use crate::board::board_wf;
use crate::board::in_range;

verus! {

/// Row `r` is complete: every cell of the row is filled.
pub open spec fn row_full(b: BoardModel, r: int) -> bool {
    forall|c: int| 0 <= c < b.n ==> board_at(b, c, r)
}

/// Column `c` is complete: every cell of the column is filled.
pub open spec fn col_full(b: BoardModel, c: int) -> bool {
    forall|r: int| 0 <= r < b.n ==> board_at(b, c, r)
}

/// The board after clearing, against the snapshot `b`, every complete row
/// and every complete column: a cell stays filled iff it was filled and lies
/// neither on a complete row nor on a complete column.
pub open spec fn cleared_board(b: BoardModel) -> BoardModel {
    BoardModel {
        n: b.n,
        cells: Seq::new(
            b.cells.len(),
            |r: int|
                Seq::new(
                    b.cells[r].len(),
                    |c: int| board_at(b, c, r) && !row_full(b, r) && !col_full(b, c),
                ),
        ),
    }
}

/// Number of complete rows among the rows `0 .. k`.
pub open spec fn full_rows_through(b: BoardModel, k: int) -> int
    decreases k,
{
    if k <= 0 {
        0
    } else {
        full_rows_through(b, k - 1) + if row_full(b, k - 1) {
            1int
        } else {
            0int
        }
    }
}

/// Number of complete columns among the columns `0 .. k`.
pub open spec fn full_cols_through(b: BoardModel, k: int) -> int
    decreases k,
{
    if k <= 0 {
        0
    } else {
        full_cols_through(b, k - 1) + if col_full(b, k - 1) {
            1int
        } else {
            0int
        }
    }
}

/// Number of complete rows of the whole board.
pub open spec fn num_full_rows(b: BoardModel) -> int {
    full_rows_through(b, b.n)
}

/// Number of complete columns of the whole board.
pub open spec fn num_full_cols(b: BoardModel) -> int {
    full_cols_through(b, b.n)
}

/// The score awarded for clearing the board `b`: the side length times the
/// number of complete lines, rows and columns counted independently.
pub open spec fn line_score(b: BoardModel) -> int {
    b.n * (num_full_rows(b) + num_full_cols(b))
}

/// Clearing lines preserves board well-formedness.
pub proof fn lemma_cleared_preserves_wf(b: BoardModel)
    requires
        board_wf(b),
    ensures
        board_wf(cleared_board(b)),
{
}

/// The partial row count is bounded by the number of rows scanned.
pub proof fn lemma_full_rows_through_bounds(b: BoardModel, k: int)
    requires
        0 <= k,
    ensures
        0 <= full_rows_through(b, k) <= k,
    decreases k,
{
    if k > 0 {
        lemma_full_rows_through_bounds(b, k - 1);
    }
}

/// The partial column count is bounded by the number of columns scanned.
pub proof fn lemma_full_cols_through_bounds(b: BoardModel, k: int)
    requires
        0 <= k,
    ensures
        0 <= full_cols_through(b, k) <= k,
    decreases k,
{
    if k > 0 {
        lemma_full_cols_through_bounds(b, k - 1);
    }
}

/// The line score is non-negative and small.
pub proof fn lemma_line_score_bounds(b: BoardModel)
    requires
        board_wf(b),
    ensures
        0 <= line_score(b) <= 255 * 510,
{
    lemma_full_rows_through_bounds(b, b.n);
    lemma_full_cols_through_bounds(b, b.n);
    assert(0 <= num_full_rows(b) + num_full_cols(b) <= 510);
    assert(0 <= b.n * (num_full_rows(b) + num_full_cols(b)) <= 255 * 510) by (nonlinear_arith)
        requires
            1 <= b.n <= 255,
            0 <= num_full_rows(b) + num_full_cols(b) <= 510,
    ;
}

impl Board {
    /// Detect every complete row and column of the current board in one
    /// scan, then clear all of them, and return the score delta.
    #[verifier::loop_isolation(false)]
    pub(crate) fn clear_full_lines(&mut self) -> (delta: usize)
        requires
            old(self).wf(),
        ensures
            final(self).wf(),
            final(self)@ == cleared_board(old(self)@),
            delta == line_score(old(self)@),
    {
        proof {
            self.lemma_wf_model();
        }
        let ghost orig = self@;
        let n = self.size();

        // Scan all rows against the pre-clear snapshot.
        let mut rows_full: Vec<bool> = Vec::new();
        let mut rows_cleared: usize = 0;
        for r in 0..n
            invariant
                self@ == orig,
                rows_full@.len() == r,
                forall|k: int| 0 <= k < r ==> rows_full@[k] == row_full(orig, k),
                rows_cleared == full_rows_through(orig, r as int),
                rows_cleared <= r,
        {
            let mut full: bool = true;
            for c in 0..n
                invariant
                    self@ == orig,
                    full == (forall|cc: int| 0 <= cc < c ==> board_at(orig, cc, r as int)),
            {
                if !self.is_filled_at(c, r) {
                    full = false;
                }
            }
            rows_full.push(full);
            if full {
                rows_cleared += 1;
            }
        }

        // Scan all columns against the same snapshot.
        let mut cols_full: Vec<bool> = Vec::new();
        let mut cols_cleared: usize = 0;
        for c in 0..n
            invariant
                self@ == orig,
                cols_full@.len() == c,
                forall|k: int| 0 <= k < c ==> cols_full@[k] == col_full(orig, k),
                cols_cleared == full_cols_through(orig, c as int),
                cols_cleared <= c,
        {
            let mut full: bool = true;
            for r in 0..n
                invariant
                    self@ == orig,
                    full == (forall|rr: int| 0 <= rr < r ==> board_at(orig, c as int, rr)),
            {
                if !self.is_filled_at(c, r) {
                    full = false;
                }
            }
            cols_full.push(full);
            if full {
                cols_cleared += 1;
            }
        }

        // Clear every detected row.
        for r in 0..n
            invariant
                self.wf(),
                self@.n == orig.n,
                forall|cc: int, rr: int|
                    in_range(orig, cc, rr) ==> #[trigger] board_at(self@, cc, rr) == (board_at(
                        orig,
                        cc,
                        rr,
                    ) && !(rr < r && row_full(orig, rr))),
        {
            if rows_full[r] {
                for c in 0..n
                    invariant
                        self.wf(),
                        self@.n == orig.n,
                        forall|cc: int, rr: int|
                            in_range(orig, cc, rr) ==> #[trigger] board_at(self@, cc, rr) == (
                            board_at(orig, cc, rr) && !(rr < r && row_full(orig, rr)) && !(rr
                                == r && cc < c)),
                {
                    self.clear(Coord::new(c, r));
                }
            }
        }

        // Clear every detected column.
        for c in 0..n
            invariant
                self.wf(),
                self@.n == orig.n,
                forall|cc: int, rr: int|
                    in_range(orig, cc, rr) ==> #[trigger] board_at(self@, cc, rr) == (board_at(
                        orig,
                        cc,
                        rr,
                    ) && !row_full(orig, rr) && !(cc < c && col_full(orig, cc))),
        {
            if cols_full[c] {
                for r in 0..n
                    invariant
                        self.wf(),
                        self@.n == orig.n,
                        forall|cc: int, rr: int|
                            in_range(orig, cc, rr) ==> #[trigger] board_at(self@, cc, rr) == (
                            board_at(orig, cc, rr) && !row_full(orig, rr) && !(cc < c && col_full(
                                orig,
                                cc,
                            )) && !(cc == c && rr < r)),
                {
                    self.clear(Coord::new(c, r));
                }
            }
        }

        proof {
            self.lemma_wf_model();
            assert forall|r: int| 0 <= r < orig.n implies self@.cells[r] =~= cleared_board(
                orig,
            ).cells[r] by {
                assert forall|c: int| 0 <= c < orig.n implies self@.cells[r][c] == cleared_board(
                    orig,
                ).cells[r][c] by {
                    assert(board_at(self@, c, r) == (board_at(orig, c, r) && !row_full(orig, r)
                        && !col_full(orig, c)));
                }
            }
            assert(self@ =~~= cleared_board(orig));
        }

        let lines = rows_cleared + cols_cleared;
        proof {
            lemma_line_score_bounds(orig);
            assert(n * lines == line_score(orig)) by (nonlinear_arith)
                requires
                    n as int == orig.n,
                    lines == num_full_rows(orig) + num_full_cols(orig),
            ;
        }
        n * lines
    }
}

} // verus!
