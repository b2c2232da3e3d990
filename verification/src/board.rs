//! The occupancy board and the placement validator.
//!
//! A board owns an N×N grid of occupancy flags.  Its mathematical model is a
//! sequence of rows, each a sequence of booleans, indexed `cells[row][col]`.
//! The only mutators are crate-internal: cells are occupied by a placement
//! commit and vacated by line clearing; no other mutation path exists.

use vstd::prelude::*;

use crate::shapes::ShapeId;
use crate::shapes::coords;
use crate::shapes::spec_offsets;

verus! {

/// A board coordinate: column first, then row.
#[derive(Clone, Copy, Debug, PartialEq, Eq, Structural)]
pub struct Coord {
    pub col: usize,
    pub row: usize,
}

impl Coord {
    pub fn new(col: usize, row: usize) -> (c: Coord)
        ensures
            c.col == col,
            c.row == row,
    {
        Coord { col, row }
    }
}

impl View for Coord {
    type V = (int, int);

    open spec fn view(&self) -> (int, int) {
        (self.col as int, self.row as int)
    }
}

/// Mathematical model of a board: the side length and the grid of occupancy
/// flags, indexed `cells[row][column]`.
#[verifier::ext_equal]
pub ghost struct BoardModel {
    pub n: int,
    pub cells: Seq<Seq<bool>>,
}

/// Well-formedness of a board model: a square grid of side `n`.
pub open spec fn board_wf(b: BoardModel) -> bool {
    &&& 1 <= b.n <= 255
    &&& b.cells.len() == b.n
    &&& forall|r: int| 0 <= r < b.n ==> (#[trigger] b.cells[r]).len() == b.n
}

/// Whether `(c, r)` addresses a cell of the board.
pub open spec fn in_range(b: BoardModel, c: int, r: int) -> bool {
    0 <= c < b.n && 0 <= r < b.n
}

/// Occupancy of the cell in column `c` and row `r`.
pub open spec fn board_at(b: BoardModel, c: int, r: int) -> bool {
    b.cells[r][c]
}

/// The fully empty board of side `n`.
pub open spec fn empty_board(n: int) -> BoardModel {
    BoardModel { n, cells: Seq::new(n as nat, |r: int| Seq::new(n as nat, |c: int| false)) }
}

/// The absolute cells `(column, row)` covered by shape `s` anchored at `a`,
/// in catalog order: each relative offset translated by the anchor.
pub open spec fn abs_cells(s: ShapeId, a: (int, int)) -> Seq<(int, int)> {
    spec_offsets(s).map(|j: int, off: (usize, usize)| (a.0 + off.0, a.1 + off.1))
}

/// Legality of placing shape `s` at anchor `a`: every translated cell is in
/// range and currently unfilled.
pub open spec fn placement_ok(b: BoardModel, s: ShapeId, a: (int, int)) -> bool {
    forall|j: int|
        0 <= j < abs_cells(s, a).len() ==> {
            let cell = #[trigger] abs_cells(s, a)[j];
            in_range(b, cell.0, cell.1) && !board_at(b, cell.0, cell.1)
        }
}

/// The board after filling every cell listed in `cs` (cells already filled
/// stay filled; everything else is unchanged).
pub open spec fn place_cells(b: BoardModel, cs: Seq<(int, int)>) -> BoardModel {
    BoardModel {
        n: b.n,
        cells: Seq::new(
            b.cells.len(),
            |r: int| Seq::new(b.cells[r].len(), |c: int| board_at(b, c, r) || cs.contains((c, r))),
        ),
    }
}

/// Filling cells preserves board well-formedness.
pub proof fn lemma_place_preserves_wf(b: BoardModel, cs: Seq<(int, int)>)
    requires
        board_wf(b),
    ensures
        board_wf(place_cells(b, cs)),
{
}

/// Flat row-major occupancy lookup, the bridge between the executable
/// representation and the row-sequence model.
spec fn flat_at(cells: Seq<bool>, n: int, c: int, r: int) -> bool {
    cells[r * n + c]
}

/// Row-major index arithmetic: the flat index of an in-range cell lies
/// within the flat grid, which itself is small.
#[verifier::nonlinear]
proof fn lemma_rm_index_bound(n: int, c: int, r: int)
    requires
        0 <= c < n,
        0 <= r < n,
        n <= 255,
    ensures
        0 <= r * n + c < n * n,
        n * n <= 65025,
{
}

/// Row-major index arithmetic: distinct in-range cells have distinct flat
/// indices.
#[verifier::nonlinear]
proof fn lemma_rm_index_injective(n: int, c1: int, r1: int, c2: int, r2: int)
    requires
        0 <= c1 < n,
        0 <= r1 < n,
        0 <= c2 < n,
        0 <= r2 < n,
        c1 != c2 || r1 != r2,
    ensures
        r1 * n + c1 != r2 * n + c2,
{
}

/// The N×N occupancy grid, stored row-major.
pub struct Board {
    n: usize,
    cells: Vec<bool>,
}

impl View for Board {
    type V = BoardModel;

    closed spec fn view(&self) -> BoardModel {
        BoardModel {
            n: self.n as int,
            cells: Seq::new(
                self.n as nat,
                |r: int|
                    Seq::new(
                        self.n as nat,
                        |c: int| flat_at(self.cells@, self.n as int, c, r),
                    ),
            ),
        }
    }
}

impl Board {
    /// Representation invariant of the executable board.
    pub closed spec fn wf(self) -> bool {
        &&& 1 <= self.n <= 255
        &&& self.cells@.len() == self.n * self.n
    }

    /// A well-formed board has a well-formed model.
    pub proof fn lemma_wf_model(self)
        requires
            self.wf(),
        ensures
            board_wf(self@),
    {
    }

    /// A fresh, fully empty board of side `n`.
    pub(crate) fn new(n: usize) -> (b: Board)
        requires
            1 <= n <= 255,
        ensures
            b.wf(),
            b@ == empty_board(n as int),
    {
        proof {
            lemma_rm_index_bound(n as int, 0, 0);
        }
        let total = n * n;
        let cells = vec![false; total];
        let b = Board { n, cells };
        proof {
            assert forall|r: int| 0 <= r < n as int implies b@.cells[r] =~= empty_board(
                n as int,
            ).cells[r] by {
                assert forall|c: int| 0 <= c < n as int implies b@.cells[r][c] == false by {
                    lemma_rm_index_bound(n as int, c, r);
                }
            }
            assert(b@ =~~= empty_board(n as int));
        }
        b
    }

    /// The side length of the board.
    pub fn size(&self) -> (n: usize)
        ensures
            n as int == self@.n,
    {
        self.n
    }

    /// Occupancy query by raw column and row.
    pub(crate) fn is_filled_at(&self, c: usize, r: usize) -> (f: bool)
        requires
            self.wf(),
            in_range(self@, c as int, r as int),
        ensures
            f == board_at(self@, c as int, r as int),
    {
        proof {
            lemma_rm_index_bound(self.n as int, c as int, r as int);
        }
        self.cells[r * self.n + c]
    }

    /// Occupancy query; the coordinate must address a cell of the board.
    pub fn is_filled(&self, c: Coord) -> (f: bool)
        requires
            self.wf(),
            in_range(self@, c@.0, c@.1),
        ensures
            f == board_at(self@, c@.0, c@.1),
    {
        self.is_filled_at(c.col, c.row)
    }

    /// Write one cell; the shared body of the two primitive mutators.
    fn set_at(&mut self, c: usize, r: usize, v: bool)
        requires
            old(self).wf(),
            in_range(old(self)@, c as int, r as int),
        ensures
            final(self).wf(),
            final(self)@.n == old(self)@.n,
            forall|cc: int, rr: int|
                in_range(old(self)@, cc, rr) ==> #[trigger] board_at(final(self)@, cc, rr) == (
                if cc == c as int && rr == r as int {
                    v
                } else {
                    board_at(old(self)@, cc, rr)
                }),
    {
        proof {
            lemma_rm_index_bound(self.n as int, c as int, r as int);
        }
        let i = r * self.n + c;
        self.cells[i] = v;
        proof {
            let n = self.n as int;
            assert forall|cc: int, rr: int| in_range(old(self)@, cc, rr) implies #[trigger] board_at(
                self@,
                cc,
                rr,
            ) == (if cc == c as int && rr == r as int {
                v
            } else {
                board_at(old(self)@, cc, rr)
            }) by {
                lemma_rm_index_bound(n, cc, rr);
                if !(cc == c as int && rr == r as int) {
                    lemma_rm_index_injective(n, cc, rr, c as int, r as int);
                }
            }
        }
    }

    /// Mark a cell filled; the caller has already validated legality.
    pub(crate) fn occupy(&mut self, c: Coord)
        requires
            old(self).wf(),
            in_range(old(self)@, c@.0, c@.1),
        ensures
            final(self).wf(),
            final(self)@.n == old(self)@.n,
            forall|cc: int, rr: int|
                in_range(old(self)@, cc, rr) ==> #[trigger] board_at(final(self)@, cc, rr) == (
                if cc == c@.0 && rr == c@.1 {
                    true
                } else {
                    board_at(old(self)@, cc, rr)
                }),
    {
        self.set_at(c.col, c.row, true);
    }

    /// Mark a cell empty.  Crate-internal: only line clearing vacates cells.
    pub(crate) fn clear(&mut self, c: Coord)
        requires
            old(self).wf(),
            in_range(old(self)@, c@.0, c@.1),
        ensures
            final(self).wf(),
            final(self)@.n == old(self)@.n,
            forall|cc: int, rr: int|
                in_range(old(self)@, cc, rr) ==> #[trigger] board_at(final(self)@, cc, rr) == (
                if cc == c@.0 && rr == c@.1 {
                    false
                } else {
                    board_at(old(self)@, cc, rr)
                }),
    {
        self.set_at(c.col, c.row, false);
    }

    /// The placement validator, a pure query: translate every offset of `s`
    /// by `anchor`; if each resulting cell is in range and unfilled, return
    /// the full list of absolute cells, otherwise nothing.  Off-board and
    /// overlap are indistinguishable to the caller by design: both mean the
    /// placement is rejected.
    pub fn can_place(&self, s: ShapeId, anchor: Coord) -> (res: Option<Vec<Coord>>)
        requires
            self.wf(),
        ensures
            match res {
                Some(v) => placement_ok(self@, s, anchor@) && v@.map_values(|c: Coord| c@)
                    == abs_cells(s, anchor@),
                None => !placement_ok(self@, s, anchor@),
            },
    {
        let offs = coords(s);
        let n = self.n;
        let mut out: Vec<Coord> = Vec::new();
        let mut j: usize = 0;
        while j < offs.len()
            invariant
                self.wf(),
                n == self.n,
                offs@ == spec_offsets(s),
                j <= offs@.len(),
                out@.len() == j,
                forall|k: int|
                    0 <= k < j ==> {
                        let cell = #[trigger] abs_cells(s, anchor@)[k];
                        in_range(self@, cell.0, cell.1) && !board_at(self@, cell.0, cell.1)
                            && out@[k]@ == cell
                    },
            decreases offs@.len() - j,
        {
            let (dc, dr) = offs[j];
            proof {
                assert(abs_cells(s, anchor@)[j as int] == (
                    anchor@.0 + offs@[j as int].0,
                    anchor@.1 + offs@[j as int].1,
                ));
            }
            if dc >= n || anchor.col >= n - dc {
                proof {
                    assert(!in_range(self@, abs_cells(s, anchor@)[j as int].0, abs_cells(
                        s,
                        anchor@,
                    )[j as int].1));
                }
                return None;
            }
            if dr >= n || anchor.row >= n - dr {
                proof {
                    assert(!in_range(self@, abs_cells(s, anchor@)[j as int].0, abs_cells(
                        s,
                        anchor@,
                    )[j as int].1));
                }
                return None;
            }
            let c = anchor.col + dc;
            let r = anchor.row + dr;
            if self.is_filled_at(c, r) {
                return None;
            }
            out.push(Coord { col: c, row: r });
            j += 1;
        }
        proof {
            assert(out@.map_values(|c: Coord| c@) =~= abs_cells(s, anchor@));
        }
        Some(out)
    }

    /// Fill every listed cell; all of them must be in range.
    pub(crate) fn place_all(&mut self, cells: &Vec<Coord>)
        requires
            old(self).wf(),
            forall|k: int|
                0 <= k < cells@.len() ==> in_range(
                    old(self)@,
                    (#[trigger] cells@[k])@.0,
                    cells@[k]@.1,
                ),
        ensures
            final(self).wf(),
            final(self)@ == place_cells(old(self)@, cells@.map_values(|c: Coord| c@)),
    {
        proof {
            self.lemma_wf_model();
        }
        let ghost orig = self@;
        let ghost cs = cells@.map_values(|c: Coord| c@);
        let m = cells.len();
        let mut k: usize = 0;
        while k < m
            invariant
                self.wf(),
                self@.n == orig.n,
                board_wf(orig),
                m == cells@.len(),
                k <= m,
                cs == cells@.map_values(|c: Coord| c@),
                forall|i: int|
                    0 <= i < cells@.len() ==> in_range(orig, (#[trigger] cells@[i])@.0, cells@[i]@.1),
                forall|cc: int, rr: int|
                    in_range(orig, cc, rr) ==> #[trigger] board_at(self@, cc, rr) == (board_at(
                        orig,
                        cc,
                        rr,
                    ) || cs.take(k as int).contains((cc, rr))),
            decreases m - k,
        {
            let c = cells[k];
            self.occupy(c);
            proof {
                assert(cs.take(k + 1) =~= cs.take(k as int).push(cs[k as int]));
                assert forall|cc: int, rr: int| in_range(orig, cc, rr) implies #[trigger] board_at(
                    self@,
                    cc,
                    rr,
                ) == (board_at(orig, cc, rr) || cs.take(k + 1).contains((cc, rr))) by {
                    if cc == c@.0 && rr == c@.1 {
                        assert(cs.take(k + 1)[k as int] == (cc, rr));
                        assert(cs.take(k + 1).contains((cc, rr)));
                    } else {
                        if cs.take(k + 1).contains((cc, rr)) {
                            let i = choose|i: int|
                                0 <= i < cs.take(k + 1).len() && #[trigger] cs.take(k + 1)[i] == (
                                cc,
                                rr,
                                );
                            assert(i < k + 1);
                            assert(i != k);
                            assert(cs.take(k as int)[i] == (cc, rr));
                            assert(cs.take(k as int).contains((cc, rr)));
                        }
                        if cs.take(k as int).contains((cc, rr)) {
                            let i = choose|i: int|
                                0 <= i < cs.take(k as int).len() && #[trigger] cs.take(
                                    k as int,
                                )[i] == (cc, rr);
                            assert(cs.take(k + 1)[i] == (cc, rr));
                            assert(cs.take(k + 1).contains((cc, rr)));
                        }
                    }
                }
            }
            k += 1;
        }
        proof {
            assert(cs.take(m as int) =~= cs);
            assert forall|r: int| 0 <= r < orig.n implies self@.cells[r] =~= place_cells(
                orig,
                cs,
            ).cells[r] by {
                assert forall|c: int| 0 <= c < orig.n implies self@.cells[r][c] == place_cells(
                    orig,
                    cs,
                ).cells[r][c] by {
                    assert(board_at(self@, c, r) == (board_at(orig, c, r) || cs.contains((c, r))));
                }
            }
            assert(self@ =~~= place_cells(orig, cs));
        }
    }
}

} // verus!
