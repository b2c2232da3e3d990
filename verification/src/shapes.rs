//! The fixed, closed catalog of polyomino shapes.
//!
//! Every shape is an ordered list of relative cell offsets `(column, row)`,
//! normalized so that the minimum column and the minimum row among its
//! offsets are both zero.  The catalog is resolved once, at compile time, to
//! this coordinate representation; lookup cannot fail for any identifier.

use vstd::prelude::*;

verus! {

/// Identifier of one shape in the catalog: a closed set of variants, so that
/// an out-of-catalog shape is unrepresentable.
#[derive(Clone, Copy, Debug, PartialEq, Eq, Structural)]
pub enum ShapeId {
    /// Single cell.
    Single,
    /// Horizontal bar of 2 cells.
    BarH2,
    /// Vertical bar of 2 cells.
    BarV2,
    /// Horizontal bar of 3 cells.
    BarH3,
    /// Vertical bar of 3 cells.
    BarV3,
    /// Horizontal bar of 4 cells.
    BarH4,
    /// Vertical bar of 4 cells.
    BarV4,
    /// Horizontal bar of 5 cells.
    BarH5,
    /// Vertical bar of 5 cells.
    BarV5,
    /// Solid 2×2 square.
    Square2,
    /// Solid 3×3 square.
    Square3,
    /// Bent piece of 3 cells.
    Corner3,
    /// L-tetromino, base orientation.
    L0,
    /// L-tetromino rotated a quarter turn.
    L90,
    /// L-tetromino rotated a half turn.
    L180,
    /// L-tetromino rotated three quarter turns.
    L270,
    /// T-tetromino, stem pointing down.
    T0,
    /// T-tetromino, stem pointing left.
    T90,
    /// T-tetromino, stem pointing up.
    T180,
    /// T-tetromino, stem pointing right.
    T270,
    /// S-tetromino, flat orientation.
    S0,
    /// S-tetromino, upright orientation.
    S90,
    /// Z-tetromino, flat orientation.
    Z0,
    /// Z-tetromino, upright orientation.
    Z90,
    /// Large 5-cell corner piece.
    BigL,
}

/// Number of shapes in the catalog.
pub const CATALOG_LEN: usize = 25;

/// The relative offsets `(column, row)` of a shape, as an ordered sequence.
pub open spec fn spec_offsets(s: ShapeId) -> Seq<(usize, usize)> {
    match s {
        ShapeId::Single => seq![(0usize, 0usize)],
        ShapeId::BarH2 => seq![(0usize, 0usize), (1usize, 0usize)],
        ShapeId::BarV2 => seq![(0usize, 0usize), (0usize, 1usize)],
        ShapeId::BarH3 => seq![(0usize, 0usize), (1usize, 0usize), (2usize, 0usize)],
        ShapeId::BarV3 => seq![(0usize, 0usize), (0usize, 1usize), (0usize, 2usize)],
        ShapeId::BarH4 => seq![
            (0usize, 0usize),
            (1usize, 0usize),
            (2usize, 0usize),
            (3usize, 0usize),
        ],
        ShapeId::BarV4 => seq![
            (0usize, 0usize),
            (0usize, 1usize),
            (0usize, 2usize),
            (0usize, 3usize),
        ],
        ShapeId::BarH5 => seq![
            (0usize, 0usize),
            (1usize, 0usize),
            (2usize, 0usize),
            (3usize, 0usize),
            (4usize, 0usize),
        ],
        ShapeId::BarV5 => seq![
            (0usize, 0usize),
            (0usize, 1usize),
            (0usize, 2usize),
            (0usize, 3usize),
            (0usize, 4usize),
        ],
        ShapeId::Square2 => seq![
            (0usize, 0usize),
            (1usize, 0usize),
            (0usize, 1usize),
            (1usize, 1usize),
        ],
        ShapeId::Square3 => seq![
            (0usize, 0usize),
            (1usize, 0usize),
            (2usize, 0usize),
            (0usize, 1usize),
            (1usize, 1usize),
            (2usize, 1usize),
            (0usize, 2usize),
            (1usize, 2usize),
            (2usize, 2usize),
        ],
        ShapeId::Corner3 => seq![(0usize, 0usize), (1usize, 0usize), (1usize, 1usize)],
        ShapeId::L0 => seq![
            (0usize, 0usize),
            (0usize, 1usize),
            (0usize, 2usize),
            (1usize, 2usize),
        ],
        ShapeId::L90 => seq![
            (0usize, 0usize),
            (1usize, 0usize),
            (2usize, 0usize),
            (0usize, 1usize),
        ],
        ShapeId::L180 => seq![
            (0usize, 0usize),
            (1usize, 0usize),
            (1usize, 1usize),
            (1usize, 2usize),
        ],
        ShapeId::L270 => seq![
            (2usize, 0usize),
            (0usize, 1usize),
            (1usize, 1usize),
            (2usize, 1usize),
        ],
        ShapeId::T0 => seq![
            (0usize, 0usize),
            (1usize, 0usize),
            (2usize, 0usize),
            (1usize, 1usize),
        ],
        ShapeId::T90 => seq![
            (1usize, 0usize),
            (0usize, 1usize),
            (1usize, 1usize),
            (1usize, 2usize),
        ],
        ShapeId::T180 => seq![
            (1usize, 0usize),
            (0usize, 1usize),
            (1usize, 1usize),
            (2usize, 1usize),
        ],
        ShapeId::T270 => seq![
            (0usize, 0usize),
            (0usize, 1usize),
            (1usize, 1usize),
            (0usize, 2usize),
        ],
        ShapeId::S0 => seq![
            (1usize, 0usize),
            (2usize, 0usize),
            (0usize, 1usize),
            (1usize, 1usize),
        ],
        ShapeId::S90 => seq![
            (0usize, 0usize),
            (0usize, 1usize),
            (1usize, 1usize),
            (1usize, 2usize),
        ],
        ShapeId::Z0 => seq![
            (0usize, 0usize),
            (1usize, 0usize),
            (1usize, 1usize),
            (2usize, 1usize),
        ],
        ShapeId::Z90 => seq![
            (1usize, 0usize),
            (0usize, 1usize),
            (1usize, 1usize),
            (0usize, 2usize),
        ],
        ShapeId::BigL => seq![
            (0usize, 0usize),
            (1usize, 0usize),
            (2usize, 0usize),
            (0usize, 1usize),
            (0usize, 2usize),
        ],
    }
}

/// The shape stored at a given catalog index; total over `0..CATALOG_LEN`.
pub open spec fn spec_shape_of_index(i: int) -> ShapeId {
    if i == 0 { ShapeId::Single }
    else if i == 1 { ShapeId::BarH2 }
    else if i == 2 { ShapeId::BarV2 }
    else if i == 3 { ShapeId::BarH3 }
    else if i == 4 { ShapeId::BarV3 }
    else if i == 5 { ShapeId::BarH4 }
    else if i == 6 { ShapeId::BarV4 }
    else if i == 7 { ShapeId::BarH5 }
    else if i == 8 { ShapeId::BarV5 }
    else if i == 9 { ShapeId::Square2 }
    else if i == 10 { ShapeId::Square3 }
    else if i == 11 { ShapeId::Corner3 }
    else if i == 12 { ShapeId::L0 }
    else if i == 13 { ShapeId::L90 }
    else if i == 14 { ShapeId::L180 }
    else if i == 15 { ShapeId::L270 }
    else if i == 16 { ShapeId::T0 }
    else if i == 17 { ShapeId::T90 }
    else if i == 18 { ShapeId::T180 }
    else if i == 19 { ShapeId::T270 }
    else if i == 20 { ShapeId::S0 }
    else if i == 21 { ShapeId::S90 }
    else if i == 22 { ShapeId::Z0 }
    else if i == 23 { ShapeId::Z90 }
    else { ShapeId::BigL }
}

/// Catalog lookup by index, for hosts that draw uniform random indices over
/// `[0, CATALOG_LEN)`.
pub fn shape_of_index(i: usize) -> (s: ShapeId)
    requires
        i < CATALOG_LEN,
    ensures
        s == spec_shape_of_index(i as int),
{
    if i == 0 { ShapeId::Single }
    else if i == 1 { ShapeId::BarH2 }
    else if i == 2 { ShapeId::BarV2 }
    else if i == 3 { ShapeId::BarH3 }
    else if i == 4 { ShapeId::BarV3 }
    else if i == 5 { ShapeId::BarH4 }
    else if i == 6 { ShapeId::BarV4 }
    else if i == 7 { ShapeId::BarH5 }
    else if i == 8 { ShapeId::BarV5 }
    else if i == 9 { ShapeId::Square2 }
    else if i == 10 { ShapeId::Square3 }
    else if i == 11 { ShapeId::Corner3 }
    else if i == 12 { ShapeId::L0 }
    else if i == 13 { ShapeId::L90 }
    else if i == 14 { ShapeId::L180 }
    else if i == 15 { ShapeId::L270 }
    else if i == 16 { ShapeId::T0 }
    else if i == 17 { ShapeId::T90 }
    else if i == 18 { ShapeId::T180 }
    else if i == 19 { ShapeId::T270 }
    else if i == 20 { ShapeId::S0 }
    else if i == 21 { ShapeId::S90 }
    else if i == 22 { ShapeId::Z0 }
    else if i == 23 { ShapeId::Z90 }
    else { ShapeId::BigL }
}

/// Catalog lookup from a raw 64-bit draw of the external random source,
/// reduced modulo the catalog size.
pub fn shape_of_draw(x: u64) -> (s: ShapeId)
    ensures
        s == spec_shape_of_index((x as int) % (CATALOG_LEN as int)),
{
    shape_of_index((x % (CATALOG_LEN as u64)) as usize)
}

/// The relative offsets of a shape, resolved to a concrete vector.
/// Lookup is total: every identifier has its fixed offsets.
pub fn coords(s: ShapeId) -> (v: Vec<(usize, usize)>)
    ensures
        v@ == spec_offsets(s),
{
    let mut v: Vec<(usize, usize)> = Vec::new();
    match s {
        ShapeId::Single => {
            v.push((0, 0));
        },
        ShapeId::BarH2 => {
            v.push((0, 0));
            v.push((1, 0));
        },
        ShapeId::BarV2 => {
            v.push((0, 0));
            v.push((0, 1));
        },
        ShapeId::BarH3 => {
            v.push((0, 0));
            v.push((1, 0));
            v.push((2, 0));
        },
        ShapeId::BarV3 => {
            v.push((0, 0));
            v.push((0, 1));
            v.push((0, 2));
        },
        ShapeId::BarH4 => {
            v.push((0, 0));
            v.push((1, 0));
            v.push((2, 0));
            v.push((3, 0));
        },
        ShapeId::BarV4 => {
            v.push((0, 0));
            v.push((0, 1));
            v.push((0, 2));
            v.push((0, 3));
        },
        ShapeId::BarH5 => {
            v.push((0, 0));
            v.push((1, 0));
            v.push((2, 0));
            v.push((3, 0));
            v.push((4, 0));
        },
        ShapeId::BarV5 => {
            v.push((0, 0));
            v.push((0, 1));
            v.push((0, 2));
            v.push((0, 3));
            v.push((0, 4));
        },
        ShapeId::Square2 => {
            v.push((0, 0));
            v.push((1, 0));
            v.push((0, 1));
            v.push((1, 1));
        },
        ShapeId::Square3 => {
            v.push((0, 0));
            v.push((1, 0));
            v.push((2, 0));
            v.push((0, 1));
            v.push((1, 1));
            v.push((2, 1));
            v.push((0, 2));
            v.push((1, 2));
            v.push((2, 2));
        },
        ShapeId::Corner3 => {
            v.push((0, 0));
            v.push((1, 0));
            v.push((1, 1));
        },
        ShapeId::L0 => {
            v.push((0, 0));
            v.push((0, 1));
            v.push((0, 2));
            v.push((1, 2));
        },
        ShapeId::L90 => {
            v.push((0, 0));
            v.push((1, 0));
            v.push((2, 0));
            v.push((0, 1));
        },
        ShapeId::L180 => {
            v.push((0, 0));
            v.push((1, 0));
            v.push((1, 1));
            v.push((1, 2));
        },
        ShapeId::L270 => {
            v.push((2, 0));
            v.push((0, 1));
            v.push((1, 1));
            v.push((2, 1));
        },
        ShapeId::T0 => {
            v.push((0, 0));
            v.push((1, 0));
            v.push((2, 0));
            v.push((1, 1));
        },
        ShapeId::T90 => {
            v.push((1, 0));
            v.push((0, 1));
            v.push((1, 1));
            v.push((1, 2));
        },
        ShapeId::T180 => {
            v.push((1, 0));
            v.push((0, 1));
            v.push((1, 1));
            v.push((2, 1));
        },
        ShapeId::T270 => {
            v.push((0, 0));
            v.push((0, 1));
            v.push((1, 1));
            v.push((0, 2));
        },
        ShapeId::S0 => {
            v.push((1, 0));
            v.push((2, 0));
            v.push((0, 1));
            v.push((1, 1));
        },
        ShapeId::S90 => {
            v.push((0, 0));
            v.push((0, 1));
            v.push((1, 1));
            v.push((1, 2));
        },
        ShapeId::Z0 => {
            v.push((0, 0));
            v.push((1, 0));
            v.push((1, 1));
            v.push((2, 1));
        },
        ShapeId::Z90 => {
            v.push((1, 0));
            v.push((0, 1));
            v.push((1, 1));
            v.push((0, 2));
        },
        ShapeId::BigL => {
            v.push((0, 0));
            v.push((1, 0));
            v.push((2, 0));
            v.push((0, 1));
            v.push((0, 2));
        },
    }
    proof {
        assert(v@ =~= spec_offsets(s));
    }
    v
}

/// Every shape is non-empty, fits a 5×5 bounding box, lists each offset
/// once, and is normalized: some offset lies in column 0 and some offset
/// lies in row 0.
pub proof fn lemma_catalog_normalized(s: ShapeId)
    ensures
        spec_offsets(s).len() > 0,
        forall|j: int|
            0 <= j < spec_offsets(s).len() ==> #[trigger] spec_offsets(s)[j].0 <= 4
                && spec_offsets(s)[j].1 <= 4,
        exists|j: int| 0 <= j < spec_offsets(s).len() && (#[trigger] spec_offsets(s)[j]).0 == 0,
        exists|j: int| 0 <= j < spec_offsets(s).len() && (#[trigger] spec_offsets(s)[j]).1 == 0,
        forall|j: int, k: int|
            0 <= j < k < spec_offsets(s).len() ==> #[trigger] spec_offsets(s)[j]
                != #[trigger] spec_offsets(s)[k],
{
    let offs = spec_offsets(s);
    match s {
        ShapeId::L270 | ShapeId::T90 | ShapeId::T180 | ShapeId::Z90 => {
            assert(offs[1].0 == 0 && offs[0].1 == 0);
        },
        ShapeId::S0 => {
            assert(offs[2].0 == 0 && offs[0].1 == 0);
        },
        _ => {
            assert(offs[0].0 == 0 && offs[0].1 == 0);
        },
    }
}

} // verus!
