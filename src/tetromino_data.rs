//! Static geometry of the seven tetrominoes: their mino offsets and the
//! offset tables used by the rotation kick search.

use vstd::prelude::*;
use crate::TetrominoType;

verus! {

/// The offsets of the four minoes of a tetromino from its center, at
/// orientation 0, as (column, row).
pub type TetrominoShape = [(isize, isize); 4];

/// Five rows of offsets, one entry per orientation in each row.
pub type TetrominoOffsetData = [[(isize, isize); 4]; 5];

/// The pairs of `s` read as mathematical integers.
pub open spec fn widen(s: Seq<(isize, isize)>) -> Seq<(int, int)> {
    s.map_values(|p: (isize, isize)| (p.0 as int, p.1 as int))
}

/// The mino offsets of each kind at orientation 0.
pub open spec fn shape_of(tt: TetrominoType) -> Seq<(int, int)> {
    match tt {
        TetrominoType::I => seq![(-1, 0), (0, 0), (1, 0), (2, 0)],
        TetrominoType::J => seq![(-1, 1), (-1, 0), (0, 0), (1, 0)],
        TetrominoType::L => seq![(-1, 0), (0, 0), (1, 0), (1, 1)],
        TetrominoType::O => seq![(0, 0), (0, 1), (1, 0), (1, 1)],
        TetrominoType::S => seq![(-1, 0), (0, 0), (0, 1), (1, 1)],
        TetrominoType::T => seq![(-1, 0), (0, 0), (0, 1), (1, 0)],
        TetrominoType::Z => seq![(-1, 1), (0, 1), (0, 0), (1, 0)],
    }
}

/// Returns the mino offsets of the given kind at orientation 0.
pub fn tetromino_shape_from(tt: &TetrominoType) -> (r: &'static TetrominoShape)
    ensures
        widen(r@) == shape_of(*tt),
{
    match tt {
        TetrominoType::I => &[(-1, 0), (0, 0), (1, 0), (2, 0)],
        TetrominoType::J => &[(-1, 1), (-1, 0), (0, 0), (1, 0)],
        TetrominoType::L => &[(-1, 0), (0, 0), (1, 0), (1, 1)],
        TetrominoType::O => &[(0, 0), (0, 1), (1, 0), (1, 1)],
        TetrominoType::S => &[(-1, 0), (0, 0), (0, 1), (1, 1)],
        TetrominoType::T => &[(-1, 0), (0, 0), (0, 1), (1, 0)],
        TetrominoType::Z => &[(-1, 1), (0, 1), (0, 0), (1, 0)],
    }
}

/// The kick table shared by J, L, S, T and Z.
pub open spec fn jlstz_offsets() -> Seq<Seq<(int, int)>> {
    seq![
        seq![(0, 0), (0, 0), (0, 0), (0, 0)],
        seq![(0, 0), (1, 0), (0, 0), (-1, 0)],
        seq![(0, 0), (1, -1), (0, 0), (-1, -1)],
        seq![(0, 0), (0, 2), (0, 0), (0, 2)],
        seq![(0, 0), (1, 2), (0, 0), (-1, 2)],
    ]
}

/// The kick table of I.
pub open spec fn i_offsets() -> Seq<Seq<(int, int)>> {
    seq![
        seq![(0, 0), (-1, 0), (-1, 1), (0, 1)],
        seq![(-1, 0), (0, 0), (1, 1), (0, 1)],
        seq![(2, 0), (0, 0), (-2, 1), (0, 1)],
        seq![(-1, 0), (0, 1), (1, 0), (0, -1)],
        seq![(2, 0), (0, -2), (-2, 0), (0, 2)],
    ]
}

/// The kick table of O.
pub open spec fn o_offsets() -> Seq<Seq<(int, int)>> {
    seq![
        seq![(0, 0), (0, -1), (-1, -1), (-1, 0)],
        seq![(0, 0), (0, -1), (-1, -1), (-1, 0)],
        seq![(0, 0), (0, -1), (-1, -1), (-1, 0)],
        seq![(0, 0), (0, -1), (-1, -1), (-1, 0)],
        seq![(0, 0), (0, -1), (-1, -1), (-1, 0)],
    ]
}

/// The five offset rows of each kind, each row holding one entry per
/// orientation.
pub open spec fn kick_table(tt: TetrominoType) -> Seq<Seq<(int, int)>> {
    match tt {
        TetrominoType::I => i_offsets(),
        TetrominoType::O => o_offsets(),
        _ => jlstz_offsets(),
    }
}

/// Returns the offset table that the rotation kick search of the given kind
/// walks through.
pub fn tetromino_offset_data_from(tt: &TetrominoType) -> (r: &'static TetrominoOffsetData)
    ensures
        forall|i: int| 0 <= i < 5 ==> widen(#[trigger] r@[i]@) == kick_table(*tt)[i],
{
    match tt {
        TetrominoType::I => &[
            [(0, 0), (-1, 0), (-1, 1), (0, 1)],
            [(-1, 0), (0, 0), (1, 1), (0, 1)],
            [(2, 0), (0, 0), (-2, 1), (0, 1)],
            [(-1, 0), (0, 1), (1, 0), (0, -1)],
            [(2, 0), (0, -2), (-2, 0), (0, 2)],
        ],
        TetrominoType::O => &[
            [(0, 0), (0, -1), (-1, -1), (-1, 0)],
            [(0, 0), (0, -1), (-1, -1), (-1, 0)],
            [(0, 0), (0, -1), (-1, -1), (-1, 0)],
            [(0, 0), (0, -1), (-1, -1), (-1, 0)],
            [(0, 0), (0, -1), (-1, -1), (-1, 0)],
        ],
        _ => &[
            [(0, 0), (0, 0), (0, 0), (0, 0)],
            [(0, 0), (1, 0), (0, 0), (-1, 0)],
            [(0, 0), (1, -1), (0, 0), (-1, -1)],
            [(0, 0), (0, 2), (0, 0), (0, 2)],
            [(0, 0), (1, 2), (0, 0), (-1, 2)],
        ],
    }
}

} // verus!
