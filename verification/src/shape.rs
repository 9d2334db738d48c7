//! Colour tags and the seven tetromino shapes with their initial matrices.

use vstd::prelude::*;

verus! {

/// The tag that a locked cell keeps from the piece that filled it.
#[derive(Clone, Copy, PartialEq, Eq, Structural, Debug)]
pub enum ColorTag {
    Pink,
    Yellow,
}

impl ColorTag {
    /// The colour a coin toss selects: pink on heads, yellow on tails.
    pub fn from_coin(heads: bool) -> (color: ColorTag)
        ensures
            color == (if heads {
                ColorTag::Pink
            } else {
                ColorTag::Yellow
            }),
    {
        if heads {
            ColorTag::Pink
        } else {
            ColorTag::Yellow
        }
    }
}

/// The seven shapes a piece can start as.
#[derive(Clone, Copy, PartialEq, Eq, Structural, Debug)]
pub enum ShapeKind {
    I,
    O,
    T,
    L,
    J,
    S,
    Z,
}

/// Number of shapes in [`ShapeKind`].
pub const SHAPE_COUNT: usize = 7;

/// An occupancy matrix as a sequence of rows.
pub type Matrix = Seq<Seq<bool>>;

/// Largest side of a matrix or of a playfield: offsets are `i32`.
pub const MAX_DIM: usize = 2147483647;

/// The rows of `m` seen as a mathematical matrix.
pub open spec fn matrix_of(m: Vec<Vec<bool>>) -> Matrix {
    Seq::new(m@.len(), |r: int| m@[r]@)
}

/// Number of rows of `m`.
pub open spec fn matrix_rows(m: Matrix) -> int {
    m.len() as int
}

/// Number of columns of `m` (the length of its top row).
pub open spec fn matrix_cols(m: Matrix) -> int {
    m[0].len() as int
}

/// The cell at (`r`, `c`) lies inside `m` and is occupied.
pub open spec fn occupied(m: Matrix, r: int, c: int) -> bool {
    &&& 0 <= r < m.len()
    &&& 0 <= c < m[r].len()
    &&& m[r][c]
}

/// `m` is a rectangle of at least one cell whose sides fit `MAX_DIM`.
pub open spec fn matrix_valid(m: Matrix) -> bool {
    &&& 1 <= m.len() <= MAX_DIM
    &&& 1 <= m[0].len() <= MAX_DIM
    &&& forall|r: int| 0 <= r < m.len() ==> (#[trigger] m[r]).len() == m[0].len()
}

/// At least one cell of `m` is occupied.
pub open spec fn has_cell(m: Matrix) -> bool {
    exists|r: int, c: int| occupied(m, r, c)
}

/// `m` turned by a quarter: cell (`r`, `c`) of `m` becomes cell
/// (`c`, `rows - 1 - r`), so the result has the sides of `m` swapped.
pub open spec fn rotated(m: Matrix) -> Matrix {
    Seq::new(m[0].len(), |c: int| Seq::new(m.len(), |j: int| m[m.len() - 1 - j][c]))
}

/// `m` turned by a half: cell (`r`, `c`) of `m` becomes cell
/// (`rows - 1 - r`, `cols - 1 - c`).
pub open spec fn half_turned(m: Matrix) -> Matrix {
    Seq::new(m.len(), |i: int| Seq::new(m[0].len(), |j: int| m[m.len() - 1 - i][m[0].len() - 1 - j]))
}

/// A quarter turn keeps a valid matrix valid, swaps its sides, and moves
/// each occupied cell; so it keeps a matrix with an occupied cell one.
pub proof fn lemma_rotated_valid(m: Matrix)
    requires
        matrix_valid(m),
    ensures
        matrix_valid(rotated(m)),
        matrix_rows(rotated(m)) == matrix_cols(m),
        matrix_cols(rotated(m)) == matrix_rows(m),
        forall|r: int, c: int|
            occupied(m, r, c) <==> #[trigger] occupied(rotated(m), c, m.len() - 1 - r),
        has_cell(rotated(m)) == has_cell(m),
{
    let t = rotated(m);
    if has_cell(m) {
        let (r, c) = choose|r: int, c: int| occupied(m, r, c);
        assert(occupied(t, c, m.len() - 1 - r));
    }
    if has_cell(t) {
        let (i, j) = choose|i: int, j: int| occupied(t, i, j);
        assert(occupied(m, m.len() - 1 - j, i));
    }
}

/// Two quarter turns make a half turn: the sides are those of `m` again,
/// the cells are mirrored through the centre.
pub proof fn law_two_quarter_turns(m: Matrix)
    requires
        matrix_valid(m),
    ensures
        rotated(rotated(m)) == half_turned(m),
        matrix_rows(rotated(rotated(m))) == matrix_rows(m),
        matrix_cols(rotated(rotated(m))) == matrix_cols(m),
{
    assert forall|i: int| 0 <= i < m.len() implies (#[trigger] rotated(rotated(m))[i])
        =~= half_turned(m)[i] by {}
}

/// Four quarter turns give the matrix back.
pub proof fn law_four_quarter_turns(m: Matrix)
    requires
        matrix_valid(m),
    ensures
        rotated(rotated(rotated(rotated(m)))) == m,
{
    lemma_rotated_valid(m);
    law_two_quarter_turns(m);
    let h = half_turned(m);
    lemma_rotated_valid(rotated(m));
    law_two_quarter_turns(h);
    assert forall|i: int| 0 <= i < m.len() implies (#[trigger] half_turned(h)[i]) =~= m[i] by {}
}

impl ShapeKind {
    /// The shape with the given position in the order I, O, T, L, J, S, Z.
    pub open spec fn from_index_spec(index: int) -> Option<ShapeKind> {
        if index == 0 {
            Some(ShapeKind::I)
        } else if index == 1 {
            Some(ShapeKind::O)
        } else if index == 2 {
            Some(ShapeKind::T)
        } else if index == 3 {
            Some(ShapeKind::L)
        } else if index == 4 {
            Some(ShapeKind::J)
        } else if index == 5 {
            Some(ShapeKind::S)
        } else if index == 6 {
            Some(ShapeKind::Z)
        } else {
            None
        }
    }

    /// The matrix a piece of this shape starts with: `true` marks an
    /// occupied cell, row 0 is the top row.
    pub open spec fn matrix_spec(self) -> Matrix {
        match self {
            ShapeKind::I => seq![
                seq![true, true, true, true],
                seq![false, false, false, false],
                seq![false, false, false, false],
                seq![false, false, false, false],
            ],
            ShapeKind::O => seq![seq![true, true], seq![true, true]],
            ShapeKind::T => seq![
                seq![false, true, false],
                seq![true, true, true],
                seq![false, false, false],
            ],
            ShapeKind::L => seq![
                seq![true, false, false],
                seq![true, true, true],
                seq![false, false, false],
            ],
            ShapeKind::J => seq![
                seq![false, false, true],
                seq![true, true, true],
                seq![false, false, false],
            ],
            ShapeKind::S => seq![
                seq![false, true, true],
                seq![true, true, false],
                seq![false, false, false],
            ],
            ShapeKind::Z => seq![
                seq![true, true, false],
                seq![false, true, true],
                seq![false, false, false],
            ],
        }
    }

    /// Selects a shape by its position; `None` from `SHAPE_COUNT` on.
    pub fn from_index(index: usize) -> (kind: Option<ShapeKind>)
        ensures
            kind == Self::from_index_spec(index as int),
            kind.is_some() <==> index < SHAPE_COUNT,
    {
        if index == 0 {
            Some(ShapeKind::I)
        } else if index == 1 {
            Some(ShapeKind::O)
        } else if index == 2 {
            Some(ShapeKind::T)
        } else if index == 3 {
            Some(ShapeKind::L)
        } else if index == 4 {
            Some(ShapeKind::J)
        } else if index == 5 {
            Some(ShapeKind::S)
        } else if index == 6 {
            Some(ShapeKind::Z)
        } else {
            None
        }
    }

    /// Builds the initial matrix of this shape.
    pub fn matrix(self) -> (m: Vec<Vec<bool>>)
        ensures
            matrix_of(m) == self.matrix_spec(),
    {
        let m = match self {
            ShapeKind::I => vec![
                vec![true, true, true, true],
                vec![false, false, false, false],
                vec![false, false, false, false],
                vec![false, false, false, false],
            ],
            ShapeKind::O => vec![vec![true, true], vec![true, true]],
            ShapeKind::T => vec![
                vec![false, true, false],
                vec![true, true, true],
                vec![false, false, false],
            ],
            ShapeKind::L => vec![
                vec![true, false, false],
                vec![true, true, true],
                vec![false, false, false],
            ],
            ShapeKind::J => vec![
                vec![false, false, true],
                vec![true, true, true],
                vec![false, false, false],
            ],
            ShapeKind::S => vec![
                vec![false, true, true],
                vec![true, true, false],
                vec![false, false, false],
            ],
            ShapeKind::Z => vec![
                vec![true, true, false],
                vec![false, true, true],
                vec![false, false, false],
            ],
        };
        m
    }
}

} // verus!
