//! The falling piece: an occupancy matrix, the offset of its top-left corner
//! on the playfield, and a colour tag.

use vstd::prelude::*;
use crate::board::{
    empty_rows, grid_empty, grid_height, grid_valid, grid_width, is_filled, Board, Grid,
};
use crate::chance::{draw_below, draw_ratio, thread_generator};
use crate::shape::{
    half_turned, has_cell, law_two_quarter_turns, lemma_rotated_valid, matrix_cols, matrix_of,
    matrix_rows, matrix_valid, occupied, rotated, ColorTag, Matrix, ShapeKind, MAX_DIM,
    SHAPE_COUNT,
};

verus! {

/// What a piece is: where its matrix sits, the matrix, and the colour.
pub struct PieceModel {
    /// Column of the matrix's left edge.
    pub x: int,
    /// Row of the matrix's top edge; negative above the playfield.
    pub y: int,
    /// Occupancy matrix in its current rotation.
    pub matrix: Matrix,
    /// Colour written into the playfield when the piece locks.
    pub color: ColorTag,
}

/// A piece cell may stand at (`row`, `col`): inside the side walls, above
/// the floor, and, from row 0 down, on an empty cell.  Rows above the
/// playfield are never looked up.
pub open spec fn cell_allowed(grid: Grid, row: int, col: int) -> bool {
    &&& 0 <= col < grid_width(grid)
    &&& row < grid_height(grid)
    &&& (row >= 0 ==> grid[row][col].is_none())
}

/// Column at which a matrix of `cols` columns is centred on a playfield of
/// `width` columns; the half is rounded toward zero.
pub open spec fn centered_x(width: int, cols: int) -> int {
    if width >= cols {
        (width - cols) / 2
    } else {
        -((cols - width) / 2)
    }
}

impl PieceModel {
    /// The matrix is valid and the offset fits `i32`.
    pub open spec fn valid(self) -> bool {
        &&& matrix_valid(self.matrix)
        &&& i32::MIN <= self.x <= i32::MAX
        &&& i32::MIN <= self.y <= i32::MAX
    }

    /// The piece occupies the playfield cell (`row`, `col`).
    pub open spec fn covers(self, row: int, col: int) -> bool {
        occupied(self.matrix, row - self.y, col - self.x)
    }

    /// The piece moved by (`dx`, `dy`).
    pub open spec fn shifted(self, dx: int, dy: int) -> PieceModel {
        PieceModel { x: self.x + dx, y: self.y + dy, matrix: self.matrix, color: self.color }
    }

    /// Every occupied cell, moved by (`dx`, `dy`), may stand where it lands.
    pub open spec fn can_move(self, dx: int, dy: int, grid: Grid) -> bool {
        forall|r: int, c: int| #[trigger]
            occupied(self.matrix, r, c) ==> cell_allowed(grid, self.y + r + dy, self.x + c + dx)
    }

    /// The piece may stand where it is.
    pub open spec fn fits(self, grid: Grid) -> bool {
        self.can_move(0, 0, grid)
    }

    /// The piece with its matrix turned by a quarter, offset unchanged.
    pub open spec fn turned(self) -> PieceModel {
        PieceModel { x: self.x, y: self.y, matrix: rotated(self.matrix), color: self.color }
    }

    /// Rotation without wall kicks: the turned piece if it fits, else the
    /// piece as it was.
    pub open spec fn rotate(self, grid: Grid) -> PieceModel {
        if self.turned().fits(grid) {
            self.turned()
        } else {
            self
        }
    }

    /// One step of the given move if the piece can make it, else the piece
    /// as it was.
    pub open spec fn step(self, dx: int, dy: int, grid: Grid) -> PieceModel {
        if self.can_move(dx, dy, grid) {
            self.shifted(dx, dy)
        } else {
            self
        }
    }

    /// Where the piece comes to rest when it falls straight down until the
    /// next row is barred.  Only a piece with an occupied cell comes to rest:
    /// nothing bars the way of one without.
    pub open spec fn landed(self, grid: Grid) -> PieceModel
        decreases grid_height(grid) - self.y,
        when has_cell(self.matrix)
    {
        if self.can_move(0, 1, grid) {
            self.shifted(0, 1).landed(grid)
        } else {
            self
        }
    }

    /// A piece of shape `kind` centred at the top of a playfield of `width`
    /// columns.
    pub open spec fn spawned(kind: ShapeKind, color: ColorTag, width: int) -> PieceModel {
        PieceModel {
            x: centered_x(width, matrix_cols(kind.matrix_spec())),
            y: 0,
            matrix: kind.matrix_spec(),
            color,
        }
    }
}

/// Where a falling piece comes to rest: straight below where it was, with
/// every row on the way open and the next row barred.
pub proof fn lemma_landed(p: PieceModel, grid: Grid)
    requires
        has_cell(p.matrix),
    ensures
        p.landed(grid) == p.shifted(0, p.landed(grid).y - p.y),
        p.landed(grid).y >= p.y,
        !p.landed(grid).can_move(0, 1, grid),
        forall|j: int| 1 <= j <= p.landed(grid).y - p.y ==> #[trigger] p.can_move(0, j, grid),
    decreases grid_height(grid) - p.y,
{
    if p.can_move(0, 1, grid) {
        let q = p.shifted(0, 1);
        lemma_landed(q, grid);
        assert forall|j: int| 1 <= j <= p.landed(grid).y - p.y implies #[trigger] p.can_move(
            0,
            j,
            grid,
        ) by {
            if j > 1 {
                assert(q.can_move(0, j - 1, grid));
            }
        }
    }
}

/// The placement rule: a move that `can_move` admits leaves the piece
/// where it may stand.  Asking `can_move` of a move and asking whether the
/// moved piece fits are the same question.
pub proof fn law_admitted_move_fits(p: PieceModel, dx: int, dy: int, grid: Grid)
    ensures
        p.can_move(dx, dy, grid) == p.shifted(dx, dy).fits(grid),
        p.can_move(dx, dy, grid) ==> p.step(dx, dy, grid).fits(grid),
{
    let q = p.shifted(dx, dy);
    if q.fits(grid) {
        assert forall|r: int, c: int| #[trigger] occupied(p.matrix, r, c) implies cell_allowed(
            grid,
            p.y + r + dy,
            p.x + c + dx,
        ) by {
            assert(occupied(q.matrix, r, c));
        }
    }
}

/// A piece that fits covers no filled cell, and no cell beside or below the
/// playfield.
pub proof fn law_fit_covers_no_filled_cell(p: PieceModel, grid: Grid)
    requires
        p.fits(grid),
    ensures
        forall|row: int, col: int| #[trigger]
            p.covers(row, col) ==> 0 <= col < grid_width(grid) && row < grid_height(grid)
                && !is_filled(grid, row, col),
{
}

/// A piece that fits still fits after any command: a step to the side or
/// down, a rotation, or, for a piece with an occupied cell, a hard drop.
pub proof fn law_commands_keep_fit(p: PieceModel, grid: Grid)
    requires
        p.fits(grid),
    ensures
        p.step(-1, 0, grid).fits(grid),
        p.step(1, 0, grid).fits(grid),
        p.step(0, 1, grid).fits(grid),
        p.rotate(grid).fits(grid),
        has_cell(p.matrix) ==> p.landed(grid).fits(grid),
{
    if has_cell(p.matrix) {
        lemma_landed(p, grid);
        let fall = p.landed(grid).y - p.y;
        if fall > 0 {
            assert(p.can_move(0, fall, grid));
        }
    }
}

/// A valid piece with an occupied cell is one after any command: the walls
/// and the floor keep its offset within `i32`.
pub proof fn lemma_commands_keep_valid(p: PieceModel, grid: Grid)
    requires
        p.valid(),
        has_cell(p.matrix),
        grid_valid(grid),
    ensures
        p.step(-1, 0, grid).valid() && has_cell(p.step(-1, 0, grid).matrix),
        p.step(1, 0, grid).valid() && has_cell(p.step(1, 0, grid).matrix),
        p.step(0, 1, grid).valid() && has_cell(p.step(0, 1, grid).matrix),
        p.rotate(grid).valid() && has_cell(p.rotate(grid).matrix),
        p.landed(grid).valid() && has_cell(p.landed(grid).matrix),
{
    lemma_rotated_valid(p.matrix);
    lemma_landed(p, grid);
    let fall = p.landed(grid).y - p.y;
    if fall > 0 {
        assert(p.can_move(0, fall, grid));
    }
}

/// A piece without an occupied cell can make every move: nothing of it can
/// collide.
pub proof fn law_no_cell_moves_freely(p: PieceModel, dx: int, dy: int, grid: Grid)
    requires
        !has_cell(p.matrix),
    ensures
        p.can_move(dx, dy, grid),
{
}

/// A piece all of whose matrix lies on an empty playfield fits.
pub proof fn lemma_fits_empty(p: PieceModel, grid: Grid)
    requires
        matrix_valid(p.matrix),
        grid_valid(grid),
        grid_empty(grid),
        0 <= p.x,
        p.x + matrix_cols(p.matrix) <= grid_width(grid),
        p.y + matrix_rows(p.matrix) <= grid_height(grid),
    ensures
        p.fits(grid),
{
    assert forall|r: int, c: int| #[trigger] occupied(p.matrix, r, c) implies cell_allowed(
        grid,
        p.y + r,
        p.x + c,
    ) by {
        if p.y + r >= 0 {
            assert(!is_filled(grid, p.y + r, p.x + c));
        }
    }
}

/// The playfield gives the piece room to turn: the square that holds its
/// matrix in every rotation lies between the side walls and above the floor.
pub open spec fn room_to_turn(p: PieceModel, grid: Grid) -> bool {
    let side = if matrix_rows(p.matrix) >= matrix_cols(p.matrix) {
        matrix_rows(p.matrix)
    } else {
        matrix_cols(p.matrix)
    };
    &&& 0 <= p.x
    &&& p.x + side <= grid_width(grid)
    &&& p.y + side <= grid_height(grid)
}

/// On an empty playfield with room to turn, two rotations in a row are both
/// accepted and give the matrix its sides back; the matrix itself is the
/// half turn of the first, not in general the first.  The offset stays.
pub proof fn law_rotate_twice(p: PieceModel, grid: Grid)
    requires
        p.valid(),
        grid_valid(grid),
        grid_empty(grid),
        room_to_turn(p, grid),
    ensures
        p.rotate(grid) == p.turned(),
        p.rotate(grid).rotate(grid) == p.turned().turned(),
        p.rotate(grid).rotate(grid).matrix == half_turned(p.matrix),
        matrix_rows(p.rotate(grid).rotate(grid).matrix) == matrix_rows(p.matrix),
        matrix_cols(p.rotate(grid).rotate(grid).matrix) == matrix_cols(p.matrix),
        p.rotate(grid).rotate(grid).x == p.x,
        p.rotate(grid).rotate(grid).y == p.y,
{
    lemma_rotated_valid(p.matrix);
    lemma_fits_empty(p.turned(), grid);
    lemma_rotated_valid(p.turned().matrix);
    lemma_fits_empty(p.turned().turned(), grid);
    law_two_quarter_turns(p.matrix);
}

/// A fresh piece fits an empty playfield of at least four columns and two
/// rows.
pub proof fn law_spawn_fits_empty(kind: ShapeKind, color: ColorTag, width: int, height: int)
    requires
        4 <= width <= MAX_DIM,
        2 <= height <= MAX_DIM,
    ensures
        PieceModel::spawned(kind, color, width).fits(empty_rows(height, width)),
{
}

/// `p` is some shape in some colour, centred at the top of a playfield of
/// `width` columns.
pub open spec fn is_spawn(p: PieceModel, width: int) -> bool {
    exists|kind: ShapeKind, color: ColorTag| p == PieceModel::spawned(kind, color, width)
}

/// Each of the seven shapes starts as a valid matrix with an occupied cell.
pub proof fn lemma_shape_has_cell(kind: ShapeKind)
    ensures
        matrix_valid(kind.matrix_spec()),
        has_cell(kind.matrix_spec()),
{
    let m = kind.matrix_spec();
    if kind == ShapeKind::I {
        assert(occupied(m, 0, 1));
    } else {
        assert(occupied(m, 1, 1));
    }
}

/// The falling piece.
pub struct Piece {
    x: i32,
    y: i32,
    shape: Vec<Vec<bool>>,
    color: ColorTag,
}

impl View for Piece {
    type V = PieceModel;

    closed spec fn view(&self) -> PieceModel {
        PieceModel {
            x: self.x as int,
            y: self.y as int,
            matrix: matrix_of(self.shape),
            color: self.color,
        }
    }
}

impl Piece {
    /// Well-formedness: the model is valid.
    pub open spec fn wf(&self) -> bool {
        self@.valid()
    }

    /// Every stored row is the matching row of the model's matrix.
    proof fn lemma_rows(&self)
        requires
            self.wf(),
        ensures
            self.shape@.len() == self@.matrix.len(),
            forall|r: int|
                0 <= r < self.shape@.len() ==> (#[trigger] self.shape@[r])@ == self@.matrix[r]
                    && self.shape@[r]@.len() == self@.matrix[0].len(),
    {
    }

    /// Whether `row` holds an occupied cell.
    fn row_has_block(row: &Vec<bool>) -> (found: bool)
        ensures
            found <==> exists|c: int| 0 <= c < row@.len() && row@[c],
    {
        let mut c: usize = 0;
        while c < row.len()
            invariant
                c <= row@.len(),
                forall|j: int| 0 <= j < c ==> !row@[j],
            decreases row@.len() - c,
        {
            if row[c] {
                return true;
            }
            c += 1;
        }
        false
    }

    /// Whether `shape` is a rectangle of at least one cell with sides within
    /// `MAX_DIM`.
    fn shape_is_valid(shape: &Vec<Vec<bool>>) -> (ok: bool)
        ensures
            ok == matrix_valid(matrix_of(*shape)),
    {
        let ghost m = matrix_of(*shape);
        let rows = shape.len();
        if rows < 1 || rows > MAX_DIM {
            return false;
        }
        let cols = shape[0].len();
        if cols < 1 || cols > MAX_DIM {
            return false;
        }
        let mut r: usize = 0;
        while r < rows
            invariant
                r <= rows,
                rows == shape@.len(),
                m == matrix_of(*shape),
                cols == m[0].len(),
                forall|i: int| 0 <= i < r ==> (#[trigger] m[i]).len() == cols,
            decreases rows - r,
        {
            if shape[r].len() != cols {
                assert(m[r as int].len() != m[0].len());
                return false;
            }
            r += 1;
        }
        true
    }

    /// A piece with the given matrix, offset and colour; `None` unless the
    /// matrix is a rectangle of at least one cell with sides within
    /// `MAX_DIM`.  The matrix need not hold an occupied cell; the steps
    /// and the hard drop ask for one.
    pub fn new(shape: Vec<Vec<bool>>, x: i32, y: i32, color: ColorTag) -> (piece: Option<Piece>)
        ensures
            piece.is_some() <==> matrix_valid(matrix_of(shape)),
            piece matches Some(p) ==> p.wf() && p@ == (PieceModel {
                x: x as int,
                y: y as int,
                matrix: matrix_of(shape),
                color,
            }),
    {
        if Self::shape_is_valid(&shape) {
            Some(Piece { x, y, shape, color })
        } else {
            None
        }
    }

    /// A piece of shape `kind` centred at the top of a playfield of
    /// `board_width` columns.
    pub fn from_kind(kind: ShapeKind, color: ColorTag, board_width: usize) -> (piece: Piece)
        requires
            board_width <= MAX_DIM,
        ensures
            piece.wf(),
            has_cell(piece@.matrix),
            piece@ == PieceModel::spawned(kind, color, board_width as int),
    {
        let shape = kind.matrix();
        proof {
            lemma_shape_has_cell(kind);
        }
        let cols = shape[0].len();
        let x: i32 = if board_width >= cols {
            ((board_width - cols) / 2) as i32
        } else {
            -(((cols - board_width) / 2) as i32)
        };
        Piece { x, y: 0, shape, color }
    }

    /// A fresh piece: one of the seven shapes and one of the two colours,
    /// each drawn with equal chance from the thread's random generator,
    /// centred at the top of a playfield of `board_width` columns.
    pub fn spawn(board_width: usize) -> (piece: Piece)
        requires
            board_width <= MAX_DIM,
        ensures
            piece.wf(),
            has_cell(piece@.matrix),
            is_spawn(piece@, board_width as int),
    {
        let mut generator = thread_generator();
        let index = draw_below(&mut generator, SHAPE_COUNT);
        let heads = draw_ratio(&mut generator, 1, 2);
        let kind = ShapeKind::from_index(index).unwrap();
        Self::from_kind(kind, ColorTag::from_coin(heads), board_width)
    }

    /// Column of the matrix's left edge.
    pub fn x(&self) -> (x: i32)
        ensures
            x == self@.x,
    {
        self.x
    }

    /// Row of the matrix's top edge.
    pub fn y(&self) -> (y: i32)
        ensures
            y == self@.y,
    {
        self.y
    }

    /// The piece's colour tag.
    pub fn color(&self) -> (color: ColorTag)
        ensures
            color == self@.color,
    {
        self.color
    }

    /// Number of rows of the matrix.
    pub fn rows(&self) -> (rows: usize)
        requires
            self.wf(),
        ensures
            rows == matrix_rows(self@.matrix),
            1 <= rows <= MAX_DIM,
    {
        self.shape.len()
    }

    /// Number of columns of the matrix.
    pub fn cols(&self) -> (cols: usize)
        requires
            self.wf(),
        ensures
            cols == matrix_cols(self@.matrix),
            1 <= cols <= MAX_DIM,
    {
        self.shape[0].len()
    }

    /// Whether the matrix holds an occupied cell.
    pub fn has_cell(&self) -> (found: bool)
        requires
            self.wf(),
        ensures
            found == has_cell(self@.matrix),
    {
        let ghost m = self@.matrix;
        let mut r: usize = 0;
        while r < self.shape.len()
            invariant
                self.wf(),
                m == self@.matrix,
                r <= self.shape@.len(),
                forall|i: int, j: int| 0 <= i < r ==> !occupied(m, i, j),
            decreases self.shape@.len() - r,
        {
            if Self::row_has_block(&self.shape[r]) {
                proof {
                    let c = choose|c: int| 0 <= c < self.shape@[r as int]@.len() && self.shape@[r as int]@[c];
                    assert(occupied(m, r as int, c));
                }
                return true;
            }
            r += 1;
        }
        false
    }

    /// Whether the matrix cell at (`r`, `c`) is occupied; `false` outside
    /// the matrix.
    pub fn is_occupied(&self, r: usize, c: usize) -> (filled: bool)
        requires
            self.wf(),
        ensures
            filled == occupied(self@.matrix, r as int, c as int),
    {
        r < self.shape.len() && c < self.shape[r].len() && self.shape[r][c]
    }

    /// Whether the piece, moved by (`dx`, `dy`), would stand inside the side
    /// walls, above the floor and clear of every locked cell.
    pub fn can_move(&self, dx: i32, dy: i32, board: &Board) -> (ok: bool)
        requires
            self.wf(),
            board.wf(),
        ensures
            ok == self@.can_move(dx as int, dy as int, board@),
    {
        let ghost m = self@.matrix;
        let ghost g = board@;
        let rows = self.shape.len();
        let cols = self.shape[0].len();
        let width = board.width() as i64;
        let height = board.height() as i64;
        let mut r: usize = 0;
        while r < rows
            invariant
                self.wf(),
                board.wf(),
                m == self@.matrix,
                g == board@,
                r <= rows,
                rows == m.len(),
                cols == m[0].len(),
                width == grid_width(g),
                height == grid_height(g),
                forall|i: int, j: int|
                    0 <= i < r && #[trigger] occupied(m, i, j) ==> cell_allowed(
                        g,
                        self@.y + i + dy,
                        self@.x + j + dx,
                    ),
            decreases rows - r,
        {
            let mut c: usize = 0;
            while c < cols
                invariant
                    self.wf(),
                    board.wf(),
                    m == self@.matrix,
                    g == board@,
                    r < rows,
                    c <= cols,
                    rows == m.len(),
                    cols == m[0].len(),
                    width == grid_width(g),
                    height == grid_height(g),
                    forall|i: int, j: int|
                        (0 <= i < r || (i == r && 0 <= j < c)) && #[trigger] occupied(m, i, j)
                            ==> cell_allowed(g, self@.y + i + dy, self@.x + j + dx),
                decreases cols - c,
            {
                proof {
                    self.lemma_rows();
                }
                if self.shape[r][c] {
                    let nx: i64 = self.x as i64 + c as i64 + dx as i64;
                    let ny: i64 = self.y as i64 + r as i64 + dy as i64;
                    assert(occupied(m, r as int, c as int));
                    if nx < 0 || nx >= width || ny >= height {
                        return false;
                    }
                    if ny >= 0 && board.cell(ny as usize, nx as usize).is_some() {
                        return false;
                    }
                }
                c += 1;
            }
            r += 1;
        }
        true
    }

    /// Builds the quarter turn of the piece's matrix.
    fn turned_shape(&self) -> (turned: Vec<Vec<bool>>)
        requires
            self.wf(),
        ensures
            matrix_of(turned) == rotated(self@.matrix),
    {
        let ghost m = self@.matrix;
        let rows = self.shape.len();
        let cols = self.shape[0].len();
        let mut turned: Vec<Vec<bool>> = Vec::new();
        let mut c: usize = 0;
        while c < cols
            invariant
                self.wf(),
                m == self@.matrix,
                rows == m.len(),
                cols == m[0].len(),
                c <= cols,
                turned@.len() == c,
                forall|i: int| 0 <= i < c ==> (#[trigger] turned@[i])@ == rotated(m)[i],
            decreases cols - c,
        {
            let mut line: Vec<bool> = Vec::new();
            let mut j: usize = 0;
            while j < rows
                invariant
                    self.wf(),
                    m == self@.matrix,
                    rows == m.len(),
                    cols == m[0].len(),
                    c < cols,
                    j <= rows,
                    line@.len() == j,
                    forall|k: int| 0 <= k < j ==> line@[k] == m[rows - 1 - k][c as int],
                decreases rows - j,
            {
                proof {
                    self.lemma_rows();
                }
                line.push(self.shape[rows - 1 - j][c]);
                j += 1;
            }
            turned.push(line);
            c += 1;
        }
        turned
    }

    /// Turns the piece by a quarter where the turned piece fits; otherwise
    /// leaves it as it was.  No other position is tried.
    pub fn rotate(&mut self, board: &Board)
        requires
            old(self).wf(),
            board.wf(),
        ensures
            final(self).wf(),
            final(self)@ == old(self)@.rotate(board@),
            old(self)@.turned().fits(board@) ==> final(self)@.fits(board@),
            has_cell(final(self)@.matrix) == has_cell(old(self)@.matrix),
    {
        let shape = self.turned_shape();
        proof {
            lemma_rotated_valid(self@.matrix);
        }
        let candidate = Piece { x: self.x, y: self.y, shape, color: self.color };
        if candidate.can_move(0, 0, board) {
            *self = candidate;
        }
    }

    /// Moves one column to the left if the piece can; tells whether it did.
    /// The piece must hold an occupied cell, which keeps it by the walls.
    pub fn move_left(&mut self, board: &Board) -> (moved: bool)
        requires
            old(self).wf(),
            has_cell(old(self)@.matrix),
            board.wf(),
        ensures
            final(self).wf(),
            has_cell(final(self)@.matrix),
            moved == old(self)@.can_move(-1, 0, board@),
            final(self)@ == old(self)@.step(-1, 0, board@),
            moved ==> final(self)@.fits(board@),
    {
        if self.can_move(-1, 0, board) {
            self.x = self.x - 1;
            true
        } else {
            false
        }
    }

    /// Moves one column to the right if the piece can; tells whether it did.
    /// The piece must hold an occupied cell, which keeps it by the walls.
    pub fn move_right(&mut self, board: &Board) -> (moved: bool)
        requires
            old(self).wf(),
            has_cell(old(self)@.matrix),
            board.wf(),
        ensures
            final(self).wf(),
            has_cell(final(self)@.matrix),
            moved == old(self)@.can_move(1, 0, board@),
            final(self)@ == old(self)@.step(1, 0, board@),
            moved ==> final(self)@.fits(board@),
    {
        if self.can_move(1, 0, board) {
            self.x = self.x + 1;
            true
        } else {
            false
        }
    }

    /// Moves one row down if the piece can; tells whether it did.  The
    /// piece must hold an occupied cell, which keeps it above the floor.
    pub fn move_down(&mut self, board: &Board) -> (moved: bool)
        requires
            old(self).wf(),
            has_cell(old(self)@.matrix),
            board.wf(),
        ensures
            final(self).wf(),
            has_cell(final(self)@.matrix),
            moved == old(self)@.can_move(0, 1, board@),
            final(self)@ == old(self)@.step(0, 1, board@),
            moved ==> final(self)@.fits(board@),
    {
        if self.can_move(0, 1, board) {
            self.y = self.y + 1;
            true
        } else {
            false
        }
    }

    /// Lets the piece fall straight down until the next row is barred.  The
    /// piece must hold an occupied cell: without one it would fall for ever.
    pub fn hard_drop(&mut self, board: &Board)
        requires
            old(self).wf(),
            has_cell(old(self)@.matrix),
            board.wf(),
        ensures
            final(self).wf(),
            has_cell(final(self)@.matrix),
            final(self)@ == old(self)@.landed(board@),
            final(self)@ == old(self)@.shifted(0, final(self)@.y - old(self)@.y),
            final(self)@.y >= old(self)@.y,
            !final(self)@.can_move(0, 1, board@),
            forall|j: int|
                1 <= j <= final(self)@.y - old(self)@.y ==> #[trigger] old(self)@.can_move(
                    0,
                    j,
                    board@,
                ),
    {
        proof {
            lemma_landed(self@, board@);
        }
        loop
            invariant
                self.wf(),
                has_cell(self@.matrix),
                board.wf(),
                has_cell(old(self)@.matrix),
                self@.landed(board@) == old(self)@.landed(board@),
            ensures
                self.wf(),
                has_cell(self@.matrix),
                self@ == old(self)@.landed(board@),
            decreases grid_height(board@) - self@.y,
        {
            if !self.move_down(board) {
                break;
            }
        }
    }
}

} // verus!
