//! The playfield: a fixed-size grid of cells, each empty or holding the
//! colour of the piece that was locked there.

use vstd::prelude::*;
use crate::piece::{Piece, PieceModel};
use crate::shape::{ColorTag, MAX_DIM};

verus! {

/// A playfield as a sequence of rows, row 0 at the top.
pub type Grid = Seq<Seq<Option<ColorTag>>>;

/// Number of columns of `g` (the length of its top row).
pub open spec fn grid_width(g: Grid) -> int {
    g[0].len() as int
}

/// Number of rows of `g`.
pub open spec fn grid_height(g: Grid) -> int {
    g.len() as int
}

/// `g` is a rectangle of at least one cell whose sides fit `MAX_DIM`.
pub open spec fn grid_valid(g: Grid) -> bool {
    &&& 1 <= g.len() <= MAX_DIM
    &&& 1 <= g[0].len() <= MAX_DIM
    &&& forall|r: int| 0 <= r < g.len() ==> (#[trigger] g[r]).len() == g[0].len()
}

/// A row of `width` empty cells.
pub open spec fn empty_row(width: int) -> Seq<Option<ColorTag>> {
    Seq::new(width as nat, |c: int| None)
}

/// `count` empty rows of `width` cells each.
pub open spec fn empty_rows(count: int, width: int) -> Grid {
    Seq::new(count as nat, |r: int| empty_row(width))
}

/// The cell at (`row`, `col`) lies on the grid and holds a colour.
pub open spec fn is_filled(g: Grid, row: int, col: int) -> bool {
    &&& 0 <= row < g.len()
    &&& 0 <= col < g[row].len()
    &&& g[row][col].is_some()
}

/// No cell of `g` holds a colour.
pub open spec fn grid_empty(g: Grid) -> bool {
    forall|r: int, c: int| !is_filled(g, r, c)
}

/// Every cell of `row` holds a colour.
pub open spec fn row_full(row: Seq<Option<ColorTag>>) -> bool {
    forall|c: int| 0 <= c < row.len() ==> (#[trigger] row[c]).is_some()
}

/// At least one cell of `row` holds a colour.
pub open spec fn row_blocked(row: Seq<Option<ColorTag>>) -> bool {
    exists|c: int| 0 <= c < row.len() && (#[trigger] row[c]).is_some()
}

/// The top row of `g` holds at least one colour: the game-over test.
pub open spec fn spawn_row_blocked(g: Grid) -> bool {
    row_blocked(g[0])
}

/// `g` after `piece` is locked into it: every cell the piece covers holds
/// the piece's colour, every other cell is as it was.  Piece cells outside
/// the grid leave no trace.
pub open spec fn placed(g: Grid, piece: PieceModel) -> Grid {
    Seq::new(
        g.len(),
        |r: int|
            Seq::new(
                g[r].len(),
                |c: int|
                    if piece.covers(r, c) {
                        Some(piece.color)
                    } else {
                        g[r][c]
                    },
            ),
    )
}

/// Number of full rows of `g`.
pub open spec fn full_rows(g: Grid) -> nat
    decreases g.len(),
{
    if g.len() == 0 {
        0
    } else if row_full(g.last()) {
        full_rows(g.drop_last()) + 1
    } else {
        full_rows(g.drop_last())
    }
}

/// The rows of `g` that are not full, in their order.
pub open spec fn surviving(g: Grid) -> Grid
    decreases g.len(),
{
    if g.len() == 0 {
        Seq::empty()
    } else if row_full(g.last()) {
        surviving(g.drop_last())
    } else {
        surviving(g.drop_last()).push(g.last())
    }
}

/// `g` after line clearing: each full row is gone, the rows above it have
/// moved down, and as many empty rows have come in at the top.
pub open spec fn cleared(g: Grid) -> Grid {
    empty_rows(full_rows(g) as int, grid_width(g)) + surviving(g)
}

/// Full rows and surviving rows together are all the rows, and every
/// surviving row is a row of `g` that is not full.
pub proof fn lemma_surviving(g: Grid)
    ensures
        surviving(g).len() + full_rows(g) == g.len(),
        forall|i: int|
            0 <= i < surviving(g).len() ==> !row_full(#[trigger] surviving(g)[i]) && g.contains(
                surviving(g)[i],
            ),
    decreases g.len(),
{
    if g.len() > 0 {
        lemma_surviving(g.drop_last());
    }
}

/// Line clearing keeps the number of rows and the width of every row,
/// leaves no full row behind, and brings in empty rows of the same width.
pub proof fn law_cleared_shape(g: Grid)
    requires
        grid_valid(g),
    ensures
        grid_valid(cleared(g)),
        grid_height(cleared(g)) == grid_height(g),
        grid_width(cleared(g)) == grid_width(g),
        full_rows(cleared(g)) == 0,
        forall|r: int| 0 <= r < cleared(g).len() ==> !row_full(#[trigger] cleared(g)[r]),
        forall|r: int|
            0 <= r < full_rows(g) ==> #[trigger] cleared(g)[r] == empty_row(grid_width(g)),
{
    lemma_surviving(g);
    let n = full_rows(g) as int;
    let w = grid_width(g);
    let out = cleared(g);
    assert forall|r: int| 0 <= r < out.len() implies (#[trigger] out[r]).len() == w && !row_full(
        out[r],
    ) by {
        if r < n {
            assert(out[r][0].is_none());
        } else {
            assert(g.contains(surviving(g)[r - n]));
        }
    }
    lemma_no_full_rows(out);
}

/// A grid without a full row has a full-row count of zero.
pub proof fn lemma_no_full_rows(g: Grid)
    requires
        forall|r: int| 0 <= r < g.len() ==> !row_full(#[trigger] g[r]),
    ensures
        full_rows(g) == 0,
        surviving(g) == g,
    decreases g.len(),
{
    if g.len() > 0 {
        lemma_no_full_rows(g.drop_last());
    }
}

/// The part of `placed` that is done once the matrix cells before
/// (`r`, `c`), in row-major order, have been written.
spec fn placed_upto(g: Grid, piece: PieceModel, r: int, c: int) -> Grid {
    Seq::new(
        g.len(),
        |row: int|
            Seq::new(
                g[row].len(),
                |col: int|
                    if piece.covers(row, col) && (row - piece.y < r || (row - piece.y == r && col
                        - piece.x < c)) {
                        Some(piece.color)
                    } else {
                        g[row][col]
                    },
            ),
    )
}

/// The rows of `v` seen as a grid.
spec fn rows_of(v: Vec<Vec<Option<ColorTag>>>) -> Grid {
    Seq::new(v@.len(), |r: int| v@[r]@)
}

/// `g` with its rows in the opposite order.
spec fn upside_down(g: Grid) -> Grid {
    Seq::new(g.len(), |i: int| g[g.len() - 1 - i])
}

/// The playfield.
pub struct Board {
    cells: Vec<Vec<Option<ColorTag>>>,
    width: usize,
}

impl View for Board {
    type V = Grid;

    closed spec fn view(&self) -> Grid {
        rows_of(self.cells)
    }
}

impl Board {
    /// The cached width agrees with the rows.
    pub closed spec fn width_cached(&self) -> bool {
        self.width == grid_width(self@)
    }

    /// Well-formedness: a valid rectangle whose width is cached.
    pub open spec fn wf(&self) -> bool {
        &&& grid_valid(self@)
        &&& self.width_cached()
    }

    /// Every stored row is the matching row of the view, `width` cells long.
    proof fn lemma_rows(&self)
        requires
            self.wf(),
        ensures
            self.cells@.len() == self@.len(),
            self.width == self@[0].len(),
            forall|r: int|
                0 <= r < self.cells@.len() ==> (#[trigger] self.cells@[r])@ == self@[r]
                    && self.cells@[r]@.len() == self.width,
    {
    }

    /// Builds a row of `width` empty cells.
    fn new_row(width: usize) -> (row: Vec<Option<ColorTag>>)
        ensures
            row@ == empty_row(width as int),
    {
        let mut row: Vec<Option<ColorTag>> = Vec::new();
        let mut c: usize = 0;
        while c < width
            invariant
                c <= width,
                row@.len() == c,
                forall|i: int| 0 <= i < c ==> row@[i] == None::<ColorTag>,
            decreases width - c,
        {
            row.push(None);
            c += 1;
        }
        row
    }

    /// An all-empty playfield of `width` columns and `height` rows.
    pub fn new(width: usize, height: usize) -> (board: Board)
        requires
            1 <= width <= MAX_DIM,
            1 <= height <= MAX_DIM,
        ensures
            board.wf(),
            board@ == empty_rows(height as int, width as int),
    {
        let mut cells: Vec<Vec<Option<ColorTag>>> = Vec::new();
        let mut r: usize = 0;
        while r < height
            invariant
                r <= height,
                cells@.len() == r,
                forall|i: int| 0 <= i < r ==> (#[trigger] cells@[i])@ == empty_row(width as int),
            decreases height - r,
        {
            let row = Self::new_row(width);
            cells.push(row);
            r += 1;
        }
        Board { cells, width }
    }

    /// Number of columns.
    pub fn width(&self) -> (w: usize)
        requires
            self.wf(),
        ensures
            w == grid_width(self@),
            1 <= w <= MAX_DIM,
    {
        self.width
    }

    /// Number of rows.
    pub fn height(&self) -> (h: usize)
        requires
            self.wf(),
        ensures
            h == grid_height(self@),
            1 <= h <= MAX_DIM,
    {
        self.cells.len()
    }

    /// Writes `content` into the cell at (`row`, `col`).
    fn set_cell(&mut self, row: usize, col: usize, content: Option<ColorTag>)
        requires
            old(self).wf(),
            row < grid_height(old(self)@),
            col < grid_width(old(self)@),
        ensures
            final(self).wf(),
            final(self)@ == old(self)@.update(
                row as int,
                old(self)@[row as int].update(col as int, content),
            ),
    {
        proof {
            self.lemma_rows();
        }
        self.cells[row][col] = content;
    }

    /// Locks `piece` into the playfield: writes its colour into every cell
    /// it covers.  Nothing is checked: cells already filled are overwritten,
    /// and piece cells outside the playfield are passed over.
    pub fn place(&mut self, piece: &Piece)
        requires
            old(self).wf(),
            piece.wf(),
        ensures
            final(self).wf(),
            final(self)@ == placed(old(self)@, piece@),
    {
        let ghost g = self@;
        let ghost p = piece@;
        let rows = piece.rows();
        let cols = piece.cols();
        let width = self.width() as i64;
        let height = self.height() as i64;
        let x = piece.x() as i64;
        let y = piece.y() as i64;
        let color = piece.color();
        assert(self@ =~~= placed_upto(g, p, 0, 0));
        let mut r: usize = 0;
        while r < rows
            invariant
                self.wf(),
                piece.wf(),
                p == piece@,
                grid_valid(g),
                r <= rows,
                rows == p.matrix.len(),
                cols == p.matrix[0].len(),
                width == grid_width(g),
                height == grid_height(g),
                x == p.x,
                y == p.y,
                color == p.color,
                self@ == placed_upto(g, p, r as int, 0),
            decreases rows - r,
        {
            let mut c: usize = 0;
            while c < cols
                invariant
                    self.wf(),
                    piece.wf(),
                    p == piece@,
                    grid_valid(g),
                    r < rows,
                    c <= cols,
                    rows == p.matrix.len(),
                    cols == p.matrix[0].len(),
                    width == grid_width(g),
                    height == grid_height(g),
                    x == p.x,
                    y == p.y,
                    color == p.color,
                    self@ == placed_upto(g, p, r as int, c as int),
                decreases cols - c,
            {
                let row: i64 = y + r as i64;
                let col: i64 = x + c as i64;
                if piece.is_occupied(r, c) && 0 <= row && row < height && 0 <= col && col < width {
                    self.set_cell(row as usize, col as usize, Some(color));
                }
                assert(self@ =~~= placed_upto(g, p, r as int, c + 1));
                c += 1;
            }
            assert(self@ =~~= placed_upto(g, p, r + 1, 0));
            r += 1;
        }
        assert(self@ =~~= placed(g, p));
    }

    /// Whether every cell of `row` holds a colour.
    fn all_filled(row: &Vec<Option<ColorTag>>) -> (full: bool)
        ensures
            full == row_full(row@),
    {
        let mut c: usize = 0;
        while c < row.len()
            invariant
                c <= row@.len(),
                forall|j: int| 0 <= j < c ==> (#[trigger] row@[j]).is_some(),
            decreases row@.len() - c,
        {
            if row[c].is_none() {
                return false;
            }
            c += 1;
        }
        true
    }

    /// Whether every cell of row `row` holds a colour.
    pub fn is_row_full(&self, row: usize) -> (full: bool)
        requires
            self.wf(),
            row < grid_height(self@),
        ensures
            full == row_full(self@[row as int]),
    {
        Self::all_filled(&self.cells[row])
    }

    /// Removes every full row, lets the rows above it move down, and brings
    /// in as many empty rows at the top; the other rows keep their order.
    /// Returns the number of rows removed.
    pub fn clear_full_rows(&mut self) -> (count: usize)
        requires
            old(self).wf(),
        ensures
            final(self).wf(),
            count == full_rows(old(self)@),
            final(self)@ == cleared(old(self)@),
            grid_height(final(self)@) == grid_height(old(self)@),
            grid_width(final(self)@) == grid_width(old(self)@),
    {
        let ghost g = self@;
        let ghost target = cleared(g);
        proof {
            law_cleared_shape(g);
        }
        let height = self.cells.len();
        let width = self.width;
        let mut kept: Vec<Vec<Option<ColorTag>>> = Vec::new();
        let mut count: usize = 0;
        while self.cells.len() > 0
            invariant
                self.width == width,
                height == g.len(),
                self.cells@.len() + kept@.len() + count == height,
                rows_of(self.cells) == g.take(self.cells@.len() as int),
                surviving(g) == surviving(rows_of(self.cells)) + upside_down(rows_of(kept)),
                full_rows(g) == full_rows(rows_of(self.cells)) + count,
            decreases self.cells@.len(),
        {
            let ghost before = rows_of(self.cells);
            let row = self.cells.pop().unwrap();
            assert(rows_of(self.cells) =~= before.drop_last());
            if Self::all_filled(&row) {
                count += 1;
            } else {
                kept.push(row);
            }
        }
        let mut r: usize = 0;
        while r < count
            invariant
                self.width == width,
                r <= count,
                self.cells@.len() == r,
                rows_of(self.cells) == empty_rows(r as int, width as int),
            decreases count - r,
        {
            let ghost before = rows_of(self.cells);
            let row = Self::new_row(width);
            self.cells.push(row);
            assert(rows_of(self.cells) =~= before.push(empty_row(width as int)));
            r += 1;
        }
        while kept.len() > 0
            invariant
                self.width == width,
                rows_of(self.cells) + upside_down(rows_of(kept)) == target,
            decreases kept@.len(),
        {
            let row = kept.pop().unwrap();
            self.cells.push(row);
        }
        count
    }

    /// The game-over test: whether any cell of the top row holds a colour.
    pub fn is_spawn_row_blocked(&self) -> (blocked: bool)
        requires
            self.wf(),
        ensures
            blocked == spawn_row_blocked(self@),
            blocked <==> exists|c: int| 0 <= c < grid_width(self@) && is_filled(self@, 0, c),
    {
        let mut c: usize = 0;
        while c < self.width
            invariant
                self.wf(),
                0 < self.cells@.len(),
                self.cells@[0]@ == self@[0],
                self.cells@[0]@.len() == self.width,
                c <= self.width,
                forall|j: int| 0 <= j < c ==> (#[trigger] self@[0][j]).is_none(),
            decreases self.width - c,
        {
            if self.cells[0][c].is_some() {
                assert(is_filled(self@, 0, c as int));
                return true;
            }
            c += 1;
        }
        false
    }

    /// The content of the cell at (`row`, `col`).
    pub fn cell(&self, row: usize, col: usize) -> (content: Option<ColorTag>)
        requires
            self.wf(),
            row < grid_height(self@),
            col < grid_width(self@),
        ensures
            content == self@[row as int][col as int],
    {
        proof {
            self.lemma_rows();
        }
        self.cells[row][col]
    }
}

} // verus!
