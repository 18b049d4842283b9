//! The playing field: a fixed grid of locked cells, row 0 at the bottom.
use vstd::prelude::*;

verus! {

/// Positions whose coordinates exceed this many cells are outside every board.
pub const POSITION_LIMIT: isize = 1024;

/// A locked cell, drawn with the skin it holds.
#[derive(Clone, Copy, Debug, PartialEq, Eq, Structural)]
pub struct Mino {
    pub color: u8,
}

pub struct Board {
    pub width: u8,
    pub height: u8,
    pub buffer_height: u8,
    pub show_grid: bool,
    pub show_shadow: bool,
    pub show_next: u8,
    /// `board[y][x]`: x from left to right, y from bottom to top.
    pub board: Vec<Vec<Option<Mino>>>,
}

/// The cell at `(x, y)` lies on the grid and holds nothing.
pub open spec fn cell_free(rows: Seq<Vec<Option<Mino>>>, x: int, y: int) -> bool {
    &&& 0 <= y < rows.len()
    &&& 0 <= x < rows[y]@.len()
    &&& rows[y]@[x].is_none()
}

/// Every cell of `cells`, placed at origin `(x, y)`, lies on the grid and is free.
pub open spec fn fits_at(rows: Seq<Vec<Option<Mino>>>, cells: Seq<(i8, i8)>, x: int, y: int) -> bool {
    forall|i: int| 0 <= i < cells.len() ==> cell_free(rows, x + (#[trigger] cells[i]).0, y + cells[i].1)
}

/// Some cell of `cells`, placed at origin `(px, py)`, covers `(x, y)`.
pub open spec fn covers(cells: Seq<(i8, i8)>, px: int, py: int, x: int, y: int) -> bool {
    exists|i: int| 0 <= i < cells.len() && px + (#[trigger] cells[i]).0 == x && py + cells[i].1 == y
}

/// Every cell of the row is occupied.
pub open spec fn row_full(row: Seq<Option<Mino>>) -> bool {
    forall|i: int| 0 <= i < row.len() ==> (#[trigger] row[i]).is_some()
}

/// A row of `width` free cells.
pub open spec fn empty_row(width: nat) -> Seq<Option<Mino>> {
    Seq::new(width, |i: int| None)
}

/// The rows that are not full, bottom to top, in their order.
pub open spec fn kept_rows(rows: Seq<Vec<Option<Mino>>>) -> Seq<Vec<Option<Mino>>>
    decreases rows.len(),
{
    if rows.len() == 0 {
        rows
    } else if row_full(rows.last()@) {
        kept_rows(rows.drop_last())
    } else {
        kept_rows(rows.drop_last()).push(rows.last())
    }
}

/// The number of full rows.
pub open spec fn full_count(rows: Seq<Vec<Option<Mino>>>) -> nat
    decreases rows.len(),
{
    if rows.len() == 0 {
        0
    } else if row_full(rows.last()@) {
        full_count(rows.drop_last()) + 1
    } else {
        full_count(rows.drop_last())
    }
}

/// The kept rows and the full rows together are all the rows; no kept row is full.
pub proof fn lemma_kept_rows(rows: Seq<Vec<Option<Mino>>>)
    ensures
        kept_rows(rows).len() + full_count(rows) == rows.len(),
        forall|i: int| 0 <= i < kept_rows(rows).len() ==> !row_full(#[trigger] kept_rows(rows)[i]@),
    decreases rows.len(),
{
    if rows.len() > 0 {
        lemma_kept_rows(rows.drop_last());
    }
}

impl Board {
    /// The grid has `height + buffer_height` rows of `width` cells.
    pub open spec fn wf(&self) -> bool {
        &&& self.board@.len() == self.height + self.buffer_height
        &&& forall|y: int| 0 <= y < self.board@.len() ==> (#[trigger] self.board@[y])@.len() == self.width
    }

    pub fn create(width: u8, height: u8, buffer_height: u8, show_grid: bool, show_shadow: bool, show_next: u8) -> (r: Board)
        ensures
            r.wf(),
            r.width == width,
            r.height == height,
            r.buffer_height == buffer_height,
            r.show_grid == show_grid,
            r.show_shadow == show_shadow,
            r.show_next == show_next,
            forall|y: int| 0 <= y < r.board@.len() ==> (#[trigger] r.board@[y])@ == empty_row(width as nat),
    {
        let rows: usize = height as usize + buffer_height as usize;
        let mut board: Vec<Vec<Option<Mino>>> = Vec::new();
        let mut y: usize = 0;
        while y < rows
            invariant
                y <= rows,
                board@.len() == y,
                forall|j: int| 0 <= j < y ==> (#[trigger] board@[j])@ == empty_row(width as nat),
            decreases rows - y,
        {
            board.push(new_empty_row(width));
            y += 1;
        }
        Board { width, height, buffer_height, show_grid, show_shadow, show_next, board }
    }

    /// Whether `cells` placed at origin `(x, y)` lies on the grid over free cells only.
    pub fn fits(&self, cells: &Vec<(i8, i8)>, x: isize, y: isize) -> (r: bool)
        requires
            self.wf(),
            crate::rotation::offsets_ok(cells@),
        ensures
            r == fits_at(self.board@, cells@, x as int, y as int),
    {
        if x < -POSITION_LIMIT || x > POSITION_LIMIT || y < -POSITION_LIMIT || y > POSITION_LIMIT {
            assert(!cell_free(self.board@, x + cells@[0].0, y + cells@[0].1));
            return false;
        }
        let mut i: usize = 0;
        while i < cells.len()
            invariant
                self.wf(),
                crate::rotation::offsets_ok(cells@),
                -POSITION_LIMIT <= x <= POSITION_LIMIT,
                -POSITION_LIMIT <= y <= POSITION_LIMIT,
                i <= cells@.len(),
                forall|j: int| 0 <= j < i ==> cell_free(self.board@, x + (#[trigger] cells@[j]).0, y + cells@[j].1),
            decreases cells@.len() - i,
        {
            let (dx, dy) = cells[i];
            assert(crate::rotation::offset_ok(cells@[i as int]));
            let cx: isize = x + dx as isize;
            let cy: isize = y + dy as isize;
            if cx < 0 || cy < 0 {
                return false;
            }
            let ux: usize = cx as usize;
            let uy: usize = cy as usize;
            if uy >= self.board.len() {
                return false;
            }
            if ux >= self.board[uy].len() {
                return false;
            }
            if self.board[uy][ux].is_some() {
                return false;
            }
            i += 1;
        }
        true
    }

    /// Whether every cell of row `y` is occupied.
    pub fn row_is_full(&self, y: usize) -> (r: bool)
        requires
            y < self.board@.len(),
        ensures
            r == row_full(self.board@[y as int]@),
    {
        let row = &self.board[y];
        let mut x: usize = 0;
        while x < row.len()
            invariant
                x <= row@.len(),
                row == self.board@[y as int],
                forall|j: int| 0 <= j < x ==> (#[trigger] row@[j]).is_some(),
            decreases row@.len() - x,
        {
            if row[x].is_none() {
                return false;
            }
            x += 1;
        }
        true
    }

    /// Writes `cell` at `(x, y)`, leaving every other cell as it was.
    pub fn set_cell(&mut self, x: usize, y: usize, cell: Option<Mino>)
        requires
            old(self).wf(),
            y < old(self).board@.len(),
            x < old(self).width,
        ensures
            final(self).wf(),
            final(self).width == old(self).width,
            final(self).height == old(self).height,
            final(self).buffer_height == old(self).buffer_height,
            final(self).show_grid == old(self).show_grid,
            final(self).show_shadow == old(self).show_shadow,
            final(self).show_next == old(self).show_next,
            final(self).board@.len() == old(self).board@.len(),
            forall|j: int, i: int|
                0 <= j < final(self).board@.len() && 0 <= i < final(self).width ==> (#[trigger] final(self).board@[j]@[i])
                    == if j == y && i == x {
                    cell
                } else {
                    old(self).board@[j]@[i]
                },
    {
        self.board[y][x] = cell;
    }

    /// `after` is `before` with its full rows removed, the others kept in order
    /// at the bottom, and as many empty rows added at the top.
    pub open spec fn lines_cleared(before: Board, after: Board) -> bool {
        let kept = kept_rows(before.board@);
        &&& after.wf()
        &&& after.width == before.width
        &&& after.height == before.height
        &&& after.buffer_height == before.buffer_height
        &&& after.show_grid == before.show_grid
        &&& after.show_shadow == before.show_shadow
        &&& after.show_next == before.show_next
        &&& after.board@.len() == before.board@.len()
        &&& after.board@.subrange(0, kept.len() as int) == kept
        &&& forall|y: int|
            kept.len() <= y < after.board@.len() ==> (#[trigger] after.board@[y])@ == empty_row(before.width as nat)
    }

    /// Removes every full row, keeps the others in order at the bottom, and adds
    /// as many empty rows at the top as were removed.
    #[verifier::rlimit(40)]
    pub fn clear_full_lines(&mut self)
        requires
            old(self).wf(),
        ensures
            Board::lines_cleared(*old(self), *final(self)),
    {
        let ghost rows = self.board@;
        let n: usize = self.board.len();
        let mut cleared: usize = 0;
        let mut row: usize = 0;
        while row < n
            invariant
                self.wf(),
                self.width == old(self).width,
                self.height == old(self).height,
                self.buffer_height == old(self).buffer_height,
                self.show_grid == old(self).show_grid,
                self.show_shadow == old(self).show_shadow,
                self.show_next == old(self).show_next,
                rows == old(self).board@,
                n == rows.len(),
                self.board@.len() == n,
                row <= n,
                cleared <= row,
                cleared == full_count(rows.subrange(0, row as int)),
                row - cleared == kept_rows(rows.subrange(0, row as int)).len(),
                self.board@.subrange(0, row - cleared) == kept_rows(rows.subrange(0, row as int)),
                self.board@.subrange(row - cleared, n - cleared) == rows.subrange(row as int, n as int),
                forall|y: int| n - cleared <= y < n ==> (#[trigger] self.board@[y])@ == empty_row(self.width as nat),
            decreases n - row,
        {
            let idx: usize = row - cleared;
            let ghost before = self.board@;
            let ghost prefix = rows.subrange(0, row + 1);
            assert(prefix.drop_last() == rows.subrange(0, row as int));
            assert(prefix.last() == rows[row as int]);
            assert(before[idx as int] == rows[row as int]) by {
                assert(before.subrange(row - cleared, n - cleared)[0] == before[idx as int]);
            }
            assert forall|j: int| 0 <= j < n - row - 1 implies #[trigger] before[idx + 1 + j] == rows[row + 1 + j] by {
                assert(before.subrange(idx as int, n - cleared)[j + 1] == rows.subrange(row as int, n as int)[j
                    + 1]);
            }
            if self.row_is_full(idx) {
                self.board.remove(idx);
                self.board.push(new_empty_row(self.width));
                cleared += 1;
                assert(self.board@.subrange(0, (row + 1) - cleared) =~= before.subrange(0, idx as int));
                assert forall|j: int| 0 <= j < n - row - 1 implies #[trigger] self.board@.subrange(
                    (row + 1) - cleared,
                    n - cleared,
                )[j] == rows.subrange(row + 1, n as int)[j] by {
                    assert(before[idx + 1 + j] == rows[row + 1 + j]);
                }
                assert(self.board@.subrange((row + 1) - cleared, n - cleared) =~= rows.subrange(
                    row + 1,
                    n as int,
                ));
            } else {
                assert(self.board@.subrange(0, (row + 1) - cleared) =~= before.subrange(0, idx as int).push(
                    rows[row as int],
                ));
                assert forall|j: int| 0 <= j < n - row - 1 implies #[trigger] self.board@.subrange(
                    (row + 1) - cleared,
                    n - cleared,
                )[j] == rows.subrange(row + 1, n as int)[j] by {
                    assert(before[idx + 1 + j] == rows[row + 1 + j]);
                }
                assert(self.board@.subrange((row + 1) - cleared, n - cleared) =~= rows.subrange(
                    row + 1,
                    n as int,
                ));
            }
            row += 1;
        }
        assert(rows.subrange(0, n as int) == rows);
    }
}

/// A fresh row of `width` free cells.
pub fn new_empty_row(width: u8) -> (r: Vec<Option<Mino>>)
    ensures
        r@ == empty_row(width as nat),
{
    let mut r: Vec<Option<Mino>> = Vec::new();
    let mut x: u8 = 0;
    while x < width
        invariant
            x <= width,
            r@ == empty_row(x as nat),
        decreases width - x,
    {
        r.push(None);
        x += 1;
        assert(r@ =~= empty_row(x as nat));
    }
    r
}

/// The row that a piece at `(x, y)` reaches by up to `n` single-row falls,
/// each taken only while the row below still fits.
pub open spec fn fall(rows: Seq<Vec<Option<Mino>>>, cells: Seq<(i8, i8)>, x: int, y: int, n: nat) -> int
    decreases n,
{
    if n == 0 || !fits_at(rows, cells, x, y - 1) {
        y
    } else {
        fall(rows, cells, x, y - 1, (n - 1) as nat)
    }
}

/// Falls enough to reach the floor from row `y`.
pub open spec fn fall_budget(y: int) -> nat {
    if y + 8 > 0 {
        (y + 8) as nat
    } else {
        0
    }
}

/// The lowest row that a piece at `(x, y)` reaches by falling.
pub open spec fn lowest_y(rows: Seq<Vec<Option<Mino>>>, cells: Seq<(i8, i8)>, x: int, y: int) -> int {
    fall(rows, cells, x, y, fall_budget(y))
}

/// A placement that fits lies within four cells of the grid.
pub proof fn lemma_fit_bounds(rows: Seq<Vec<Option<Mino>>>, cells: Seq<(i8, i8)>, x: int, y: int)
    requires
        fits_at(rows, cells, x, y),
        crate::rotation::offsets_ok(cells),
        forall|j: int| 0 <= j < rows.len() ==> (#[trigger] rows[j])@.len() <= 255,
    ensures
        -4 <= x <= 259,
        -4 <= y < rows.len() + 4,
{
    assert(crate::rotation::offset_ok(cells[0]));
    assert(cell_free(rows, x + cells[0].0, y + cells[0].1));
}

/// Once the row below no longer fits, more falls change nothing.
pub proof fn lemma_fall_rests(rows: Seq<Vec<Option<Mino>>>, cells: Seq<(i8, i8)>, x: int, y: int, n: nat)
    requires
        !fits_at(rows, cells, x, y - 1),
    ensures
        fall(rows, cells, x, y, n) == y,
{
}

/// `n + 1` falls are `n` falls and then one more, if the row below still fits.
pub proof fn lemma_fall_step(rows: Seq<Vec<Option<Mino>>>, cells: Seq<(i8, i8)>, x: int, y: int, n: nat)
    ensures
        fall(rows, cells, x, y, n + 1) == if fits_at(rows, cells, x, fall(rows, cells, x, y, n) - 1) {
            fall(rows, cells, x, y, n) - 1
        } else {
            fall(rows, cells, x, y, n)
        },
    decreases n,
{
    if fits_at(rows, cells, x, y - 1) {
        assert(fall(rows, cells, x, y, n + 1) == fall(rows, cells, x, y - 1, n));
        if n == 0 {
            assert(fall(rows, cells, x, y - 1, 0) == y - 1);
        } else {
            lemma_fall_step(rows, cells, x, y - 1, (n - 1) as nat);
            assert(fall(rows, cells, x, y, n) == fall(rows, cells, x, y - 1, (n - 1) as nat));
        }
    }
}

/// From a placement that fits, any number of falls past the budget reaches the lowest row.
pub proof fn lemma_fall_reaches_lowest(rows: Seq<Vec<Option<Mino>>>, cells: Seq<(i8, i8)>, x: int, y: int, n: nat)
    requires
        fits_at(rows, cells, x, y),
        crate::rotation::offsets_ok(cells),
        forall|j: int| 0 <= j < rows.len() ==> (#[trigger] rows[j])@.len() <= 255,
        n >= fall_budget(y),
    ensures
        fall(rows, cells, x, y, n) == lowest_y(rows, cells, x, y),
    decreases n,
{
    lemma_fit_bounds(rows, cells, x, y);
    if fits_at(rows, cells, x, y - 1) {
        lemma_fit_bounds(rows, cells, x, y - 1);
        lemma_fall_reaches_lowest(rows, cells, x, y - 1, (n - 1) as nat);
        lemma_fall_reaches_lowest(rows, cells, x, y - 1, (fall_budget(y) - 1) as nat);
    }
}

/// A piece that fits still fits after any number of falls.
pub proof fn lemma_fall_fits(rows: Seq<Vec<Option<Mino>>>, cells: Seq<(i8, i8)>, x: int, y: int, n: nat)
    requires
        fits_at(rows, cells, x, y),
    ensures
        fits_at(rows, cells, x, fall(rows, cells, x, y, n)),
    decreases n,
{
    if n > 0 && fits_at(rows, cells, x, y - 1) {
        lemma_fall_fits(rows, cells, x, y - 1, (n - 1) as nat);
    }
}

/// The lowest row is a resting place: one row further down does not fit.
pub proof fn lemma_lowest_rests(rows: Seq<Vec<Option<Mino>>>, cells: Seq<(i8, i8)>, x: int, y: int)
    requires
        fits_at(rows, cells, x, y),
        crate::rotation::offsets_ok(cells),
        forall|j: int| 0 <= j < rows.len() ==> (#[trigger] rows[j])@.len() <= 255,
    ensures
        !fits_at(rows, cells, x, lowest_y(rows, cells, x, y) - 1),
        fits_at(rows, cells, x, lowest_y(rows, cells, x, y)),
    decreases y + 8,
{
    lemma_fit_bounds(rows, cells, x, y);
    if fits_at(rows, cells, x, y - 1) {
        lemma_fit_bounds(rows, cells, x, y - 1);
        lemma_lowest_rests(rows, cells, x, y - 1);
        assert(fall_budget(y - 1) == fall_budget(y) - 1);
    }
}

} // verus!
