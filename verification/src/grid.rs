//! The cell matrix: a walled playfield and its line clearing.

use vstd::prelude::*;
use crate::color::Color;
use crate::tetromino::{Block, BlockType};

verus! {

/// Thickness of the wall at the left, at the right and at the bottom.
pub const BORDER: usize = 2;

/// The row in which a locked cell means that the stack has reached the top.
pub const TOP_OUT_ROW: usize = 2;

/// The cell of an unoccupied place.
pub open spec fn empty_block() -> Block {
    Block { block_type: BlockType::EMPTY, color: Color::white() }
}

/// The cell of the border.
pub open spec fn wall_block() -> Block {
    Block { block_type: BlockType::WALL, color: Color::white() }
}

/// A grid as a mathematical value: `cells[x][y]` is the cell in column `x`
/// and row `y`, rows counted downwards.
pub struct GridView {
    pub width: int,
    pub height: int,
    pub cells: Seq<Seq<Block>>,
}

impl GridView {
    /// There are `width` columns of `height` cells each.
    pub open spec fn wf(self) -> bool {
        &&& 0 <= self.width
        &&& 0 <= self.height
        &&& self.cells.len() == self.width
        &&& forall|x: int| 0 <= x < self.width ==> (#[trigger] self.cells[x]).len() == self.height
    }

    /// The cell in column `x`, row `y`.
    pub open spec fn at(self, x: int, y: int) -> Block {
        self.cells[x][y]
    }

    /// Whether `(x, y)` is a cell of the grid.
    pub open spec fn in_range(self, x: int, y: int) -> bool {
        0 <= x < self.width && 0 <= y < self.height
    }

    /// Whether column `x` is inside the walls.
    pub open spec fn playable_column(self, x: int) -> bool {
        2 <= x < self.width - 2
    }

    /// Whether row `y` is above the floor.
    pub open spec fn playable_row(self, y: int) -> bool {
        0 <= y < self.height - 2
    }

    /// Whether `(x, y)` is a cell inside the walls.
    pub open spec fn playable(self, x: int, y: int) -> bool {
        self.playable_column(x) && self.playable_row(y)
    }

    /// Whether every playable cell of row `y` holds a locked remnant.
    pub open spec fn row_full(self, y: int) -> bool {
        forall|x: int|
            self.playable_column(x) ==> (#[trigger] self.at(x, y)).block_type
                == BlockType::DROPPED
    }

    /// The number of full rows among rows `lo` up to, not including, `hi`.
    pub open spec fn full_rows(self, lo: int, hi: int) -> int
        decreases hi - lo,
    {
        if hi <= lo {
            0
        } else {
            self.full_rows(lo, hi - 1) + if self.row_full(hi - 1) {
                1int
            } else {
                0int
            }
        }
    }

    /// Whether row `r` of `self` holds, in its playable cells, what row `s`
    /// of `other` holds.
    pub open spec fn row_is(self, r: int, other: GridView, s: int) -> bool {
        forall|x: int|
            self.playable_column(x) ==> #[trigger] self.at(x, r) == other.at(x, s)
    }

    /// Whether row `r` of `self` holds, in its playable cells, what the row
    /// above it in `other` holds.
    pub open spec fn row_from_above(self, r: int, other: GridView) -> bool {
        self.row_is(r, other, r - 1)
    }

    /// Whether row `s`, which is not full, comes to rest in row `r` when the
    /// full rows are removed: it sinks by the number of full rows beneath
    /// it.
    pub open spec fn lands_at(self, s: int, r: int) -> bool {
        self.playable_row(s) && !self.row_full(s) && s + self.full_rows(s + 1, self.height - 2)
            == r
    }

    /// The row that comes to rest in row `r` when the full rows are removed.
    pub open spec fn source_row(self, r: int) -> int {
        choose|s: int| self.lands_at(s, r)
    }

    /// Whether row `s`, which is not full, lies in row `r` once the full
    /// rows above row `y` have been removed.
    pub open spec fn lands_within(self, s: int, r: int, y: int) -> bool {
        0 <= s < y && !self.row_full(s) && s + self.full_rows(s + 1, y) == r
    }

    /// Whether some row lies in row `r` once the full rows above row `y`
    /// have been removed.
    pub open spec fn reached(self, r: int, y: int) -> bool {
        exists|s: int| self.lands_within(s, r, y)
    }

    /// What cell `(x, y)` holds after the rows above each full row have
    /// moved down over it, row 0 never having been written: the rows at the
    /// top still hold what row 0 held, the others what came to rest in
    /// them.
    pub open spec fn shifted_cell(self, x: int, y: int) -> Block {
        if !self.playable(x, y) {
            self.at(x, y)
        } else if y <= self.full_rows(1, self.height - 2) {
            self.at(x, 0)
        } else {
            self.at(x, self.source_row(y))
        }
    }

    /// The grid after the rows above each full row have moved down over it.
    pub open spec fn shifted(self) -> GridView {
        GridView {
            cells: Seq::new(
                self.width as nat,
                |x: int| Seq::new(self.height as nat, |y: int| self.shifted_cell(x, y)),
            ),
            ..self
        }
    }

    /// What cell `(x, y)` holds after the full rows have been removed: as
    /// many empty rows at the top as rows were full, and beneath them the
    /// other rows in their order.
    pub open spec fn cleared_cell(self, x: int, y: int) -> Block {
        if !self.playable(x, y) {
            self.at(x, y)
        } else if y < self.full_rows(0, self.height - 2) {
            empty_block()
        } else {
            self.at(x, self.source_row(y))
        }
    }

    /// The grid with its full rows removed.
    pub open spec fn cleared(self) -> GridView {
        GridView {
            cells: Seq::new(
                self.width as nat,
                |x: int| Seq::new(self.height as nat, |y: int| self.cleared_cell(x, y)),
            ),
            ..self
        }
    }

    /// Whether a locked remnant lies in the top-out row.
    pub open spec fn top_out(self) -> bool {
        exists|x: int|
            self.playable_column(x) && 2 < self.height && (#[trigger] self.at(x, 2)).block_type
                == BlockType::DROPPED
    }

    /// Whether nothing but the playable cells of rows `0..=last` differs
    /// between `self` and `other`, which have the same dimensions.
    pub open spec fn same_outside_rows(self, other: GridView, last: int) -> bool {
        &&& self.width == other.width
        &&& self.height == other.height
        &&& forall|x: int, y: int|
            self.in_range(x, y) && !(self.playable(x, y) && y <= last) ==> #[trigger] self.at(
                x,
                y,
            ) == other.at(x, y)
    }
}

/// A fixed matrix of cells with a border of walls.
pub struct Grid {
    width: usize,
    height: usize,
    cells: Vec<Vec<Block>>,
}

impl View for Grid {
    type V = GridView;

    closed spec fn view(&self) -> GridView {
        GridView {
            width: self.width as int,
            height: self.height as int,
            cells: Seq::new(self.cells@.len(), |x: int| self.cells@[x]@),
        }
    }
}

impl Grid {
    /// See [`GridView::wf`].
    pub open spec fn wf(&self) -> bool {
        self@.wf()
    }

    /// A grid of `width` columns and `height` rows. The two leftmost
    /// columns, the two rightmost columns and the two bottom rows are wall;
    /// every other cell is empty.
    pub fn new(width: usize, height: usize) -> (grid: Grid)
        ensures
            grid.wf(),
            grid@.width == width,
            grid@.height == height,
            forall|x: int, y: int|
                grid@.in_range(x, y) ==> #[trigger] grid@.at(x, y) == if grid@.playable(x, y) {
                    empty_block()
                } else {
                    wall_block()
                },
    {
        let empty = Block { block_type: BlockType::EMPTY, color: Color::WHITE() };
        let wall = Block { block_type: BlockType::WALL, color: Color::WHITE() };
        let mut cells: Vec<Vec<Block>> = Vec::new();
        let mut x: usize = 0;
        while x < width
            invariant
                x <= width,
                empty == empty_block(),
                wall == wall_block(),
                cells@.len() == x,
                forall|i: int| 0 <= i < x ==> (#[trigger] cells@[i])@.len() == height,
                forall|i: int, j: int|
                    0 <= i < x && 0 <= j < height ==> #[trigger] cells@[i]@[j] == if 2 <= i < width
                        - 2 && j < height - 2 {
                        empty
                    } else {
                        wall
                    },
            decreases width - x,
        {
            let mut column: Vec<Block> = Vec::new();
            let mut y: usize = 0;
            while y < height
                invariant
                    y <= height,
                    x < width,
                    column@.len() == y,
                    forall|j: int|
                        0 <= j < y ==> #[trigger] column@[j] == if 2 <= x < width - 2 && j < height
                            - 2 {
                            empty
                        } else {
                            wall
                        },
                decreases height - y,
            {
                if x >= 2 && width - x > 2 && height - y > 2 {
                    column.push(empty);
                } else {
                    column.push(wall);
                }
                y += 1;
            }
            cells.push(column);
            x += 1;
        }
        Grid { width, height, cells }
    }

    /// The number of columns.
    pub fn width(&self) -> (w: usize)
        ensures
            w == self@.width,
    {
        self.width
    }

    /// The number of rows.
    pub fn height(&self) -> (h: usize)
        ensures
            h == self@.height,
    {
        self.height
    }

    /// The cell in column `x`, row `y`.
    pub fn cell(&self, x: usize, y: usize) -> (block: Block)
        requires
            self.wf(),
            self@.in_range(x as int, y as int),
        ensures
            block == self@.at(x as int, y as int),
    {
        self.cells[x][y]
    }

    /// Stores `block` in column `x`, row `y`.
    fn put(&mut self, x: usize, y: usize, block: Block)
        requires
            old(self).wf(),
            old(self)@.in_range(x as int, y as int),
        ensures
            final(self).wf(),
            final(self)@ == (GridView {
                cells: old(self)@.cells.update(
                    x as int,
                    old(self)@.cells[x as int].update(y as int, block),
                ),
                ..old(self)@
            }),
            forall|i: int, j: int|
                old(self)@.in_range(i, j) ==> #[trigger] final(self)@.at(i, j) == if i == x && j
                    == y {
                    block
                } else {
                    old(self)@.at(i, j)
                },
    {
        self.cells[x][y] = block;
        proof {
            let want = old(self)@.cells.update(
                x as int,
                old(self)@.cells[x as int].update(y as int, block),
            );
            assert forall|i: int| 0 <= i < self.width implies #[trigger] self@.cells[i]
                == want[i] by {
                assert(old(self)@.cells[i] == old(self).cells@[i]@);
                assert(self@.cells[i] =~= want[i]);
            }
            assert(self@.cells =~= want);
        }
    }

    /// Overwrites the cell in column `x`, row `y`, whatever it held.
    pub fn set_cell(&mut self, x: usize, y: usize, block_type: BlockType, color: Color)
        requires
            old(self).wf(),
            old(self)@.in_range(x as int, y as int),
        ensures
            final(self).wf(),
            final(self)@ == (GridView {
                cells: old(self)@.cells.update(
                    x as int,
                    old(self)@.cells[x as int].update(y as int, Block { block_type, color }),
                ),
                ..old(self)@
            }),
            forall|i: int, j: int|
                old(self)@.in_range(i, j) ==> #[trigger] final(self)@.at(i, j) == if i == x && j
                    == y {
                    Block { block_type, color }
                } else {
                    old(self)@.at(i, j)
                },
    {
        self.put(x, y, Block { block_type, color });
    }

    /// The column at which the right wall begins, or 0 where the grid is
    /// too narrow to have one.
    fn right_wall(&self) -> (right: usize)
        ensures
                        right <= self@.width,
            right == if self@.width >= 2 {
                self@.width - 2
            } else {
                0
            },
    {
        if self.width >= BORDER {
            self.width - BORDER
        } else {
            0
        }
    }

    /// The row at which the floor begins, or 0 where the grid is too low to
    /// have one.
    fn floor(&self) -> (floor: usize)
        ensures
                        floor <= self@.height,
            floor == if self@.height >= 2 {
                self@.height - 2
            } else {
                0
            },
    {
        if self.height >= BORDER {
            self.height - BORDER
        } else {
            0
        }
    }

    /// Whether every playable cell of row `y` holds a locked remnant.
    pub fn is_line_full(&self, y: usize) -> (full: bool)
        requires
            self.wf(),
            y < self@.height,
        ensures
            full == self@.row_full(y as int),
    {
        let right = self.right_wall();
        let mut x: usize = BORDER;
        while x < right
            invariant
                self.wf(),
                y < self@.height,
                2 <= x,
                right <= self@.width,
                right == if self@.width >= 2 { self@.width - 2 } else { 0 },
                forall|i: int|
                    2 <= i < x ==> (#[trigger] self@.at(i, y as int)).block_type
                        == BlockType::DROPPED,
            decreases right - x,
        {
            if self.cell(x, y).block_type != BlockType::DROPPED {
                return false;
            }
            x += 1;
        }
        true
    }

    /// Whether a locked remnant lies in the top-out row: the signal that the
    /// stack has reached the top.
    pub fn top_out(&self) -> (out: bool)
        requires
            self.wf(),
        ensures
            out == self@.top_out(),
    {
        if self.height <= TOP_OUT_ROW {
            return false;
        }
        let right = self.right_wall();
        let mut x: usize = BORDER;
        while x < right
            invariant
                self.wf(),
                2 < self@.height,
                2 <= x,
                right <= self@.width,
                right == if self@.width >= 2 { self@.width - 2 } else { 0 },
                forall|i: int|
                    2 <= i < x ==> (#[trigger] self@.at(i, 2)).block_type != BlockType::DROPPED,
            decreases right - x,
        {
            if self.cell(x, TOP_OUT_ROW).block_type == BlockType::DROPPED {
                return true;
            }
            x += 1;
        }
        false
    }

    /// Empties the playable cells of row `y`.
    pub fn clear_line(&mut self, y: usize)
        requires
            old(self).wf(),
            y < old(self)@.height,
        ensures
            final(self).wf(),
            final(self)@.width == old(self)@.width,
            final(self)@.height == old(self)@.height,
            forall|i: int, j: int|
                old(self)@.in_range(i, j) ==> #[trigger] final(self)@.at(i, j) == if j == y
                    && old(self)@.playable_column(i) {
                    empty_block()
                } else {
                    old(self)@.at(i, j)
                },
    {
        let right = self.right_wall();
        let empty = Block { block_type: BlockType::EMPTY, color: Color::WHITE() };
        let mut x: usize = BORDER;
        while x < right
            invariant
                self.wf(),
                self@.width == old(self)@.width,
                self@.height == old(self)@.height,
                y < self@.height,
                2 <= x,
                x == 2 || x <= right,
                right <= self@.width,
                empty == empty_block(),
                right == if self@.width >= 2 { self@.width - 2 } else { 0 },
                forall|i: int, j: int|
                    self@.in_range(i, j) ==> #[trigger] self@.at(i, j) == if j == y && 2 <= i
                        < x {
                        empty
                    } else {
                        old(self)@.at(i, j)
                    },
            decreases right - x,
        {
            self.put(x, y, empty);
            x += 1;
        }
    }

    /// Moves the playable cells of rows `0..y` down by one row, over row
    /// `y`. Row 0 keeps what it held.
    fn shift_lines_down(&mut self, y: usize)
        requires
            old(self).wf(),
            old(self)@.playable_row(y as int),
        ensures
            final(self).wf(),
            final(self)@.same_outside_rows(old(self)@, y as int),
            final(self)@.row_is(0, old(self)@, 0),
            forall|r: int| 1 <= r <= y ==> #[trigger] final(self)@.row_from_above(r, old(self)@),
    {
        let right = self.right_wall();
        let mut my: usize = y;
        while my >= 1
            invariant
                self.wf(),
                my <= y,
                old(self)@.playable_row(y as int),
                right <= self@.width,
                right == if self@.width >= 2 { self@.width - 2 } else { 0 },
                self@.width == old(self)@.width,
                self@.height == old(self)@.height,
                forall|i: int, j: int|
                    self@.in_range(i, j) ==> #[trigger] self@.at(i, j) == if my < j <= y
                        && self@.playable_column(i) {
                        old(self)@.at(i, j - 1)
                    } else {
                        old(self)@.at(i, j)
                    },
            decreases my,
        {
            let ghost before = self@;
            let mut x: usize = BORDER;
            while x < right
                invariant
                    self.wf(),
                    1 <= my <= y,
                    before.playable_row(y as int),
                    2 <= x,
                x == 2 || x <= right,
                    right <= self@.width,
                    right == if self@.width >= 2 { self@.width - 2 } else { 0 },
                    self@.width == before.width,
                    self@.height == before.height,
                    forall|i: int, j: int|
                        self@.in_range(i, j) ==> #[trigger] self@.at(i, j) == if j == my && 2
                            <= i < x {
                            before.at(i, j - 1)
                        } else {
                            before.at(i, j)
                        },
                decreases right - x,
            {
                let above = self.cell(x, my - 1);
                self.put(x, my, above);
                x += 1;
            }
            my -= 1;
        }
    }

    /// Removes the full rows. The rows are examined from the top down; for
    /// each full one, every row above it moves down by one, over it. Row 0
    /// is never written: it is for the caller to empty the rows at the top
    /// that the removed ones have left over.
    ///
    /// Returns the number of rows removed.
    pub fn clear_completed_lines(&mut self) -> (count: usize)
        requires
            old(self).wf(),
        ensures
            final(self).wf(),
            final(self)@ == old(self)@.shifted(),
            count == old(self)@.full_rows(0, old(self)@.height - 2),
    {
        let floor = self.floor();
        let ghost before = self@;
        let mut count: usize = 0;
        let mut y: usize = 0;
        while y < floor
            invariant
                self.wf(),
                before.wf(),
                y <= floor,
                floor <= before.height,
                floor == if before.height >= 2 { before.height - 2 } else { 0 },
                self@.same_outside_rows(before, y - 1),
                count == before.full_rows(0, y as int),
                count <= y,
                forall|s: int, r: int|
                    1 <= s < y && !before.row_full(s) && r == s + before.full_rows(s + 1, y as int)
                        ==> #[trigger] self@.row_is(r, before, s),
                forall|r: int|
                    0 <= r <= before.full_rows(1, y as int) ==> #[trigger] self@.row_is(
                        r,
                        before,
                        0,
                    ),
            decreases floor - y,
        {
            let ghost mid = self@;
            proof {
                assert(mid.row_is(y as int, before, y as int));
                lemma_same_row_same_fullness(mid, y as int, before, y as int);
                lemma_full_rows_bound(before, 1, y as int);
            }
            if self.is_line_full(y) {
                count += 1;
                self.shift_lines_down(y);
                proof {
                    let now = self@;
                    assert forall|s: int, r: int|
                        1 <= s < y + 1 && !before.row_full(s) && r == s + before.full_rows(
                            s + 1,
                            y + 1,
                        ) implies #[trigger] now.row_is(r, before, s) by {
                        lemma_full_rows_bound(before, s + 1, y as int);
                        assert(mid.row_is(r - 1, before, s));
                        assert(now.row_from_above(r, mid));
                    }
                    assert forall|r: int|
                        0 <= r <= before.full_rows(1, y + 1) implies #[trigger] now.row_is(
                        r,
                        before,
                        0,
                    ) by {
                        if r == 0 {
                            assert(now.row_is(0, mid, 0));
                            assert(mid.row_is(0, before, 0));
                        } else {
                            assert(mid.row_is(r - 1, before, 0));
                            assert(now.row_from_above(r, mid));
                        }
                    }
                }
            } else {
                proof {
                    let now = self@;
                    assert forall|s: int, r: int|
                        1 <= s < y + 1 && !before.row_full(s) && r == s + before.full_rows(
                            s + 1,
                            y + 1,
                        ) implies #[trigger] now.row_is(r, before, s) by {
                        if s == y {
                            assert(before.full_rows(s + 1, y + 1) == 0);
                        }
                    }
                }
            }
            y += 1;
        }
        proof {
            let now = self@;
            let want = before.shifted();
            assert forall|x: int, r: int| before.in_range(x, r) implies now.at(x, r)
                == before.shifted_cell(x, r) by {
                if before.playable(x, r) {
                    if r <= before.full_rows(1, floor as int) {
                        assert(now.row_is(r, before, 0));
                    } else {
                        let end = floor as int;
                        lemma_full_rows_bound(before, 1, end);
                        lemma_full_rows_bound(before, 0, 1);
                        lemma_full_rows_split(before, 0, 1, end);
                        lemma_rows_reached(before, end);
                        assert(before.reached(r, end));
                        let s0 = choose|s: int| before.lands_within(s, r, end);
                        assert(before.lands_at(s0, r));
                        let s = before.source_row(r);
                        assert(before.lands_at(s, r));
                        assert(now.row_is(r, before, s));
                    }
                }
            }
            assert forall|x: int| 0 <= x < before.width implies #[trigger] now.cells[x]
                == want.cells[x] by {
                assert forall|r: int| 0 <= r < before.height implies #[trigger] now.cells[x][r]
                    == want.cells[x][r] by {
                    assert(now.at(x, r) == before.shifted_cell(x, r));
                }
                assert(now.cells[x] =~= want.cells[x]);
            }
            assert(now.cells =~= want.cells);
        }
        count
    }
}

/// Two rows that hold the same playable cells are both full or both not.
pub proof fn lemma_same_row_same_fullness(a: GridView, r: int, b: GridView, s: int)
    requires
        a.width == b.width,
        a.row_is(r, b, s),
    ensures
        a.row_full(r) == b.row_full(s),
{
    if a.row_full(r) {
        assert forall|x: int| b.playable_column(x) implies (#[trigger] b.at(x, s)).block_type
            == BlockType::DROPPED by {
            assert(a.at(x, r) == b.at(x, s));
        }
    }
    if b.row_full(s) {
        assert forall|x: int| a.playable_column(x) implies (#[trigger] a.at(x, r)).block_type
            == BlockType::DROPPED by {
            assert(a.at(x, r) == b.at(x, s));
        }
    }
}

/// The full rows of a range are those of its two parts.
pub proof fn lemma_full_rows_split(grid: GridView, lo: int, mid: int, hi: int)
    requires
        lo <= mid <= hi,
    ensures
        grid.full_rows(lo, hi) == grid.full_rows(lo, mid) + grid.full_rows(mid, hi),
    decreases hi - mid,
{
    if mid < hi {
        lemma_full_rows_split(grid, lo, mid, hi - 1);
    }
}

/// Once the full rows above row `y` have been removed, every row from the
/// number of rows removed down to row `y - 1` holds a row that was not full.
pub proof fn lemma_rows_reached(grid: GridView, y: int)
    requires
        0 <= y,
    ensures
        forall|r: int| grid.full_rows(0, y) <= r < y ==> #[trigger] grid.reached(r, y),
    decreases y,
{
    if y > 0 {
        let above = y - 1;
        lemma_rows_reached(grid, above);
        assert forall|r: int| grid.full_rows(0, y) <= r < y implies #[trigger] grid.reached(
            r,
            y,
        ) by {
            if !grid.row_full(above) && r == above {
                assert(grid.full_rows(y, y) == 0);
                assert(grid.lands_within(above, r, y));
            } else {
                let q = if grid.row_full(above) {
                    r - 1
                } else {
                    r
                };
                assert(grid.reached(q, above));
                let s = choose|s: int| grid.lands_within(s, q, above);
                assert(grid.lands_within(s, r, y));
            }
        }
    }
}

/// No two rows come to rest in the same row.
pub proof fn lemma_landing_unique(grid: GridView, s1: int, s2: int, r: int)
    requires
        grid.lands_at(s1, r),
        grid.lands_at(s2, r),
    ensures
        s1 == s2,
{
    let end = grid.height - 2;
    if s1 < s2 {
        lemma_full_rows_split(grid, s1 + 1, s2 + 1, end);
        lemma_full_rows_bound(grid, s1 + 1, s2);
    } else if s2 < s1 {
        lemma_full_rows_split(grid, s2 + 1, s1 + 1, end);
        lemma_full_rows_bound(grid, s2 + 1, s1);
    }
}

/// The row that comes to rest in the row where row `s` comes to rest is
/// row `s`.
pub proof fn lemma_source_row(grid: GridView, s: int, r: int)
    requires
        grid.lands_at(s, r),
    ensures
        grid.source_row(r) == s,
{
    lemma_landing_unique(grid, s, grid.source_row(r), r);
}

/// Below the rows that were removed, a playable row of the cleared grid
/// holds a playable row that was not full.
pub proof fn lemma_cleared_row_source(grid: GridView, y: int)
    requires
        grid.playable_row(y),
        grid.full_rows(0, grid.height - 2) <= y,
    ensures
        grid.lands_at(grid.source_row(y), y),
{
    let end = grid.height - 2;
    lemma_rows_reached(grid, end);
    assert(grid.reached(y, end));
    let s = choose|s: int| grid.lands_within(s, y, end);
    assert(grid.lands_at(s, y));
}

/// The cleared grid is the shifted grid with the rows at the top emptied,
/// one for each row removed.
pub proof fn lemma_cleared_is_shifted_and_emptied(grid: GridView, x: int, y: int)
    requires
        grid.in_range(x, y),
    ensures
        grid.cleared_cell(x, y) == if grid.playable(x, y) && y < grid.full_rows(
            0,
            grid.height - 2,
        ) {
            empty_block()
        } else {
            grid.shifted_cell(x, y)
        },
{
    let end = grid.height - 2;
    if grid.playable(x, y) && y >= grid.full_rows(0, end) && y <= grid.full_rows(1, end) {
        lemma_full_rows_bound(grid, 0, 1);
        lemma_full_rows_split(grid, 0, 1, end);
        assert(grid.full_rows(0, 0) == 0);
        assert(!grid.row_full(0));
        assert(grid.lands_at(0, y));
        lemma_source_row(grid, 0, y);
    }
}

/// A range without a full row counts none.
pub proof fn lemma_full_rows_none(grid: GridView, lo: int, hi: int)
    requires
        forall|y: int| lo <= y < hi ==> !#[trigger] grid.row_full(y),
    ensures
        grid.full_rows(lo, hi) == 0,
    decreases hi - lo,
{
    if lo < hi {
        lemma_full_rows_none(grid, lo, hi - 1);
    }
}

/// Line clearing moves a row that is not full down by the number of full
/// rows beneath it, and by no more.
pub proof fn lemma_kept_row_sinks(grid: GridView, s: int)
    requires
        grid.wf(),
        grid.playable_row(s),
        !grid.row_full(s),
    ensures
        grid.playable_row(s + grid.full_rows(s + 1, grid.height - 2)),
        grid.cleared().row_is(s + grid.full_rows(s + 1, grid.height - 2), grid, s),
{
    let end = grid.height - 2;
    let r = s + grid.full_rows(s + 1, end);
    lemma_full_rows_bound(grid, s + 1, end);
    lemma_full_rows_bound(grid, 0, s);
    lemma_full_rows_split(grid, 0, s, end);
    lemma_full_rows_split(grid, s, s + 1, end);
    assert(grid.full_rows(s, s) == 0);
    assert(grid.lands_at(s, r));
    lemma_source_row(grid, s, r);
    assert forall|x: int| grid.playable_column(x) implies #[trigger] grid.cleared().at(x, r)
        == grid.at(x, s) by {
        assert(grid.cleared().cells[x][r] == grid.cleared_cell(x, r));
    }
}

/// Line clearing leaves as many empty rows at the top as rows were full.
pub proof fn lemma_cleared_top_is_empty(grid: GridView, x: int, y: int)
    requires
        grid.wf(),
        grid.playable(x, y),
        y < grid.full_rows(0, grid.height - 2),
    ensures
        grid.cleared().at(x, y) == empty_block(),
{
    assert(grid.cleared().cells[x][y] == grid.cleared_cell(x, y));
}

/// Line clearing changes no wall.
pub proof fn lemma_cleared_keeps_border(grid: GridView, x: int, y: int)
    requires
        grid.wf(),
        grid.in_range(x, y),
        !grid.playable(x, y),
    ensures
        grid.cleared().at(x, y) == grid.at(x, y),
{
    assert(grid.cleared().cells[x][y] == grid.cleared_cell(x, y));
}

/// Where row `full` alone is full, line clearing removes it: the rows
/// beneath it stay, every row above it moves down by exactly one, and the
/// top row is empty.
pub proof fn lemma_one_full_row(grid: GridView, full: int)
    requires
        grid.wf(),
        grid.playable_row(full),
        forall|y: int| grid.playable_row(y) ==> (#[trigger] grid.row_full(y) <==> y == full),
    ensures
        grid.full_rows(0, grid.height - 2) == 1,
        forall|r: int|
            full < r && grid.playable_row(r) ==> #[trigger] grid.cleared().row_is(r, grid, r),
        forall|r: int|
            1 <= r <= full ==> #[trigger] grid.cleared().row_from_above(r, grid),
        forall|x: int|
            grid.playable_column(x) ==> #[trigger] grid.cleared().at(x, 0) == empty_block(),
{
    let end = grid.height - 2;
    lemma_full_rows_none(grid, 0, full);
    lemma_full_rows_none(grid, full + 1, end);
    lemma_full_rows_split(grid, 0, full, end);
    lemma_full_rows_split(grid, full, full + 1, end);
    assert(grid.full_rows(full, full) == 0);
    assert forall|r: int| full < r && grid.playable_row(r) implies #[trigger] grid.cleared().row_is(
        r,
        grid,
        r,
    ) by {
        lemma_full_rows_none(grid, r + 1, end);
        lemma_kept_row_sinks(grid, r);
    }
    assert forall|r: int| 1 <= r <= full implies #[trigger] grid.cleared().row_from_above(
        r,
        grid,
    ) by {
        let s = r - 1;
        lemma_full_rows_none(grid, s + 1, full);
        lemma_full_rows_split(grid, s + 1, full, end);
        lemma_kept_row_sinks(grid, s);
    }
    assert forall|x: int| grid.playable_column(x) implies #[trigger] grid.cleared().at(x, 0)
        == empty_block() by {
        lemma_cleared_top_is_empty(grid, x, 0);
    }
}

/// Where rows `upper` and `lower`, and no others, are full, line clearing
/// removes exactly two rows: the rows beneath `lower` stay, the rows between
/// the two move down by one, the rows above `upper` move down by two, and
/// the two top rows are empty. No row moves twice for one full row.
pub proof fn lemma_two_full_rows(grid: GridView, upper: int, lower: int)
    requires
        grid.wf(),
        grid.playable_row(upper),
        grid.playable_row(lower),
        upper < lower,
        forall|y: int|
            grid.playable_row(y) ==> (#[trigger] grid.row_full(y) <==> y == upper || y == lower),
    ensures
        grid.full_rows(0, grid.height - 2) == 2,
        forall|s: int|
            lower < s && grid.playable_row(s) ==> #[trigger] grid.cleared().row_is(s, grid, s),
        forall|s: int, r: int|
            upper < s < lower && r == s + 1 ==> #[trigger] grid.cleared().row_is(r, grid, s),
        forall|s: int, r: int|
            0 <= s < upper && r == s + 2 ==> #[trigger] grid.cleared().row_is(r, grid, s),
        forall|x: int, y: int|
            grid.playable_column(x) && 0 <= y < 2 ==> #[trigger] grid.cleared().at(x, y)
                == empty_block(),
{
    let end = grid.height - 2;
    lemma_full_rows_none(grid, 0, upper);
    lemma_full_rows_none(grid, upper + 1, lower);
    lemma_full_rows_none(grid, lower + 1, end);
    lemma_full_rows_split(grid, lower, lower + 1, end);
    lemma_full_rows_split(grid, upper + 1, lower, end);
    lemma_full_rows_split(grid, upper, upper + 1, end);
    lemma_full_rows_split(grid, 0, upper, end);
    assert(grid.full_rows(lower, lower) == 0);
    assert(grid.full_rows(upper, upper) == 0);
    assert forall|s: int| lower < s && grid.playable_row(s) implies #[trigger]
        grid.cleared().row_is(s, grid, s) by {
        lemma_full_rows_none(grid, s + 1, end);
        lemma_kept_row_sinks(grid, s);
    }
    assert forall|s: int, r: int| upper < s < lower && r == s + 1 implies #[trigger]
        grid.cleared().row_is(r, grid, s) by {
        lemma_full_rows_none(grid, s + 1, lower);
        lemma_full_rows_split(grid, s + 1, lower, end);
        lemma_kept_row_sinks(grid, s);
    }
    assert forall|s: int, r: int| 0 <= s < upper && r == s + 2 implies #[trigger]
        grid.cleared().row_is(r, grid, s) by {
        lemma_full_rows_none(grid, s + 1, upper);
        lemma_full_rows_split(grid, s + 1, upper, end);
        lemma_kept_row_sinks(grid, s);
    }
    assert forall|x: int, y: int| grid.playable_column(x) && 0 <= y < 2 implies #[trigger]
        grid.cleared().at(x, y) == empty_block() by {
        lemma_cleared_top_is_empty(grid, x, y);
    }
}

/// No more rows are full than there are rows.
pub proof fn lemma_full_rows_bound(grid: GridView, lo: int, hi: int)
    ensures
        0 <= grid.full_rows(lo, hi),
        grid.full_rows(lo, hi) <= if hi <= lo {
            0
        } else {
            hi - lo
        },
    decreases hi - lo,
{
    if lo < hi {
        lemma_full_rows_bound(grid, lo, hi - 1);
    }
}

} // verus!
