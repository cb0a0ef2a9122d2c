//! Cells, shapes and the falling piece.

use vstd::prelude::*;
use crate::color::Color;
use crate::random::gen_range_inclusive;

verus! {

/// What a cell holds.
#[allow(non_camel_case_types)]
#[derive(Clone, Copy, PartialEq, Eq, Structural, Debug)]
pub enum BlockType {
    /// Nothing.
    EMPTY,
    /// A permanent part of the border.
    WALL,
    /// A remnant of a piece that has locked.
    DROPPED,
    /// A part of the falling piece.
    MOVING,
}

/// The seven shapes.
#[derive(Clone, Copy, PartialEq, Eq, Structural, Debug)]
pub enum TetrominoType {
    I,
    O,
    T,
    J,
    L,
    S,
    Z,
}

impl TetrominoType {
    /// The shape with the given number, in the order I, O, T, J, L, S, Z.
    /// Any number past 5 or below 0 stands for Z.
    pub open spec fn of_index(index: int) -> TetrominoType {
        if index == 0 {
            TetrominoType::I
        } else if index == 1 {
            TetrominoType::O
        } else if index == 2 {
            TetrominoType::T
        } else if index == 3 {
            TetrominoType::J
        } else if index == 4 {
            TetrominoType::L
        } else if index == 5 {
            TetrominoType::S
        } else {
            TetrominoType::Z
        }
    }

    /// The shape with the given number.
    pub fn from_index(index: i32) -> (shape: TetrominoType)
        ensures
            shape == TetrominoType::of_index(index as int),
    {
        match index {
            0 => TetrominoType::I,
            1 => TetrominoType::O,
            2 => TetrominoType::T,
            3 => TetrominoType::J,
            4 => TetrominoType::L,
            5 => TetrominoType::S,
            _ => TetrominoType::Z,
        }
    }

    /// A shape picked at random: the shape whose number is a draw from 0 to
    /// 6. Which of the seven comes is left to the generator.
    pub fn sample() -> (shape: TetrominoType)
        ensures
            exists|index: int| 0 <= index <= 6 && shape == #[trigger] TetrominoType::of_index(index),
    {
        let index = gen_range_inclusive(0, 6);
        TetrominoType::from_index(index)
    }
}

/// One cell: its state and its colour.
#[derive(Clone, Copy, PartialEq, Eq, Structural, Debug)]
pub struct Block {
    pub block_type: BlockType,
    pub color: Color,
}

/// A coordinate pair; `x` counts columns, `y` counts rows downwards.
#[derive(Clone, Copy, PartialEq, Eq, Structural, Debug)]
pub struct Point {
    pub x: i32,
    pub y: i32,
}

impl Point {
    pub fn new(x: i32, y: i32) -> (p: Point)
        ensures
            p == (Point { x, y }),
    {
        Point { x, y }
    }
}

/// Whether cell `(x, y)` of the box belongs to shape `t` as it spawns.
pub open spec fn spawn_cell(t: TetrominoType, x: int, y: int) -> bool {
    match t {
        TetrominoType::I => x == 2 && 0 <= y < 4,
        TetrominoType::O => 1 <= x <= 2 && 0 <= y <= 1,
        TetrominoType::T => (x == 2 && 0 <= y <= 2) || (x == 1 && y == 1),
        TetrominoType::J => (x == 2 && 0 <= y <= 2) || (x == 1 && y == 2),
        TetrominoType::L => (x == 1 && 0 <= y <= 2) || (x == 2 && y == 2),
        TetrominoType::S => (x == 1 && 0 <= y <= 1) || (x == 2 && 1 <= y <= 2),
        TetrominoType::Z => (x == 2 && 0 <= y <= 1) || (x == 1 && 1 <= y <= 2),
    }
}

/// Where a quarter turn about the pivot `(2, 1)` sends the box cell
/// `(x, y)`: the offset `(dx, dy)` from the pivot becomes `(-dy, dx)`.
pub open spec fn turn_image(x: int, y: int) -> (int, int) {
    (2 + -(y - 1), 1 + (x - 2))
}

/// The cell that a quarter turn sends to `(x, y)`.
pub open spec fn turn_source(x: int, y: int) -> (int, int) {
    (y + 1, 3 - x)
}

/// Whether `(x, y)` lies in the box and is marked as part of the piece.
pub open spec fn occupied(blocks: Seq<Seq<Block>>, x: int, y: int) -> bool {
    0 <= x < 4 && 0 <= y < 4 && blocks[x][y].block_type == BlockType::MOVING
}

/// Whether box cell `(x, y)` is marked after a quarter turn of `blocks`:
/// it is when the turn sends a marked cell there. A marked cell whose image
/// has a negative coordinate lies outside the box and marks nothing.
pub open spec fn turned_cell(blocks: Seq<Seq<Block>>, x: int, y: int) -> bool {
    exists|sx: int, sy: int| #[trigger] occupied(blocks, sx, sy) && turn_image(sx, sy) == (x, y)
}

/// Whether the cell that a quarter turn sends to `(x, y)` is marked.
pub open spec fn turned_from(blocks: Seq<Seq<Block>>, x: int, y: int) -> bool {
    occupied(blocks, turn_source(x, y).0, turn_source(x, y).1)
}

/// The I shape lying down: row 1 of the box.
pub open spec fn flat_i_cell(x: int, y: int) -> bool {
    y == 1 && 0 <= x < 4
}

/// Whether box cell `(x, y)` belongs to shape `t` at `rotation` degrees.
/// O never turns, I alternates between its two fixed masks, and every other
/// shape takes one quarter turn per 90 degrees.
pub open spec fn shape_cell(t: TetrominoType, rotation: int, x: int, y: int) -> bool
    decreases rotation,
{
    match t {
        TetrominoType::O => spawn_cell(t, x, y),
        TetrominoType::I => if rotation == 90 || rotation == 270 {
            flat_i_cell(x, y)
        } else {
            spawn_cell(t, x, y)
        },
        _ => if rotation < 90 {
            spawn_cell(t, x, y)
        } else {
            0 <= x < 4 && 0 <= y < 4 && shape_cell(
                t,
                rotation - 90,
                turn_source(x, y).0,
                turn_source(x, y).1,
            )
        },
    }
}

/// The rotation that follows `rotation`.
pub open spec fn next_rotation(rotation: int) -> int {
    if rotation + 90 >= 360 {
        0
    } else {
        rotation + 90
    }
}

/// The cell of a piece's box: marked or blank, in the piece's colour.
pub open spec fn piece_block(marked: bool, color: Color) -> Block {
    Block { block_type: if marked { BlockType::MOVING } else { BlockType::EMPTY }, color }
}

/// The falling piece.
pub struct Tetromino {
    /// 0, 90, 180 or 270.
    pub rotation: i32,
    pub tetromino_type: TetrominoType,
    pub color: Color,
    /// Grid coordinate of the box's top-left cell.
    pub position: Point,
    /// The box, indexed by column, then row.
    pub blocks: Vec<Vec<Block>>,
}

/// A piece as a mathematical value.
pub struct TetrominoView {
    pub rotation: int,
    pub tetromino_type: TetrominoType,
    pub color: Color,
    pub x: int,
    pub y: int,
    pub blocks: Seq<Seq<Block>>,
}

impl TetrominoView {
    /// A piece of the given shape and colour as it spawns: unrotated, with
    /// its box at the origin.
    pub open spec fn fresh(tetromino_type: TetrominoType, color: Color) -> TetrominoView {
        TetrominoView {
            rotation: 0,
            tetromino_type,
            color,
            x: 0,
            y: 0,
            blocks: Seq::new(
                4,
                |x: int| Seq::new(4, |y: int| piece_block(spawn_cell(tetromino_type, x, y), color)),
            ),
        }
    }

    /// The piece with its box at `(x, y)`.
    pub open spec fn placed(self, x: int, y: int) -> TetrominoView {
        TetrominoView { x, y, ..self }
    }

    /// The box is 4 by 4, each of its cells is marked or blank and has the
    /// piece's colour, and the rotation is a quarter-turn count in degrees.
    pub open spec fn boxed(self) -> bool {
        &&& self.rotation == 0 || self.rotation == 90 || self.rotation == 180 || self.rotation
            == 270
        &&& self.blocks.len() == 4
        &&& forall|x: int| 0 <= x < 4 ==> (#[trigger] self.blocks[x]).len() == 4
        &&& forall|x: int, y: int|
            0 <= x < 4 && 0 <= y < 4 ==> #[trigger] self.blocks[x][y] == piece_block(
                occupied(self.blocks, x, y),
                self.color,
            )
    }

    /// The piece is boxed, and its box holds exactly the mask of its shape
    /// at its rotation.
    pub open spec fn wf(self) -> bool {
        &&& self.boxed()
        &&& forall|x: int, y: int|
            0 <= x < 4 && 0 <= y < 4 ==> #[trigger] self.blocks[x][y] == piece_block(
                shape_cell(self.tetromino_type, self.rotation, x, y),
                self.color,
            )
    }

    /// Whether the piece covers the grid coordinate `(gx, gy)`.
    pub open spec fn covers(self, gx: int, gy: int) -> bool {
        occupied(self.blocks, gx - self.x, gy - self.y)
    }

    /// The piece moved by `(dx, dy)`.
    pub open spec fn shifted(self, dx: int, dy: int) -> TetrominoView {
        TetrominoView { x: self.x + dx, y: self.y + dy, ..self }
    }

    /// Whether box cell `(x, y)` is marked once the piece has been rotated.
    /// O keeps its mask. I takes one of its two fixed masks, by the rotation
    /// it is leaving alone: upright when leaving 90 or 270, flat otherwise.
    /// Every other shape makes a quarter turn.
    pub open spec fn rotated_cell(self, x: int, y: int) -> bool {
        match self.tetromino_type {
            TetrominoType::O => occupied(self.blocks, x, y),
            TetrominoType::I => if self.rotation == 90 || self.rotation == 270 {
                spawn_cell(TetrominoType::I, x, y)
            } else {
                flat_i_cell(x, y)
            },
            _ => turned_cell(self.blocks, x, y),
        }
    }

    /// The piece after one rotation, in place.
    pub open spec fn rotated(self) -> TetrominoView {
        if self.tetromino_type == TetrominoType::O {
            self
        } else {
            TetrominoView {
                rotation: next_rotation(self.rotation),
                blocks: Seq::new(
                    4,
                    |x: int| Seq::new(4, |y: int| piece_block(self.rotated_cell(x, y), self.color)),
                ),
                ..self
            }
        }
    }
}

impl View for Tetromino {
    type V = TetrominoView;

    open spec fn view(&self) -> TetrominoView {
        TetrominoView {
            rotation: self.rotation as int,
            tetromino_type: self.tetromino_type,
            color: self.color,
            x: self.position.x as int,
            y: self.position.y as int,
            blocks: Seq::new(self.blocks@.len(), |i: int| self.blocks@[i]@),
        }
    }
}

/// A box of blank cells in one colour.
fn blank_box(color: Color) -> (blocks: Vec<Vec<Block>>)
    ensures
        blocks@.len() == 4,
        forall|x: int| 0 <= x < 4 ==> (#[trigger] blocks@[x])@.len() == 4,
        forall|x: int, y: int|
            0 <= x < 4 && 0 <= y < 4 ==> #[trigger] blocks@[x]@[y] == piece_block(false, color),
{
    let blank = Block { block_type: BlockType::EMPTY, color };
    let mut blocks: Vec<Vec<Block>> = Vec::new();
    let mut x: usize = 0;
    while x < 4
        invariant
            x <= 4,
            blank == piece_block(false, color),
            blocks@.len() == x,
            forall|i: int| 0 <= i < x ==> (#[trigger] blocks@[i])@.len() == 4,
            forall|i: int, j: int|
                0 <= i < x && 0 <= j < 4 ==> #[trigger] blocks@[i]@[j] == blank,
        decreases 4 - x,
    {
        let mut column: Vec<Block> = Vec::new();
        column.push(blank);
        column.push(blank);
        column.push(blank);
        column.push(blank);
        blocks.push(column);
        x += 1;
    }
    blocks
}

impl Tetromino {
    /// See [`TetrominoView::wf`].
    pub open spec fn wf(&self) -> bool {
        self@.wf()
    }

    /// See [`TetrominoView::boxed`].
    pub open spec fn boxed(&self) -> bool {
        self@.boxed()
    }

    /// A piece of the given shape and colour as it spawns: unrotated, with
    /// its box at the origin.
    pub fn new(tetromino_type: TetrominoType, color: Color) -> (piece: Tetromino)
        ensures
            piece.wf(),
            piece@ == TetrominoView::fresh(tetromino_type, color),
    {
        let marked = Block { block_type: BlockType::MOVING, color };
        let mut blocks = blank_box(color);
        match tetromino_type {
            TetrominoType::I => {
                blocks[2][0] = marked;
                blocks[2][1] = marked;
                blocks[2][2] = marked;
                blocks[2][3] = marked;
            },
            TetrominoType::O => {
                blocks[1][0] = marked;
                blocks[1][1] = marked;
                blocks[2][0] = marked;
                blocks[2][1] = marked;
            },
            TetrominoType::T => {
                blocks[1][1] = marked;
                blocks[2][0] = marked;
                blocks[2][1] = marked;
                blocks[2][2] = marked;
            },
            TetrominoType::J => {
                blocks[2][0] = marked;
                blocks[2][1] = marked;
                blocks[2][2] = marked;
                blocks[1][2] = marked;
            },
            TetrominoType::L => {
                blocks[1][0] = marked;
                blocks[1][1] = marked;
                blocks[1][2] = marked;
                blocks[2][2] = marked;
            },
            TetrominoType::S => {
                blocks[1][0] = marked;
                blocks[1][1] = marked;
                blocks[2][1] = marked;
                blocks[2][2] = marked;
            },
            TetrominoType::Z => {
                blocks[2][0] = marked;
                blocks[2][1] = marked;
                blocks[1][1] = marked;
                blocks[1][2] = marked;
            },
        }
        let piece = Tetromino {
            tetromino_type,
            color,
            rotation: 0,
            position: Point::new(0, 0),
            blocks,
        };
        proof {
            let want = TetrominoView::fresh(tetromino_type, color);
            assert forall|x: int| 0 <= x < 4 implies #[trigger] piece@.blocks[x]
                == want.blocks[x] by {
                assert(piece@.blocks[x] == piece.blocks@[x]@);
                assert(piece@.blocks[x] =~= want.blocks[x]);
            }
            assert(piece@.blocks =~= want.blocks);
        }
        piece
    }

    /// Advances the rotation counter by a quarter turn, back to 0 from 270.
    /// The box is left as it is.
    pub fn add_rotation(&mut self)
        requires
            old(self).rotation <= i32::MAX - 90,
        ensures
            final(self)@ == (TetrominoView {
                rotation: next_rotation(old(self)@.rotation),
                ..old(self)@
            }),
    {
        self.rotation += 90;
        if self.rotation >= 360 {
            self.rotation = 0;
        }
    }

    /// Rotates the piece in place. O is left alone. I switches between its
    /// two fixed masks. Every other shape makes a quarter turn about the
    /// pivot, and a marked cell whose image has a negative coordinate is
    /// lost. The rotation counter then advances. The position stays. A box
    /// that held the mask of its shape holds it again.
    pub fn rotate(&mut self)
        requires
            old(self).boxed(),
        ensures
            final(self).boxed(),
            final(self)@ == old(self)@.rotated(),
            old(self)@.tetromino_type == TetrominoType::O ==> final(self)@ == old(self)@,
            old(self).wf() ==> final(self).wf(),
    {
        if self.tetromino_type == TetrominoType::O {
            return ;
        }
        let marked = Block { block_type: BlockType::MOVING, color: self.color };
        let mut new_blocks = blank_box(self.color);
        if self.tetromino_type == TetrominoType::I {
            if self.rotation == 90 || self.rotation == 270 {
                new_blocks[2][0] = marked;
                new_blocks[2][1] = marked;
                new_blocks[2][2] = marked;
                new_blocks[2][3] = marked;
            } else {
                new_blocks[0][1] = marked;
                new_blocks[1][1] = marked;
                new_blocks[2][1] = marked;
                new_blocks[3][1] = marked;
            }
        } else {
            let ghost before = self@;
            let mut x: usize = 0;
            while x < 4
                invariant
                    x <= 4,
                    self@ == before,
                    before.boxed(),
                    marked == piece_block(true, before.color),
                    new_blocks@.len() == 4,
                    forall|a: int| 0 <= a < 4 ==> (#[trigger] new_blocks@[a])@.len() == 4,
                    forall|a: int, b: int|
                        0 <= a < 4 && 0 <= b < 4 ==> #[trigger] new_blocks@[a]@[b] == piece_block(
                            turned_from(before.blocks, a, b) && turn_source(a, b).0 < x,
                            before.color,
                        ),
                decreases 4 - x,
            {
                let mut y: usize = 0;
                while y < 4
                    invariant
                        x < 4,
                        y <= 4,
                        self@ == before,
                        before.boxed(),
                        marked == piece_block(true, before.color),
                        new_blocks@.len() == 4,
                        forall|a: int| 0 <= a < 4 ==> (#[trigger] new_blocks@[a])@.len() == 4,
                        forall|a: int, b: int|
                            0 <= a < 4 && 0 <= b < 4 ==> #[trigger] new_blocks@[a]@[b]
                                == piece_block(
                                turned_from(before.blocks, a, b) && (turn_source(a, b).0 < x || (
                                turn_source(a, b).0 == x && turn_source(a, b).1 < y)),
                                before.color,
                            ),
                    decreases 4 - y,
                {
                    assert(self@.blocks[x as int] == self.blocks@[x as int]@);
                    if self.blocks[x][y].block_type == BlockType::MOVING {
                        let relative_x: i32 = x as i32 - 2;
                        let relative_y: i32 = y as i32 - 1;
                        let transformed_x: i32 = -relative_y;
                        let transformed_y: i32 = relative_x;
                        let position_x: i32 = transformed_x + 2;
                        let position_y: i32 = transformed_y + 1;
                        assert((position_x as int, position_y as int) == turn_image(
                            x as int,
                            y as int,
                        ));
                        if position_x >= 0 && position_y >= 0 {
                            new_blocks[position_x as usize][position_y as usize] = marked;
                        }
                    }
                    y += 1;
                }
                x += 1;
            }
        }
        self.blocks = new_blocks;
        proof {
            if old(self).wf() {
                lemma_turn_keeps_shape(old(self)@);
            }
            let turned = self@;
            let want = old(self)@.rotated();
            assert forall|a: int| 0 <= a < 4 implies #[trigger] turned.blocks[a]
                == want.blocks[a] by {
                assert(turned.blocks[a] == self.blocks@[a]@);
                assert forall|b: int| 0 <= b < 4 implies #[trigger] turned.blocks[a][b]
                    == want.blocks[a][b] by {
                    lemma_quarter_turn(old(self)@.blocks, a, b);
                }
                assert(turned.blocks[a] =~= want.blocks[a]);
            }
            assert(turned.blocks =~= want.blocks);
        }
        self.add_rotation();
    }
}

/// The mask of a well-formed piece, rotated, is the mask of its shape at the
/// next rotation.
pub proof fn lemma_turn_keeps_shape(piece: TetrominoView)
    requires
        piece.wf(),
    ensures
        forall|x: int, y: int|
            0 <= x < 4 && 0 <= y < 4 ==> (#[trigger] piece.rotated_cell(x, y) <==> shape_cell(
                piece.tetromino_type,
                if piece.tetromino_type == TetrominoType::O {
                    piece.rotation
                } else {
                    next_rotation(piece.rotation)
                },
                x,
                y,
            )),
{
    reveal_with_fuel(shape_cell, 5);
    assert forall|x: int, y: int| 0 <= x < 4 && 0 <= y < 4 implies (#[trigger] piece.rotated_cell(
        x,
        y,
    ) <==> shape_cell(
        piece.tetromino_type,
        if piece.tetromino_type == TetrominoType::O {
            piece.rotation
        } else {
            next_rotation(piece.rotation)
        },
        x,
        y,
    )) by {
        let (sx, sy) = turn_source(x, y);
        lemma_quarter_turn(piece.blocks, x, y);
        if 0 <= sx < 4 && 0 <= sy < 4 {
            assert(piece.blocks[sx][sy] == piece_block(
                shape_cell(piece.tetromino_type, piece.rotation, sx, sy),
                piece.color,
            ));
        }
        assert(piece.blocks[x][y] == piece_block(
            shape_cell(piece.tetromino_type, piece.rotation, x, y),
            piece.color,
        ));
    }
}

/// The one cell that a quarter turn sends to `(x, y)` is
/// `turn_source(x, y)`, so the turn marks `(x, y)` exactly when that cell is
/// marked. A marked cell of column 0 is sent to row -1, outside the box, and
/// marks nothing.
pub proof fn lemma_quarter_turn(blocks: Seq<Seq<Block>>, x: int, y: int)
    ensures
        turn_image(turn_source(x, y).0, turn_source(x, y).1) == (x, y),
        turn_source(turn_image(x, y).0, turn_image(x, y).1) == (x, y),
        turned_cell(blocks, x, y) <==> turned_from(blocks, x, y),
        turn_image(0, y).1 == -1,
{
    if turned_from(blocks, x, y) {
        assert(occupied(blocks, turn_source(x, y).0, turn_source(x, y).1));
    }
}

/// Rotating an O piece changes nothing: mask, rotation and position stay.
pub proof fn lemma_o_does_not_turn(piece: TetrominoView)
    requires
        piece.tetromino_type == TetrominoType::O,
    ensures
        piece.rotated() == piece,
{
}

/// Rotating an I piece gives one of its two fixed masks, whatever its box
/// held, by the rotation it leaves alone: the upright one on leaving 90 or
/// 270, the flat one otherwise. So from the first rotation on the mask
/// alternates with every rotation, and where the box held the mask of the
/// shape, two rotations restore it. Leaving 90 or 270 the result is not
/// what a quarter turn of the flat mask would give, which loses the cell of
/// column 0.
pub proof fn lemma_i_alternates(piece: TetrominoView)
    requires
        piece.boxed(),
        piece.tetromino_type == TetrominoType::I,
    ensures
        forall|x: int, y: int|
            0 <= x < 4 && 0 <= y < 4 ==> (#[trigger] occupied(piece.rotated().blocks, x, y)
                <==> if piece.rotation == 90 || piece.rotation == 270 {
                spawn_cell(TetrominoType::I, x, y)
            } else {
                flat_i_cell(x, y)
            }),
        piece.rotated().rotated().blocks != piece.rotated().blocks,
        piece.rotated().rotated().rotated().blocks == piece.rotated().blocks,
        piece.wf() ==> piece.rotated().wf() && piece.rotated().rotated().blocks == piece.blocks,
        piece.wf() && (piece.rotation == 90 || piece.rotation == 270) ==> occupied(
            piece.rotated().blocks,
            2,
            3,
        ) && !turned_cell(piece.blocks, 2, 3),
{
    reveal_with_fuel(shape_cell, 2);
    let once = piece.rotated();
    let twice = once.rotated();
    let thrice = twice.rotated();
    assert(once.blocks[2][0] != twice.blocks[2][0]);
    assert forall|x: int| 0 <= x < 4 implies #[trigger] thrice.blocks[x] == once.blocks[x] by {
        assert(thrice.blocks[x] =~= once.blocks[x]);
    }
    assert(thrice.blocks =~= once.blocks);
    if piece.wf() {
        lemma_turn_keeps_shape(piece);
        assert forall|x: int, y: int| 0 <= x < 4 && 0 <= y < 4 implies #[trigger] once.blocks[x][y]
            == piece_block(shape_cell(once.tetromino_type, once.rotation, x, y), once.color) by {
            assert(piece.rotated_cell(x, y) <==> shape_cell(
                piece.tetromino_type,
                next_rotation(piece.rotation),
                x,
                y,
            ));
        }
        assert forall|x: int| 0 <= x < 4 implies #[trigger] twice.blocks[x] == piece.blocks[x] by {
            assert forall|y: int| 0 <= y < 4 implies #[trigger] twice.blocks[x][y]
                == piece.blocks[x][y] by {
                assert(piece.blocks[x][y] == piece_block(
                    shape_cell(piece.tetromino_type, piece.rotation, x, y),
                    piece.color,
                ));
            }
            assert(twice.blocks[x] =~= piece.blocks[x]);
        }
        assert(twice.blocks =~= piece.blocks);
        lemma_quarter_turn(piece.blocks, 2, 3);
    }
}

/// A well-formed piece marks at least one cell of its box.
pub proof fn lemma_piece_has_cell(piece: TetrominoView)
    requires
        piece.wf(),
    ensures
        exists|x: int, y: int| #[trigger] occupied(piece.blocks, x, y),
{
    reveal_with_fuel(shape_cell, 5);
    let (x, y): (int, int) = if piece.tetromino_type != TetrominoType::L {
        (2, 1)
    } else if piece.rotation == 0 {
        (1, 1)
    } else if piece.rotation == 90 {
        (2, 0)
    } else if piece.rotation == 180 {
        (3, 1)
    } else {
        (2, 2)
    };
    assert(piece.blocks[x][y] == piece_block(
        shape_cell(piece.tetromino_type, piece.rotation, x, y),
        piece.color,
    ));
    assert(occupied(piece.blocks, x, y));
}

} // verus!
