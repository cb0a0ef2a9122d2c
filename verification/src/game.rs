//! The game: one falling piece over a walled grid.

use vstd::prelude::*;
use crate::color::Color;
use crate::grid::{
    empty_block, lemma_cleared_is_shifted_and_emptied, lemma_cleared_row_source,
    lemma_full_rows_bound, Grid, GridView,
};
use crate::tetromino::{
    lemma_piece_has_cell, occupied, Block, BlockType, Point, Tetromino, TetrominoType,
    TetrominoView,
};

verus! {

/// The number of columns of the usual grid, walls included.
pub const MAP_WIDTH: u32 = 20;

/// The number of rows of the usual grid, floor included.
pub const MAP_HEIGHT: u32 = 30;

/// The least number of columns of a game's grid: the walls, and room
/// between them for a piece to spawn at the middle column.
pub const MIN_MAP_WIDTH: u32 = 9;

/// The least number of rows of a game's grid: the floor, and room above it
/// for a piece to spawn.
pub const MIN_MAP_HEIGHT: u32 = 6;

/// The greatest number of columns or of rows of a game's grid.
pub const MAX_MAP_SIZE: u32 = 0x7fff_ffff;

/// Milliseconds between two ticks of a new game.
pub const DROP_SPEED: u64 = 500;

/// Pixels from the window's corner to the grid's corner, across and down.
pub const ORIGIN: i64 = 100;

/// The side of the square drawn for a cell, in pixels.
pub const BLOCK_SIZE: u32 = 10;

/// Pixels left free between two squares.
pub const BLOCK_MARGIN: u32 = 2;

/// A key that the game knows.
#[derive(Clone, Copy, PartialEq, Eq, Structural, Debug)]
pub enum Keycode {
    Escape,
    Left,
    Right,
    Up,
    Down,
    Space,
    Return,
    /// Any other key.
    Other,
}

/// What the player, or the window, has done.
#[derive(Clone, Copy, PartialEq, Eq, Structural, Debug)]
pub enum Event {
    /// The window was closed.
    Quit,
    /// A key went down, or, with `repeat`, is being held down.
    KeyDown { keycode: Keycode, repeat: bool },
    /// Anything else.
    Other,
}

/// What the game can be told to do.
#[derive(Clone, Copy, PartialEq, Eq, Structural, Debug)]
pub enum Command {
    MoveLeft,
    MoveRight,
    SoftDrop,
    HardDrop,
    Rotate,
    Spawn,
    Quit,
}

/// The command that an event stands for, if any. Closing the window and
/// Escape quit. Left and Right move, Up rotates, Space drops and Return
/// spawns, each on the press of the key only; Down moves the piece down for
/// as long as it is held.
pub open spec fn command_of(event: Event) -> Option<Command> {
    match event {
        Event::Quit => Some(Command::Quit),
        Event::KeyDown { keycode, repeat } => match keycode {
            Keycode::Escape => Some(Command::Quit),
            Keycode::Down => Some(Command::SoftDrop),
            Keycode::Other => None,
            _ => if repeat {
                None
            } else {
                Some(
                    match keycode {
                        Keycode::Left => Command::MoveLeft,
                        Keycode::Right => Command::MoveRight,
                        Keycode::Up => Command::Rotate,
                        Keycode::Space => Command::HardDrop,
                        _ => Command::Spawn,
                    },
                )
            },
        },
        Event::Other => None,
    }
}

impl Event {
    /// The command that the event stands for, if any.
    pub fn command(self) -> (command: Option<Command>)
        ensures
            command == command_of(self),
    {
        match self {
            Event::Quit => Some(Command::Quit),
            Event::KeyDown { keycode, repeat } => match keycode {
                Keycode::Escape => Some(Command::Quit),
                Keycode::Down => Some(Command::SoftDrop),
                Keycode::Other => None,
                Keycode::Left => if repeat {
                    None
                } else {
                    Some(Command::MoveLeft)
                },
                Keycode::Right => if repeat {
                    None
                } else {
                    Some(Command::MoveRight)
                },
                Keycode::Up => if repeat {
                    None
                } else {
                    Some(Command::Rotate)
                },
                Keycode::Space => if repeat {
                    None
                } else {
                    Some(Command::HardDrop)
                },
                Keycode::Return => if repeat {
                    None
                } else {
                    Some(Command::Spawn)
                },
            },
            Event::Other => None,
        }
    }
}

/// A filled square for the renderer: its top-left corner in pixels, its
/// size and its colour.
#[derive(Clone, Copy, PartialEq, Eq, Structural, Debug)]
pub struct Rect {
    pub x: i64,
    pub y: i64,
    pub w: u32,
    pub h: u32,
    pub color: Color,
}

/// Whether a cell of this state is drawn.
pub open spec fn visible(block_type: BlockType) -> bool {
    block_type == BlockType::WALL || block_type == BlockType::MOVING || block_type
        == BlockType::DROPPED
}

/// The square drawn for cell `(x, y)`: cells lie a square and a margin
/// apart, from the origin on.
pub open spec fn rect_at(x: int, y: int, color: Color) -> Rect {
    Rect {
        x: (ORIGIN + x * (BLOCK_SIZE + BLOCK_MARGIN)) as i64,
        y: (ORIGIN + y * (BLOCK_SIZE + BLOCK_MARGIN)) as i64,
        w: BLOCK_SIZE,
        h: BLOCK_SIZE,
        color,
    }
}

/// The piece that comes next: its shape and its colour.
#[derive(Clone, Copy, PartialEq, Eq, Structural, Debug)]
pub struct NextPiece {
    pub tetromino_type: TetrominoType,
    pub color: Color,
}

impl NextPiece {
    /// A piece of the given colour and of a shape picked at random.
    pub fn random(color: Color) -> (next: NextPiece)
        ensures
            next.color == color,
            exists|index: int|
                0 <= index <= 6 && next.tetromino_type == #[trigger] TetrominoType::of_index(index),
    {
        NextPiece { tetromino_type: TetrominoType::sample(), color }
    }
}

/// A game as a mathematical value.
pub struct GameView {
    pub is_running: bool,
    pub drop_speed: int,
    pub last_time: int,
    pub tetromino: Option<TetrominoView>,
    pub map: GridView,
}

impl GameView {
    /// The grid has room for a piece to spawn. Its border, and nothing
    /// else, is wall, and no cell inside holds a part of the falling piece:
    /// where the piece is reads from the piece itself. The piece, if there
    /// is one, is well-formed and its box touches the grid.
    pub open spec fn wf(self) -> bool {
        &&& is_playfield(self.map)
        &&& match self.tetromino {
            Some(piece) => piece.wf() && -4 < piece.x < self.map.width && -4 < piece.y
                < self.map.height,
            None => true,
        }
    }

    /// Whether some cell of `piece` lies where it cannot: off the grid, on
    /// a wall or on a locked remnant.
    pub open spec fn collides(self, piece: TetrominoView) -> bool {
        collides(self.map, piece)
    }

    /// The column at which the box of a new piece is placed; its row is 0.
    pub open spec fn spawn_x(self) -> int {
        self.map.width / 2
    }

    /// The piece `next` as it spawns in this game.
    pub open spec fn spawn_piece(self, next: NextPiece) -> TetrominoView {
        TetrominoView::fresh(next.tetromino_type, next.color).placed(self.spawn_x(), 0)
    }

    /// The game after a request to spawn `next`: with a piece falling
    /// nothing changes, else `next` is the falling piece.
    pub open spec fn spawned(self, next: NextPiece) -> GameView {
        if self.tetromino is Some {
            self
        } else {
            GameView { tetromino: Some(self.spawn_piece(next)), ..self }
        }
    }

    /// Whether a move by `(dx, dy)` is accepted: a piece is falling, and
    /// moved so it would lie clear of walls and locked remnants, on the
    /// grid.
    pub open spec fn move_accepted(self, dx: int, dy: int) -> bool {
        match self.tetromino {
            Some(piece) => !self.collides(piece.shifted(dx, dy)),
            None => false,
        }
    }

    /// The game after a move by `(dx, dy)`. An accepted move shifts the
    /// piece. A rejected move downwards locks the piece where it is and
    /// spawns `next`. Any other rejected move changes nothing.
    pub open spec fn moved(self, dx: int, dy: int, next: NextPiece) -> GameView {
        match self.tetromino {
            None => self,
            Some(piece) => if self.move_accepted(dx, dy) {
                GameView { tetromino: Some(piece.shifted(dx, dy)), ..self }
            } else if dy > 0 {
                GameView {
                    map: painted(self.map, piece, BlockType::DROPPED),
                    tetromino: None,
                    ..self
                }.spawned(next)
            } else {
                self
            },
        }
    }

    /// The column of a rotated piece whose box was in column `x`: one to
    /// the right where the box reached past the left edge of the playable
    /// columns, then one to the left where it reaches past their right
    /// edge.
    pub open spec fn nudged_x(self, x: int) -> int {
        let right = if x < 1 {
            x + 1
        } else {
            x
        };
        if right > self.map.width - 6 {
            right - 1
        } else {
            right
        }
    }

    /// The game after a rotation: the piece is rotated where it is and then
    /// nudged. Nothing is checked against walls or locked remnants. An O
    /// piece, and a game without a piece, stay as they are.
    pub open spec fn rotated(self) -> GameView {
        match self.tetromino {
            Some(piece) if piece.tetromino_type != TetrominoType::O => GameView {
                tetromino: Some(piece.rotated().placed(self.nudged_x(piece.x), piece.y)),
                ..self
            },
            _ => self,
        }
    }

    /// The game after a tick: the full rows are removed, then the piece
    /// moves down by one, or locks where it cannot.
    pub open spec fn ticked(self, next: NextPiece) -> GameView {
        GameView { map: self.map.cleared(), ..self }.moved(0, 1, next)
    }

    /// The game after at most `steps` moves down by one, ending with the
    /// first that is rejected.
    pub open spec fn dropped(self, steps: nat, next: NextPiece) -> GameView
        decreases steps,
    {
        if steps == 0 {
            self
        } else if self.move_accepted(0, 1) {
            self.moved(0, 1, next).dropped((steps - 1) as nat, next)
        } else {
            self.moved(0, 1, next)
        }
    }

    /// The game after a hard drop: the piece falls until a move down is
    /// rejected, which locks it and spawns `next`; a tick follows, in which
    /// `after` spawns should `next` lock at once.
    pub open spec fn hard_dropped(self, next: NextPiece, after: NextPiece) -> GameView {
        self.dropped((self.map.height - 2) as nat, next).ticked(after)
    }

    /// The game at `now` milliseconds: a tick is due once more than
    /// `drop_speed` milliseconds have passed since the last one.
    pub open spec fn clocked(self, now: int, next: NextPiece) -> GameView {
        if now - self.last_time > self.drop_speed {
            GameView { last_time: now, ..self.ticked(next) }
        } else {
            self
        }
    }

    /// The game after a command. `next` is the piece that spawns on the
    /// command to spawn, or should the piece lock; `after` the one that
    /// spawns should a dropped piece's successor lock at once.
    pub open spec fn obeyed(self, command: Command, next: NextPiece, after: NextPiece) -> GameView {
        match command {
            Command::MoveLeft => self.moved(-1, 0, next),
            Command::MoveRight => self.moved(1, 0, next),
            Command::SoftDrop => self.moved(0, 1, next),
            Command::HardDrop => self.hard_dropped(next, after),
            Command::Rotate => self.rotated(),
            Command::Spawn => self.spawned(next),
            Command::Quit => GameView { is_running: false, ..self },
        }
    }

    /// The game after the events from number `from` on. A command to quit
    /// stops the game and the next event is looked at. The first other
    /// command is obeyed and ends the turn: what follows it is not looked
    /// at. An event that stands for no command is passed over.
    pub open spec fn after_events(
        self,
        events: Seq<Event>,
        from: int,
        next: NextPiece,
        after: NextPiece,
    ) -> GameView
        decreases events.len() - from,
    {
        if from < 0 || from >= events.len() {
            self
        } else {
            match command_of(events[from]) {
                None => self.after_events(events, from + 1, next, after),
                Some(Command::Quit) => self.obeyed(Command::Quit, next, after).after_events(
                    events,
                    from + 1,
                    next,
                    after,
                ),
                Some(command) => self.obeyed(command, next, after),
            }
        }
    }

    /// The squares for the first `rows` cells of column `x`, from the top.
    pub open spec fn column_output(self, x: int, rows: int) -> Seq<Rect>
        decreases rows,
    {
        if rows <= 0 {
            Seq::empty()
        } else {
            let above = self.column_output(x, rows - 1);
            let block = self.observed(x, rows - 1);
            if visible(block.block_type) {
                above.push(rect_at(x, rows - 1, block.color))
            } else {
                above
            }
        }
    }

    /// The squares for the first `columns` columns, from the left.
    pub open spec fn output(self, columns: int) -> Seq<Rect>
        decreases columns,
    {
        if columns <= 0 {
            Seq::empty()
        } else {
            self.output(columns - 1) + self.column_output(columns - 1, self.map.height)
        }
    }

    /// What the renderer sees at `(x, y)`: a part of the falling piece where
    /// the piece lies, in the piece's colour, and else what the grid holds.
    pub open spec fn observed(self, x: int, y: int) -> Block {
        match self.tetromino {
            Some(piece) if piece.covers(x, y) => Block {
                block_type: BlockType::MOVING,
                color: piece.color,
            },
            _ => self.map.at(x, y),
        }
    }
}

/// Whether a cell of state `block_type` may stand at a playable place, or
/// at a place of the border.
pub open spec fn fits_place(block_type: BlockType, playable: bool) -> bool {
    if playable {
        block_type == BlockType::EMPTY || block_type == BlockType::DROPPED
    } else {
        block_type == BlockType::WALL
    }
}

/// Whether `map` can be the grid of a game: it has room for a piece to
/// spawn, its border, and nothing else, is wall, and no cell inside holds a
/// part of a falling piece.
pub open spec fn is_playfield(map: GridView) -> bool {
    &&& map.wf()
    &&& MIN_MAP_WIDTH <= map.width <= MAX_MAP_SIZE
    &&& MIN_MAP_HEIGHT <= map.height <= MAX_MAP_SIZE
    &&& forall|x: int, y: int|
        map.in_range(x, y) ==> fits_place((#[trigger] map.at(x, y)).block_type, map.playable(x, y))
}

/// Whether `(x, y)` cannot take a cell of the piece: it is off the grid, a
/// wall or a locked remnant.
pub open spec fn cell_blocked(map: GridView, x: int, y: int) -> bool {
    !map.in_range(x, y) || map.at(x, y).block_type == BlockType::WALL || map.at(x, y).block_type
        == BlockType::DROPPED
}

/// Whether some cell of `piece` lies where it cannot.
pub open spec fn collides(map: GridView, piece: TetrominoView) -> bool {
    exists|bx: int, by: int| #[trigger]
        occupied(piece.blocks, bx, by) && cell_blocked(map, piece.x + bx, piece.y + by)
}

/// What `(x, y)` holds once `piece` has been painted onto `map` as `value`:
/// where the piece lies, a cell of that state in the piece's colour. A wall
/// stays a wall.
pub open spec fn painted_cell(
    map: GridView,
    piece: TetrominoView,
    value: BlockType,
    x: int,
    y: int,
) -> Block {
    if piece.covers(x, y) && map.at(x, y).block_type != BlockType::WALL {
        Block { block_type: value, color: piece.color }
    } else {
        map.at(x, y)
    }
}

/// `map` with `piece` painted onto it as `value`.
pub open spec fn painted(map: GridView, piece: TetrominoView, value: BlockType) -> GridView {
    GridView {
        cells: Seq::new(
            map.width as nat,
            |x: int| Seq::new(map.height as nat, |y: int| painted_cell(map, piece, value, x, y)),
        ),
        ..map
    }
}

/// Whether box cell `(bx, by)` comes before box cell `(x, y)` in the order
/// in which the cells of a box are gone through: by columns, each from the
/// top.
pub open spec fn box_before(bx: int, by: int, x: int, y: int) -> bool {
    bx < x || (bx == x && by < y)
}

/// Paints `piece` onto `map` as `value`.
fn paint(map: &mut Grid, piece: &Tetromino, value: BlockType)
    requires
        old(map).wf(),
        old(map)@.width <= MAX_MAP_SIZE,
        old(map)@.height <= MAX_MAP_SIZE,
        piece.wf(),
    ensures
        final(map).wf(),
        final(map)@ == painted(old(map)@, piece@, value),
{
    let ghost before = map@;
    let ghost shape = piece@;
    let width = map.width();
    let height = map.height();
    let mut x: usize = 0;
    while x < 4
        invariant
            x <= 4,
            map.wf(),
            piece.wf(),
            piece@ == shape,
            before.wf(),
            map@.width == before.width == width <= MAX_MAP_SIZE,
            map@.height == before.height == height <= MAX_MAP_SIZE,
            forall|i: int, j: int|
                before.in_range(i, j) ==> #[trigger] map@.at(i, j) == if box_before(
                    i - shape.x,
                    j - shape.y,
                    x as int,
                    0,
                ) {
                    painted_cell(before, shape, value, i, j)
                } else {
                    before.at(i, j)
                },
        decreases 4 - x,
    {
        let mut y: usize = 0;
        while y < 4
            invariant
                x < 4,
                y <= 4,
                map.wf(),
                piece.wf(),
                piece@ == shape,
                before.wf(),
                map@.width == before.width == width <= MAX_MAP_SIZE,
                map@.height == before.height == height <= MAX_MAP_SIZE,
                forall|i: int, j: int|
                    before.in_range(i, j) ==> #[trigger] map@.at(i, j) == if box_before(
                        i - shape.x,
                        j - shape.y,
                        x as int,
                        y as int,
                    ) {
                        painted_cell(before, shape, value, i, j)
                    } else {
                        before.at(i, j)
                    },
            decreases 4 - y,
        {
            assert(shape.blocks[x as int] == piece.blocks@[x as int]@);
            if piece.blocks[x][y].block_type == BlockType::MOVING {
                let column: i64 = piece.position.x as i64 + x as i64;
                let row: i64 = piece.position.y as i64 + y as i64;
                if 0 <= column && column < width as i64 && 0 <= row && row < height as i64 {
                    if map.cell(column as usize, row as usize).block_type != BlockType::WALL {
                        let color = piece.blocks[x][y].color;
                        map.set_cell(column as usize, row as usize, value, color);
                    }
                }
            }
            y += 1;
        }
        x += 1;
    }
    proof {
        let want = painted(before, shape, value);
        assert forall|i: int| 0 <= i < before.width implies #[trigger] map@.cells[i]
            == want.cells[i] by {
            assert forall|j: int| 0 <= j < before.height implies #[trigger] map@.cells[i][j]
                == want.cells[i][j] by {
                assert(map@.at(i, j) == painted_cell(before, shape, value, i, j));
            }
            assert(map@.cells[i] =~= want.cells[i]);
        }
        assert(map@.cells =~= want.cells);
    }
}

/// Whether `piece`, moved by `(dx, dy)`, would lie with some cell off the
/// grid, on a wall or on a locked remnant.
fn collides_moved(map: &Grid, piece: &Tetromino, dx: i32, dy: i32) -> (hit: bool)
    requires
        map.wf(),
        map@.width <= MAX_MAP_SIZE,
        map@.height <= MAX_MAP_SIZE,
        piece.wf(),
    ensures
        hit == collides(map@, piece@.shifted(dx as int, dy as int)),
{
    let ghost moved = piece@.shifted(dx as int, dy as int);
    let width = map.width();
    let height = map.height();
    let mut tx: usize = 0;
    while tx < 4
        invariant
            tx <= 4,
            map.wf(),
            piece.wf(),
            width == map@.width <= MAX_MAP_SIZE,
            height == map@.height <= MAX_MAP_SIZE,
            moved == piece@.shifted(dx as int, dy as int),
            forall|bx: int, by: int| #[trigger]
                occupied(moved.blocks, bx, by) && bx < tx ==> !cell_blocked(
                    map@,
                    moved.x + bx,
                    moved.y + by,
                ),
        decreases 4 - tx,
    {
        let mut ty: usize = 0;
        while ty < 4
            invariant
                tx < 4,
                ty <= 4,
                map.wf(),
                piece.wf(),
                width == map@.width <= MAX_MAP_SIZE,
                height == map@.height <= MAX_MAP_SIZE,
                moved == piece@.shifted(dx as int, dy as int),
                forall|bx: int, by: int| #[trigger]
                    occupied(moved.blocks, bx, by) && box_before(bx, by, tx as int, ty as int)
                        ==> !cell_blocked(map@, moved.x + bx, moved.y + by),
            decreases 4 - ty,
        {
            assert(piece@.blocks[tx as int] == piece.blocks@[tx as int]@);
            if piece.blocks[tx][ty].block_type == BlockType::MOVING {
                let xpos: i64 = tx as i64 + piece.position.x as i64 + dx as i64;
                let ypos: i64 = ty as i64 + piece.position.y as i64 + dy as i64;
                assert(occupied(moved.blocks, tx as int, ty as int));
                if xpos < 0 || xpos >= width as i64 || ypos < 0 || ypos >= height as i64 {
                    return true;
                }
                let block_type = map.cell(xpos as usize, ypos as usize).block_type;
                if block_type == BlockType::WALL || block_type == BlockType::DROPPED {
                    return true;
                }
            }
            ty += 1;
        }
        tx += 1;
    }
    false
}

/// The game: a grid, at most one falling piece, and the clock of its ticks.
pub struct Game {
    is_running: bool,
    drop_speed: u64,
    last_time: u64,
    tetromino: Option<Tetromino>,
    game_map: Grid,
}

impl View for Game {
    type V = GameView;

    closed spec fn view(&self) -> GameView {
        GameView {
            is_running: self.is_running,
            drop_speed: self.drop_speed as int,
            last_time: self.last_time as int,
            tetromino: match self.tetromino {
                Some(piece) => Some(piece@),
                None => None,
            },
            map: self.game_map@,
        }
    }
}

impl Game {
    /// See [`GameView::wf`].
    pub open spec fn wf(&self) -> bool {
        self@.wf()
    }

    /// A running game on an empty grid of `map_width` columns and
    /// `map_height` rows, walls included, with no piece yet.
    pub fn new(map_width: u32, map_height: u32) -> (game: Game)
        requires
            MIN_MAP_WIDTH <= map_width <= MAX_MAP_SIZE,
            MIN_MAP_HEIGHT <= map_height <= MAX_MAP_SIZE,
        ensures
            game.wf(),
            game@.is_running,
            game@.drop_speed == DROP_SPEED,
            game@.last_time == 0,
            game@.tetromino is None,
            game@.map.width == map_width,
            game@.map.height == map_height,
            forall|x: int, y: int|
                game@.map.in_range(x, y) ==> #[trigger] game@.map.at(x, y) == if game@.map.playable(
                    x,
                    y,
                ) {
                    crate::grid::empty_block()
                } else {
                    crate::grid::wall_block()
                },
    {
        Game {
            is_running: true,
            drop_speed: DROP_SPEED,
            last_time: 0,
            tetromino: None,
            game_map: Grid::new(map_width as usize, map_height as usize),
        }
    }

    /// A running game on the given grid, with no piece yet; `None` where
    /// the grid cannot be the grid of a game.
    pub fn with_map(game_map: Grid) -> (game: Option<Game>)
        requires
            game_map.wf(),
        ensures
            game is Some <==> is_playfield(game_map@),
            game matches Some(game) ==> game.wf() && game@ == (GameView {
                is_running: true,
                drop_speed: DROP_SPEED as int,
                last_time: 0,
                tetromino: None,
                map: game_map@,
            }),
    {
        let width = game_map.width();
        let height = game_map.height();
        if width < MIN_MAP_WIDTH as usize || width > MAX_MAP_SIZE as usize || height
            < MIN_MAP_HEIGHT as usize || height > MAX_MAP_SIZE as usize {
            return None;
        }
        let mut x: usize = 0;
        while x < width
            invariant
                x <= width,
                game_map.wf(),
                width == game_map@.width,
                height == game_map@.height,
                forall|i: int, j: int|
                    0 <= i < x && 0 <= j < height ==> fits_place(
                        (#[trigger] game_map@.at(i, j)).block_type,
                        game_map@.playable(i, j),
                    ),
            decreases width - x,
        {
            let mut y: usize = 0;
            while y < height
                invariant
                    x < width,
                    y <= height,
                    game_map.wf(),
                    width == game_map@.width,
                    height == game_map@.height,
                    forall|i: int, j: int|
                        (0 <= i < x && 0 <= j < height) || (i == x && 0 <= j < y) ==> fits_place(
                            (#[trigger] game_map@.at(i, j)).block_type,
                            game_map@.playable(i, j),
                        ),
                decreases height - y,
            {
                let block_type = game_map.cell(x, y).block_type;
                let playable = x >= 2 && width - x > 2 && height - y > 2;
                let fits = if playable {
                    block_type == BlockType::EMPTY || block_type == BlockType::DROPPED
                } else {
                    block_type == BlockType::WALL
                };
                if !fits {
                    return None;
                }
                y += 1;
            }
            x += 1;
        }
        Some(
            Game {
                is_running: true,
                drop_speed: DROP_SPEED,
                last_time: 0,
                tetromino: None,
                game_map,
            },
        )
    }

    /// Whether the game has not been asked to stop.
    pub fn is_running(&self) -> (running: bool)
        ensures
            running == self@.is_running,
    {
        self.is_running
    }

    /// Milliseconds between two ticks.
    pub fn drop_speed(&self) -> (interval: u64)
        ensures
            interval == self@.drop_speed,
    {
        self.drop_speed
    }

    /// Sets the milliseconds between two ticks.
    pub fn set_drop_speed(&mut self, interval: u64)
        ensures
            final(self)@ == (GameView { drop_speed: interval as int, ..old(self)@ }),
    {
        self.drop_speed = interval;
    }

    /// The grid.
    pub fn map(&self) -> (map: &Grid)
        ensures
            map@ == self@.map,
            self.wf() ==> map.wf(),
    {
        &self.game_map
    }

    /// The falling piece, if there is one.
    pub fn tetromino(&self) -> (piece: Option<&Tetromino>)
        ensures
            match piece {
                Some(piece) => self@.tetromino == Some(piece@),
                None => self@.tetromino is None,
            },
    {
        self.tetromino.as_ref()
    }

    /// Whether a locked remnant lies in the top-out row: the signal that the
    /// stack has reached the top. The game goes on all the same; what to do
    /// about it is left to the caller.
    pub fn is_top_out(&self) -> (out: bool)
        requires
            self.wf(),
        ensures
            out == self@.map.top_out(),
    {
        self.game_map.top_out()
    }

    /// Spawns `next` unless a piece is falling: the new piece is unrotated,
    /// with its box in row 0 at the middle column.
    pub fn insert_tetromino(&mut self, next: NextPiece)
        requires
            old(self).wf(),
        ensures
            final(self).wf(),
            final(self)@ == old(self)@.spawned(next),
    {
        if self.tetromino.is_some() {
            return ;
        }
        let mut piece = Tetromino::new(next.tetromino_type, next.color);
        piece.position = Point::new((self.game_map.width() / 2) as i32, 0);
        self.tetromino = Some(piece);
    }

    /// Paints the falling piece onto the grid as `value_to_apply`: each
    /// cell under the piece that is no wall takes that state and the piece's
    /// colour. Without a piece nothing happens.
    fn apply_tetromino_to_map(&mut self, value_to_apply: BlockType)
        requires
            old(self).wf(),
            value_to_apply == BlockType::DROPPED || value_to_apply == BlockType::EMPTY,
        ensures
            final(self).wf(),
            final(self)@ == match old(self)@.tetromino {
                Some(piece) => GameView {
                    map: painted(old(self)@.map, piece, value_to_apply),
                    ..old(self)@
                },
                None => old(self)@,
            },
    {
        match &self.tetromino {
            Some(piece) => {
                paint(&mut self.game_map, piece, value_to_apply);
            },
            None => {},
        }
    }

    /// Tries to move the falling piece by `(x, y)` and tells whether it
    /// moved. The move is rejected where a cell of the piece would leave
    /// the grid or lie on a wall or on a locked remnant. A rejected move
    /// downwards locks the piece: its cells become locked remnants in its
    /// colour, and `next` spawns at once. Any other rejected move, and any
    /// move without a piece, leaves the game as it is.
    pub fn update_position(&mut self, x: i32, y: i32, next: NextPiece) -> (accepted: bool)
        requires
            old(self).wf(),
        ensures
            final(self).wf(),
            accepted == old(self)@.move_accepted(x as int, y as int),
            final(self)@ == old(self)@.moved(x as int, y as int, next),
            !accepted && y <= 0 ==> final(self)@ == old(self)@,
    {
        let hit = match &self.tetromino {
            Some(piece) => collides_moved(&self.game_map, piece, x, y),
            None => {
                return false;
            },
        };
        proof {
            if !hit {
                let piece = old(self)@.tetromino->0;
                lemma_piece_has_cell(piece);
                let (bx, by) = choose|bx: int, by: int| #[trigger] occupied(piece.blocks, bx, by);
                assert(occupied(piece.shifted(x as int, y as int).blocks, bx, by));
            }
        }
        if hit {
            if y > 0 {
                self.apply_tetromino_to_map(BlockType::DROPPED);
                self.tetromino = None;
                self.insert_tetromino(next);
            }
            return false;
        }
        let mut piece = self.tetromino.take().unwrap();
        piece.position.x += x;
        piece.position.y += y;
        self.tetromino = Some(piece);
        true
    }

    /// Rotates the falling piece where it is, then nudges it by one column
    /// towards the middle where its box reaches past the playable columns.
    /// Nothing is checked against walls or locked remnants. An O piece is
    /// left as it is: shape, rotation and position.
    pub fn rotate_tetromino(&mut self)
        requires
            old(self).wf(),
        ensures
            final(self).wf(),
            final(self)@ == old(self)@.rotated(),
            old(self)@.tetromino matches Some(piece) && piece.tetromino_type == TetrominoType::O
                ==> final(self)@ == old(self)@,
    {
        let width = self.game_map.width();
        match self.tetromino.take() {
            Some(mut piece) => {
                if piece.tetromino_type != TetrominoType::O {
                    piece.rotate();
                    if piece.position.x < 1 {
                        piece.position.x += 1;
                    }
                    if piece.position.x > width as i32 - 6 {
                        piece.position.x -= 1;
                    }
                }
                self.tetromino = Some(piece);
            },
            None => {},
        }
    }

    /// One tick: the full rows are removed and the rows above them come
    /// down, the rows left over at the top are emptied, and the piece moves
    /// down by one, or locks where it cannot, with `next` spawning at once.
    pub fn update_blocks(&mut self, next: NextPiece)
        requires
            old(self).wf(),
        ensures
            final(self).wf(),
            final(self)@ == old(self)@.ticked(next),
    {
        let ghost before = self@.map;
        let count = self.game_map.clear_completed_lines();
        proof {
            lemma_full_rows_bound(before, 0, before.height - 2);
        }
        let mut row: usize = 0;
        while row < count
            invariant
                row <= count,
                count == before.full_rows(0, before.height - 2),
                count <= before.height - 2,
                before.wf(),
                self.game_map.wf(),
                self.game_map@.width == before.width,
                self.game_map@.height == before.height,
                self.is_running == old(self).is_running,
                self.drop_speed == old(self).drop_speed,
                self.last_time == old(self).last_time,
                self.tetromino == old(self).tetromino,
                forall|i: int, j: int|
                    before.in_range(i, j) ==> #[trigger] self.game_map@.at(i, j) == if j < row
                        && before.playable(i, j) {
                        empty_block()
                    } else {
                        before.shifted_cell(i, j)
                    },
            decreases count - row,
        {
            self.game_map.clear_line(row);
            row += 1;
        }
        proof {
            let now = self.game_map@;
            let want = before.cleared();
            assert forall|i: int, j: int| before.in_range(i, j) implies #[trigger] now.at(i, j)
                == before.cleared_cell(i, j) by {
                lemma_cleared_is_shifted_and_emptied(before, i, j);
            }
            assert forall|i: int| 0 <= i < before.width implies #[trigger] now.cells[i]
                == want.cells[i] by {
                assert forall|j: int| 0 <= j < before.height implies #[trigger] now.cells[i][j]
                    == want.cells[i][j] by {
                    assert(now.at(i, j) == before.cleared_cell(i, j));
                }
                assert(now.cells[i] =~= want.cells[i]);
            }
            assert(now.cells =~= want.cells);
            assert forall|i: int, j: int| now.in_range(i, j) && now.playable(i, j) implies (
            #[trigger] now.at(i, j)).block_type == BlockType::EMPTY || now.at(i, j).block_type
                == BlockType::DROPPED by {
                assert(now.at(i, j) == before.cleared_cell(i, j));
                if j >= count {
                    lemma_cleared_row_source(before, j);
                    let s = before.source_row(j);
                    assert(before.playable(i, s));
                    assert(before.at(i, s).block_type == BlockType::EMPTY || before.at(
                        i,
                        s,
                    ).block_type == BlockType::DROPPED);
                }
            }
            assert forall|i: int, j: int| now.in_range(i, j) && !now.playable(i, j) implies (
            #[trigger] now.at(i, j)).block_type == BlockType::WALL by {
                assert(now.at(i, j) == before.cleared_cell(i, j));
                assert(before.at(i, j).block_type == BlockType::WALL);
            }
        }
        self.update_position(0, 1, next);
    }

    /// A hard drop: the piece moves down by one until a move is rejected,
    /// which locks it and spawns `next`; then a tick follows, in which
    /// `after` spawns should `next` lock at once. No more moves are tried
    /// than the grid has playable rows.
    pub fn hard_drop(&mut self, next: NextPiece, after: NextPiece)
        requires
            old(self).wf(),
        ensures
            final(self).wf(),
            final(self)@ == old(self)@.hard_dropped(next, after),
    {
        let limit = self.game_map.height() - 2;
        let ghost goal = self@.dropped(limit as nat, next);
        let mut tried: usize = 0;
        while tried < limit
            invariant_except_break
                tried <= limit,
                self@.dropped((limit - tried) as nat, next) == goal,
            invariant
                self.wf(),
                self@.map.height == old(self)@.map.height,
            ensures
                self@ == goal,
            decreases limit - tried,
        {
            let accepted = self.update_position(0, 1, next);
            if !accepted {
                break ;
            }
            tried += 1;
        }
        self.update_blocks(after);
    }

    /// The clock's turn at `now` milliseconds: once more than the drop
    /// interval has passed since the last tick, a tick takes place and the
    /// time is noted.
    pub fn update_game(&mut self, now: u64, next: NextPiece)
        requires
            old(self).wf(),
        ensures
            final(self).wf(),
            final(self)@ == old(self)@.clocked(now as int, next),
    {
        if now > self.last_time && now - self.last_time > self.drop_speed {
            self.update_blocks(next);
            self.last_time = now;
        }
    }

    /// Obeys a command. `next` is the piece that spawns on the command to
    /// spawn, or should the piece lock; `after` the one that spawns should a
    /// dropped piece's successor lock at once.
    pub fn obey(&mut self, command: Command, next: NextPiece, after: NextPiece)
        requires
            old(self).wf(),
        ensures
            final(self).wf(),
            final(self)@ == old(self)@.obeyed(command, next, after),
    {
        match command {
            Command::MoveLeft => {
                self.update_position(-1, 0, next);
            },
            Command::MoveRight => {
                self.update_position(1, 0, next);
            },
            Command::SoftDrop => {
                self.update_position(0, 1, next);
            },
            Command::HardDrop => {
                self.hard_drop(next, after);
            },
            Command::Rotate => {
                self.rotate_tetromino();
            },
            Command::Spawn => {
                self.insert_tetromino(next);
            },
            Command::Quit => {
                self.is_running = false;
            },
        }
    }

    /// Obeys the events of one turn, in their order. A command to quit
    /// stops the game and the turn goes on; the first other command is
    /// obeyed and ends the turn. `next` and `after` are the pieces that
    /// spawn, as for [`Game::obey`].
    pub fn process_input(&mut self, events: &Vec<Event>, next: NextPiece, after: NextPiece)
        requires
            old(self).wf(),
        ensures
            final(self).wf(),
            final(self)@ == old(self)@.after_events(events@, 0, next, after),
    {
        let ghost goal = self@.after_events(events@, 0, next, after);
        let mut i: usize = 0;
        while i < events.len()
            invariant
                i <= events.len(),
                self.wf(),
                goal == old(self)@.after_events(events@, 0, next, after),
                self@.after_events(events@, i as int, next, after) == goal,
            decreases events.len() - i,
        {
            match events[i].command() {
                None => {},
                Some(Command::Quit) => {
                    self.obey(Command::Quit, next, after);
                },
                Some(command) => {
                    self.obey(command, next, after);
                    return ;
                },
            }
            i += 1;
        }
    }

    /// What the renderer sees at column `x`, row `y`: a part of the falling
    /// piece where the piece lies, and else what the grid holds.
    pub fn block_at(&self, x: usize, y: usize) -> (block: Block)
        requires
            self.wf(),
            self@.map.in_range(x as int, y as int),
        ensures
            block == self@.observed(x as int, y as int),
    {
        match &self.tetromino {
            Some(piece) => {
                let bx: i64 = x as i64 - piece.position.x as i64;
                let by: i64 = y as i64 - piece.position.y as i64;
                if 0 <= bx && bx < 4 && 0 <= by && by < 4 {
                    assert(piece@.blocks[bx as int] == piece.blocks@[bx as int]@);
                    if piece.blocks[bx as usize][by as usize].block_type == BlockType::MOVING {
                        return Block { block_type: BlockType::MOVING, color: piece.color };
                    }
                }
            },
            None => {},
        }
        self.game_map.cell(x, y)
    }

    /// The squares to draw, one for each cell that holds a wall, a locked
    /// remnant or a part of the falling piece, column by column from the
    /// left and each column from the top.
    pub fn generate_output(&self) -> (rects: Vec<Rect>)
        requires
            self.wf(),
        ensures
            rects@ == self@.output(self@.map.width),
    {
        let width = self.game_map.width();
        let height = self.game_map.height();
        let step: i64 = (BLOCK_SIZE + BLOCK_MARGIN) as i64;
        let mut rects: Vec<Rect> = Vec::new();
        let mut x: usize = 0;
        while x < width
            invariant
                x <= width,
                self.wf(),
                width == self@.map.width,
                height == self@.map.height,
                step == BLOCK_SIZE + BLOCK_MARGIN,
                rects@ == self@.output(x as int),
            decreases width - x,
        {
            let ghost done = rects@;
            let mut y: usize = 0;
            while y < height
                invariant
                    x < width,
                    y <= height,
                    self.wf(),
                    width == self@.map.width,
                    height == self@.map.height,
                    step == BLOCK_SIZE + BLOCK_MARGIN,
                    rects@ == done + self@.column_output(x as int, y as int),
                decreases height - y,
            {
                let block = self.block_at(x, y);
                assert(0 <= x * step <= MAX_MAP_SIZE * 12 && 0 <= y * step <= MAX_MAP_SIZE * 12)
                    by (nonlinear_arith)
                    requires
                        0 <= x <= MAX_MAP_SIZE,
                        0 <= y <= MAX_MAP_SIZE,
                        step == 12,
                ;
                if block.block_type == BlockType::WALL || block.block_type == BlockType::MOVING
                    || block.block_type == BlockType::DROPPED {
                    rects.push(
                        Rect {
                            x: ORIGIN + x as i64 * step,
                            y: ORIGIN + y as i64 * step,
                            w: BLOCK_SIZE,
                            h: BLOCK_SIZE,
                            color: block.color,
                        },
                    );
                }
                y += 1;
                assert(rects@ =~= done + self@.column_output(x as int, y as int));
            }
            x += 1;
        }
        rects
    }
}

/// A piece spawns inside the walls: every cell under it is a playable cell
/// of the grid.
pub proof fn lemma_spawn_in_bounds(game: GameView, next: NextPiece, x: int, y: int)
    requires
        game.wf(),
        game.spawn_piece(next).covers(x, y),
    ensures
        game.map.playable(x, y),
        game.map.in_range(x, y),
        game.map.at(x, y).block_type != BlockType::WALL,
{
    let piece = game.spawn_piece(next);
    let bx = x - piece.x;
    let by = y - piece.y;
    assert(piece.blocks[bx][by] == crate::tetromino::piece_block(
        crate::tetromino::spawn_cell(next.tetromino_type, bx, by),
        next.color,
    ));
    assert(game.map.at(x, y).block_type != BlockType::WALL);
}

/// Spawning without a falling piece gives a piece that lies inside the
/// walls, and on empty cells only wherever no locked remnant lies under its
/// mask.
pub proof fn lemma_spawn_is_clear(game: GameView, next: NextPiece)
    requires
        game.wf(),
        game.tetromino is None,
        forall|x: int, y: int| #[trigger]
            game.spawn_piece(next).covers(x, y) ==> game.map.at(x, y).block_type
                != BlockType::DROPPED,
    ensures
        game.spawned(next).wf(),
        game.spawned(next).tetromino == Some(game.spawn_piece(next)),
        game.spawned(next).map == game.map,
        !game.collides(game.spawn_piece(next)),
        forall|x: int, y: int| #[trigger]
            game.spawn_piece(next).covers(x, y) ==> game.map.playable(x, y) && game.map.at(
                x,
                y,
            ).block_type == BlockType::EMPTY,
{
    let piece = game.spawn_piece(next);
    assert forall|x: int, y: int| #[trigger] piece.covers(x, y) implies game.map.playable(x, y)
        && game.map.at(x, y).block_type == BlockType::EMPTY by {
        lemma_spawn_in_bounds(game, next, x, y);
    }
    assert forall|bx: int, by: int| #[trigger]
        occupied(piece.blocks, bx, by) implies !cell_blocked(
        game.map,
        piece.x + bx,
        piece.y + by,
    ) by {
        assert(piece.covers(piece.x + bx, piece.y + by));
    }
    assert forall|x: int, y: int| 0 <= x < 4 && 0 <= y < 4 implies #[trigger] piece.blocks[x][y]
        == crate::tetromino::piece_block(
        crate::tetromino::shape_cell(piece.tetromino_type, piece.rotation, x, y),
        piece.color,
    ) by {}
}

/// A rejected move downwards locks the piece: with the piece inside the
/// walls, the cells that showed the piece hold locked remnants in its
/// colour, every other cell holds what it held, and the next piece has
/// spawned.
pub proof fn lemma_rejected_fall_locks(game: GameView, dx: int, dy: int, next: NextPiece)
    requires
        game.wf(),
        game.tetromino is Some,
        dy > 0,
        !game.move_accepted(dx, dy),
        forall|x: int, y: int| #[trigger]
            game.tetromino->0.covers(x, y) ==> game.map.playable(x, y),
    ensures
        game.moved(dx, dy, next).tetromino == Some(game.spawn_piece(next)),
        forall|x: int, y: int|
            game.map.in_range(x, y) ==> #[trigger] game.moved(dx, dy, next).map.at(x, y)
                == if game.tetromino->0.covers(x, y) {
                Block { block_type: BlockType::DROPPED, color: game.tetromino->0.color }
            } else {
                game.map.at(x, y)
            },
        forall|x: int, y: int| #[trigger]
            game.tetromino->0.covers(x, y) ==> game.observed(x, y) == (Block {
                block_type: BlockType::MOVING,
                color: game.tetromino->0.color,
            }),
{
    let piece = game.tetromino->0;
    let after = game.moved(dx, dy, next);
    assert forall|x: int, y: int| game.map.in_range(x, y) implies #[trigger] after.map.at(x, y)
        == if piece.covers(x, y) {
        Block { block_type: BlockType::DROPPED, color: piece.color }
    } else {
        game.map.at(x, y)
    } by {
        assert(after.map.cells[x][y] == painted_cell(game.map, piece, BlockType::DROPPED, x, y));
    }
}

/// A rejected move that does not go downwards changes nothing: not the
/// piece, not the grid.
pub proof fn lemma_rejected_side_move_changes_nothing(
    game: GameView,
    dx: int,
    dy: int,
    next: NextPiece,
)
    requires
        !game.move_accepted(dx, dy),
        dy <= 0,
    ensures
        game.moved(dx, dy, next) == game,
{
}

/// Rotating an O piece changes nothing: mask, rotation and position stay.
pub proof fn lemma_o_rotation_changes_nothing(game: GameView)
    requires
        game.tetromino matches Some(piece) && piece.tetromino_type == TetrominoType::O,
    ensures
        game.rotated() == game,
{
}

/// The cells that show a falling piece are the cells of the one piece of
/// the game, and no others.
pub proof fn lemma_moving_is_the_piece(game: GameView, x: int, y: int)
    requires
        game.wf(),
        game.map.in_range(x, y),
    ensures
        game.observed(x, y).block_type == BlockType::MOVING <==> (game.tetromino matches Some(
            piece,
        ) && piece.covers(x, y)),
{
}

/// No step of the game changes a wall: after a move, a tick, a rotation or a
/// spawn, a cell of the border holds what it held, which is a wall.
pub proof fn lemma_walls_stand(game: GameView, x: int, y: int, dx: int, dy: int, next: NextPiece)
    requires
        game.wf(),
        game.map.in_range(x, y),
        !game.map.playable(x, y),
    ensures
        game.map.at(x, y).block_type == BlockType::WALL,
        game.moved(dx, dy, next).map.at(x, y) == game.map.at(x, y),
        game.ticked(next).map.at(x, y) == game.map.at(x, y),
        game.rotated().map == game.map,
        game.spawned(next).map == game.map,
{
    let cleared = game.map.cleared();
    assert(cleared.cells[x][y] == game.map.cleared_cell(x, y));
    assert(game.map.at(x, y).block_type == BlockType::WALL);
    match game.tetromino {
        Some(piece) => {
            let locked = painted(game.map, piece, BlockType::DROPPED);
            assert(locked.cells[x][y] == painted_cell(game.map, piece, BlockType::DROPPED, x, y));
            let relocked = painted(cleared, piece, BlockType::DROPPED);
            assert(relocked.cells[x][y] == painted_cell(cleared, piece, BlockType::DROPPED, x, y));
        },
        None => {},
    }
}

} // verus!
