use jtetris::color::Color;
use jtetris::game::{Game, NextPiece};
use jtetris::grid::Grid;
use jtetris::tetromino::{Block, BlockType, Point, TetrominoType};

fn amber() -> Color {
    Color::RGB(255, 191, 0)
}

fn violet() -> Color {
    Color::RGB(143, 0, 255)
}

fn grey() -> Color {
    Color::RGB(90, 90, 90)
}

fn empty() -> Block {
    Block { block_type: BlockType::EMPTY, color: Color::WHITE() }
}

fn locked(color: Color) -> Block {
    Block { block_type: BlockType::DROPPED, color }
}

#[test]
fn an_o_piece_ticks_down_to_the_floor_of_an_empty_grid() {
    let mut game = Game::new(14, 24);
    let next = NextPiece { tetromino_type: TetrominoType::T, color: violet() };
    game.insert_tetromino(NextPiece { tetromino_type: TetrominoType::O, color: amber() });
    let mut ticks = 0;
    while game.tetromino().map(|falling| falling.color) == Some(amber()) {
        game.update_blocks(next);
        ticks += 1;
        assert!(ticks <= 100);
    }
    assert_eq!(ticks, 21);
    for x in 2..12 {
        for y in 0..22 {
            let under = (x == 8 || x == 9) && (y == 20 || y == 21);
            assert_eq!(game.map().cell(x, y), if under { locked(amber()) } else { empty() });
        }
    }
    let falling = game.tetromino();
    assert!(falling.is_some());
    assert_eq!(falling.map(|piece| piece.tetromino_type), Some(TetrominoType::T));
    assert_eq!(falling.map(|piece| piece.position), Some(Point { x: 7, y: 0 }));
    assert_eq!(falling.map(|piece| piece.rotation), Some(0));
}

#[test]
fn an_i_piece_fills_the_gap_and_only_the_full_row_goes() {
    let mut grid = Grid::new(14, 24);
    for x in 2..12 {
        if x != 9 {
            grid.set_cell(x, 21, BlockType::DROPPED, grey());
        }
    }
    let mut game = match Game::with_map(grid) {
        Some(game) => game,
        None => panic!("the grid is a playfield"),
    };
    let next = NextPiece { tetromino_type: TetrominoType::O, color: violet() };
    game.insert_tetromino(NextPiece { tetromino_type: TetrominoType::I, color: amber() });
    let mut ticks = 0;
    while game.tetromino().map(|falling| falling.color) == Some(amber()) {
        game.update_blocks(next);
        ticks += 1;
        assert!(ticks <= 100);
    }
    assert_eq!(ticks, 19);
    assert!(game.map().is_line_full(21));
    for y in 18..22 {
        assert_eq!(game.map().cell(9, y), locked(amber()));
    }
    assert!(!game.map().is_line_full(20));
    game.update_blocks(next);
    for x in 2..12 {
        for y in 0..22 {
            let kept = x == 9 && (19..22).contains(&y);
            assert_eq!(game.map().cell(x, y), if kept { locked(amber()) } else { empty() });
        }
    }
    assert_eq!(game.tetromino().map(|piece| piece.position), Some(Point { x: 7, y: 1 }));
}
