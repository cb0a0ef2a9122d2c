use jtetris::color::Color;
use jtetris::tetromino::{Block, BlockType, Point, Tetromino, TetrominoType};

fn marked(piece: &Tetromino) -> Vec<(usize, usize)> {
    let mut cells = Vec::new();
    for x in 0..4 {
        for y in 0..4 {
            if piece.blocks[x][y].block_type == BlockType::MOVING {
                cells.push((x, y));
            }
        }
    }
    cells
}

fn red() -> Color {
    Color::RGB(200, 10, 20)
}

const TURNING: [TetrominoType; 5] = [
    TetrominoType::T,
    TetrominoType::J,
    TetrominoType::L,
    TetrominoType::S,
    TetrominoType::Z,
];

#[test]
fn color_rgb_is_opaque() {
    assert_eq!(Color::RGB(1, 2, 3), Color { r: 1, g: 2, b: 3, a: 255 });
}

#[test]
fn color_rgba_keeps_alpha() {
    assert_eq!(Color::RGBA(1, 2, 3, 4), Color { r: 1, g: 2, b: 3, a: 4 });
}

#[test]
fn color_white_is_all_ones() {
    assert_eq!(Color::WHITE(), Color { r: 255, g: 255, b: 255, a: 255 });
}

#[test]
fn point_new_keeps_coordinates() {
    assert_eq!(Point::new(-3, 7), Point { x: -3, y: 7 });
}

#[test]
fn new_i_is_an_upright_strip() {
    let piece = Tetromino::new(TetrominoType::I, red());
    assert_eq!(marked(&piece), vec![(2, 0), (2, 1), (2, 2), (2, 3)]);
}

#[test]
fn new_o_is_a_square() {
    let piece = Tetromino::new(TetrominoType::O, red());
    assert_eq!(marked(&piece), vec![(1, 0), (1, 1), (2, 0), (2, 1)]);
}

#[test]
fn new_t_mask() {
    let piece = Tetromino::new(TetrominoType::T, red());
    assert_eq!(marked(&piece), vec![(1, 1), (2, 0), (2, 1), (2, 2)]);
}

#[test]
fn new_j_mask() {
    let piece = Tetromino::new(TetrominoType::J, red());
    assert_eq!(marked(&piece), vec![(1, 2), (2, 0), (2, 1), (2, 2)]);
}

#[test]
fn new_l_mask() {
    let piece = Tetromino::new(TetrominoType::L, red());
    assert_eq!(marked(&piece), vec![(1, 0), (1, 1), (1, 2), (2, 2)]);
}

#[test]
fn new_s_mask() {
    let piece = Tetromino::new(TetrominoType::S, red());
    assert_eq!(marked(&piece), vec![(1, 0), (1, 1), (2, 1), (2, 2)]);
}

#[test]
fn new_z_mask() {
    let piece = Tetromino::new(TetrominoType::Z, red());
    assert_eq!(marked(&piece), vec![(1, 1), (1, 2), (2, 0), (2, 1)]);
}

#[test]
fn new_piece_is_unrotated_at_the_origin() {
    let piece = Tetromino::new(TetrominoType::S, red());
    assert_eq!(piece.rotation, 0);
    assert_eq!(piece.position, Point { x: 0, y: 0 });
    assert_eq!(piece.tetromino_type, TetrominoType::S);
    assert_eq!(piece.color, red());
}

#[test]
fn new_piece_box_is_four_by_four_in_its_colour() {
    let piece = Tetromino::new(TetrominoType::L, red());
    assert_eq!(piece.blocks.len(), 4);
    for column in &piece.blocks {
        assert_eq!(column.len(), 4);
        for block in column {
            assert_eq!(block.color, red());
            assert!(
                block.block_type == BlockType::MOVING || block.block_type == BlockType::EMPTY
            );
        }
    }
    assert_eq!(piece.blocks[0][0], Block { block_type: BlockType::EMPTY, color: red() });
}

#[test]
fn add_rotation_steps_by_ninety_and_wraps() {
    let mut piece = Tetromino::new(TetrominoType::T, red());
    piece.add_rotation();
    assert_eq!(piece.rotation, 90);
    piece.add_rotation();
    assert_eq!(piece.rotation, 180);
    piece.add_rotation();
    assert_eq!(piece.rotation, 270);
    piece.add_rotation();
    assert_eq!(piece.rotation, 0);
}

#[test]
fn add_rotation_leaves_the_box_alone() {
    let mut piece = Tetromino::new(TetrominoType::T, red());
    piece.add_rotation();
    assert_eq!(marked(&piece), vec![(1, 1), (2, 0), (2, 1), (2, 2)]);
    assert_eq!(piece.position, Point { x: 0, y: 0 });
}

#[test]
fn rotate_o_changes_nothing() {
    let mut piece = Tetromino::new(TetrominoType::O, red());
    piece.position = Point::new(5, 6);
    for _ in 0..5 {
        piece.rotate();
        assert_eq!(marked(&piece), vec![(1, 0), (1, 1), (2, 0), (2, 1)]);
        assert_eq!(piece.rotation, 0);
        assert_eq!(piece.position, Point { x: 5, y: 6 });
    }
}

#[test]
fn rotate_i_alternates_between_its_two_masks() {
    let upright = vec![(2, 0), (2, 1), (2, 2), (2, 3)];
    let flat = vec![(0, 1), (1, 1), (2, 1), (3, 1)];
    let mut piece = Tetromino::new(TetrominoType::I, red());
    piece.rotate();
    assert_eq!(piece.rotation, 90);
    assert_eq!(marked(&piece), flat);
    piece.rotate();
    assert_eq!(piece.rotation, 180);
    assert_eq!(marked(&piece), upright);
    piece.rotate();
    assert_eq!(piece.rotation, 270);
    assert_eq!(marked(&piece), flat);
    piece.rotate();
    assert_eq!(piece.rotation, 0);
    assert_eq!(marked(&piece), upright);
}

#[test]
fn rotate_t_makes_quarter_turns_about_the_pivot() {
    let mut piece = Tetromino::new(TetrominoType::T, red());
    piece.rotate();
    assert_eq!(marked(&piece), vec![(1, 1), (2, 0), (2, 1), (3, 1)]);
    assert_eq!(piece.rotation, 90);
    piece.rotate();
    assert_eq!(marked(&piece), vec![(2, 0), (2, 1), (2, 2), (3, 1)]);
    assert_eq!(piece.rotation, 180);
    piece.rotate();
    assert_eq!(marked(&piece), vec![(1, 1), (2, 1), (2, 2), (3, 1)]);
    assert_eq!(piece.rotation, 270);
}

#[test]
fn rotate_loses_a_cell_whose_image_leaves_the_box() {
    let mut piece = Tetromino::new(TetrominoType::T, red());
    piece.blocks[0][2] = Block { block_type: BlockType::MOVING, color: red() };
    assert_eq!(marked(&piece), vec![(0, 2), (1, 1), (2, 0), (2, 1), (2, 2)]);
    piece.rotate();
    assert_eq!(marked(&piece), vec![(1, 1), (2, 0), (2, 1), (3, 1)]);
}

#[test]
fn rotate_sends_the_corner_cells_round_the_pivot() {
    let mut piece = Tetromino::new(TetrominoType::T, red());
    piece.blocks[3][3] = Block { block_type: BlockType::MOVING, color: red() };
    piece.blocks[1][0] = Block { block_type: BlockType::MOVING, color: red() };
    piece.rotate();
    assert_eq!(marked(&piece), vec![(0, 2), (1, 1), (2, 0), (2, 1), (3, 0), (3, 1)]);
}

#[test]
fn rotate_gives_an_i_piece_its_fixed_mask_whatever_its_box_held() {
    let mut piece = Tetromino::new(TetrominoType::I, red());
    piece.blocks[0][0] = Block { block_type: BlockType::MOVING, color: red() };
    piece.blocks[2][2] = Block { block_type: BlockType::EMPTY, color: red() };
    piece.rotate();
    assert_eq!(marked(&piece), vec![(0, 1), (1, 1), (2, 1), (3, 1)]);
    piece.rotate();
    assert_eq!(marked(&piece), vec![(2, 0), (2, 1), (2, 2), (2, 3)]);
}

#[test]
fn rotate_l_once() {
    let mut piece = Tetromino::new(TetrominoType::L, red());
    piece.rotate();
    assert_eq!(marked(&piece), vec![(1, 0), (1, 1), (2, 0), (3, 0)]);
}

#[test]
fn rotate_keeps_position_and_colour() {
    let mut piece = Tetromino::new(TetrominoType::J, red());
    piece.position = Point::new(7, 3);
    piece.rotate();
    assert_eq!(piece.position, Point { x: 7, y: 3 });
    assert_eq!(piece.color, red());
    for column in &piece.blocks {
        for block in column {
            assert_eq!(block.color, red());
        }
    }
}

#[test]
fn four_rotations_restore_every_turning_shape() {
    for shape in TURNING {
        let mut piece = Tetromino::new(shape, red());
        let before = marked(&piece);
        for _ in 0..4 {
            piece.rotate();
            assert_eq!(marked(&piece).len(), 4);
        }
        assert_eq!(marked(&piece), before);
        assert_eq!(piece.rotation, 0);
    }
}

#[test]
fn from_index_follows_the_order_of_the_shapes() {
    assert_eq!(TetrominoType::from_index(0), TetrominoType::I);
    assert_eq!(TetrominoType::from_index(1), TetrominoType::O);
    assert_eq!(TetrominoType::from_index(2), TetrominoType::T);
    assert_eq!(TetrominoType::from_index(3), TetrominoType::J);
    assert_eq!(TetrominoType::from_index(4), TetrominoType::L);
    assert_eq!(TetrominoType::from_index(5), TetrominoType::S);
    assert_eq!(TetrominoType::from_index(6), TetrominoType::Z);
}

#[test]
fn from_index_takes_any_other_number_for_z() {
    assert_eq!(TetrominoType::from_index(7), TetrominoType::Z);
    assert_eq!(TetrominoType::from_index(-1), TetrominoType::Z);
    assert_eq!(TetrominoType::from_index(i32::MAX), TetrominoType::Z);
    assert_eq!(TetrominoType::from_index(i32::MIN), TetrominoType::Z);
}

#[test]
fn sample_draws_every_shape() {
    let shapes = [
        TetrominoType::I,
        TetrominoType::O,
        TetrominoType::T,
        TetrominoType::J,
        TetrominoType::L,
        TetrominoType::S,
        TetrominoType::Z,
    ];
    let mut seen = [0u32; 7];
    for _ in 0..20000 {
        let drawn = TetrominoType::sample();
        let place = shapes.iter().position(|shape| *shape == drawn);
        assert!(place.is_some());
        seen[place.unwrap_or(0)] += 1;
    }
    for count in seen {
        assert!(count > 0);
    }
}
