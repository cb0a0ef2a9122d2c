use jtetris::color::Color;
use jtetris::grid::Grid;
use jtetris::tetromino::{Block, BlockType};

fn empty() -> Block {
    Block { block_type: BlockType::EMPTY, color: Color::WHITE() }
}

fn wall() -> Block {
    Block { block_type: BlockType::WALL, color: Color::WHITE() }
}

fn locked(color: Color) -> Block {
    Block { block_type: BlockType::DROPPED, color }
}

fn green() -> Color {
    Color::RGB(0, 200, 0)
}

fn blue() -> Color {
    Color::RGB(0, 0, 200)
}

fn fill_row(grid: &mut Grid, y: usize, color: Color) {
    for x in 2..grid.width() - 2 {
        grid.set_cell(x, y, BlockType::DROPPED, color);
    }
}

fn row(grid: &Grid, y: usize) -> Vec<Block> {
    (2..grid.width() - 2).map(|x| grid.cell(x, y)).collect()
}

#[test]
fn new_grid_has_its_dimensions() {
    let grid = Grid::new(20, 30);
    assert_eq!(grid.width(), 20);
    assert_eq!(grid.height(), 30);
}

#[test]
fn new_grid_is_walled_left_right_and_below() {
    let grid = Grid::new(9, 7);
    for x in 0..9 {
        for y in 0..7 {
            let inside = (2..7).contains(&x) && y < 5;
            assert_eq!(grid.cell(x, y), if inside { empty() } else { wall() });
        }
    }
}

#[test]
fn new_grid_is_open_at_the_top() {
    let grid = Grid::new(20, 30);
    assert_eq!(grid.cell(2, 0), empty());
    assert_eq!(grid.cell(17, 0), empty());
    assert_eq!(grid.cell(1, 0), wall());
    assert_eq!(grid.cell(18, 0), wall());
    assert_eq!(grid.cell(10, 27), empty());
    assert_eq!(grid.cell(10, 28), wall());
    assert_eq!(grid.cell(10, 29), wall());
}

#[test]
fn new_grid_may_have_no_cells() {
    let grid = Grid::new(0, 0);
    assert_eq!(grid.width(), 0);
    assert_eq!(grid.height(), 0);
    assert!(!grid.top_out());
}

#[test]
fn narrow_grid_is_all_wall() {
    let grid = Grid::new(4, 3);
    for x in 0..4 {
        for y in 0..3 {
            assert_eq!(grid.cell(x, y), wall());
        }
    }
}

#[test]
fn set_cell_writes_state_and_colour() {
    let mut grid = Grid::new(10, 8);
    grid.set_cell(3, 4, BlockType::DROPPED, green());
    assert_eq!(grid.cell(3, 4), locked(green()));
    assert_eq!(grid.cell(4, 4), empty());
    assert_eq!(grid.cell(3, 3), empty());
}

#[test]
fn set_cell_overwrites_whatever_was_there() {
    let mut grid = Grid::new(10, 8);
    grid.set_cell(0, 0, BlockType::MOVING, blue());
    assert_eq!(grid.cell(0, 0), Block { block_type: BlockType::MOVING, color: blue() });
    grid.set_cell(0, 0, BlockType::EMPTY, green());
    assert_eq!(grid.cell(0, 0), Block { block_type: BlockType::EMPTY, color: green() });
}

#[test]
fn a_row_is_full_when_every_playable_cell_is_locked() {
    let mut grid = Grid::new(10, 8);
    assert!(!grid.is_line_full(5));
    fill_row(&mut grid, 5, green());
    assert!(grid.is_line_full(5));
    assert!(!grid.is_line_full(4));
}

#[test]
fn a_row_with_one_gap_is_not_full() {
    let mut grid = Grid::new(10, 8);
    fill_row(&mut grid, 5, green());
    grid.set_cell(7, 5, BlockType::EMPTY, Color::WHITE());
    assert!(!grid.is_line_full(5));
}

#[test]
fn a_row_with_a_moving_cell_is_not_full() {
    let mut grid = Grid::new(10, 8);
    fill_row(&mut grid, 5, green());
    grid.set_cell(2, 5, BlockType::MOVING, green());
    assert!(!grid.is_line_full(5));
}

#[test]
fn clear_line_empties_the_playable_cells_of_one_row() {
    let mut grid = Grid::new(10, 8);
    fill_row(&mut grid, 4, green());
    fill_row(&mut grid, 5, blue());
    grid.clear_line(4);
    assert_eq!(row(&grid, 4), vec![empty(); 6]);
    assert_eq!(row(&grid, 5), vec![locked(blue()); 6]);
    assert_eq!(grid.cell(1, 4), wall());
    assert_eq!(grid.cell(8, 4), wall());
}

#[test]
fn clearing_without_a_full_row_changes_nothing() {
    let mut grid = Grid::new(10, 8);
    grid.set_cell(3, 5, BlockType::DROPPED, green());
    assert_eq!(grid.clear_completed_lines(), 0);
    assert_eq!(grid.cell(3, 5), locked(green()));
    assert_eq!(grid.cell(3, 4), empty());
}

#[test]
fn one_full_row_goes_and_the_rows_above_come_down_by_one() {
    let mut grid = Grid::new(10, 8);
    grid.set_cell(4, 2, BlockType::DROPPED, blue());
    grid.set_cell(5, 3, BlockType::DROPPED, green());
    fill_row(&mut grid, 4, green());
    grid.set_cell(6, 5, BlockType::DROPPED, blue());
    assert_eq!(grid.clear_completed_lines(), 1);
    assert_eq!(grid.cell(4, 3), locked(blue()));
    assert_eq!(grid.cell(4, 2), empty());
    assert_eq!(grid.cell(5, 4), locked(green()));
    assert_eq!(grid.cell(5, 3), empty());
    assert_eq!(grid.cell(6, 5), locked(blue()));
    assert!(!grid.is_line_full(4));
    assert_eq!(grid.cell(2, 4), empty());
}

#[test]
fn two_full_rows_take_two_rows_away() {
    let mut grid = Grid::new(10, 10);
    grid.set_cell(3, 4, BlockType::DROPPED, blue());
    fill_row(&mut grid, 5, green());
    grid.set_cell(4, 6, BlockType::DROPPED, blue());
    fill_row(&mut grid, 7, green());
    assert_eq!(grid.clear_completed_lines(), 2);
    assert_eq!(grid.cell(4, 7), locked(blue()));
    assert_eq!(grid.cell(3, 6), locked(blue()));
    for y in 0..8 {
        for x in 2..8 {
            let kept = (x, y) == (4, 7) || (x, y) == (3, 6);
            assert_eq!(grid.cell(x, y), if kept { locked(blue()) } else { empty() });
        }
    }
}

#[test]
fn two_adjacent_full_rows_take_two_rows_away() {
    let mut grid = Grid::new(10, 10);
    grid.set_cell(3, 5, BlockType::DROPPED, blue());
    fill_row(&mut grid, 6, green());
    fill_row(&mut grid, 7, green());
    assert_eq!(grid.clear_completed_lines(), 2);
    assert_eq!(grid.cell(3, 7), locked(blue()));
    assert_eq!(grid.cell(3, 5), empty());
    assert_eq!(grid.cell(3, 6), empty());
    assert!(!grid.is_line_full(6));
    assert!(!grid.is_line_full(7));
}

#[test]
fn four_full_rows_take_four_rows_away() {
    let mut grid = Grid::new(10, 10);
    grid.set_cell(5, 3, BlockType::DROPPED, blue());
    for y in 4..8 {
        fill_row(&mut grid, y, green());
    }
    assert_eq!(grid.clear_completed_lines(), 4);
    assert_eq!(grid.cell(5, 7), locked(blue()));
    for y in 0..7 {
        assert_eq!(row(&grid, y), vec![empty(); 6]);
    }
}

#[test]
fn clearing_never_writes_the_top_row() {
    let mut grid = Grid::new(10, 8);
    grid.set_cell(3, 0, BlockType::DROPPED, blue());
    fill_row(&mut grid, 4, green());
    assert_eq!(grid.clear_completed_lines(), 1);
    assert_eq!(grid.cell(3, 0), locked(blue()));
    assert_eq!(grid.cell(3, 1), locked(blue()));
    assert_eq!(grid.cell(3, 2), empty());
}

#[test]
fn a_full_top_row_is_counted_and_left_for_the_caller() {
    let mut grid = Grid::new(10, 8);
    fill_row(&mut grid, 0, green());
    assert_eq!(grid.clear_completed_lines(), 1);
    assert!(grid.is_line_full(0));
    assert_eq!(row(&grid, 1), vec![empty(); 6]);
}

#[test]
fn clearing_leaves_the_walls() {
    let mut grid = Grid::new(10, 8);
    fill_row(&mut grid, 5, green());
    grid.clear_completed_lines();
    for y in 0..8 {
        assert_eq!(grid.cell(0, y), wall());
        assert_eq!(grid.cell(1, y), wall());
        assert_eq!(grid.cell(8, y), wall());
        assert_eq!(grid.cell(9, y), wall());
    }
    for x in 0..10 {
        assert_eq!(grid.cell(x, 6), wall());
        assert_eq!(grid.cell(x, 7), wall());
    }
}

#[test]
fn a_locked_cell_in_row_two_is_the_top_out() {
    let mut grid = Grid::new(10, 8);
    assert!(!grid.top_out());
    grid.set_cell(4, 3, BlockType::DROPPED, green());
    assert!(!grid.top_out());
    grid.set_cell(4, 1, BlockType::DROPPED, green());
    assert!(!grid.top_out());
    grid.set_cell(7, 2, BlockType::DROPPED, green());
    assert!(grid.top_out());
}

#[test]
fn a_wall_in_row_two_is_no_top_out() {
    let grid = Grid::new(10, 8);
    assert_eq!(grid.cell(0, 2), wall());
    assert!(!grid.top_out());
}

#[test]
fn a_grid_of_two_rows_has_no_top_out() {
    let grid = Grid::new(10, 2);
    assert!(!grid.top_out());
}
