use tetris::game::{random_kind, Game};
use tetris::grid::Grid;
use tetris::piece::Tetromino;
use tetris::shapes::{get_wall_kick_offsets, shape_offsets, Coord, Rotation, TetrominoKind};

const KINDS: [TetrominoKind; 7] = [
    TetrominoKind::I,
    TetrominoKind::O,
    TetrominoKind::T,
    TetrominoKind::S,
    TetrominoKind::Z,
    TetrominoKind::J,
    TetrominoKind::L,
];

const ROTATIONS: [Rotation; 4] = [Rotation::North, Rotation::East, Rotation::South, Rotation::West];

fn piece(kind: TetrominoKind, rotation: Rotation, x: i32, y: i32) -> Tetromino {
    Tetromino { position: (x, y), kind, rotation }
}

fn place(grid: &mut Grid, cells: &[Coord], kind: TetrominoKind) {
    for c in cells {
        grid.settle(&[*c, *c, *c, *c], kind);
    }
}

fn game_with(active: Tetromino, cells: &[Coord]) -> Game {
    let mut game = Game::new(active.kind);
    game.active = active;
    place(&mut game.grid, cells, TetrominoKind::O);
    game
}

fn sorted(mut cells: Vec<Coord>) -> Vec<Coord> {
    cells.sort();
    cells
}

fn grid_cells(grid: &Grid) -> Vec<Coord> {
    sorted(grid.entries().into_iter().map(|(c, _)| c).collect())
}

#[test]
fn every_piece_covers_four_distinct_cells() {
    for kind in KINDS {
        for rotation in ROTATIONS {
            let tiles = piece(kind, rotation, 4, 7).occupied_tiles();
            for i in 0..4 {
                for j in (i + 1)..4 {
                    assert_ne!(tiles[i], tiles[j]);
                }
            }
        }
    }
}

#[test]
fn occupied_tiles_moves_shape_to_anchor() {
    let p = piece(TetrominoKind::T, Rotation::North, 3, 10);
    assert_eq!(p.occupied_tiles(), [(2, 10), (3, 10), (4, 10), (3, 11)]);
    let p = piece(TetrominoKind::I, Rotation::East, 0, 0);
    assert_eq!(p.occupied_tiles(), [(1, 1), (1, 0), (1, -1), (1, -2)]);
    assert_eq!(shape_offsets(TetrominoKind::L, Rotation::West), [(-1, 0), (0, 0), (1, 0), (1, 1)]);
}

#[test]
fn rotations_cycle_back() {
    for rotation in ROTATIONS {
        let mut p = piece(TetrominoKind::J, rotation, 5, 5);
        p.rotate_left();
        p.rotate_right();
        assert_eq!(p.rotation, rotation);
        p.rotate_right();
        p.rotate_left();
        assert_eq!(p.rotation, rotation);
        for _ in 0..4 {
            p.rotate_left();
        }
        assert_eq!(p.rotation, rotation);
        for _ in 0..4 {
            p.rotate_right();
        }
        assert_eq!(p.rotation, rotation);
    }
    let mut p = piece(TetrominoKind::J, Rotation::North, 5, 5);
    p.rotate_right();
    assert_eq!(p.rotation, Rotation::East);
    p.rotate_left();
    p.rotate_left();
    assert_eq!(p.rotation, Rotation::West);
    assert_eq!(p.position, (5, 5));
}

#[test]
fn moves_shift_the_anchor_by_one() {
    let mut p = piece(TetrominoKind::S, Rotation::North, 5, 5);
    p.move_left();
    assert_eq!(p.position, (4, 5));
    p.move_right();
    p.move_right();
    assert_eq!(p.position, (6, 5));
    p.move_down();
    assert_eq!(p.position, (6, 4));
    p.move_up();
    assert_eq!(p.position, (6, 5));
}

#[test]
fn ground_and_wall_predicates() {
    assert!(!piece(TetrominoKind::I, Rotation::North, 5, 0).is_in_ground());
    assert!(piece(TetrominoKind::O, Rotation::North, 5, 0).is_in_ground());
    assert!(!piece(TetrominoKind::I, Rotation::North, 1, 5).is_in_wall());
    assert!(piece(TetrominoKind::I, Rotation::North, 0, 5).is_in_wall());
    assert!(piece(TetrominoKind::I, Rotation::North, 8, 5).is_in_wall());
    assert!(!piece(TetrominoKind::I, Rotation::North, 7, 5).is_in_wall());
}

#[test]
fn kick_tables_start_with_no_displacement() {
    for kind in KINDS {
        for from in ROTATIONS {
            let mut left = piece(kind, from, 0, 0);
            left.rotate_left();
            let mut right = piece(kind, from, 0, 0);
            right.rotate_right();
            assert_eq!(get_wall_kick_offsets(kind, from, left.rotation)[0], (0, 0));
            assert_eq!(get_wall_kick_offsets(kind, from, right.rotation)[0], (0, 0));
        }
    }
    assert_eq!(
        get_wall_kick_offsets(TetrominoKind::I, Rotation::North, Rotation::East),
        [(0, 0), (-2, 0), (1, 0), (-2, -1), (1, 2)]
    );
    assert_eq!(
        get_wall_kick_offsets(TetrominoKind::T, Rotation::West, Rotation::South),
        [(0, 0), (-1, 0), (-1, -1), (0, 2), (-1, 2)]
    );
    assert_eq!(get_wall_kick_offsets(TetrominoKind::O, Rotation::East, Rotation::South), [(0, 0); 5]);
}

#[test]
fn settle_and_occupies() {
    let mut grid = Grid::new();
    assert!(!grid.occupies((0, 0)));
    grid.settle(&[(0, 0), (1, 0), (2, 0), (2, 1)], TetrominoKind::L);
    assert!(grid.occupies((0, 0)));
    assert!(grid.occupies((2, 1)));
    assert!(!grid.occupies((1, 1)));
    let entries = grid.entries();
    assert_eq!(entries.len(), 4);
    assert!(entries.iter().all(|(_, k)| *k == TetrominoKind::L));
    assert_eq!(grid.row_counts()[0], 3);
    assert_eq!(grid.row_counts()[1], 1);
}

#[test]
fn clear_without_full_rows_changes_nothing() {
    let mut grid = Grid::new();
    let cells: Vec<Coord> = (0..9).map(|x| (x, 0)).chain([(3, 4), (0, 25)]).collect();
    place(&mut grid, &cells, TetrominoKind::T);
    let before = grid_cells(&grid);
    assert_eq!(grid.clear_lines(), (0, 0));
    assert_eq!(grid_cells(&grid), before);
}

fn clear_rows(rows: &[i32]) -> (usize, u32, Vec<Coord>) {
    let mut grid = Grid::new();
    for &y in rows {
        let row: Vec<Coord> = (0..10).map(|x| (x, y)).collect();
        place(&mut grid, &row, TetrominoKind::I);
    }
    place(&mut grid, &[(0, 10), (3, 0), (9, 23)], TetrominoKind::Z);
    let before = grid.entries().len();
    let (rows_cleared, points) = grid.clear_lines();
    assert_eq!(grid.entries().len(), before - 10 * rows_cleared);
    (rows_cleared, points, grid_cells(&grid))
}

#[test]
fn clearing_one_to_four_rows_scores() {
    let (n, points, cells) = clear_rows(&[2]);
    assert_eq!((n, points), (1, 100));
    assert_eq!(cells, vec![(0, 9), (3, 0), (9, 22)]);
    let (n, points, cells) = clear_rows(&[1, 2]);
    assert_eq!((n, points), (2, 300));
    assert_eq!(cells, vec![(0, 8), (3, 0), (9, 21)]);
    let (n, points, cells) = clear_rows(&[1, 2, 3]);
    assert_eq!((n, points), (3, 500));
    assert_eq!(cells, vec![(0, 7), (3, 0), (9, 20)]);
    let (n, points, cells) = clear_rows(&[1, 2, 3, 4]);
    assert_eq!((n, points), (4, 800));
    assert_eq!(cells, vec![(0, 6), (3, 0), (9, 19)]);
}

#[test]
fn cells_between_cleared_rows_fall_by_rows_below() {
    let mut grid = Grid::new();
    for y in [1, 4] {
        let row: Vec<Coord> = (0..10).map(|x| (x, y)).collect();
        place(&mut grid, &row, TetrominoKind::I);
    }
    place(&mut grid, &[(0, 0), (5, 2), (6, 3), (7, 5)], TetrominoKind::S);
    assert_eq!(grid.count_full_rows(), 2);
    assert_eq!(grid.clear_lines(), (2, 300));
    assert_eq!(grid_cells(&grid), vec![(0, 0), (5, 1), (6, 2), (7, 3)]);
}

#[test]
fn row_above_visible_height_is_never_full() {
    let mut grid = Grid::new();
    let row: Vec<Coord> = (0..10).map(|x| (x, 22)).collect();
    place(&mut grid, &row, TetrominoKind::I);
    assert_eq!(grid.count_full_rows(), 0);
    assert_eq!(grid.clear_lines(), (0, 0));
    assert_eq!(grid.entries().len(), 10);
}

#[test]
fn blocked_moves_leave_the_piece_alone() {
    let start = piece(TetrominoKind::T, Rotation::North, 1, 0);
    let mut game = game_with(start, &[(3, 0)]);
    game.handle_movement(true, false, false);
    assert_eq!(game.active, start);
    game.handle_movement(false, false, true);
    assert_eq!(game.active, start);
    game.handle_movement(false, true, false);
    assert_eq!(game.active, start);
    let mut game = game_with(piece(TetrominoKind::T, Rotation::North, 8, 3), &[]);
    game.handle_movement(false, true, false);
    assert_eq!(game.active.position, (8, 3));
    game.handle_movement(true, false, true);
    assert_eq!(game.active.position, (7, 2));
    assert_eq!(game.active.rotation, Rotation::North);
}

#[test]
fn free_moves_apply() {
    let mut game = game_with(piece(TetrominoKind::O, Rotation::North, 4, 10), &[]);
    game.handle_movement(true, false, false);
    assert_eq!(game.active.position, (3, 10));
    game.handle_movement(false, true, true);
    assert_eq!(game.active.position, (4, 9));
    game.handle_movement(false, false, false);
    assert_eq!(game.active.position, (4, 9));
}

#[test]
fn unobstructed_rotation_uses_no_kick() {
    let mut game = game_with(piece(TetrominoKind::T, Rotation::North, 5, 5), &[]);
    game.handle_rotation(false, true);
    assert_eq!(game.active, piece(TetrominoKind::T, Rotation::East, 5, 5));
    game.handle_rotation(true, false);
    assert_eq!(game.active, piece(TetrominoKind::T, Rotation::North, 5, 5));
    game.handle_rotation(false, false);
    assert_eq!(game.active, piece(TetrominoKind::T, Rotation::North, 5, 5));
}

#[test]
fn rotation_takes_third_kick_when_first_two_blocked() {
    let mut game = game_with(piece(TetrominoKind::T, Rotation::North, 5, 5), &[(5, 4), (4, 4)]);
    game.handle_rotation(false, true);
    assert_eq!(game.active, piece(TetrominoKind::T, Rotation::East, 4, 6));
}

#[test]
fn fully_blocked_rotation_is_rejected() {
    let start = piece(TetrominoKind::T, Rotation::North, 5, 5);
    let blockers = [(5, 4), (4, 4), (4, 7), (5, 3), (4, 3)];
    let mut game = game_with(start, &blockers);
    game.handle_rotation(false, true);
    assert_eq!(game.active, start);
}

#[test]
fn i_piece_kicks_off_the_wall() {
    let mut game = game_with(piece(TetrominoKind::I, Rotation::West, 0, 5), &[]);
    game.handle_rotation(false, true);
    assert_eq!(game.active, piece(TetrominoKind::I, Rotation::North, 1, 5));
}

#[test]
fn ghost_lands_on_the_floor() {
    let game = game_with(piece(TetrominoKind::T, Rotation::North, 5, 22), &[]);
    let ghost = game.ghost_piece();
    assert_eq!(ghost, piece(TetrominoKind::T, Rotation::North, 5, 0));
    let game = game_with(piece(TetrominoKind::I, Rotation::East, 2, 10), &[]);
    assert_eq!(game.ghost_piece(), piece(TetrominoKind::I, Rotation::East, 2, 2));
    assert_eq!(game.active.position, (2, 10));
}

#[test]
fn ghost_lands_on_settled_cells() {
    let game = game_with(piece(TetrominoKind::O, Rotation::North, 3, 20), &[(4, 6), (3, 2)]);
    assert_eq!(game.ghost_piece(), piece(TetrominoKind::O, Rotation::North, 3, 8));
}

#[test]
fn i_piece_falls_to_the_floor_and_settles() {
    let mut game = Game::new(TetrominoKind::I);
    assert_eq!(game.active, piece(TetrominoKind::I, Rotation::North, 5, 22));
    for _ in 0..22 {
        assert!(game.tick(TetrominoKind::O));
    }
    assert_eq!(game.active.occupied_tiles(), [(4, 0), (5, 0), (6, 0), (7, 0)]);
    assert_eq!(game.grid.entries().len(), 0);
    assert!(game.tick(TetrominoKind::O));
    assert_eq!(grid_cells(&game.grid), vec![(4, 0), (5, 0), (6, 0), (7, 0)]);
    assert_eq!(game.grid.row_counts()[0], 4);
    assert!(game.grid.entries().iter().all(|(_, k)| *k == TetrominoKind::I));
    assert_eq!(game.score, 0);
    assert_eq!(game.active, piece(TetrominoKind::O, Rotation::North, 5, 22));
}

#[test]
fn completing_a_row_clears_it_and_scores() {
    let row: Vec<Coord> = (0..9).map(|x| (x, 5)).collect();
    let mut cells = row.clone();
    cells.extend([(9, 3), (0, 8), (2, 6), (3, 0)]);
    let mut game = game_with(piece(TetrominoKind::I, Rotation::West, 9, 9), &cells);
    for _ in 0..3 {
        assert!(game.tick(TetrominoKind::T));
    }
    assert_eq!(game.active.position, (9, 6));
    assert_eq!(game.score, 0);
    assert!(game.tick(TetrominoKind::T));
    assert_eq!(game.score, 100);
    assert_eq!(game.active, piece(TetrominoKind::T, Rotation::North, 5, 22));
    assert_eq!(
        grid_cells(&game.grid),
        vec![(0, 7), (2, 5), (3, 0), (9, 3), (9, 4), (9, 5), (9, 6)]
    );
}

#[test]
fn random_starts_are_spawned_north() {
    for _ in 0..20 {
        let kind = random_kind();
        assert!(KINDS.contains(&kind));
        let mut game = Game::start();
        assert_eq!(game.active.position, (5, 22));
        assert_eq!(game.active.rotation, Rotation::North);
        assert!(game.tick_random());
        assert_eq!(game.active.position, (5, 21));
    }
}

#[test]
fn score_saturates() {
    let row: Vec<Coord> = (0..9).map(|x| (x, 0)).collect();
    let mut game = game_with(piece(TetrominoKind::I, Rotation::West, 9, 2), &row);
    game.score = u32::MAX - 50;
    assert!(game.tick(TetrominoKind::O));
    assert_eq!(game.score, u32::MAX);
}
