use quiz_tetris::grid::{Grid, Tetromino, CELL_COUNT, HEIGHT, WIDTH};
use quiz_tetris::model::INIT_INTERVAL;

const W: usize = WIDTH as usize;

fn occupied(g: &Grid) -> usize {
    g.cells.iter().filter(|c| **c).count()
}

fn set_row(g: &mut Grid, row: usize, value: bool) {
    for x in 0..W {
        g.cells[row * W + x] = value;
    }
}

fn cells_of(g: &Grid) -> Vec<usize> {
    (0..CELL_COUNT).filter(|i| g.cells[*i]).collect()
}

#[test]
fn get_cells_adds_anchor_to_offsets() {
    let bar = Tetromino::of_kind(0);
    assert_eq!(bar.get_cells(14, 0), [13, 14, 15, 16]);
    assert_eq!(bar.get_cells(14, 1), [4, 14, 24, 34]);
    assert_eq!(bar.get_cells(4, 1), [-6, 4, 14, 24]);
    let square = Tetromino::of_kind(1);
    assert_eq!(square.get_cells(0, 3), [0, 1, 10, 11]);
    let tee = Tetromino::of_kind(6);
    assert_eq!(tee.get_cells(25, 2), [15, 24, 25, 26]);
}

#[test]
fn new_grid_is_fresh() {
    let g = Grid::new();
    assert_eq!(g.cells.len(), CELL_COUNT);
    assert_eq!(occupied(&g), 0);
    assert_eq!(g.tetromino_id, None);
    assert_eq!(g.score, 0);
    assert_eq!(g.cleared, 0);
    assert_eq!(g.level, 0);
    assert_eq!(g.timer, 0);
    assert_eq!(g.interval, INIT_INTERVAL);
    assert_eq!(g.gravity_bonus, HEIGHT - 1);
    assert!(!g.game_over);
}

#[test]
fn spawn_on_empty_board_places_piece() {
    for kind in 0..7 {
        let mut g = Grid::new();
        g.spawn_tetromino(kind);
        assert!(!g.game_over);
        assert!(g.on_new_tetromino);
        assert_eq!(g.tetromino_id, Some(kind));
        assert_eq!(g.position, 4);
        assert_eq!(g.rotation, 0);
        assert_eq!(g.gravity_bonus, 0);
        assert_eq!(occupied(&g), 4);
    }
    let mut g = Grid::new();
    g.spawn_tetromino(1);
    assert_eq!(cells_of(&g), vec![4, 5, 14, 15]);
}

#[test]
fn spawn_onto_taken_cells_ends_game() {
    for kind in 0..7 {
        let mut g = Grid::new();
        set_row(&mut g, 0, true);
        set_row(&mut g, 1, true);
        let before = g.cells.clone();
        g.spawn_tetromino(kind);
        assert!(g.game_over);
        assert!(!g.on_new_tetromino);
        assert_eq!(g.cells, before);
    }
    let mut g = Grid::new();
    g.cells[15] = true;
    g.spawn_tetromino(1);
    assert!(g.game_over);
}

#[test]
fn spawn_does_nothing_after_game_over() {
    let mut g = Grid::new();
    g.cells[4] = true;
    g.spawn_tetromino(1);
    assert!(g.game_over);
    g.spawn_tetromino(2);
    assert_eq!(g.tetromino_id, Some(1));
}

#[test]
fn horizontal_move_shifts_piece() {
    let mut g = Grid::new();
    g.spawn_tetromino(1);
    assert!(g.horizontal_move(-1));
    assert_eq!(g.position, 3);
    assert_eq!(cells_of(&g), vec![3, 4, 13, 14]);
    assert!(g.horizontal_move(1));
    assert!(g.horizontal_move(1));
    assert_eq!(cells_of(&g), vec![5, 6, 15, 16]);
    assert_eq!(occupied(&g), 4);
}

#[test]
fn horizontal_move_blocked_by_cell() {
    let mut g = Grid::new();
    g.cells[3] = true;
    g.spawn_tetromino(1);
    assert!(!g.horizontal_move(-1));
    assert_eq!(g.position, 4);
    assert_eq!(cells_of(&g), vec![3, 4, 5, 14, 15]);
}

#[test]
fn wall_guard_stops_wrap_on_left_edge() {
    let mut g = Grid::new();
    g.spawn_tetromino(1);
    for _ in 0..4 {
        assert!(g.horizontal_move(-1));
    }
    assert_eq!(g.position, 0);
    assert!(!g.horizontal_move(-1));
    assert_eq!(g.position, 0);
    assert_eq!(cells_of(&g), vec![0, 1, 10, 11]);
    for c in cells_of(&g) {
        assert_ne!(c % W, W - 1);
    }
}

#[test]
fn wall_guard_stops_wrap_on_right_edge() {
    let mut g = Grid::new();
    g.spawn_tetromino(1);
    for _ in 0..4 {
        assert!(g.horizontal_move(1));
    }
    assert_eq!(g.position, 8);
    assert_eq!(cells_of(&g), vec![8, 9, 18, 19]);
    assert!(!g.horizontal_move(1));
    assert_eq!(g.position, 8);
    assert_eq!(cells_of(&g), vec![8, 9, 18, 19]);
}

#[test]
fn wall_guard_every_kind_and_rotation() {
    for kind in 0..7 {
        for turns in 0..4 {
            let mut g = Grid::new();
            g.spawn_tetromino(kind);
            for _ in 0..6 {
                g.fall_with(false, 0);
            }
            for _ in 0..turns {
                g.rotate();
            }
            for _ in 0..12 {
                g.horizontal_move(-1);
            }
            assert!(!g.horizontal_move(-1));
            if (g.position as usize % W) < W / 2 {
                for c in cells_of(&g) {
                    assert_ne!(c % W, W - 1, "kind {} turns {}", kind, turns);
                }
            }
            for _ in 0..12 {
                g.horizontal_move(1);
            }
            if g.position as usize % W >= W / 2 {
                for c in cells_of(&g) {
                    assert_ne!(c % W, 0, "kind {} turns {}", kind, turns);
                }
            }
        }
    }
}

#[test]
fn offset_leaving_board_is_refused() {
    let mut g = Grid::new();
    g.spawn_tetromino(1);
    assert!(!g.horizontal_move(256 + 20));
    assert!(!g.horizontal_move(-64));
    assert!(!g.horizontal_move(196));
    assert_eq!(g.position, 4);
    assert_eq!(cells_of(&g), vec![4, 5, 14, 15]);
    assert!(g.horizontal_move(20));
    assert_eq!(g.position, 24);
    assert_eq!(cells_of(&g), vec![24, 25, 34, 35]);
}

#[test]
fn rotate_turns_about_anchor() {
    let mut g = Grid::new();
    g.spawn_tetromino(0);
    assert_eq!(cells_of(&g), vec![3, 4, 5, 6]);
    assert!(g.rotate());
    assert_eq!(g.rotation, 1);
    assert_eq!(cells_of(&g), vec![4, 14, 24]);
    assert!(g.rotate());
    assert_eq!(g.rotation, 2);
    assert_eq!(cells_of(&g), vec![3, 4, 5, 6]);
}

#[test]
fn rotate_blocked_keeps_state() {
    let mut g = Grid::new();
    g.cells[14] = true;
    g.spawn_tetromino(0);
    assert!(!g.rotate());
    assert_eq!(g.rotation, 0);
    assert_eq!(cells_of(&g), vec![3, 4, 5, 6, 14]);
}

#[test]
fn fall_moves_down_and_counts_gravity() {
    let mut g = Grid::new();
    g.spawn_tetromino(1);
    assert!(g.fall_with(true, 0));
    assert_eq!(g.position, 14);
    assert_eq!(g.gravity_bonus, 1);
    assert!(g.fall_with(false, 0));
    assert_eq!(g.position, 24);
    assert_eq!(g.gravity_bonus, 1);
    assert_eq!(cells_of(&g), vec![24, 25, 34, 35]);
}

#[test]
fn moves_keep_occupied_count() {
    let mut g = Grid::new();
    set_row(&mut g, 19, true);
    g.cells[190] = false;
    g.spawn_tetromino(6);
    let n = occupied(&g);
    g.fall_with(false, 0);
    assert_eq!(occupied(&g), n);
    g.horizontal_move(1);
    assert_eq!(occupied(&g), n);
    g.fall_with(true, 0);
    assert_eq!(occupied(&g), n);
    g.rotate();
    assert_eq!(occupied(&g), n);
    g.horizontal_move(-1);
    assert_eq!(occupied(&g), n);
}

#[test]
fn piece_locks_on_floor_and_next_spawns() {
    let mut g = Grid::new();
    g.spawn_tetromino(1);
    let mut falls = 0;
    while g.fall_with(false, 2) {
        falls += 1;
    }
    assert_eq!(falls, 18);
    for c in [184usize, 185, 194, 195] {
        assert!(g.cells[c]);
    }
    assert_eq!(g.tetromino_id, Some(2));
    assert_eq!(g.position, 4);
    assert_eq!(occupied(&g), 8);
    assert_eq!(g.score, 0);
}

fn clear_rows_with_square(rows: usize) -> Grid {
    // the bottom `rows` rows are full but for the two columns the square fills
    let mut g = Grid::new();
    for r in 0..rows {
        set_row(&mut g, 19 - r, true);
    }
    if rows >= 1 {
        g.cells[199 - 5] = false;
        g.cells[199 - 4] = false;
    }
    if rows >= 2 {
        g.cells[189 - 5] = false;
        g.cells[189 - 4] = false;
    }
    g.spawn_tetromino(1);
    g
}

fn drop_and_lock(g: &mut Grid, bonus: u8) {
    while g.fall_with(false, 1) {
        g.gravity_bonus = bonus;
    }
}

#[test]
fn score_table_one_row() {
    let mut g = Grid::new();
    set_row(&mut g, 19, true);
    g.cells[194] = false;
    g.cells[195] = false;
    g.spawn_tetromino(1);
    drop_and_lock(&mut g, 1);
    assert_eq!(g.score, 4);
    assert_eq!(g.cleared, 1);
}

#[test]
fn score_table_two_rows() {
    let mut g = clear_rows_with_square(2);
    drop_and_lock(&mut g, 1);
    assert_eq!(g.score, 10);
    assert_eq!(g.cleared, 2);
}

#[test]
fn score_table_three_rows() {
    let mut g = Grid::new();
    for r in 17..20 {
        set_row(&mut g, r, true);
    }
    // a vertical bar fills column 0 of the bottom three rows and row 16
    for r in 17..20 {
        g.cells[r * W] = false;
    }
    g.spawn_tetromino(0);
    g.rotate();
    for _ in 0..4 {
        g.horizontal_move(-1);
    }
    assert_eq!(g.position, 0);
    drop_and_lock(&mut g, 1);
    assert_eq!(g.score, 30);
    assert_eq!(g.cleared, 3);
    assert!(g.cells[190]);
}

#[test]
fn score_table_four_rows() {
    let mut g = Grid::new();
    for r in 16..20 {
        set_row(&mut g, r, true);
        g.cells[r * W + 9] = false;
    }
    g.spawn_tetromino(0);
    g.rotate();
    for _ in 0..5 {
        g.horizontal_move(1);
    }
    assert_eq!(g.position, 9);
    drop_and_lock(&mut g, 1);
    assert_eq!(g.score, 120);
    assert_eq!(g.cleared, 4);
}

#[test]
fn score_grows_with_gravity_bonus_and_level() {
    let mut g = clear_rows_with_square(2);
    g.level = 2;
    drop_and_lock(&mut g, 5);
    assert_eq!(g.score, 10 * 5 * 3);
}

#[test]
fn clear_moves_rows_above_down_by_cleared_count() {
    let mut g = Grid::new();
    set_row(&mut g, 19, true);
    set_row(&mut g, 17, true);
    for x in [4usize, 5] {
        g.cells[190 + x] = false;
        g.cells[170 + x] = false;
    }
    // a marker row between, and one further up
    g.cells[180] = true;
    g.cells[181] = true;
    g.cells[162] = true;
    g.spawn_tetromino(0);
    g.rotate();
    // the bar lands in column 4, rows 16..19
    g.cells[195] = true;
    g.cells[175] = true;
    drop_and_lock(&mut g, 1);
    assert_eq!(g.cleared, 2);
    // row 18 moved down one row, row 16 moved down two rows
    assert!(g.cells[190]);
    assert!(g.cells[191]);
    assert!(g.cells[182]);
    assert!(g.cells[194]);
    assert!(g.cells[184]);
    assert_eq!(occupied(&g) - 4, 5);
}

#[test]
fn punish_shifts_board_up_and_keeps_piece() {
    let mut g = Grid::new();
    set_row(&mut g, 19, true);
    g.cells[199] = false;
    g.cells[170] = true;
    g.spawn_tetromino(1);
    let piece = cells_of(&g)
        .into_iter()
        .filter(|c| *c < 20)
        .collect::<Vec<_>>();
    assert_eq!(piece, vec![4, 5, 14, 15]);
    let row = vec![true, false, true, false, false, false, false, false, false, true];
    assert!(g.punish_with(&row));
    for c in &piece {
        assert!(g.cells[*c]);
    }
    assert_eq!(g.position, 4);
    assert!(g.cells[160]);
    assert!(!g.cells[170]);
    for x in 0..9 {
        assert!(g.cells[180 + x]);
    }
    assert!(!g.cells[189]);
    for x in 0..W {
        assert_eq!(g.cells[190 + x], row[x]);
    }
}

#[test]
fn punish_keeps_piece_in_bottom_row() {
    let mut h = Grid::new();
    h.spawn_tetromino(0);
    while h.position < 190 {
        assert!(h.fall_with(false, 0));
    }
    assert_eq!(h.position, 194);
    let mut row = vec![false; W];
    row[0] = true;
    assert!(h.punish_with(&row));
    for c in 193..197 {
        assert!(h.cells[c]);
    }
    assert!(h.cells[190]);
    assert!(!h.cells[191]);
    assert_eq!(h.position, 194);
}

#[test]
fn punish_without_piece_is_rejected() {
    let mut g = Grid::new();
    g.cells[100] = true;
    let row = vec![true; W];
    assert!(!g.punish_with(&row));
    assert_eq!(cells_of(&g), vec![100]);
    assert!(!g.punish());
    assert_eq!(cells_of(&g), vec![100]);
}

#[test]
fn punish_random_row_has_a_filled_cell() {
    for _ in 0..20 {
        let mut g = Grid::new();
        g.spawn_tetromino(1);
        assert!(g.punish());
        assert!((190..200).any(|i| g.cells[i]));
        for c in [4usize, 5, 14, 15] {
            assert!(g.cells[c]);
        }
    }
}

#[test]
fn reset_restores_fresh_state() {
    let mut g = Grid::new();
    g.spawn_tetromino(3);
    g.fall_with(true, 0);
    g.horizontal_move(1);
    g.score = 99;
    g.cleared = 7;
    g.level = 3;
    g.timer = 5;
    g.cells[150] = true;
    g.game_over = true;
    g.reset();
    let f = Grid::new();
    assert_eq!(g.cells, f.cells);
    assert_eq!(g.tetromino_id, f.tetromino_id);
    assert_eq!(g.position, f.position);
    assert_eq!(g.rotation, f.rotation);
    assert_eq!(g.score, 0);
    assert_eq!(g.cleared, 0);
    assert_eq!(g.level, 0);
    assert_eq!(g.timer, 0);
    assert_eq!(g.interval, f.interval);
    assert_eq!(g.gravity_bonus, f.gravity_bonus);
    assert!(!g.game_over);
    assert!(!g.on_new_tetromino);
}

#[test]
fn reset_on_new_tetromino_clears_flag() {
    let mut g = Grid::new();
    g.spawn_tetromino(0);
    assert!(g.on_new_tetromino);
    g.reset_on_new_tetromino();
    assert!(!g.on_new_tetromino);
    assert_eq!(occupied(&g), 4);
}

#[test]
fn tick_accumulates_and_keeps_remainder() {
    let mut g = Grid::new();
    g.tick_with(INIT_INTERVAL / 2, 1);
    assert_eq!(g.timer, INIT_INTERVAL / 2);
    assert_eq!(g.tetromino_id, None);
    g.tick_with(INIT_INTERVAL / 2 + 7, 1);
    assert_eq!(g.timer, 7);
    assert_eq!(g.tetromino_id, Some(1));
    assert_eq!(occupied(&g), 4);
    g.tick_with(INIT_INTERVAL, 1);
    assert_eq!(g.timer, 7);
    assert_eq!(g.position, 14);
    assert_eq!(g.gravity_bonus, 1);
}

#[test]
fn tick_spawns_random_kind() {
    for _ in 0..30 {
        let mut g = Grid::new();
        g.tick(INIT_INTERVAL);
        let kind = g.tetromino_id.unwrap();
        assert!(kind < 7);
        assert_eq!(occupied(&g), 4);
    }
}

#[test]
fn operations_are_no_ops_after_game_over() {
    let mut g = Grid::new();
    g.spawn_tetromino(1);
    g.cells[150] = true;
    g.game_over = true;
    let before = g.cells.clone();
    assert!(!g.fall(false));
    assert!(!g.horizontal_move(1));
    assert!(!g.rotate());
    assert!(!g.punish());
    g.tick(INIT_INTERVAL * 3);
    assert_eq!(g.timer, 0);
    assert_eq!(g.cells, before);
    assert_eq!(g.position, 4);
}
