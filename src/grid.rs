use vstd::prelude::*;

use rand::rngs::ThreadRng;

use crate::model::{
    board_rows, compacted, empty_row, full_row_count, kept_prefix, lemma_kept_prefix_step,
    line_score, occupies, piece_cells, row_is_full, row_points, GridState, INIT_INTERVAL,
    SPAWN_POSITION,
};
use crate::laws::{lemma_move_keeps_count, lemma_no_wrap_across_edges};
use crate::random::{random_at_most, random_ratio, shuffle};

verus! {

/// Number of columns of the board.
pub const WIDTH: u8 = 10;

/// Number of rows of the board.
pub const HEIGHT: u8 = 20;

/// Number of cells of the board.
pub const CELL_COUNT: usize = 200;

/// Number of piece kinds in the catalog.
pub const TETROMINO_VARIANT: usize = 7;

/// The signed offsets, relative to the anchor, of the four cells of piece
/// `kind` in rotation state `rot`.
pub open spec fn shape_offsets(kind: int, rot: int) -> Seq<int> {
    if kind == 0 {
        if rot % 2 == 0 { seq![-1, 0, 1, 2] } else { seq![-10, 0, 10, 20] }
    } else if kind == 1 {
        seq![0, 1, 10, 11]
    } else if kind == 2 {
        if rot % 2 == 0 { seq![-1, 0, 10, 11] } else { seq![-10, -1, 0, 9] }
    } else if kind == 3 {
        if rot % 2 == 0 { seq![0, 1, 9, 10] } else { seq![-10, 0, 1, 11] }
    } else if kind == 4 {
        if rot == 0 {
            seq![9, -1, 0, 1]
        } else if rot == 1 {
            seq![-11, -10, 0, 10]
        } else if rot == 2 {
            seq![-1, 0, 1, -9]
        } else {
            seq![-10, 0, 10, 11]
        }
    } else if kind == 5 {
        if rot == 0 {
            seq![-1, 0, 1, 11]
        } else if rot == 1 {
            seq![-10, 0, 10, 9]
        } else if rot == 2 {
            seq![-11, -1, 0, 1]
        } else {
            seq![-9, -10, 0, 10]
        }
    } else {
        if rot == 0 {
            seq![-1, 0, 1, 10]
        } else if rot == 1 {
            seq![-10, -1, 0, 10]
        } else if rot == 2 {
            seq![-10, -1, 0, 1]
        } else {
            seq![-10, 0, 1, 10]
        }
    }
}

/// Every rotation state of every piece covers its own anchor.
pub proof fn lemma_anchor_covered(kind: int, rot: int)
    requires
        0 <= kind < 7,
        0 <= rot < 4,
    ensures
        exists|i: int| 0 <= i < 4 && #[trigger] shape_offsets(kind, rot)[i] == 0,
{
    let s = shape_offsets(kind, rot);
    if s[0] == 0 {
        assert(s[0] == 0);
    } else if s[1] == 0 {
        assert(s[1] == 0);
    } else {
        assert(s[2] == 0);
    }
}

/// One piece kind: four rotation states of four signed offsets each.
#[derive(Clone, Copy)]
pub struct Tetromino {
    rotations: [[i16; 4]; 4],
}

impl Tetromino {
    #[verifier::type_invariant]
    spec fn offsets_in_range(self) -> bool {
        forall|r: int, i: int|
            0 <= r < 4 && 0 <= i < 4 ==> -11 <= #[trigger] self.rotations[r][i] <= 20
    }

    /// Offset `i` of rotation state `rot`.
    pub closed spec fn offset(self, rot: int, i: int) -> int {
        self.rotations[rot][i] as int
    }

    /// This value holds the catalog's offsets of piece `kind`.
    pub open spec fn is_kind(self, kind: int) -> bool {
        forall|r: int, i: int|
            0 <= r < 4 && 0 <= i < 4 ==> #[trigger] self.offset(r, i) == shape_offsets(kind, r)[i]
    }

    /// The catalog entry of piece `kind`.
    pub fn of_kind(kind: usize) -> (t: Tetromino)
        requires
            kind < TETROMINO_VARIANT,
        ensures
            t.is_kind(kind as int),
    {
        let rotations: [[i16; 4]; 4] = if kind == 0 {
            [[-1, 0, 1, 2], [-10, 0, 10, 20], [-1, 0, 1, 2], [-10, 0, 10, 20]]
        } else if kind == 1 {
            [[0, 1, 10, 11], [0, 1, 10, 11], [0, 1, 10, 11], [0, 1, 10, 11]]
        } else if kind == 2 {
            [[-1, 0, 10, 11], [-10, -1, 0, 9], [-1, 0, 10, 11], [-10, -1, 0, 9]]
        } else if kind == 3 {
            [[0, 1, 9, 10], [-10, 0, 1, 11], [0, 1, 9, 10], [-10, 0, 1, 11]]
        } else if kind == 4 {
            [[9, -1, 0, 1], [-11, -10, 0, 10], [-1, 0, 1, -9], [-10, 0, 10, 11]]
        } else if kind == 5 {
            [[-1, 0, 1, 11], [-10, 0, 10, 9], [-11, -1, 0, 1], [-9, -10, 0, 10]]
        } else {
            [[-1, 0, 1, 10], [-10, -1, 0, 10], [-10, -1, 0, 1], [-10, 0, 1, 10]]
        };
        Tetromino { rotations }
    }

    /// The absolute positions of the four cells of this piece when anchored at
    /// `position` in rotation state `rotation`.
    pub fn get_cells(&self, position: u8, rotation: u8) -> (cells: [i16; 4])
        requires
            rotation < 4,
        ensures
            forall|i: int| 0 <= i < 4 ==> cells[i] == position + #[trigger] self.offset(rotation as int, i),
    {
        proof {
            use_type_invariant(self);
        }
        let r = rotation as usize;
        let p = position as i16;
        let row = self.rotations[r];
        [row[0] + p, row[1] + p, row[2] + p, row[3] + p]
    }
}

/// The engine: the board, the falling piece, and the score bookkeeping.
pub struct Grid {
    /// Occupied cells, row by row: cell `row * WIDTH + col`.
    pub cells: Vec<bool>,
    /// Kind of the falling piece, if one has spawned.
    pub tetromino_id: Option<usize>,
    /// Set when a piece has just spawned, for the caller to acknowledge.
    pub on_new_tetromino: bool,
    /// Anchor of the falling piece.
    pub position: u8,
    /// Rotation state of the falling piece.
    pub rotation: u8,
    /// Time between two forced descents, in nanoseconds.
    pub interval: u64,
    /// Time accumulated since the last forced descent, in nanoseconds.
    pub timer: u64,
    /// Forced descents of the falling piece so far.
    pub gravity_bonus: u8,
    pub score: u32,
    /// Rows cleared so far.
    pub cleared: u32,
    pub level: u8,
    /// Source of the piece kinds and of the garbage rows.
    pub rng: ThreadRng,
    /// Set once a spawned piece overlaps the board; only `reset` clears it.
    pub game_over: bool,
}

impl View for Grid {
    type V = GridState;

    open spec fn view(&self) -> GridState {
        GridState {
            cells: self.cells@,
            tetromino_id: self.tetromino_id,
            on_new_tetromino: self.on_new_tetromino,
            position: self.position,
            rotation: self.rotation,
            interval: self.interval,
            timer: self.timer,
            gravity_bonus: self.gravity_bonus,
            score: self.score,
            cleared: self.cleared,
            level: self.level,
            game_over: self.game_over,
        }
    }
}

/// Whether `a` is one of the four positions `cs`.
fn contains_cell(cs: &[i16; 4], a: i16) -> (r: bool)
    ensures
        r == occupies(Seq::new(4, |i: int| cs[i] as int), a as int),
{
    cs[0] == a || cs[1] == a || cs[2] == a || cs[3] == a
}

/// Sets to `value` every cell of `cells` at one of the non-negative positions
/// of `cs`.
fn set_cells(cells: &mut Vec<bool>, cs: &[i16; 4], value: bool)
    requires
        forall|i: int| 0 <= i < 4 ==> #[trigger] cs[i] < old(cells)@.len(),
    ensures
        final(cells)@ == Seq::new(
            old(cells)@.len(),
            |j: int|
                if occupies(Seq::new(4, |i: int| cs[i] as int), j) {
                    value
                } else {
                    old(cells)@[j]
                },
        ),
{
    let mut i: usize = 0;
    while i < 4
        invariant
            i <= 4,
            cells@.len() == old(cells)@.len(),
            forall|k: int| 0 <= k < 4 ==> #[trigger] cs[k] < old(cells)@.len(),
            forall|j: int|
                0 <= j < cells@.len() ==> #[trigger] cells@[j] == if (exists|k: int|
                    0 <= k < i && cs[k] == j) {
                    value
                } else {
                    old(cells)@[j]
                },
        decreases 4 - i,
    {
        let c = cs[i];
        if c >= 0 {
            cells[c as usize] = value;
        }
        i = i + 1;
    }
    assert(cells@ =~= Seq::new(
        old(cells)@.len(),
        |j: int|
            if occupies(Seq::new(4, |i: int| cs[i] as int), j) {
                value
            } else {
                old(cells)@[j]
            },
    )) by {
        assert forall|j: int| 0 <= j < cells@.len() implies cells@[j] == (if occupies(
            Seq::new(4, |i: int| cs[i] as int),
            j,
        ) {
            value
        } else {
            old(cells)@[j]
        }) by {
            if occupies(Seq::new(4, |i: int| cs[i] as int), j) {
                if cs[0] == j {
                    assert(0 <= 0 < 4 && cs[0] == j);
                } else if cs[1] == j {
                    assert(0 <= 1 < 4 && cs[1] == j);
                } else if cs[2] == j {
                    assert(0 <= 2 < 4 && cs[2] == j);
                } else {
                    assert(0 <= 3 < 4 && cs[3] == j);
                }
            }
        }
    }
}

/// The rows above row `y` once the clear has passed them: as many empty rows
/// as were full, then the surviving ones in order.
spec fn settled_rows(board: Seq<bool>, y: int) -> Seq<Seq<bool>> {
    let kept = kept_prefix(board, y);
    Seq::new((y - kept.len()) as nat, |r: int| empty_row()) + kept
}

/// Whether row `y` of the board is full.
fn row_full(cells: &Vec<bool>, y: usize) -> (r: bool)
    requires
        cells@.len() == CELL_COUNT,
        y < HEIGHT,
    ensures
        r == row_is_full(board_rows(cells@)[y as int]),
{
    let base = y * WIDTH as usize;
    let mut x: usize = 0;
    while x < WIDTH as usize
        invariant
            x <= WIDTH,
            base == y * WIDTH,
            y < HEIGHT,
            cells@.len() == CELL_COUNT,
            forall|k: int| 0 <= k < x ==> #[trigger] board_rows(cells@)[y as int][k],
        decreases WIDTH - x,
    {
        assert(board_rows(cells@)[y as int][x as int] == cells@[base + x]);
        if !cells[base + x] {
            return false;
        }
        x = x + 1;
    }
    true
}

/// Moves rows `0..y` one row down, over row `y`, and empties row 0.
fn drop_rows_above(cells: &mut Vec<bool>, y: usize)
    requires
        old(cells)@.len() == CELL_COUNT,
        y < HEIGHT,
    ensures
        final(cells)@.len() == CELL_COUNT,
        forall|i: int|
            0 <= i < CELL_COUNT ==> #[trigger] final(cells)@[i] == if i < WIDTH {
                false
            } else if i < (y + 1) * WIDTH {
                old(cells)@[i - WIDTH]
            } else {
                old(cells)@[i]
            },
{
    let w = WIDTH as usize;
    let mut yy: usize = y;
    while yy > 0
        invariant
            yy <= y < HEIGHT,
            w == WIDTH,
            cells@.len() == CELL_COUNT,
            forall|i: int|
                0 <= i < CELL_COUNT ==> #[trigger] cells@[i] == if (yy + 1) * WIDTH <= i < (y + 1)
                    * WIDTH {
                    old(cells)@[i - WIDTH]
                } else {
                    old(cells)@[i]
                },
        decreases yy,
    {
        let mut x: usize = 0;
        while x < w
            invariant
                0 < yy <= y < HEIGHT,
                w == WIDTH,
                x <= WIDTH,
                cells@.len() == CELL_COUNT,
                forall|i: int|
                    0 <= i < CELL_COUNT ==> #[trigger] cells@[i] == if (yy + 1) * WIDTH <= i < (y
                        + 1) * WIDTH || yy * WIDTH <= i < yy * WIDTH + x {
                        old(cells)@[i - WIDTH]
                    } else {
                        old(cells)@[i]
                    },
            decreases WIDTH - x,
        {
            let v = cells[(yy - 1) * w + x];
            cells[yy * w + x] = v;
            x = x + 1;
        }
        yy = yy - 1;
    }
    let mut x: usize = 0;
    while x < w
        invariant
            y < HEIGHT,
            w == WIDTH,
            x <= WIDTH,
            cells@.len() == CELL_COUNT,
            forall|i: int|
                0 <= i < CELL_COUNT ==> #[trigger] cells@[i] == if i < x {
                    false
                } else if WIDTH <= i < (y + 1) * WIDTH {
                    old(cells)@[i - WIDTH]
                } else {
                    old(cells)@[i]
                },
        decreases WIDTH - x,
    {
        cells[x] = false;
        x = x + 1;
    }
}

/// Removes every full row, moving the rows above each one down; returns how
/// many rows were removed.
fn clear_full_rows(cells: &mut Vec<bool>) -> (removed: u8)
    requires
        old(cells)@.len() == CELL_COUNT,
    ensures
        final(cells)@ == compacted(old(cells)@),
        removed == full_row_count(old(cells)@),
{
    let ghost board = old(cells)@;
    let w = WIDTH as usize;
    let mut removed: u8 = 0;
    let mut y: usize = 0;
    while y < HEIGHT as usize
        invariant
            y <= HEIGHT,
            w == WIDTH,
            cells@.len() == CELL_COUNT,
            board.len() == CELL_COUNT,
            forall|i: int| y * WIDTH <= i < CELL_COUNT ==> #[trigger] cells@[i] == board[i],
            settled_rows(board, y as int).len() == y,
            removed == y - kept_prefix(board, y as int).len(),
            forall|r: int, x: int|
                0 <= r < y && 0 <= x < WIDTH ==> #[trigger] cells@[r * WIDTH + x] == settled_rows(
                    board,
                    y as int,
                )[r][x],
        decreases HEIGHT - y,
    {
        proof {
            lemma_kept_prefix_step(board, y as int);
        }
        assert(board_rows(cells@)[y as int] =~= board_rows(board)[y as int]) by {
            assert forall|x: int| 0 <= x < WIDTH implies board_rows(cells@)[y as int][x]
                == board_rows(board)[y as int][x] by {
                assert(cells@[y * WIDTH + x] == board[y * WIDTH + x]);
            }
        }
        if row_full(cells, y) {
            let ghost before = cells@;
            drop_rows_above(cells, y);
            removed = removed + 1;
            assert forall|r: int, x: int|
                0 <= r < y + 1 && 0 <= x < WIDTH implies #[trigger] cells@[r * WIDTH + x]
                == settled_rows(board, y + 1)[r][x] by {
                if r > 0 {
                    assert(before[(r - 1) * WIDTH + x] == settled_rows(board, y as int)[r - 1][x]);
                    assert(cells@[r * WIDTH + x] == before[r * WIDTH + x - WIDTH]);
                }
            }
        } else {
            assert forall|r: int, x: int|
                0 <= r < y + 1 && 0 <= x < WIDTH implies #[trigger] cells@[r * WIDTH + x]
                == settled_rows(board, y + 1)[r][x] by {
                if r == y {
                    assert(board_rows(board)[y as int][x] == board[y * WIDTH + x]);
                }
            }
        }
        y = y + 1;
    }
    proof {
        assert(board_rows(board).take(HEIGHT as int) =~= board_rows(board));
        assert forall|i: int| 0 <= i < CELL_COUNT implies #[trigger] cells@[i] == compacted(board)[i] by {
            let r = i / WIDTH as int;
            let x = i % WIDTH as int;
            assert(i == r * WIDTH + x);
            assert(cells@[r * WIDTH + x] == settled_rows(board, HEIGHT as int)[r][x]);
        }
        assert(cells@ =~= compacted(board));
    }
    removed
}

/// Points for clearing `rows` rows at once, before the multipliers.
fn points_for(rows: u8) -> (p: u32)
    ensures
        p == row_points(rows as int),
{
    if rows == 0 {
        0
    } else if rows == 1 {
        4
    } else if rows == 2 {
        10
    } else if rows == 3 {
        30
    } else {
        120
    }
}

impl Grid {
    /// A fresh engine: an empty board and no piece yet.
    pub fn new() -> (g: Grid)
        ensures
            g@ == GridState::fresh(),
            g@.wf(),
    {
        Grid {
            cells: vec![false; CELL_COUNT],
            tetromino_id: None,
            on_new_tetromino: false,
            position: 0,
            rotation: 0,
            interval: INIT_INTERVAL,
            timer: 0,
            gravity_bonus: HEIGHT - 1,
            score: 0,
            cleared: 0,
            level: 0,
            rng: rand::thread_rng(),
            game_over: false,
        }
    }

    /// Adds a clear of `rows` rows to the cleared-lines total and the score.
    fn update_score(&mut self, rows: u8)
        ensures
            final(self)@ == (GridState {
                cleared: final(self).cleared,
                score: final(self).score,
                ..old(self)@
            }),
            final(self).cleared == old(self).cleared.saturating_add(rows as u32),
            final(self).score as int == if old(self).score + line_score(
                rows as int,
                old(self).gravity_bonus as int,
                old(self).level as int,
            ) > u32::MAX {
                u32::MAX as int
            } else {
                old(self).score + line_score(
                    rows as int,
                    old(self).gravity_bonus as int,
                    old(self).level as int,
                )
            },
    {
        self.cleared = self.cleared.saturating_add(rows as u32);
        let points = points_for(rows);
        assert(points * self.gravity_bonus <= 120 * 255) by (nonlinear_arith)
            requires
                points <= 120,
                self.gravity_bonus <= 255,
        ;
        let base = points * self.gravity_bonus as u32;
        assert(base * (self.level + 1) <= 120 * 255 * 256) by (nonlinear_arith)
            requires
                base <= 120 * 255,
                self.level <= 255,
        ;
        let earned = base * (self.level as u32 + 1);
        self.score = self.score.saturating_add(earned);
    }

    /// Removes the full rows once the falling piece has locked, and scores
    /// them.
    fn clear(&mut self)
        requires
            old(self)@.cells.len() == CELL_COUNT,
        ensures
            final(self)@ == old(self)@.locked(),
    {
        let rows = clear_full_rows(&mut self.cells);
        if rows > 0 {
            self.update_score(rows);
        } else {
            let ghost (g, l) = (self.gravity_bonus as int, self.level as int);
            assert(line_score(0, g, l) == 0) by {
                assert(0 * g * (l + 1) == 0) by (nonlinear_arith);
            }
        }
        assert(self.cleared == old(self)@.locked().cleared);
        assert(self.score == old(self)@.locked().score);
        assert(self@ =~= old(self)@.locked());
    }

    /// Spawns piece `kind` at the top centre, or ends the game if its cells
    /// are taken; does nothing once the game is over.
    pub fn spawn_tetromino(&mut self, kind: usize)
        requires
            old(self)@.shape_wf(),
            kind < TETROMINO_VARIANT,
        ensures
            final(self)@ == old(self)@.spawn(kind as int),
            final(self)@.wf(),
    {
        if self.game_over {
            return;
        }
        let ghost before = self@;
        self.tetromino_id = Some(kind);
        self.rotation = 0;
        self.position = SPAWN_POSITION;
        self.gravity_bonus = 0;
        let tetromino = Tetromino::of_kind(kind);
        let placement = tetromino.get_cells(self.position, self.rotation);
        let ghost cs = piece_cells(kind as int, SPAWN_POSITION as int, 0);
        assert forall|i: int| 0 <= i < 4 implies placement[i] == #[trigger] cs[i] && 0 <= cs[i]
            < CELL_COUNT by {
            assert(tetromino.offset(0, i) == shape_offsets(kind as int, 0)[i]);
        }
        let blocked = self.cells[placement[0] as usize] || self.cells[placement[1] as usize]
            || self.cells[placement[2] as usize] || self.cells[placement[3] as usize];
        if blocked {
            self.game_over = true;
        } else {
            set_cells(&mut self.cells, &placement, true);
        }
        self.on_new_tetromino = !self.game_over;
        proof {
            assert(Seq::new(4, |i: int| placement[i] as int) =~= cs);
            assert(self@ =~= before.spawned(kind as int));
        }
    }

    /// Spawns a piece of a kind drawn at random.
    fn next_tetromino(&mut self)
        requires
            old(self)@.shape_wf(),
        ensures
            exists|k: int| 0 <= k < TETROMINO_VARIANT && final(self)@ == #[trigger] old(self)@.spawn(k),
            final(self)@.wf(),
    {
        let kind = random_at_most(&mut self.rng, TETROMINO_VARIANT - 1);
        self.spawn_tetromino(kind);
    }

    /// One descent of the falling piece; if it cannot descend it locks, full
    /// rows are cleared and piece `next_kind` spawns. Tells whether the piece
    /// moved down.
    pub fn fall_with(&mut self, due_to_gravity: bool, next_kind: usize) -> (moved: bool)
        requires
            old(self)@.wf(),
            next_kind < TETROMINO_VARIANT,
        ensures
            final(self)@ == old(self)@.fall(due_to_gravity, next_kind as int),
            final(self)@.wf(),
            moved == (old(self)@.is_active() && old(self)@.can_move(
                old(self).position + WIDTH,
                old(self).rotation as int,
            )),
            moved ==> old(self)@.move_laws(final(self)@),
    {
        if self.game_over || self.tetromino_id.is_none() {
            return false;
        }
        let moved = self.move_if_can(self.position + WIDTH, self.rotation);
        if !moved {
            self.clear();
            self.spawn_tetromino(next_kind);
        } else if due_to_gravity && self.gravity_bonus < u8::MAX {
            self.gravity_bonus = self.gravity_bonus + 1;
        }
        moved
    }

    /// One descent of the falling piece, with a piece kind drawn at random
    /// for the spawn that follows a lock.
    pub fn fall(&mut self, due_to_gravity: bool) -> (moved: bool)
        requires
            old(self)@.wf(),
        ensures
            exists|k: int|
                0 <= k < TETROMINO_VARIANT && final(self)@ == #[trigger] old(self)@.fall(
                    due_to_gravity,
                    k,
                ),
            final(self)@.wf(),
            moved == (old(self)@.is_active() && old(self)@.can_move(
                old(self).position + WIDTH,
                old(self).rotation as int,
            )),
            moved ==> old(self)@.move_laws(final(self)@),
    {
        let kind = random_at_most(&mut self.rng, TETROMINO_VARIANT - 1);
        self.fall_with(due_to_gravity, kind)
    }

    /// Moves the falling piece sideways by `offset` positions if it can; a
    /// move whose anchor would leave the board is refused. Tells whether it
    /// moved.
    pub fn horizontal_move(&mut self, offset: i16) -> (moved: bool)
        requires
            old(self)@.wf(),
        ensures
            final(self)@ == old(self)@.horizontal_move(offset as int),
            final(self)@.wf(),
            moved == (old(self)@.is_active() && old(self)@.offset_on_board(offset as int)
                && old(self)@.can_move(old(self).position + offset, old(self).rotation as int)),
            moved ==> old(self)@.move_laws(final(self)@),
    {
        if self.game_over || self.tetromino_id.is_none() {
            return false;
        }
        let target: i32 = self.position as i32 + offset as i32;
        if target < 0 || target >= CELL_COUNT as i32 {
            return false;
        }
        self.move_if_can(target as u8, self.rotation)
    }

    /// Turns the falling piece to its next rotation state about its anchor if
    /// it can; tells whether it turned.
    pub fn rotate(&mut self) -> (turned: bool)
        requires
            old(self)@.wf(),
        ensures
            final(self)@ == old(self)@.rotate(),
            final(self)@.wf(),
            turned == (old(self)@.is_active() && old(self)@.can_move(
                old(self).position as int,
                (old(self).rotation + 1) % 4,
            )),
            turned ==> old(self)@.move_laws(final(self)@),
    {
        if self.game_over || self.tetromino_id.is_none() {
            return false;
        }
        let next_rotation = (self.rotation + 1) % 4;
        self.move_if_can(self.position, next_rotation)
    }

    /// Lets `elapsed` nanoseconds pass: once the descent interval has
    /// accumulated it is taken off the timer and the falling piece descends,
    /// or piece `next_kind` spawns if none is falling.
    pub fn tick_with(&mut self, elapsed: u64, next_kind: usize)
        requires
            old(self)@.wf(),
            next_kind < TETROMINO_VARIANT,
        ensures
            final(self)@ == old(self)@.tick(elapsed, next_kind as int),
            final(self)@.wf(),
    {
        if self.game_over {
            return;
        }
        let ghost before = self@;
        self.timer = self.timer.saturating_add(elapsed);
        if self.timer >= self.interval {
            self.timer = self.timer - self.interval;
            assert(self@.wf()) by {
                assert(self@.current() == before.current());
            }
            if self.tetromino_id.is_some() {
                self.fall_with(true, next_kind);
            } else {
                self.spawn_tetromino(next_kind);
            }
        } else {
            assert(self@.current() == before.current());
        }
    }

    /// Lets `elapsed` nanoseconds pass, with a piece kind drawn at random for
    /// a spawn.
    pub fn tick(&mut self, elapsed: u64)
        requires
            old(self)@.wf(),
        ensures
            exists|k: int|
                0 <= k < TETROMINO_VARIANT && final(self)@ == #[trigger] old(self)@.tick(
                    elapsed,
                    k,
                ),
            final(self)@.wf(),
    {
        if self.game_over {
            assert(self@.tick(elapsed, 0) == self@);
            return;
        }
        let kind = random_at_most(&mut self.rng, TETROMINO_VARIANT - 1);
        self.tick_with(elapsed, kind);
    }

    /// Moves every cell one row up, except the falling piece's own cells and
    /// those right above them, and fills the bottom row from `row`; does
    /// nothing unless a piece is falling. Tells whether it acted.
    pub fn punish_with(&mut self, row: &Vec<bool>) -> (applied: bool)
        requires
            old(self)@.wf(),
            row@.len() == WIDTH,
        ensures
            final(self)@ == old(self)@.punished(row@),
            final(self)@.wf(),
            applied == old(self)@.is_active(),
    {
        if self.game_over || self.tetromino_id.is_none() {
            return false;
        }
        let ghost before = self@;
        let kind = self.tetromino_id.unwrap();
        let tetromino = Tetromino::of_kind(kind);
        let current = tetromino.get_cells(self.position, self.rotation);
        assert forall|i: int| 0 <= i < 4 implies current[i] == #[trigger] before.current()[i] by {
            assert(tetromino.offset(self.rotation as int, i) == shape_offsets(
                kind as int,
                self.rotation as int,
            )[i]);
        }
        assert(Seq::new(4, |i: int| current[i] as int) =~= before.current());
        let w = WIDTH as usize;
        let bottom = CELL_COUNT - w;
        let mut i: usize = 0;
        while i < bottom
            invariant
                i <= bottom,
                bottom == CELL_COUNT - WIDTH,
                w == WIDTH,
                self@ == (GridState { cells: self@.cells, ..before }),
                self.cells@.len() == CELL_COUNT,
                before.is_active(),
                Seq::new(4, |k: int| current[k] as int) == before.current(),
                forall|j: int|
                    0 <= j < CELL_COUNT ==> #[trigger] self.cells@[j] == if j < i && !before.shields(
                        j,
                    ) {
                        before.cells[j + WIDTH]
                    } else {
                        before.cells[j]
                    },
            decreases bottom - i,
        {
            let shielded = contains_cell(&current, i as i16) || contains_cell(
                &current,
                (i + w) as i16,
            );
            if !shielded {
                let v = self.cells[i + w];
                self.cells[i] = v;
            }
            i = i + 1;
        }
        let mut x: usize = 0;
        while x < w
            invariant
                x <= WIDTH,
                bottom == CELL_COUNT - WIDTH,
                w == WIDTH,
                row@.len() == WIDTH,
                self@ == (GridState { cells: self@.cells, ..before }),
                self.cells@.len() == CELL_COUNT,
                Seq::new(4, |k: int| current[k] as int) == before.current(),
                forall|j: int|
                    0 <= j < CELL_COUNT ==> #[trigger] self.cells@[j] == if j >= bottom + x
                        || (j >= bottom && occupies(before.current(), j)) {
                        before.cells[j]
                    } else if j >= bottom {
                        row@[j - bottom]
                    } else if !before.shields(j) {
                        before.cells[j + WIDTH]
                    } else {
                        before.cells[j]
                    },
            decreases WIDTH - x,
        {
            if !contains_cell(&current, (bottom + x) as i16) {
                self.cells[bottom + x] = row[x];
            }
            x = x + 1;
        }
        proof {
            assert(self@ =~= before.punished(row@));
            assert forall|k: int| 0 <= k < 4 implies #[trigger] self@.current()[k] < CELL_COUNT by {
                assert(self@.current()[k] == before.current()[k]);
            }
        }
        true
    }

    /// A garbage row: columns are filled left to right with a chance that
    /// starts certain and drops with each filled column, then shuffled. The
    /// first column is always filled, so the row is never empty.
    fn garbage_row(&mut self) -> (row: Vec<bool>)
        ensures
            row@.len() == WIDTH,
            row@.contains(true),
            final(self)@ == old(self)@,
    {
        let w = WIDTH as usize;
        let mut row: Vec<bool> = vec![false; w];
        let mut ratio: u32 = 100;
        let mut filled: u32 = 0;
        let mut i: usize = 0;
        while i < w
            invariant
                i <= WIDTH,
                w == WIDTH,
                row@.len() == WIDTH,
                filled <= i,
                ratio == 100 - 10 * filled,
                i > 0 ==> row@[0],
                self@ == old(self)@,
            decreases WIDTH - i,
        {
            if random_ratio(&mut self.rng, ratio, 100) {
                row[i] = true;
                ratio = ratio - 100 / WIDTH as u32;
                filled = filled + 1;
            }
            i = i + 1;
        }
        let ghost drawn = row@;
        assert(drawn.contains(true)) by {
            assert(drawn[0]);
        }
        shuffle(&mut row, &mut self.rng);
        proof {
            drawn.to_multiset_ensures();
            row@.to_multiset_ensures();
            assert(drawn.to_multiset().count(true) > 0);
            assert(row@.to_multiset().count(true) > 0);
        }
        row
    }

    /// A punishment with a garbage row drawn at random.
    pub fn punish(&mut self) -> (applied: bool)
        requires
            old(self)@.wf(),
        ensures
            exists|row: Seq<bool>|
                row.len() == WIDTH && row.contains(true) && final(self)@ == #[trigger] old(
                    self,
                )@.punished(row),
            final(self)@.wf(),
            applied == old(self)@.is_active(),
    {
        if self.game_over || self.tetromino_id.is_none() {
            let ghost full = Seq::new(WIDTH as nat, |x: int| true);
            assert(full[0]);
            assert(self@.punished(full) == self@);
            return false;
        }
        let row = self.garbage_row();
        self.punish_with(&row)
    }

    /// Restores every field but the random source to its value in a fresh
    /// engine.
    pub fn reset(&mut self)
        ensures
            final(self)@ == GridState::fresh(),
            final(self)@.wf(),
    {
        self.tetromino_id = None;
        self.on_new_tetromino = false;
        self.position = 0;
        self.rotation = 0;
        self.interval = INIT_INTERVAL;
        self.timer = 0;
        self.gravity_bonus = HEIGHT - 1;
        self.score = 0;
        self.cleared = 0;
        self.level = 0;
        self.game_over = false;
        self.cells = vec![false; CELL_COUNT];
        assert(self@ =~= GridState::fresh());
    }

    /// Acknowledges the latest spawn.
    pub fn reset_on_new_tetromino(&mut self)
        ensures
            final(self)@ == (GridState { on_new_tetromino: false, ..old(self)@ }),
    {
        self.on_new_tetromino = false;
    }

    /// Whether the current piece may have a cell at position `a`.
    fn cell_allowed(&self, a: i16, current: &[i16; 4]) -> (r: bool)
        requires
            self@.wf(),
            self@.is_active(),
            forall|i: int| 0 <= i < 4 ==> current[i] == #[trigger] self@.current()[i],
        ensures
            r == (a < 0 || !self@.cell_rejected(a as int)),
    {
        if a < 0 {
            return true;
        }
        let cell = a as usize;
        proof {
            assert(Seq::new(4, |i: int| current[i] as int) =~= self@.current());
        }
        !(cell >= CELL_COUNT || (self.cells[cell] && !contains_cell(current, a)) || (cell
            % WIDTH as usize == 0 && self.position % WIDTH >= WIDTH / 2) || (cell % WIDTH as usize
            == (WIDTH - 1) as usize && self.position % WIDTH < WIDTH / 2))
    }

    /// Moves the falling piece to anchor `new_position` in rotation
    /// `new_rotation` if the move is allowed; tells whether it moved.
    fn move_if_can(&mut self, new_position: u8, new_rotation: u8) -> (moved: bool)
        requires
            old(self)@.wf(),
            old(self)@.is_active(),
            new_rotation < 4,
        ensures
            moved == old(self)@.can_move(new_position as int, new_rotation as int),
            final(self)@ == old(self)@.try_move(new_position, new_rotation),
            final(self)@.wf(),
            moved ==> old(self)@.move_laws(final(self)@),
    {
        let kind = self.tetromino_id.unwrap();
        let tetromino = Tetromino::of_kind(kind);
        let current = tetromino.get_cells(self.position, self.rotation);
        let after = tetromino.get_cells(new_position, new_rotation);
        let ghost before = self@;
        let ghost after_cells = piece_cells(before.kind(), new_position as int, new_rotation as int);
        assert forall|i: int| 0 <= i < 4 implies current[i] == #[trigger] before.current()[i] by {
            assert(tetromino.offset(self.rotation as int, i) == shape_offsets(kind as int, self.rotation as int)[i]);
        }
        assert forall|i: int| 0 <= i < 4 implies after[i] == #[trigger] after_cells[i] by {
            assert(tetromino.offset(new_rotation as int, i) == shape_offsets(kind as int, new_rotation as int)[i]);
        }
        let can_move = self.cell_allowed(after[0], &current) && self.cell_allowed(after[1], &current)
            && self.cell_allowed(after[2], &current) && self.cell_allowed(after[3], &current);
        assert(can_move == before.can_move(new_position as int, new_rotation as int)) by {
            assert(after_cells[0] == after[0] && after_cells[1] == after[1]);
            assert(after_cells[2] == after[2] && after_cells[3] == after[3]);
        }
        if !can_move {
            return false;
        }
        assert forall|i: int| 0 <= i < 4 implies #[trigger] current[i] < CELL_COUNT by {
            assert(before.current()[i] < CELL_COUNT);
        }
        assert forall|i: int| 0 <= i < 4 implies #[trigger] after[i] < CELL_COUNT by {
            assert(after_cells[i] == after[i]);
        }
        set_cells(&mut self.cells, &current, false);
        set_cells(&mut self.cells, &after, true);
        self.position = new_position;
        self.rotation = new_rotation;
        proof {
            assert(Seq::new(4, |i: int| current[i] as int) =~= before.current());
            assert(Seq::new(4, |i: int| after[i] as int) =~= after_cells);
            assert(self@ =~= before.moved_to(new_position, new_rotation));
            lemma_anchor_covered(kind as int, new_rotation as int);
            let k = choose|k: int| 0 <= k < 4 && #[trigger] shape_offsets(kind as int, new_rotation as int)[k] == 0;
            assert(after_cells[k] == new_position);
            assert(!before.cell_rejected(after_cells[k]));
            assert forall|i: int| 0 <= i < 4 implies #[trigger] self@.current()[i] < CELL_COUNT by {
                assert(self@.current()[i] == after_cells[i]);
                if after_cells[i] >= 0 {
                    assert(!before.cell_rejected(after_cells[i]));
                }
            }
            assert(self@.current() =~= after_cells);
            assert forall|i: int| 0 <= i < 4 && #[trigger] self@.current()[i] >= 0 implies self@.cells[self@.current()[i]] by {
                assert(occupies(after_cells, after_cells[i]));
            }
            if before.piece_shown() && before.wholly_on_board() && self@.wholly_on_board() {
                assert forall|i: int| 0 <= i < 4 implies #[trigger] after_cells[i] >= 0 by {
                    assert(self@.current()[i] >= 0);
                }
                lemma_move_keeps_count(before, new_position, new_rotation);
            }
            lemma_no_wrap_across_edges(before, new_position as int, new_rotation as int);
        }
        true
    }
}

} // verus!
