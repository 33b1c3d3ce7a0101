//! The mathematical model of the engine's state and of every operation on it.
use vstd::prelude::*;

use crate::grid::{shape_offsets, CELL_COUNT, HEIGHT, WIDTH};

verus! {

/// Descent interval of a fresh engine, in nanoseconds.
pub const INIT_INTERVAL: u64 = 1_000_000_000;

/// Anchor of a freshly spawned piece: the centre column of the top row.
pub const SPAWN_POSITION: u8 = 4;

/// The four absolute positions, possibly negative, that piece `kind` covers
/// when anchored at `anchor` in rotation state `rot`.
pub open spec fn piece_cells(kind: int, anchor: int, rot: int) -> Seq<int> {
    Seq::new(4, |i: int| anchor + shape_offsets(kind, rot)[i])
}

/// Whether position `j` is one of the four positions `cs`.
pub open spec fn occupies(cs: Seq<int>, j: int) -> bool {
    cs[0] == j || cs[1] == j || cs[2] == j || cs[3] == j
}

/// `a + b`, capped at the largest `u32`.
pub open spec fn add_capped_u32(a: int, b: int) -> u32 {
    if a + b > u32::MAX { u32::MAX } else { (a + b) as u32 }
}

/// `a + b`, capped at the largest `u64`.
pub open spec fn add_capped_u64(a: int, b: int) -> u64 {
    if a + b > u64::MAX { u64::MAX } else { (a + b) as u64 }
}

/// Points for clearing `rows` rows at once, before the gravity bonus and
/// level multipliers; a clear of more than four rows scores as four.
pub open spec fn row_points(rows: int) -> int {
    if rows <= 0 {
        0
    } else if rows == 1 {
        4
    } else if rows == 2 {
        10
    } else if rows == 3 {
        30
    } else {
        120
    }
}

/// Score earned by clearing `rows` rows with the given bonus and level.
pub open spec fn line_score(rows: int, gravity_bonus: int, level: int) -> int {
    row_points(rows) * gravity_bonus * (level + 1)
}

/// The board cut into its rows, top row first.
pub open spec fn board_rows(cells: Seq<bool>) -> Seq<Seq<bool>> {
    Seq::new(
        HEIGHT as nat,
        |r: int| cells.subrange(r * WIDTH as int, r * WIDTH as int + WIDTH as int),
    )
}

/// A row every cell of which is occupied.
pub open spec fn row_is_full(row: Seq<bool>) -> bool {
    forall|x: int| 0 <= x < row.len() ==> row[x]
}

/// The rows that survive a clear, top to bottom.
pub open spec fn kept_rows(cells: Seq<bool>) -> Seq<Seq<bool>> {
    board_rows(cells).filter(|row: Seq<bool>| !row_is_full(row))
}

/// The surviving rows among the first `y`.
pub open spec fn kept_prefix(cells: Seq<bool>, y: int) -> Seq<Seq<bool>> {
    board_rows(cells).take(y).filter(|row: Seq<bool>| !row_is_full(row))
}

/// Filtering one more row adds that row if it survives.
pub proof fn lemma_kept_prefix_step(cells: Seq<bool>, y: int)
    requires
        cells.len() == CELL_COUNT,
        0 <= y < HEIGHT,
    ensures
        kept_prefix(cells, y + 1) == if row_is_full(board_rows(cells)[y]) {
            kept_prefix(cells, y)
        } else {
            kept_prefix(cells, y).push(board_rows(cells)[y])
        },
{
    assert(board_rows(cells).take(y + 1).drop_last() =~= board_rows(cells).take(y));
    reveal(Seq::filter);
}

/// How many rows of the board are full.
pub open spec fn full_row_count(cells: Seq<bool>) -> nat {
    (HEIGHT - kept_rows(cells).len()) as nat
}

/// An empty row.
pub open spec fn empty_row() -> Seq<bool> {
    Seq::new(WIDTH as nat, |x: int| false)
}

/// The board after every full row is removed: the surviving rows keep their
/// order and sink to the bottom, and empty rows fill the top.
pub open spec fn compacted(cells: Seq<bool>) -> Seq<bool> {
    let rows = Seq::new(full_row_count(cells), |r: int| empty_row()) + kept_rows(cells);
    Seq::new(CELL_COUNT as nat, |i: int| rows[i / WIDTH as int][i % WIDTH as int])
}

/// The number of occupied cells.
pub open spec fn occupied_count(cells: Seq<bool>) -> nat
    decreases cells.len(),
{
    if cells.len() == 0 {
        0
    } else {
        occupied_count(cells.drop_last()) + if cells.last() { 1nat } else { 0nat }
    }
}

/// The state of an engine, as the contracts speak of it.
#[verifier::ext_equal]
pub struct GridState {
    pub cells: Seq<bool>,
    pub tetromino_id: Option<usize>,
    pub on_new_tetromino: bool,
    pub position: u8,
    pub rotation: u8,
    pub interval: u64,
    pub timer: u64,
    pub gravity_bonus: u8,
    pub score: u32,
    pub cleared: u32,
    pub level: u8,
    pub game_over: bool,
}

impl GridState {
    /// The state of a freshly constructed engine.
    pub open spec fn fresh() -> GridState {
        GridState {
            cells: Seq::new(CELL_COUNT as nat, |i: int| false),
            tetromino_id: None,
            on_new_tetromino: false,
            position: 0,
            rotation: 0,
            interval: INIT_INTERVAL,
            timer: 0,
            gravity_bonus: (HEIGHT - 1) as u8,
            score: 0,
            cleared: 0,
            level: 0,
            game_over: false,
        }
    }

    /// A piece is falling and the engine still accepts moves.
    pub open spec fn is_active(self) -> bool {
        self.tetromino_id is Some && !self.game_over
    }

    /// The kind of the current piece.
    pub open spec fn kind(self) -> int {
        self.tetromino_id.unwrap() as int
    }

    /// The positions the current piece covers.
    pub open spec fn current(self) -> Seq<int> {
        piece_cells(self.kind(), self.position as int, self.rotation as int)
    }

    /// The board has its size and the piece is from the catalog.
    pub open spec fn shape_wf(self) -> bool {
        &&& self.cells.len() == CELL_COUNT
        &&& self.rotation < 4
        &&& self.tetromino_id matches Some(k) ==> k < 7
    }

    /// Well-formedness: the board has its size, the piece is from the catalog
    /// and a falling piece lies inside the board, though possibly partly above
    /// it.
    pub open spec fn wf(self) -> bool {
        &&& self.shape_wf()
        &&& self.is_active() ==> {
            &&& self.position < CELL_COUNT
            &&& forall|i: int| 0 <= i < 4 ==> #[trigger] self.current()[i] < CELL_COUNT
        }
    }

    /// Every cell of the falling piece that lies on the board is occupied.
    pub open spec fn piece_shown(self) -> bool {
        forall|i: int|
            0 <= i < 4 && #[trigger] self.current()[i] >= 0 ==> self.cells[self.current()[i]]
    }

    /// Whether the current piece may not have a cell at the non-negative
    /// position `a`: it lies past the bottom, on an occupied cell that is not
    /// the piece's own, or on the far edge from the anchor's half of the board.
    pub open spec fn cell_rejected(self, a: int) -> bool {
        ||| a >= CELL_COUNT
        ||| (self.cells[a] && !occupies(self.current(), a))
        ||| (a % WIDTH as int == 0 && self.position % WIDTH >= WIDTH / 2)
        ||| (a % WIDTH as int == WIDTH - 1 && self.position % WIDTH < WIDTH / 2)
    }

    /// Whether the current piece may move to anchor `new_pos` in rotation
    /// `new_rot`; positions above the board are never checked.
    pub open spec fn can_move(self, new_pos: int, new_rot: int) -> bool {
        let after = piece_cells(self.kind(), new_pos, new_rot);
        forall|i: int| 0 <= i < 4 && #[trigger] after[i] >= 0 ==> !self.cell_rejected(after[i])
    }

    /// The state after the current piece is moved to anchor `new_pos` in
    /// rotation `new_rot`: its old cells are freed, then its new cells set.
    pub open spec fn moved_to(self, new_pos: u8, new_rot: u8) -> GridState {
        let before = self.current();
        let after = piece_cells(self.kind(), new_pos as int, new_rot as int);
        GridState {
            cells: Seq::new(
                self.cells.len(),
                |j: int|
                    if occupies(after, j) {
                        true
                    } else if occupies(before, j) {
                        false
                    } else {
                        self.cells[j]
                    },
            ),
            position: new_pos,
            rotation: new_rot,
            ..self
        }
    }

    /// Every cell of the falling piece lies on the board, none above it.
    pub open spec fn wholly_on_board(self) -> bool {
        forall|i: int| 0 <= i < 4 ==> #[trigger] self.current()[i] >= 0
    }

    /// What every committed move of the falling piece from `self` to `next`
    /// keeps: the piece's cells are occupied; a piece wholly on the board
    /// before and after neither creates nor destroys occupied cells; and a
    /// piece anchored in the left half (right half) puts no cell in the
    /// rightmost (leftmost) column.
    pub open spec fn move_laws(self, next: GridState) -> bool {
        &&& next.piece_shown()
        &&& (self.piece_shown() && self.wholly_on_board() && next.wholly_on_board())
            ==> occupied_count(next.cells) == occupied_count(self.cells)
        &&& self.position % WIDTH < WIDTH / 2 ==> forall|i: int|
            0 <= i < 4 && #[trigger] next.current()[i] >= 0 ==> next.current()[i] % WIDTH as int
                != WIDTH - 1
        &&& self.position % WIDTH >= WIDTH / 2 ==> forall|i: int|
            0 <= i < 4 && #[trigger] next.current()[i] >= 0 ==> next.current()[i] % WIDTH as int
                != 0
    }

    /// A move attempt: the move if it is allowed, else nothing changes.
    pub open spec fn try_move(self, new_pos: u8, new_rot: u8) -> GridState {
        if self.can_move(new_pos as int, new_rot as int) {
            self.moved_to(new_pos, new_rot)
        } else {
            self
        }
    }

    /// The state after the falling piece can descend no further: its cells
    /// stay, full rows are removed and scored.
    pub open spec fn locked(self) -> GridState {
        let rows = full_row_count(self.cells);
        GridState {
            cells: compacted(self.cells),
            cleared: add_capped_u32(self.cleared as int, rows as int),
            score: add_capped_u32(
                self.score as int,
                line_score(rows as int, self.gravity_bonus as int, self.level as int),
            ),
            ..self
        }
    }

    /// Whether piece `kind` in its spawn place overlaps an occupied cell.
    pub open spec fn spawn_blocked(self, kind: int) -> bool {
        let cs = piece_cells(kind, SPAWN_POSITION as int, 0);
        self.cells[cs[0]] || self.cells[cs[1]] || self.cells[cs[2]] || self.cells[cs[3]]
    }

    /// The state after piece `kind` spawns at the top centre: if its cells
    /// are free it is placed there, otherwise the game is over and the board
    /// stays as it was.
    pub open spec fn spawned(self, kind: int) -> GridState {
        let cs = piece_cells(kind, SPAWN_POSITION as int, 0);
        let blocked = self.spawn_blocked(kind);
        GridState {
            cells: if blocked {
                self.cells
            } else {
                Seq::new(self.cells.len(), |j: int| occupies(cs, j) || self.cells[j])
            },
            tetromino_id: Some(kind as usize),
            on_new_tetromino: !blocked,
            position: SPAWN_POSITION,
            rotation: 0,
            gravity_bonus: 0,
            game_over: blocked,
            ..self
        }
    }

    /// A spawn request: a no-op once the game is over.
    pub open spec fn spawn(self, kind: int) -> GridState {
        if self.game_over {
            self
        } else {
            self.spawned(kind)
        }
    }

    /// One descent of the falling piece; `kind` is the piece that spawns if
    /// this one locks.
    pub open spec fn fall(self, due_to_gravity: bool, kind: int) -> GridState {
        if !self.is_active() {
            self
        } else if self.can_move(self.position + WIDTH, self.rotation as int) {
            let moved = self.moved_to((self.position + WIDTH) as u8, self.rotation);
            if due_to_gravity && moved.gravity_bonus < u8::MAX {
                GridState { gravity_bonus: (moved.gravity_bonus + 1) as u8, ..moved }
            } else {
                moved
            }
        } else {
            self.locked().spawned(kind)
        }
    }

    /// `elapsed` nanoseconds pass; `kind` is the piece that spawns if one is
    /// needed.
    pub open spec fn tick(self, elapsed: u64, kind: int) -> GridState {
        if self.game_over {
            self
        } else {
            let timer = add_capped_u64(self.timer as int, elapsed as int);
            if timer >= self.interval {
                let due = GridState { timer: (timer - self.interval) as u64, ..self };
                if due.tetromino_id is Some {
                    due.fall(true, kind)
                } else {
                    due.spawned(kind)
                }
            } else {
                GridState { timer, ..self }
            }
        }
    }

    /// Whether the anchor `offset` positions away from the current one lies
    /// on the board.
    pub open spec fn offset_on_board(self, offset: int) -> bool {
        0 <= self.position + offset < CELL_COUNT
    }

    /// A sideways move by `offset` positions: refused when the new anchor
    /// would leave the board.
    pub open spec fn horizontal_move(self, offset: int) -> GridState {
        if !self.is_active() || !self.offset_on_board(offset) {
            self
        } else {
            self.try_move((self.position + offset) as u8, self.rotation)
        }
    }

    /// A turn to the next rotation state about the anchor.
    pub open spec fn rotate(self) -> GridState {
        if !self.is_active() {
            self
        } else {
            self.try_move(self.position, ((self.rotation + 1) % 4) as u8)
        }
    }

    /// Whether cell `i` belongs to the falling piece or lies right above one
    /// of its cells; such a cell keeps its value when the board moves up.
    pub open spec fn shields(self, i: int) -> bool {
        occupies(self.current(), i) || occupies(self.current(), i + WIDTH)
    }

    /// The state after a punishment with garbage row `row`: every cell but the
    /// piece's own (and those right above them) takes the value of the cell
    /// below it, and the bottom row becomes `row`, except where the piece
    /// lies.
    pub open spec fn punished(self, row: Seq<bool>) -> GridState {
        if !self.is_active() {
            self
        } else {
            let bottom = CELL_COUNT - WIDTH;
            GridState {
                cells: Seq::new(
                    self.cells.len(),
                    |i: int|
                        if i >= bottom && !occupies(self.current(), i) {
                            row[i - bottom]
                        } else if i >= bottom || self.shields(i) {
                            self.cells[i]
                        } else {
                            self.cells[i + WIDTH]
                        },
                ),
                ..self
            }
        }
    }
}

} // verus!
