//! Properties that hold across the engine's operations, proved over the
//! model.
use vstd::prelude::*;

use crate::grid::{CELL_COUNT, HEIGHT, WIDTH};
use crate::model::{
    board_rows, compacted, empty_row, full_row_count, kept_prefix, kept_rows,
    lemma_kept_prefix_step, occupied_count, occupies, piece_cells, row_is_full, GridState,
    INIT_INTERVAL, SPAWN_POSITION,
};

verus! {

/// How many of the rows `lo..hi` of the board are full.
pub open spec fn full_rows_in(cells: Seq<bool>, lo: int, hi: int) -> nat
    decreases hi - lo,
{
    if hi <= lo {
        0
    } else {
        full_rows_in(cells, lo, hi - 1) + if row_is_full(board_rows(cells)[hi - 1]) {
            1nat
        } else {
            0nat
        }
    }
}

/// Of the first `y` rows, the full ones are dropped and the others kept.
proof fn lemma_kept_prefix_len(cells: Seq<bool>, y: int)
    requires
        cells.len() == CELL_COUNT,
        0 <= y <= HEIGHT,
    ensures
        kept_prefix(cells, y).len() + full_rows_in(cells, 0, y) == y,
    decreases y,
{
    if y == 0 {
        assert(board_rows(cells).take(0) =~= Seq::<Seq<bool>>::empty());
        reveal(Seq::filter);
    } else {
        lemma_kept_prefix_len(cells, y - 1);
        lemma_kept_prefix_step(cells, y - 1);
    }
}

/// A kept row stays at its place when later rows are filtered in.
proof fn lemma_kept_prefix_grows(cells: Seq<bool>, y: int, z: int, k: int)
    requires
        cells.len() == CELL_COUNT,
        0 <= y <= z <= HEIGHT,
        0 <= k < kept_prefix(cells, y).len(),
    ensures
        k < kept_prefix(cells, z).len(),
        kept_prefix(cells, z)[k] == kept_prefix(cells, y)[k],
    decreases z - y,
{
    if y < z {
        lemma_kept_prefix_step(cells, y);
        lemma_kept_prefix_grows(cells, y + 1, z, k);
    }
}

/// Full rows split at any row in between.
proof fn lemma_full_rows_split(cells: Seq<bool>, lo: int, mid: int, hi: int)
    requires
        lo <= mid <= hi,
    ensures
        full_rows_in(cells, lo, hi) == full_rows_in(cells, lo, mid) + full_rows_in(cells, mid, hi),
    decreases hi - mid,
{
    if mid < hi {
        lemma_full_rows_split(cells, lo, mid, hi - 1);
    }
}

/// Clearing removes full rows whole and moves every other row down by the
/// number of full rows below it: the top rows, as many as were full, come out
/// empty, and each row that was not full reappears intact that many rows
/// lower.
pub proof fn lemma_clear_shifts_rows(cells: Seq<bool>)
    requires
        cells.len() == CELL_COUNT,
    ensures
        full_row_count(cells) == full_rows_in(cells, 0, HEIGHT as int),
        forall|j: int| 0 <= j < full_row_count(cells) * WIDTH ==> !#[trigger] compacted(cells)[j],
        forall|r: int, x: int|
            0 <= r < HEIGHT && 0 <= x < WIDTH && !row_is_full(#[trigger] board_rows(cells)[r])
                ==> compacted(cells)[(r + full_rows_in(cells, r + 1, HEIGHT as int)) * WIDTH + x]
                == #[trigger] cells[r * WIDTH + x],
{
    let h = HEIGHT as int;
    assert(board_rows(cells).take(h) =~= board_rows(cells));
    lemma_kept_prefix_len(cells, h);
    let n = full_row_count(cells);
    let rows = Seq::new(n, |r: int| empty_row()) + kept_rows(cells);
    assert forall|j: int| 0 <= j < n * WIDTH implies !#[trigger] compacted(cells)[j] by {
        assert(j / (WIDTH as int) < n);
    }
    assert forall|r: int, x: int|
        0 <= r < HEIGHT && 0 <= x < WIDTH && !row_is_full(#[trigger] board_rows(cells)[r])
        implies compacted(cells)[(r + full_rows_in(cells, r + 1, h)) * WIDTH + x]
        == #[trigger] cells[r * WIDTH + x] by {
        lemma_kept_prefix_len(cells, r);
        lemma_kept_prefix_step(cells, r);
        let k = kept_prefix(cells, r).len() as int;
        lemma_kept_prefix_grows(cells, r + 1, h, k);
        lemma_full_rows_split(cells, 0, r + 1, h);
        let j = r + full_rows_in(cells, r + 1, h);
        assert(j == n + k);
        let i = j * WIDTH + x;
        assert(i / (WIDTH as int) == j && i % (WIDTH as int) == x);
        assert(rows[j] == kept_rows(cells)[k]);
        assert(board_rows(cells)[r][x] == cells[r * WIDTH + x]);
    }
}

/// No full row at all means no full row in any range of rows.
proof fn lemma_no_full_rows_in(cells: Seq<bool>, lo: int, hi: int)
    requires
        0 <= lo <= hi <= HEIGHT,
        full_rows_in(cells, 0, HEIGHT as int) == 0,
    ensures
        full_rows_in(cells, lo, hi) == 0,
        forall|r: int| lo <= r < hi ==> !row_is_full(#[trigger] board_rows(cells)[r]),
    decreases hi - lo,
{
    lemma_full_rows_split(cells, 0, lo, HEIGHT as int);
    lemma_full_rows_split(cells, lo, hi, HEIGHT as int);
    if lo < hi {
        lemma_no_full_rows_in(cells, lo, hi - 1);
    }
}

/// A lock that completes no row keeps the board as it is: the piece's cells
/// simply stay occupied, and only the score bookkeeping runs.
pub proof fn lemma_lock_without_full_rows(s: GridState)
    requires
        s.wf(),
        full_row_count(s.cells) == 0,
    ensures
        s.locked().cells == s.cells,
        occupied_count(s.locked().cells) == occupied_count(s.cells),
{
    lemma_clear_shifts_rows(s.cells);
    lemma_no_full_rows_in(s.cells, 0, HEIGHT as int);
    assert forall|i: int| 0 <= i < CELL_COUNT implies #[trigger] compacted(s.cells)[i] == s.cells[i] by {
        let r = i / (WIDTH as int);
        let x = i % (WIDTH as int);
        assert(i == r * WIDTH + x);
        lemma_no_full_rows_in(s.cells, r + 1, HEIGHT as int);
        assert(!row_is_full(board_rows(s.cells)[r]));
    }
    assert(compacted(s.cells) =~= s.cells);
}

/// Setting one cell changes the count by what it adds and what it removes.
proof fn lemma_count_update(s: Seq<bool>, j: int, v: bool)
    requires
        0 <= j < s.len(),
    ensures
        occupied_count(s.update(j, v)) + (if s[j] { 1int } else { 0int }) == occupied_count(s) + (
        if v {
            1int
        } else {
            0int
        }),
    decreases s.len(),
{
    if j == s.len() - 1 {
        assert(s.update(j, v).drop_last() =~= s.drop_last());
    } else {
        lemma_count_update(s.drop_last(), j, v);
        assert(s.update(j, v).drop_last() =~= s.drop_last().update(j, v));
    }
}

/// `s` with every cell at one of the positions `cs` set to `v`.
spec fn set_all(s: Seq<bool>, cs: Seq<int>, v: bool) -> Seq<bool> {
    Seq::new(s.len(), |j: int| if occupies(cs, j) { v } else { s[j] })
}

/// Setting four distinct cells to `v`, none of which held `v`, moves the
/// count by four.
proof fn lemma_count_set_four(s: Seq<bool>, cs: Seq<int>, v: bool)
    requires
        cs.len() == 4,
        forall|i: int| 0 <= i < 4 ==> 0 <= #[trigger] cs[i] < s.len() && s[cs[i]] != v,
        forall|i: int, k: int| 0 <= i < k < 4 ==> cs[i] != cs[k],
    ensures
        occupied_count(set_all(s, cs, v)) == occupied_count(s) + if v { 4int } else { -4int },
{
    let s1 = s.update(cs[0], v);
    let s2 = s1.update(cs[1], v);
    let s3 = s2.update(cs[2], v);
    let s4 = s3.update(cs[3], v);
    assert(0 <= cs[0] < s.len() && 0 <= cs[1] < s.len());
    assert(0 <= cs[2] < s.len() && 0 <= cs[3] < s.len());
    assert(cs[0] != cs[1] && cs[0] != cs[2] && cs[0] != cs[3]);
    assert(cs[1] != cs[2] && cs[1] != cs[3] && cs[2] != cs[3]);
    lemma_count_update(s, cs[0], v);
    lemma_count_update(s1, cs[1], v);
    lemma_count_update(s2, cs[2], v);
    lemma_count_update(s3, cs[3], v);
    assert(s4 =~= set_all(s, cs, v));
}

/// The four cells of a piece are distinct.
proof fn lemma_cells_distinct(kind: int, anchor: int, rot: int)
    requires
        0 <= kind < 7,
        0 <= rot < 4,
    ensures
        forall|i: int, k: int|
            0 <= i < k < 4 ==> piece_cells(kind, anchor, rot)[i] != piece_cells(kind, anchor, rot)[k],
{
}

/// A move of a piece that lies wholly on the board, to a place wholly on the
/// board, neither creates nor destroys occupied cells.
pub proof fn lemma_move_keeps_count(s: GridState, new_pos: u8, new_rot: u8)
    requires
        s.wf(),
        s.is_active(),
        s.piece_shown(),
        new_rot < 4,
        s.can_move(new_pos as int, new_rot as int),
        forall|i: int| 0 <= i < 4 ==> #[trigger] s.current()[i] >= 0,
        forall|i: int|
            0 <= i < 4 ==> #[trigger] piece_cells(s.kind(), new_pos as int, new_rot as int)[i] >= 0,
    ensures
        occupied_count(s.moved_to(new_pos, new_rot).cells) == occupied_count(s.cells),
{
    let cur = s.current();
    let after = piece_cells(s.kind(), new_pos as int, new_rot as int);
    lemma_cells_distinct(s.kind(), s.position as int, s.rotation as int);
    lemma_cells_distinct(s.kind(), new_pos as int, new_rot as int);
    assert forall|i: int| 0 <= i < 4 implies 0 <= #[trigger] cur[i] < s.cells.len() && s.cells[cur[i]] != false by {
        assert(cur[i] >= 0);
    }
    lemma_count_set_four(s.cells, cur, false);
    let cleared = set_all(s.cells, cur, false);
    assert forall|i: int| 0 <= i < 4 implies 0 <= #[trigger] after[i] < cleared.len() && cleared[after[i]] != true by {
        assert(after[i] >= 0);
        assert(!s.cell_rejected(after[i]));
    }
    lemma_count_set_four(cleared, after, true);
    assert(set_all(cleared, after, true) =~= s.moved_to(new_pos, new_rot).cells);
}

/// A spawn that does not end the game occupies exactly four more cells.
pub proof fn lemma_spawn_adds_four(s: GridState, kind: int)
    requires
        s.shape_wf(),
        !s.game_over,
        0 <= kind < 7,
        !s.spawn(kind).game_over,
    ensures
        occupied_count(s.spawn(kind).cells) == occupied_count(s.cells) + 4,
{
    let cs = piece_cells(kind, SPAWN_POSITION as int, 0);
    lemma_cells_distinct(kind, SPAWN_POSITION as int, 0);
    assert forall|i: int| 0 <= i < 4 implies 0 <= #[trigger] cs[i] < s.cells.len() && s.cells[cs[i]] != true by {
    }
    lemma_count_set_four(s.cells, cs, true);
    assert(set_all(s.cells, cs, true) =~= s.spawn(kind).cells);
}

/// After a clear no row of the board is full.
pub proof fn lemma_clear_leaves_no_full_row(cells: Seq<bool>)
    requires
        cells.len() == CELL_COUNT,
    ensures
        forall|r: int|
            0 <= r < HEIGHT ==> !row_is_full(#[trigger] board_rows(compacted(cells))[r]),
{
    let h = HEIGHT as int;
    assert(board_rows(cells).take(h) =~= board_rows(cells));
    lemma_kept_prefix_len(cells, h);
    let n = full_row_count(cells);
    let kept = kept_rows(cells);
    let rows = Seq::new(n, |r: int| empty_row()) + kept;
    assert forall|r: int| 0 <= r < HEIGHT implies !row_is_full(
        #[trigger] board_rows(compacted(cells))[r],
    ) by {
        let row = board_rows(compacted(cells))[r];
        assert forall|x: int| 0 <= x < WIDTH implies row[x] == rows[r][x] by {
            let i = r * WIDTH + x;
            assert(i / (WIDTH as int) == r && i % (WIDTH as int) == x);
        }
        if r < n {
            assert(!row[0]);
        } else {
            let k = r - n;
            assert(rows[r] == kept[k]);
            board_rows(cells).lemma_filter_pred(|row: Seq<bool>| !row_is_full(row), k);
            board_rows(cells).lemma_filter_contains_rev(|row: Seq<bool>| !row_is_full(row), kept[k]);
            let m = choose|m: int| 0 <= m < board_rows(cells).len() && board_rows(cells)[m] == kept[k];
            assert(kept[k].len() == WIDTH);
            let x = choose|x: int| 0 <= x < kept[k].len() && !kept[k][x];
            assert(!row[x]);
        }
    }
}

/// The occupied cells of a sequence of rows.
pub open spec fn rows_count(rows: Seq<Seq<bool>>) -> int
    decreases rows.len(),
{
    if rows.len() == 0 {
        0
    } else {
        rows_count(rows.drop_last()) + occupied_count(rows.last())
    }
}

proof fn lemma_count_concat(a: Seq<bool>, b: Seq<bool>)
    ensures
        occupied_count(a + b) == occupied_count(a) + occupied_count(b),
    decreases b.len(),
{
    if b.len() == 0 {
        assert(a + b =~= a);
    } else {
        lemma_count_concat(a, b.drop_last());
        assert((a + b).drop_last() =~= a + b.drop_last());
    }
}

proof fn lemma_count_uniform(s: Seq<bool>, v: bool)
    requires
        forall|i: int| 0 <= i < s.len() ==> s[i] == v,
    ensures
        occupied_count(s) == if v { s.len() as int } else { 0 },
    decreases s.len(),
{
    if s.len() > 0 {
        lemma_count_uniform(s.drop_last(), v);
    }
}

proof fn lemma_rows_count_concat(a: Seq<Seq<bool>>, b: Seq<Seq<bool>>)
    ensures
        rows_count(a + b) == rows_count(a) + rows_count(b),
    decreases b.len(),
{
    if b.len() == 0 {
        assert(a + b =~= a);
    } else {
        lemma_rows_count_concat(a, b.drop_last());
        assert((a + b).drop_last() =~= a + b.drop_last());
    }
}

proof fn lemma_rows_count_empty(n: nat)
    ensures
        rows_count(Seq::new(n, |r: int| empty_row())) == 0,
    decreases n,
{
    if n > 0 {
        lemma_rows_count_empty((n - 1) as nat);
        assert(Seq::new(n, |r: int| empty_row()).drop_last() =~= Seq::new(
            (n - 1) as nat,
            |r: int| empty_row(),
        ));
        lemma_count_uniform(empty_row(), false);
    }
}

/// Rows of `WIDTH` cells: dropping the full ones drops `WIDTH` cells each.
proof fn lemma_rows_count_filter(rows: Seq<Seq<bool>>)
    requires
        forall|r: int| 0 <= r < rows.len() ==> (#[trigger] rows[r]).len() == WIDTH,
    ensures
        rows_count(rows) == rows_count(rows.filter(|row: Seq<bool>| !row_is_full(row))) + WIDTH * (
        rows.len() - rows.filter(|row: Seq<bool>| !row_is_full(row)).len()),
    decreases rows.len(),
{
    reveal(Seq::filter);
    if rows.len() > 0 {
        let init = rows.drop_last();
        lemma_rows_count_filter(init);
        let kept = init.filter(|row: Seq<bool>| !row_is_full(row));
        if row_is_full(rows.last()) {
            lemma_count_uniform(rows.last(), true);
        } else {
            assert(kept.push(rows.last()).drop_last() =~= kept);
        }
    }
}

/// The rows of the first `m` rows' worth of cells.
spec fn first_rows(cells: Seq<bool>, m: int) -> Seq<Seq<bool>> {
    Seq::new(
        m as nat,
        |r: int| cells.subrange(r * WIDTH as int, r * WIDTH as int + WIDTH as int),
    )
}

proof fn lemma_count_by_rows(cells: Seq<bool>, m: int)
    requires
        0 <= m,
        m * WIDTH <= cells.len(),
    ensures
        occupied_count(cells.take(m * WIDTH)) == rows_count(first_rows(cells, m)),
    decreases m,
{
    if m == 0 {
        assert(cells.take(0) =~= Seq::<bool>::empty());
    } else {
        lemma_count_by_rows(cells, m - 1);
        assert(first_rows(cells, m).drop_last() =~= first_rows(cells, m - 1));
        let lo = (m - 1) * WIDTH;
        assert(cells.take(m * WIDTH) =~= cells.take(lo) + cells.subrange(lo, lo + WIDTH));
        lemma_count_concat(cells.take(lo), cells.subrange(lo, lo + WIDTH));
    }
}

/// The occupied cells of a board are those of its rows.
proof fn lemma_board_count(cells: Seq<bool>)
    requires
        cells.len() == CELL_COUNT,
    ensures
        occupied_count(cells) == rows_count(board_rows(cells)),
{
    lemma_count_by_rows(cells, HEIGHT as int);
    assert(cells.take(CELL_COUNT as int) =~= cells);
    assert(first_rows(cells, HEIGHT as int) =~= board_rows(cells));
}

/// A clear removes exactly the cells of the full rows: `WIDTH` occupied
/// cells for each full row.
pub proof fn lemma_clear_count(cells: Seq<bool>)
    requires
        cells.len() == CELL_COUNT,
    ensures
        occupied_count(compacted(cells)) == occupied_count(cells) - WIDTH * full_row_count(cells),
{
    let h = HEIGHT as int;
    assert(board_rows(cells).take(h) =~= board_rows(cells));
    lemma_kept_prefix_len(cells, h);
    let n = full_row_count(cells);
    let kept = kept_rows(cells);
    let rows = Seq::new(n, |r: int| empty_row()) + kept;
    assert forall|k: int| 0 <= k < kept.len() implies (#[trigger] kept[k]).len() == WIDTH by {
        board_rows(cells).lemma_filter_contains_rev(|row: Seq<bool>| !row_is_full(row), kept[k]);
    }
    assert forall|r: int| 0 <= r < HEIGHT implies #[trigger] board_rows(compacted(cells))[r]
        == rows[r] by {
        assert forall|x: int| 0 <= x < WIDTH implies board_rows(compacted(cells))[r][x]
            == rows[r][x] by {
            let i = r * WIDTH + x;
            assert(i / (WIDTH as int) == r && i % (WIDTH as int) == x);
        }
        assert(board_rows(compacted(cells))[r] =~= rows[r]);
    }
    assert(board_rows(compacted(cells)) =~= rows);
    lemma_board_count(cells);
    lemma_board_count(compacted(cells));
    lemma_rows_count_concat(Seq::new(n, |r: int| empty_row()), kept);
    lemma_rows_count_empty(n);
    lemma_rows_count_filter(board_rows(cells));
}

/// A spawn on an empty board never ends the game; a spawn whose target cells
/// are taken, even one of them, always does.
pub proof fn lemma_spawn_game_over(s: GridState, kind: int)
    requires
        s.shape_wf(),
        !s.game_over,
        0 <= kind < 7,
    ensures
        (forall|j: int| 0 <= j < CELL_COUNT ==> !#[trigger] s.cells[j]) ==> !s.spawn(
            kind,
        ).game_over,
        (exists|i: int|
            0 <= i < 4 && #[trigger] s.cells[piece_cells(kind, SPAWN_POSITION as int, 0)[i]])
            ==> s.spawn(kind).game_over,
        !s.spawn(kind).game_over ==> s.spawn(kind).is_active() && s.spawn(kind).piece_shown(),
{
    let cs = piece_cells(kind, SPAWN_POSITION as int, 0);
    assert(0 <= cs[0] < CELL_COUNT && 0 <= cs[1] < CELL_COUNT);
    assert(0 <= cs[2] < CELL_COUNT && 0 <= cs[3] < CELL_COUNT);
    if exists|i: int| 0 <= i < 4 && #[trigger] s.cells[cs[i]] {
        let i = choose|i: int| 0 <= i < 4 && #[trigger] s.cells[cs[i]];
        assert(s.cells[cs[i]]);
    }
    let t = s.spawn(kind);
    if !t.game_over {
        assert forall|i: int| 0 <= i < 4 && #[trigger] t.current()[i] >= 0 implies t.cells[t.current()[i]] by {
            assert(t.current()[i] == cs[i]);
            assert(occupies(cs, cs[i]));
        }
    }
}

/// A punishment leaves the falling piece where it is: its anchor, its
/// rotation and every one of its cells, in the bottom row too; every other
/// cell not right above the piece takes the value of the cell below it.
pub proof fn lemma_punish_keeps_piece(s: GridState, row: Seq<bool>)
    requires
        s.wf(),
        s.is_active(),
        row.len() == WIDTH,
    ensures
        s.punished(row).position == s.position,
        s.punished(row).rotation == s.rotation,
        s.punished(row).tetromino_id == s.tetromino_id,
        forall|i: int|
            0 <= i < 4 && #[trigger] s.current()[i] >= 0 ==> s.punished(row).cells[s.current()[i]]
                == s.cells[s.current()[i]],
        forall|j: int|
            0 <= j < CELL_COUNT - WIDTH && !s.shields(j) ==> #[trigger] s.punished(row).cells[j]
                == s.cells[j + WIDTH],
{
    assert forall|i: int|
        0 <= i < 4 && #[trigger] s.current()[i] >= 0 implies s.punished(row).cells[s.current()[i]]
        == s.cells[s.current()[i]] by {
        assert(occupies(s.current(), s.current()[i]));
    }
}

/// Reset and construction agree: both give the fresh state, which has an empty
/// board, no score, no cleared rows, level zero, no piece and no game over.
pub proof fn lemma_fresh_state()
    ensures
        GridState::fresh().wf(),
        forall|j: int| 0 <= j < CELL_COUNT ==> !#[trigger] GridState::fresh().cells[j],
        GridState::fresh().cells.len() == CELL_COUNT,
        GridState::fresh().score == 0,
        GridState::fresh().cleared == 0,
        GridState::fresh().level == 0,
        GridState::fresh().tetromino_id is None,
        !GridState::fresh().game_over,
        GridState::fresh().timer == 0,
        GridState::fresh().interval == INIT_INTERVAL,
{
}

/// A piece anchored in the left half of the board (the leftmost column
/// included) never moves a cell into the rightmost column, and one anchored
/// in the right half never moves a cell into the leftmost column.
pub proof fn lemma_no_wrap_across_edges(s: GridState, new_pos: int, new_rot: int)
    requires
        s.wf(),
        s.is_active(),
        s.can_move(new_pos, new_rot),
    ensures
        s.position % WIDTH < WIDTH / 2 ==> forall|i: int|
            0 <= i < 4 && #[trigger] piece_cells(s.kind(), new_pos, new_rot)[i] >= 0 ==> piece_cells(
                s.kind(),
                new_pos,
                new_rot,
            )[i] % WIDTH as int != WIDTH - 1,
        s.position % WIDTH >= WIDTH / 2 ==> forall|i: int|
            0 <= i < 4 && #[trigger] piece_cells(s.kind(), new_pos, new_rot)[i] >= 0 ==> piece_cells(
                s.kind(),
                new_pos,
                new_rot,
            )[i] % WIDTH as int != 0,
{
}

} // verus!
