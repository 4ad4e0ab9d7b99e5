//! Properties of the game that relate several steps, proved from the
//! relations that the operations' contracts state.

use vstd::prelude::*;
use crate::game_state::{
    cleared,
    full_row,
    kept_rows,
    lemma_kept_rows_push,
    matrix_wf,
    MATRIX_HEIGHT,
    MATRIX_WIDTH,
    row_of,
    rows_of,
    advanced,
    can_fall,
    Cells,
    clock_fired,
    game_wf,
    GameView,
    hold_step,
    interval_left,
    kick_candidate,
    kick_search,
    LOCK_INTERVAL,
    lock_step,
    FALL_INTERVAL,
    fits,
    moved_to,
    Piece,
    shifted,
    spawned,
    TimeStateAction,
    timed_wf,
    TimedView,
    waited,
};

verus! {

/// The kick search from candidate `k0` on finds the first candidate from
/// `k0` on that fits.
proof fn lemma_kick_search_first_from(cells: Cells, p: Piece, to: int, k0: int)
    requires
        0 <= k0 <= 5,
    ensures
        match kick_search(cells, p, to, k0) {
            Some(q) => exists|k: int|
                k0 <= k < 5 && q == kick_candidate(p, to, k) && fits(cells, q) && forall|j: int|
                    k0 <= j < k ==> !fits(cells, #[trigger] kick_candidate(p, to, j)),
            None => forall|k: int| k0 <= k < 5 ==> !fits(cells, #[trigger] kick_candidate(p, to, k)),
        },
    decreases 5 - k0,
{
    if k0 < 5 {
        lemma_kick_search_first_from(cells, p, to, k0 + 1);
        if !fits(cells, kick_candidate(p, to, k0)) {
            match kick_search(cells, p, to, k0 + 1) {
                Some(q) => {
                    let k = choose|k: int|
                        k0 + 1 <= k < 5 && q == kick_candidate(p, to, k) && fits(cells, q) && forall|j: int|
                            k0 + 1 <= j < k ==> !fits(cells, #[trigger] kick_candidate(p, to, j));
                    assert(forall|j: int| k0 <= j < k ==> !fits(cells, #[trigger] kick_candidate(p, to, j)));
                },
                None => {},
            }
        } else {
            assert(forall|j: int| k0 <= j < k0 ==> !fits(cells, #[trigger] kick_candidate(p, to, j)));
        }
    }
}

/// Rotation kick determinism: turning a piece on a given field accepts the
/// first of the five kick candidates, in table order, that fits, and fails
/// only when none does. The outcome depends on the field, the piece and the
/// target orientation alone.
pub proof fn lemma_rotation_takes_first_fitting_kick(cells: Cells, p: Piece, to: int)
    ensures
        match kick_search(cells, p, to, 0) {
            Some(q) => exists|k: int|
                0 <= k < 5 && q == kick_candidate(p, to, k) && fits(cells, q) && forall|j: int|
                    0 <= j < k ==> !fits(cells, #[trigger] kick_candidate(p, to, j)),
            None => forall|k: int| 0 <= k < 5 ==> !fits(cells, #[trigger] kick_candidate(p, to, k)),
        },
{
    lemma_kick_search_first_from(cells, p, to, 0);
}

/// Hold round trip: holding with nothing held keeps the falling kind and
/// spawns the front of the preview; holding again brings the kept kind back
/// at the spawn position and orientation 0, and holds the kind that had
/// spawned. The field is untouched throughout.
pub proof fn lemma_hold_round_trip(g0: GameView, g1: GameView, g2: GameView)
    requires
        game_wf(g0),
        g0.held is None,
        hold_step(g0, g1),
        hold_step(g1, g2),
    ensures
        g1.held == Some(g0.falling.kind),
        g1.falling == spawned(g0.preview[0]),
        g2.falling == spawned(g0.falling.kind),
        g2.held == Some(g0.preview[0]),
        g2.cells == g0.cells,
        g2.preview == g1.preview,
        g2.bag == g1.bag,
{
}

/// After one full fall interval, a falling piece has fallen one row: its fall
/// interval starts again if it still has room to fall, and it is locking
/// otherwise.
pub proof fn lemma_one_fall_per_fall_interval(s: TimedView, s2: TimedView)
    requires
        timed_wf(s),
        s.time.action == (TimeStateAction::Falling { time_to_fall: FALL_INTERVAL }),
        advanced(s, FALL_INTERVAL as int, s2),
    ensures
        s2.game == moved_to(s.game, shifted(s.game.falling, 0, -1)),
        fits(s.game.cells, shifted(s.game.falling, 0, -1)),
        can_fall(s2.game) ==> s2.time.action == (TimeStateAction::Falling { time_to_fall: FALL_INTERVAL }),
        !can_fall(s2.game) ==> s2.time.action is Locking,
        s2.time.time_to_lock == s.time.time_to_lock,
{
    let mid = choose|mid: TimedView|
        #[trigger] clock_fired(s, mid) && advanced(mid, FALL_INTERVAL - interval_left(s.time), s2);
    assert(interval_left(mid.time) > 0);
    assert(waited(mid.time, 0) == mid.time);
}

/// A piece that has just begun locking locks once, and only once, in the
/// next `2 * LOCK_INTERVAL - 1` milliseconds: after the lock, the next piece
/// at most falls one row.
pub proof fn lemma_one_lock_per_lock_interval(s: TimedView, s2: TimedView)
    requires
        timed_wf(s),
        s.time.action is Locking,
        s.time.time_to_lock == LOCK_INTERVAL,
        advanced(s, 2 * LOCK_INTERVAL - 1, s2),
    ensures
        exists|g: GameView|
            lock_step(s.game, g) && (s2.game == g || s2.game == moved_to(g, shifted(g.falling, 0, -1))),
{
    let budget = 2 * LOCK_INTERVAL - 1;
    let mid = choose|mid: TimedView| #[trigger] clock_fired(s, mid) && advanced(mid, budget - interval_left(s.time), s2);
    let rest = budget - interval_left(s.time);
    assert(rest == LOCK_INTERVAL - 1);
    if can_fall(mid.game) {
        assert(interval_left(mid.time) == FALL_INTERVAL);
        let mid2 = choose|mid2: TimedView| #[trigger] clock_fired(mid, mid2) && advanced(mid2, rest - interval_left(mid.time), s2);
        assert(interval_left(mid2.time) > rest - interval_left(mid.time));
        assert(s2.game == mid2.game);
    } else {
        assert(interval_left(mid.time) == LOCK_INTERVAL);
        assert(s2.game == mid.game);
    }
}

/// The number of full rows among rows `0 .. r` of the field.
pub open spec fn full_rows_below(cells: Cells, r: int) -> int
    decreases r,
{
    if r <= 0 {
        0
    } else {
        full_rows_below(cells, r - 1) + if full_row(row_of(cells, r - 1)) {
            1int
        } else {
            0
        }
    }
}

/// The rows kept from the first `a` rows begin the rows kept from the first
/// `b`, for `a <= b`.
proof fn lemma_kept_rows_prefix(rows: Seq<Seq<Option<crate::TetrominoType>>>, a: int, b: int)
    requires
        0 <= a <= b <= rows.len(),
    ensures
        kept_rows(rows.subrange(0, a)).len() <= kept_rows(rows.subrange(0, b)).len(),
        forall|i: int|
            0 <= i < kept_rows(rows.subrange(0, a)).len() ==> kept_rows(rows.subrange(0, b))[i]
                == #[trigger] kept_rows(rows.subrange(0, a))[i],
    decreases b - a,
{
    if a < b {
        lemma_kept_rows_prefix(rows, a, b - 1);
        lemma_kept_rows_push(rows, b - 1);
    }
}

/// The first `r` rows keep `r` minus the full ones among them.
proof fn lemma_kept_rows_len(cells: Cells, r: int)
    requires
        0 <= r <= MATRIX_HEIGHT,
    ensures
        kept_rows(rows_of(cells).subrange(0, r)).len() == r - full_rows_below(cells, r),
    decreases r,
{
    if r > 0 {
        lemma_kept_rows_len(cells, r - 1);
        lemma_kept_rows_push(rows_of(cells), r - 1);
        assert(rows_of(cells)[r - 1] == row_of(cells, r - 1));
    }
}

/// Line clear correctness: every row that is not full moves down by the
/// number of full rows beneath it and keeps its cells exactly, and as many
/// rows as were full are empty at the top.
pub proof fn lemma_line_clear_shifts_rows(cells: Cells)
    requires
        matrix_wf(cells),
    ensures
        forall|c: int, r: int|
            0 <= c < MATRIX_WIDTH && 0 <= r < MATRIX_HEIGHT && !full_row(row_of(cells, r))
                ==> #[trigger] cleared(cells)[c][r - full_rows_below(cells, r)] == cells[c][r],
        forall|c: int, r: int|
            0 <= c < MATRIX_WIDTH && MATRIX_HEIGHT - full_rows_below(cells, MATRIX_HEIGHT as int) <= r
                < MATRIX_HEIGHT ==> #[trigger] cleared(cells)[c][r] is None,
{
    let rows = rows_of(cells);
    let h = MATRIX_HEIGHT as int;
    assert(rows.subrange(0, h) =~= rows);
    lemma_kept_rows_len(cells, h);
    assert forall|c: int, r: int|
        0 <= c < MATRIX_WIDTH && 0 <= r < MATRIX_HEIGHT && !full_row(row_of(cells, r)) implies #[trigger] cleared(
        cells,
    )[c][r - full_rows_below(cells, r)] == cells[c][r] by {
        lemma_kept_rows_len(cells, r);
        lemma_kept_rows_push(rows, r);
        lemma_kept_rows_prefix(rows, r + 1, h);
        let i = r - full_rows_below(cells, r);
        assert(rows[r] == row_of(cells, r));
        assert(kept_rows(rows.subrange(0, r + 1))[i] == rows[r]);
        assert(kept_rows(rows)[i] == rows[r]);
    }
}

} // verus!
