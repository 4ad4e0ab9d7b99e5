use tetris::game_state::{GameState, MATRIX_HEIGHT, MATRIX_WIDTH, NEXT_PREVIEW_LENGTH};
use tetris::TetrominoType;
use tetris::TetrominoType::{I, J, L, O, S, T, Z};

type Matrix = Vec<Vec<Option<TetrominoType>>>;

fn empty() -> Matrix {
    vec![vec![None; MATRIX_HEIGHT]; MATRIX_WIDTH]
}

fn game(m: Matrix, falling: TetrominoType, held: Option<TetrominoType>) -> GameState {
    GameState::from_parts(m, falling, vec![I, O, J, L, S], held).unwrap()
}

fn fits_in(gs: &GameState) -> bool {
    let m = gs.placed_squares();
    gs.falling_tetromino().minoes().iter().all(|&(c, r)| {
        c >= 0
            && r >= 0
            && (c as usize) < MATRIX_WIDTH
            && (r as usize) < MATRIX_HEIGHT
            && m[c as usize][r as usize].is_none()
    })
}

#[test]
fn new_game_is_empty_with_six_distinct_kinds() {
    let gs = GameState::new();
    assert_eq!(gs.placed_squares().len(), MATRIX_WIDTH);
    for col in gs.placed_squares() {
        assert_eq!(col.len(), MATRIX_HEIGHT);
        assert!(col.iter().all(|c| c.is_none()));
    }
    assert_eq!(gs.next_preview().len(), NEXT_PREVIEW_LENGTH);
    assert_eq!(*gs.held(), None);
    assert_eq!(gs.falling_tetromino().center(), (4, 20));
    let mut kinds = vec![*gs.falling_tetromino().ttype()];
    kinds.extend_from_slice(gs.next_preview());
    for (i, a) in kinds.iter().enumerate() {
        for b in &kinds[i + 1..] {
            assert_ne!(a, b);
        }
    }
}

#[test]
fn from_parts_rejects_wrong_sizes() {
    assert!(GameState::from_parts(vec![vec![None; MATRIX_HEIGHT]; 9], T, vec![I, O, J, L, S], None).is_none());
    assert!(GameState::from_parts(vec![vec![None; 21]; MATRIX_WIDTH], T, vec![I, O, J, L, S], None).is_none());
    assert!(GameState::from_parts(empty(), T, vec![I, O, J, L], None).is_none());
    let gs = GameState::from_parts(empty(), T, vec![I, O, J, L, S], Some(Z)).unwrap();
    assert_eq!(*gs.falling_tetromino().ttype(), T);
    assert_eq!(gs.next_preview(), &[I, O, J, L, S]);
    assert_eq!(*gs.held(), Some(Z));
}

#[test]
fn moves_stop_at_the_walls() {
    let mut gs = game(empty(), T, None);
    for _ in 0..3 {
        assert!(gs.move_left());
    }
    assert_eq!(gs.falling_tetromino().center(), (1, 20));
    assert!(!gs.move_left());
    assert_eq!(gs.falling_tetromino().center(), (1, 20));
    for _ in 0..7 {
        assert!(gs.move_right());
    }
    assert_eq!(gs.falling_tetromino().center(), (8, 20));
    assert!(!gs.move_right());
    assert_eq!(gs.falling_tetromino().center(), (8, 20));
}

#[test]
fn gravity_stops_at_the_floor() {
    let mut gs = game(empty(), T, None);
    for _ in 0..20 {
        assert!(gs.apply_gravity());
    }
    assert_eq!(gs.falling_tetromino().center(), (4, 0));
    assert!(!gs.apply_gravity());
    assert_eq!(gs.falling_tetromino().center(), (4, 0));
}

#[test]
fn gravity_stops_on_the_stack() {
    let mut m = empty();
    m[4][10] = Some(O);
    let mut gs = game(m, T, None);
    for _ in 0..9 {
        assert!(gs.apply_gravity());
    }
    assert_eq!(gs.falling_tetromino().center(), (4, 11));
    assert!(!gs.apply_gravity());
}

#[test]
fn successful_moves_keep_the_piece_on_empty_cells() {
    let mut m = empty();
    m[2][18] = Some(J);
    m[6][15] = Some(L);
    let mut gs = game(m, S, None);
    let actions: [fn(&mut GameState) -> bool; 5] = [
        GameState::move_left,
        GameState::rotate_right,
        GameState::apply_gravity,
        GameState::move_right,
        GameState::rotate_left,
    ];
    for step in 0..60 {
        let before = gs.falling_tetromino().minoes();
        if actions[step % 5](&mut gs) {
            assert!(fits_in(&gs));
        } else {
            assert_eq!(gs.falling_tetromino().minoes(), before);
        }
    }
}

#[test]
fn rotation_without_kick() {
    let mut gs = game(empty(), T, None);
    assert!(gs.rotate_right());
    assert_eq!(gs.falling_tetromino().center(), (4, 20));
    assert_eq!(gs.falling_tetromino().minoes(), vec![(4, 21), (4, 20), (5, 20), (4, 19)]);
    assert!(gs.rotate_left());
    assert_eq!(gs.falling_tetromino().minoes(), vec![(3, 20), (4, 20), (4, 21), (5, 20)]);
}

#[test]
fn rotation_uses_the_first_kick_that_fits() {
    // The unkicked position needs (4, 19); the second candidate shifts the
    // piece one column to the left.
    let mut m = empty();
    m[4][19] = Some(Z);
    let mut gs = game(m, T, None);
    assert!(gs.rotate_right());
    assert_eq!(gs.falling_tetromino().center(), (3, 20));
    assert_eq!(gs.falling_tetromino().minoes(), vec![(3, 21), (3, 20), (4, 20), (3, 19)]);
}

#[test]
fn rotation_is_the_same_on_the_same_field() {
    let mut m = empty();
    m[4][19] = Some(Z);
    let mut a = game(m.clone(), T, None);
    let mut b = game(m, T, Some(I));
    assert_eq!(a.rotate_right(), b.rotate_right());
    assert_eq!(a.falling_tetromino().minoes(), b.falling_tetromino().minoes());
}

#[test]
fn rotation_against_the_wall_kicks() {
    // A vertical I at the left wall turning to horizontal needs a kick.
    let mut gs = game(empty(), I, None);
    assert!(gs.rotate_right());
    while gs.move_left() {}
    let before = gs.falling_tetromino().minoes();
    assert!(before.iter().all(|&(c, _)| c == 0));
    assert!(gs.rotate_left());
    assert!(fits_in(&gs));
    let after = gs.falling_tetromino().minoes();
    assert!(after.iter().all(|&(_, r)| r == after[0].1));
    assert!(after.iter().any(|&(c, _)| c == 0));
}

#[test]
fn rotation_fails_when_no_kick_fits() {
    let mut m: Matrix = vec![vec![Some(O); MATRIX_HEIGHT]; MATRIX_WIDTH];
    for (c, r) in [(3, 20), (4, 20), (4, 21), (5, 20)] {
        m[c][r] = None;
    }
    let mut gs = game(m, T, None);
    let before = gs.falling_tetromino().minoes();
    assert!(!gs.rotate_right());
    assert!(!gs.rotate_left());
    assert_eq!(gs.falling_tetromino().minoes(), before);
    assert_eq!(gs.falling_tetromino().center(), (4, 20));
}

#[test]
fn o_rotation_keeps_its_cells() {
    let mut gs = game(empty(), O, None);
    let mut before = gs.falling_tetromino().minoes();
    before.sort();
    assert!(gs.rotate_right());
    let mut after = gs.falling_tetromino().minoes();
    after.sort();
    assert_eq!(before, after);
}

#[test]
fn lock_writes_the_piece_and_spawns_the_next() {
    let mut gs = game(empty(), T, None);
    gs.lock_piece();
    let m = gs.placed_squares();
    for (c, r) in [(3, 20), (4, 20), (4, 21), (5, 20)] {
        assert_eq!(m[c][r], Some(T));
    }
    let count: usize = m.iter().map(|col| col.iter().filter(|c| c.is_some()).count()).sum();
    assert_eq!(count, 4);
    assert_eq!(*gs.falling_tetromino().ttype(), I);
    assert_eq!(gs.falling_tetromino().center(), (4, 20));
    assert_eq!(&gs.next_preview()[..4], &[O, J, L, S]);
    assert_eq!(gs.next_preview().len(), NEXT_PREVIEW_LENGTH);
}

#[test]
fn hard_drop_lands_on_the_floor() {
    let mut gs = game(empty(), T, None);
    gs.hard_drop();
    let m = gs.placed_squares();
    for (c, r) in [(3, 0), (4, 0), (4, 1), (5, 0)] {
        assert_eq!(m[c][r], Some(T));
    }
    assert_eq!(*gs.falling_tetromino().ttype(), I);
}

#[test]
fn hard_drop_lands_on_the_stack() {
    let mut m = empty();
    m[5][7] = Some(L);
    let mut gs = game(m, T, None);
    gs.hard_drop();
    let m = gs.placed_squares();
    for (c, r) in [(3, 8), (4, 8), (4, 9), (5, 8)] {
        assert_eq!(m[c][r], Some(T));
    }
    assert_eq!(m[5][7], Some(L));
}

#[test]
fn line_clear_moves_rows_down() {
    // Rows 2 and 5 are full; every other row holds one square.
    let mut m = empty();
    for r in 0..MATRIX_HEIGHT {
        if r == 2 || r == 5 {
            for c in 0..MATRIX_WIDTH {
                m[c][r] = Some(if c % 2 == 0 { J } else { L });
            }
        } else {
            m[r % 3][r] = Some(if r % 2 == 0 { S } else { Z });
        }
    }
    let original = m.clone();
    let mut gs = game(m, T, None);
    gs.lock_piece();
    let after = gs.placed_squares();
    // The locked piece moved down with its rows.
    let mut expected = original.clone();
    for (c, r) in [(3, 20), (4, 20), (4, 21), (5, 20)] {
        expected[c][r] = Some(T);
    }
    for r in 0..MATRIX_HEIGHT {
        if r == 2 || r == 5 {
            continue;
        }
        let shift = if r < 2 { 0 } else if r < 5 { 1 } else { 2 };
        for c in 0..MATRIX_WIDTH {
            assert_eq!(after[c][r - shift], expected[c][r]);
        }
    }
    for r in MATRIX_HEIGHT - 2..MATRIX_HEIGHT {
        for c in 0..MATRIX_WIDTH {
            assert_eq!(after[c][r], None);
        }
    }
    assert_eq!(after[0][0], Some(S));
    assert_eq!(after[1][1], Some(Z));
    assert_eq!(after[0][2], Some(Z));
    assert_eq!(after[1][3], Some(S));
    assert_eq!(after[0][4], Some(S));
    assert_eq!(after[4][19], Some(T));
}

#[test]
fn lock_clears_a_row_it_completes() {
    let mut m = empty();
    for c in 0..MATRIX_WIDTH {
        if c < 3 || c > 6 {
            m[c][0] = Some(O);
        }
    }
    m[0][1] = Some(Z);
    let mut gs = game(m, I, None);
    gs.hard_drop();
    let after = gs.placed_squares();
    assert_eq!(after[0][0], Some(Z));
    let count: usize = after.iter().map(|col| col.iter().filter(|c| c.is_some()).count()).sum();
    assert_eq!(count, 1);
}

#[test]
fn hold_round_trip() {
    let mut gs = game(empty(), T, None);
    gs.move_left();
    gs.apply_gravity();
    gs.hold();
    assert_eq!(*gs.held(), Some(T));
    assert_eq!(*gs.falling_tetromino().ttype(), I);
    assert_eq!(gs.falling_tetromino().center(), (4, 20));
    assert_eq!(&gs.next_preview()[..4], &[O, J, L, S]);
    gs.move_right();
    gs.rotate_right();
    gs.hold();
    assert_eq!(*gs.held(), Some(I));
    assert_eq!(*gs.falling_tetromino().ttype(), T);
    assert_eq!(gs.falling_tetromino().center(), (4, 20));
    assert_eq!(gs.falling_tetromino().minoes(), vec![(3, 20), (4, 20), (4, 21), (5, 20)]);
    assert_eq!(&gs.next_preview()[..4], &[O, J, L, S]);
}

#[test]
fn hold_with_a_held_kind_swaps() {
    let mut gs = game(empty(), T, Some(Z));
    gs.hold();
    assert_eq!(*gs.held(), Some(T));
    assert_eq!(*gs.falling_tetromino().ttype(), Z);
    assert_eq!(gs.next_preview(), &[I, O, J, L, S]);
}

#[test]
fn queries_are_idempotent() {
    let mut gs = game(empty(), T, Some(Z));
    gs.move_left();
    assert_eq!(gs.placed_squares(), gs.placed_squares());
    assert_eq!(gs.falling_tetromino().minoes(), gs.falling_tetromino().minoes());
    assert_eq!(gs.falling_tetromino().center(), gs.falling_tetromino().center());
    assert_eq!(gs.next_preview(), gs.next_preview());
    assert_eq!(gs.held(), gs.held());
}
