use tetris::game_state::{
    GameState, TimeState, TimeStateAction, TimedGameState, FALL_INTERVAL, LOCK_INTERVAL, MATRIX_HEIGHT,
    MATRIX_WIDTH,
};
use tetris::TetrominoType;
use tetris::TetrominoType::{I, J, L, O, S, T};

fn empty() -> Vec<Vec<Option<TetrominoType>>> {
    vec![vec![None; MATRIX_HEIGHT]; MATRIX_WIDTH]
}

fn timed(m: Vec<Vec<Option<TetrominoType>>>) -> TimedGameState {
    TimedGameState::from_game_state(GameState::from_parts(m, T, vec![I, O, J, L, S], None).unwrap())
}

fn grounded() -> TimedGameState {
    let mut gs = GameState::from_parts(empty(), T, vec![I, O, J, L, S], None).unwrap();
    while gs.apply_gravity() {}
    TimedGameState::from_game_state(gs)
}

fn falling(ms: u32) -> TimeState {
    TimeState { action: TimeStateAction::Falling { time_to_fall: ms }, time_to_lock: LOCK_INTERVAL }
}

fn placed_count(tgs: &TimedGameState) -> usize {
    tgs.placed_squares().iter().map(|col| col.iter().filter(|c| c.is_some()).count()).sum()
}

#[test]
fn a_new_game_is_falling() {
    let tgs = TimedGameState::new();
    assert_eq!(*tgs.time_state(), falling(FALL_INTERVAL));
    assert_eq!(tgs.falling_tetromino().center(), (4, 20));
    assert_eq!(*tgs.held(), None);
    assert_eq!(tgs.next_preview().len(), 5);
    assert_eq!(tgs.game_state().next_preview(), tgs.next_preview());
}

#[test]
fn one_fall_interval_gives_one_fall() {
    let mut tgs = timed(empty());
    tgs.advance_time(500);
    assert_eq!(tgs.falling_tetromino().center(), (4, 19));
    assert_eq!(*tgs.time_state(), falling(500));
}

#[test]
fn part_of_an_interval_is_carried_over() {
    let mut tgs = timed(empty());
    tgs.advance_time(499);
    assert_eq!(tgs.falling_tetromino().center(), (4, 20));
    assert_eq!(*tgs.time_state(), falling(1));
    tgs.advance_time(1);
    assert_eq!(tgs.falling_tetromino().center(), (4, 19));
    assert_eq!(*tgs.time_state(), falling(500));
}

#[test]
fn zero_time_changes_nothing() {
    let mut tgs = timed(empty());
    tgs.advance_time(0);
    assert_eq!(tgs.falling_tetromino().center(), (4, 20));
    assert_eq!(*tgs.time_state(), falling(500));
}

#[test]
fn several_falls_in_one_advance() {
    let mut tgs = timed(empty());
    tgs.advance_time(1750);
    assert_eq!(tgs.falling_tetromino().center(), (4, 17));
    assert_eq!(*tgs.time_state(), falling(250));
}

#[test]
fn a_fall_onto_the_ground_starts_locking() {
    let mut m = empty();
    m[4][18] = Some(O);
    let mut tgs = timed(m);
    assert_eq!(*tgs.time_state(), falling(500));
    tgs.advance_time(500);
    assert_eq!(tgs.falling_tetromino().center(), (4, 19));
    assert_eq!(*tgs.time_state(), TimeState { action: TimeStateAction::Locking, time_to_lock: 1000 });
}

#[test]
fn a_grounded_piece_locks_once() {
    let mut tgs = grounded();
    assert_eq!(*tgs.time_state(), TimeState { action: TimeStateAction::Locking, time_to_lock: 1000 });
    tgs.advance_time(1999);
    assert_eq!(placed_count(&tgs), 4);
    assert_eq!(tgs.placed_squares()[4][1], Some(T));
    // The next piece spawned, fell once, and waits 1 ms for its next fall.
    assert_eq!(*tgs.falling_tetromino().ttype(), I);
    assert_eq!(tgs.falling_tetromino().center(), (4, 19));
    assert_eq!(*tgs.time_state(), falling(1));
}

#[test]
fn lock_time_runs_down_and_is_not_reset_by_moves() {
    let mut tgs = grounded();
    tgs.advance_time(300);
    assert_eq!(*tgs.time_state(), TimeState { action: TimeStateAction::Locking, time_to_lock: 700 });
    assert!(tgs.move_left());
    assert_eq!(*tgs.time_state(), TimeState { action: TimeStateAction::Locking, time_to_lock: 700 });
    assert!(tgs.rotate_left());
    assert_eq!(tgs.time_state().time_to_lock, 700);
    tgs.advance_time(699);
    assert_eq!(placed_count(&tgs), 0);
    tgs.advance_time(1);
    assert_eq!(placed_count(&tgs), 4);
}

#[test]
fn leaving_the_ground_starts_a_fresh_fall() {
    let mut m = empty();
    m[4][18] = Some(O);
    let mut tgs = timed(m);
    tgs.advance_time(500);
    tgs.advance_time(200);
    assert_eq!(*tgs.time_state(), TimeState { action: TimeStateAction::Locking, time_to_lock: 800 });
    // Off the ledge the piece has room to fall again.
    assert!(tgs.move_right());
    assert!(tgs.move_right());
    assert_eq!(*tgs.time_state(), TimeState { action: TimeStateAction::Falling { time_to_fall: 500 }, time_to_lock: 800 });
}

#[test]
fn hard_drop_and_hold_restore_the_lock_time() {
    let mut tgs = grounded();
    tgs.advance_time(300);
    tgs.hold();
    assert_eq!(tgs.time_state().time_to_lock, LOCK_INTERVAL);
    assert_eq!(*tgs.held(), Some(T));
    assert_eq!(*tgs.time_state(), falling(500));
    tgs.advance_time(200);
    tgs.hard_drop();
    assert_eq!(tgs.time_state().time_to_lock, LOCK_INTERVAL);
    assert_eq!(placed_count(&tgs), 4);
    assert_eq!(*tgs.falling_tetromino().ttype(), O);
    assert_eq!(*tgs.time_state(), falling(300));
}

#[test]
fn timed_moves_report_success() {
    let mut tgs = timed(empty());
    assert!(tgs.move_left());
    assert!(tgs.move_right());
    assert!(tgs.rotate_right());
    for _ in 0..10 {
        tgs.move_right();
    }
    assert!(!tgs.move_right());
}
