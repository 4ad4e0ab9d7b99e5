use tetris::bag::Bag;
use tetris::TetrominoType;

const ALL: [TetrominoType; 7] = [
    TetrominoType::I,
    TetrominoType::O,
    TetrominoType::T,
    TetrominoType::J,
    TetrominoType::L,
    TetrominoType::S,
    TetrominoType::Z,
];

fn is_permutation_of_all(chunk: &[TetrominoType]) -> bool {
    chunk.len() == 7 && ALL.iter().all(|k| chunk.iter().filter(|x| *x == k).count() == 1)
}

#[test]
fn every_set_of_seven_draws_holds_each_kind_once() {
    let mut bag = Bag::new();
    let draws: Vec<TetrominoType> = (0..70).map(|_| bag.draw()).collect();
    for chunk in draws.chunks(7) {
        assert!(is_permutation_of_all(chunk));
    }
}

#[test]
fn draw_at_takes_the_given_position() {
    let mut bag = Bag::new();
    assert_eq!(bag.draw_at(2), TetrominoType::T);
    assert_eq!(bag.draw_at(0), TetrominoType::I);
    assert_eq!(bag.draw_at(4), TetrominoType::Z);
    assert_eq!(bag.draw_at(1), TetrominoType::J);
}

#[test]
fn draw_at_refills_an_emptied_bag() {
    let mut bag = Bag::new();
    let mut drawn = Vec::new();
    for _ in 0..7 {
        drawn.push(bag.draw_at(0));
    }
    assert_eq!(drawn, ALL.to_vec());
    // The bag is full again: its last position is the last kind.
    assert_eq!(bag.draw_at(6), TetrominoType::Z);
}

#[test]
fn draws_after_a_partial_cycle_complete_it() {
    let mut bag = Bag::new();
    let first = bag.draw_at(3);
    let rest: Vec<TetrominoType> = (0..6).map(|_| bag.draw()).collect();
    let mut cycle = vec![first];
    cycle.extend(rest);
    assert!(is_permutation_of_all(&cycle));
}
