use tetris::game_state::Tetromino;
use tetris::tetromino_data::{tetromino_offset_data_from, tetromino_shape_from};
use tetris::TetrominoType;

#[test]
fn shapes_match_the_rotation_system() {
    assert_eq!(*tetromino_shape_from(&TetrominoType::I), [(-1, 0), (0, 0), (1, 0), (2, 0)]);
    assert_eq!(*tetromino_shape_from(&TetrominoType::J), [(-1, 1), (-1, 0), (0, 0), (1, 0)]);
    assert_eq!(*tetromino_shape_from(&TetrominoType::L), [(-1, 0), (0, 0), (1, 0), (1, 1)]);
    assert_eq!(*tetromino_shape_from(&TetrominoType::O), [(0, 0), (0, 1), (1, 0), (1, 1)]);
    assert_eq!(*tetromino_shape_from(&TetrominoType::S), [(-1, 0), (0, 0), (0, 1), (1, 1)]);
    assert_eq!(*tetromino_shape_from(&TetrominoType::T), [(-1, 0), (0, 0), (0, 1), (1, 0)]);
    assert_eq!(*tetromino_shape_from(&TetrominoType::Z), [(-1, 1), (0, 1), (0, 0), (1, 0)]);
}

#[test]
fn offset_tables_are_shared_by_jlstz() {
    let jlstz = [
        [(0, 0), (0, 0), (0, 0), (0, 0)],
        [(0, 0), (1, 0), (0, 0), (-1, 0)],
        [(0, 0), (1, -1), (0, 0), (-1, -1)],
        [(0, 0), (0, 2), (0, 0), (0, 2)],
        [(0, 0), (1, 2), (0, 0), (-1, 2)],
    ];
    for tt in [TetrominoType::J, TetrominoType::L, TetrominoType::S, TetrominoType::T, TetrominoType::Z] {
        assert_eq!(*tetromino_offset_data_from(&tt), jlstz);
    }
}

#[test]
fn offset_tables_of_i_and_o() {
    let i = [
        [(0, 0), (-1, 0), (-1, 1), (0, 1)],
        [(-1, 0), (0, 0), (1, 1), (0, 1)],
        [(2, 0), (0, 0), (-2, 1), (0, 1)],
        [(-1, 0), (0, 1), (1, 0), (0, -1)],
        [(2, 0), (0, -2), (-2, 0), (0, 2)],
    ];
    assert_eq!(*tetromino_offset_data_from(&TetrominoType::I), i);
    let o_row = [(0, 0), (0, -1), (-1, -1), (-1, 0)];
    assert_eq!(*tetromino_offset_data_from(&TetrominoType::O), [o_row; 5]);
}

#[test]
fn new_tetromino_is_at_spawn() {
    let t = Tetromino::new(TetrominoType::T);
    assert_eq!(t.center(), (4, 20));
    assert_eq!(*t.ttype(), TetrominoType::T);
    assert_eq!(t.minoes(), vec![(3, 20), (4, 20), (4, 21), (5, 20)]);
}

#[test]
fn i_minoes_at_spawn() {
    let t = Tetromino::new(TetrominoType::I);
    assert_eq!(t.minoes(), vec![(3, 20), (4, 20), (5, 20), (6, 20)]);
}
