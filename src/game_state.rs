//! The play field, the falling piece and the player's actions on them, and
//! the fall/lock clock that drives a game as time passes.

use vstd::prelude::*;
use crate::TetrominoType;
use crate::bag::{Bag, all_kinds, bag_wf, draw_step, lemma_all_kinds_wf, lemma_cycle_prefix};
use crate::tetromino_data::{
    kick_table,
    shape_of,
    tetromino_offset_data_from,
    tetromino_shape_from,
    widen,
};

verus! {

/// The number of pieces that the player can see in advance.
pub const NEXT_PREVIEW_LENGTH: usize = 5;

/// Width of the play field.
pub const MATRIX_WIDTH: usize = 10;

/// Height of the play field (both visible and hidden parts).
pub const MATRIX_HEIGHT: usize = 22;

/// The column at which a new piece appears.
pub const SPAWN_COLUMN: isize = 4;

/// The row at which a new piece appears, in the hidden rows at the top.
pub const SPAWN_ROW: isize = 20;

// ----- The model -----

/// A piece as the contracts speak of it: its kind, the cell of its center
/// (column, row) and its orientation.
pub struct Piece {
    pub kind: TetrominoType,
    pub col: int,
    pub row: int,
    pub orientation: int,
}

/// The play field as columns of cells, `cells[col][row]`, row 0 at the bottom.
pub type Cells = Seq<Seq<Option<TetrominoType>>>;

/// An offset turned by `orientation` quarter turns clockwise.
pub open spec fn rotated(o: (int, int), orientation: int) -> (int, int) {
    if orientation == 1 {
        (o.1, -o.0)
    } else if orientation == 2 {
        (-o.0, -o.1)
    } else if orientation == 3 {
        (-o.1, o.0)
    } else {
        o
    }
}

/// The cells that the four minoes of `p` cover, as (column, row).
pub open spec fn minoes_of(p: Piece) -> Seq<(int, int)> {
    shape_of(p.kind).map_values(
        |o: (int, int)| (p.col + rotated(o, p.orientation).0, p.row + rotated(o, p.orientation).1),
    )
}

/// `cell` lies on the play field.
pub open spec fn in_grid(cell: (int, int)) -> bool {
    0 <= cell.0 < MATRIX_WIDTH && 0 <= cell.1 < MATRIX_HEIGHT
}

/// `cells` has the size of the play field.
pub open spec fn matrix_wf(cells: Cells) -> bool {
    &&& cells.len() == MATRIX_WIDTH
    &&& forall|c: int| 0 <= c < MATRIX_WIDTH ==> (#[trigger] cells[c]).len() == MATRIX_HEIGHT
}

/// `cell` lies on the play field and nothing has been placed there.
pub open spec fn free_at(cells: Cells, cell: (int, int)) -> bool {
    in_grid(cell) && cells[cell.0][cell.1] is None
}

/// Every mino of `p` lies on the play field.
pub open spec fn in_bounds(p: Piece) -> bool {
    forall|i: int| 0 <= i < 4 ==> in_grid(#[trigger] minoes_of(p)[i])
}

/// Every mino of `p` lies on the play field, over an empty cell.
pub open spec fn fits(cells: Cells, p: Piece) -> bool {
    forall|i: int| 0 <= i < 4 ==> free_at(cells, #[trigger] minoes_of(p)[i])
}

/// `p` shifted by `dc` columns and `dr` rows.
pub open spec fn shifted(p: Piece, dc: int, dr: int) -> Piece {
    Piece { kind: p.kind, col: p.col + dc, row: p.row + dr, orientation: p.orientation }
}

/// A new piece of the given kind, at the spawn position and orientation 0.
pub open spec fn spawned(kind: TetrominoType) -> Piece {
    Piece { kind, col: SPAWN_COLUMN as int, row: SPAWN_ROW as int, orientation: 0 }
}

/// A piece whose minoes lie on the play field has its center within two
/// cells of the field.
pub proof fn lemma_center_near_minoes(p: Piece)
    requires
        in_bounds(p),
    ensures
        -2 <= p.col < MATRIX_WIDTH + 2,
        -2 <= p.row < MATRIX_HEIGHT + 2,
{
    let m = minoes_of(p);
    assert(in_grid(m[0]));
}

/// A newly spawned piece lies on the play field.
pub proof fn lemma_spawned_in_bounds(kind: TetrominoType)
    ensures
        in_bounds(spawned(kind)),
{
    let p = spawned(kind);
    assert forall|i: int| 0 <= i < 4 implies in_grid(#[trigger] minoes_of(p)[i]) by {}
}

/// Candidate `k` of the kick search when `p` turns to orientation `to`: the
/// table row's entry for the old orientation minus its entry for the new one,
/// added to the center.
pub open spec fn kick_candidate(p: Piece, to: int, k: int) -> Piece {
    let offsets = kick_table(p.kind)[k];
    Piece {
        kind: p.kind,
        col: p.col + offsets[p.orientation].0 - offsets[to].0,
        row: p.row + offsets[p.orientation].1 - offsets[to].1,
        orientation: to,
    }
}

/// The first of the kick candidates `k`, `k + 1`, ..., 4 that fits, if any.
pub open spec fn kick_search(cells: Cells, p: Piece, to: int, k: int) -> Option<Piece>
    decreases 5 - k,
{
    if k >= 5 {
        None
    } else if fits(cells, kick_candidate(p, to, k)) {
        Some(kick_candidate(p, to, k))
    } else {
        kick_search(cells, p, to, k + 1)
    }
}

/// The game after an attempt to turn the falling piece to orientation `to`.
pub open spec fn rotated_to(g: GameView, to: int) -> GameView {
    match kick_search(g.cells, g.falling, to, 0) {
        Some(q) => with_falling(g, q),
        None => g,
    }
}

/// Every entry of the kick tables moves a piece by at most two cells each way.
pub proof fn lemma_kick_entries_small(tt: TetrominoType, k: int, o: int)
    requires
        0 <= k < 5,
        0 <= o < 4,
    ensures
        kick_table(tt)[k].len() == 4,
        -2 <= kick_table(tt)[k][o].0 <= 2,
        -2 <= kick_table(tt)[k][o].1 <= 2,
{
}

/// The row `r` of the play field, from left to right.
pub open spec fn row_of(cells: Cells, r: int) -> Seq<Option<TetrominoType>> {
    Seq::new(MATRIX_WIDTH as nat, |c: int| cells[c][r])
}

/// The rows of the play field, from the bottom up.
pub open spec fn rows_of(cells: Cells) -> Seq<Seq<Option<TetrominoType>>> {
    Seq::new(MATRIX_HEIGHT as nat, |r: int| row_of(cells, r))
}

/// The play field whose rows, from the bottom up, are `rows`.
pub open spec fn cells_from_rows(rows: Seq<Seq<Option<TetrominoType>>>) -> Cells {
    Seq::new(MATRIX_WIDTH as nat, |c: int| Seq::new(MATRIX_HEIGHT as nat, |r: int| rows[r][c]))
}

/// Every cell of the row is occupied.
pub open spec fn full_row(row: Seq<Option<TetrominoType>>) -> bool {
    forall|c: int| 0 <= c < row.len() ==> (#[trigger] row[c]) is Some
}

/// A row with no occupied cell.
pub open spec fn empty_row() -> Seq<Option<TetrominoType>> {
    Seq::new(MATRIX_WIDTH as nat, |c: int| None)
}

/// The rows that are not full, in their order.
pub open spec fn kept_rows(rows: Seq<Seq<Option<TetrominoType>>>) -> Seq<Seq<Option<TetrominoType>>> {
    rows.filter(|row: Seq<Option<TetrominoType>>| !full_row(row))
}

/// The rows after a line clear: the rows that were not full, moved down in
/// their order, and empty rows above them in place of the full ones.
pub open spec fn cleared_rows(rows: Seq<Seq<Option<TetrominoType>>>) -> Seq<Seq<Option<TetrominoType>>> {
    kept_rows(rows) + Seq::new((rows.len() - kept_rows(rows).len()) as nat, |i: int| empty_row())
}

/// The play field after its full rows are cleared.
pub open spec fn cleared(cells: Cells) -> Cells {
    cells_from_rows(cleared_rows(rows_of(cells)))
}

/// The play field with the minoes of `p` written into it.
pub open spec fn locked_cells(cells: Cells, p: Piece) -> Cells {
    Seq::new(
        cells.len(),
        |c: int|
            Seq::new(
                cells[c].len(),
                |r: int|
                    if minoes_of(p).contains((c, r)) {
                        Some(p.kind)
                    } else {
                        cells[c][r]
                    },
            ),
    )
}

/// `after` is `g` once the next piece has spawned: the front of the preview
/// became the falling piece at the spawn position, and a kind drawn from the
/// bag joined the back of the preview.
pub open spec fn spawned_next(g: GameView, after: GameView) -> bool {
    &&& after.preview.len() == g.preview.len()
    &&& after.preview == g.preview.drop_first().push(after.preview.last())
    &&& draw_step(g.bag, after.preview.last(), after.bag)
    &&& after.falling == spawned(g.preview[0])
    &&& after.cells == g.cells
    &&& after.held == g.held
}

/// `after` is `g` once its falling piece has been locked: its minoes were
/// written into the field, full rows were cleared, and the next piece spawned.
pub open spec fn lock_step(g: GameView, after: GameView) -> bool {
    spawned_next(GameView { cells: cleared(locked_cells(g.cells, g.falling)), ..g }, after)
}

/// `after` is `g` once the falling piece has been held: a held kind comes
/// back at the spawn position; with none held, the next piece spawns.
pub open spec fn hold_step(g: GameView, after: GameView) -> bool {
    match g.held {
        Some(h) => after == GameView { falling: spawned(h), held: Some(g.falling.kind), ..g },
        None => spawned_next(GameView { held: Some(g.falling.kind), ..g }, after),
    }
}

/// `p` can fall `k` rows, and not one more.
pub open spec fn lands_after(cells: Cells, p: Piece, k: int) -> bool {
    &&& k >= 0
    &&& forall|j: int| 1 <= j <= k ==> fits(cells, #[trigger] shifted(p, 0, -j))
    &&& !fits(cells, shifted(p, 0, -(k + 1)))
}

/// The rows kept from the first `r + 1` rows are those kept from the first
/// `r`, and row `r` if it is not full.
pub proof fn lemma_kept_rows_push(rows: Seq<Seq<Option<TetrominoType>>>, r: int)
    requires
        0 <= r < rows.len(),
    ensures
        kept_rows(rows.subrange(0, r + 1)) == if full_row(rows[r]) {
            kept_rows(rows.subrange(0, r))
        } else {
            kept_rows(rows.subrange(0, r)).push(rows[r])
        },
{
    reveal(Seq::filter);
    assert(rows.subrange(0, r + 1).drop_last() =~= rows.subrange(0, r));
    assert(rows.subrange(0, r + 1).last() == rows[r]);
}

/// A prefix one longer holds what the shorter one holds, and its last element.
pub proof fn lemma_prefix_contains(s: Seq<(int, int)>, i: int, x: (int, int))
    requires
        0 <= i < s.len(),
    ensures
        s.subrange(0, i + 1).contains(x) <==> (s.subrange(0, i).contains(x) || s[i] == x),
{
    if s.subrange(0, i + 1).contains(x) {
        let j = choose|j: int| 0 <= j < i + 1 && #[trigger] s.subrange(0, i + 1)[j] == x;
        if j < i {
            assert(s.subrange(0, i)[j] == x);
        }
    }
    if s.subrange(0, i).contains(x) {
        let j = choose|j: int| 0 <= j < i && #[trigger] s.subrange(0, i)[j] == x;
        assert(s.subrange(0, i + 1)[j] == x);
    }
    if s[i] == x {
        assert(s.subrange(0, i + 1)[i] == x);
    }
}

// ----- Pieces -----

/// Describes a tetromino of some type at some position and orientation on the
/// matrix.
#[derive(Debug, Clone, Copy)]
pub struct Tetromino {
    ttype: TetrominoType,
    center: (isize, isize),
    orientation: u32,
}

impl View for Tetromino {
    type V = Piece;

    closed spec fn view(&self) -> Piece {
        Piece {
            kind: self.ttype,
            col: self.center.0 as int,
            row: self.center.1 as int,
            orientation: self.orientation as int,
        }
    }
}

impl Tetromino {
    /// The orientation is one of the four quarter turns, and the center stays
    /// far enough from the field that coordinates near it fit in an `isize`.
    #[verifier::type_invariant]
    closed spec fn inv(self) -> bool {
        &&& self.orientation < 4
        &&& -1000 <= self.center.0 <= 1000
        &&& -1000 <= self.center.1 <= 1000
    }

    /// Returns a vector of the positions of each mino in this tetromino.
    pub fn minoes(&self) -> (r: Vec<(isize, isize)>)
        ensures
            widen(r@) == minoes_of(self@),
    {
        proof {
            use_type_invariant(self);
        }
        let shape = tetromino_shape_from(&self.ttype);
        let center = self.center;
        let mut r: Vec<(isize, isize)> = Vec::new();
        let mut i: usize = 0;
        while i < 4
            invariant
                i <= 4,
                widen(shape@) == shape_of(self@.kind),
                center == self.center,
                -1000 <= center.0 <= 1000,
                -1000 <= center.1 <= 1000,
                self.orientation < 4,
                r@.len() == i,
                minoes_of(self@).len() == 4,
                widen(r@) == minoes_of(self@).subrange(0, i as int),
            decreases 4 - i,
        {
            let mino_offset = shape[i];
            assert(widen(shape@)[i as int] == (mino_offset.0 as int, mino_offset.1 as int));
            assert(-2 <= mino_offset.0 <= 2 && -2 <= mino_offset.1 <= 2);
            let rotated_offset = match self.orientation {
                0 => (mino_offset.0, mino_offset.1),
                1 => (mino_offset.1, -mino_offset.0),
                2 => (-mino_offset.0, -mino_offset.1),
                3 => (-mino_offset.1, mino_offset.0),
                _ => (mino_offset.0, mino_offset.1),
            };
            let ghost o = shape_of(self@.kind)[i as int];
            assert((rotated_offset.0 as int, rotated_offset.1 as int) == rotated(o, self@.orientation));
            let ghost prev = r@;
            r.push((center.0 + rotated_offset.0, center.1 + rotated_offset.1));
            assert forall|j: int| 0 <= j < i implies widen(r@)[j] == minoes_of(self@)[j] by {
                assert(r@[j] == prev[j]);
                assert(widen(prev)[j] == minoes_of(self@).subrange(0, i as int)[j]);
            }
            assert(minoes_of(self@)[i as int] == (
                self@.col + rotated(o, self@.orientation).0,
                self@.row + rotated(o, self@.orientation).1,
            ));
            assert(widen(r@) =~= minoes_of(self@).subrange(0, i + 1));
            i = i + 1;
        }
        assert(minoes_of(self@).subrange(0, 4) =~= minoes_of(self@));
        r
    }

    /// Creates a tetromino of the given type in spawn position.
    pub fn new(tt: TetrominoType) -> (t: Tetromino)
        ensures
            t@ == spawned(tt),
    {
        Tetromino { ttype: tt, center: (SPAWN_COLUMN, SPAWN_ROW), orientation: 0 }
    }

    /// Returns the grid coordinates of the center of this tetromino, as
    /// (column, row), where row 0 is the bottom row and column 0 the leftmost.
    pub fn center(&self) -> (r: (isize, isize))
        ensures
            r.0 as int == self@.col,
            r.1 as int == self@.row,
    {
        self.center
    }

    /// Returns the type of tetromino.
    pub fn ttype(&self) -> (r: &TetrominoType)
        ensures
            *r == self@.kind,
    {
        &self.ttype
    }
}

// ----- The game -----

/// A game as the contracts speak of it.
pub struct GameView {
    /// The cells that locked pieces left, `cells[col][row]`.
    pub cells: Cells,
    /// The falling piece.
    pub falling: Piece,
    /// The kinds that spawn next, the first one first.
    pub preview: Seq<TetrominoType>,
    /// The held kind, if any.
    pub held: Option<TetrominoType>,
    /// What the bag that refills the preview still holds.
    pub bag: Seq<TetrominoType>,
}

/// The columns of a matrix, read as a model.
pub open spec fn cells_of(columns: Seq<Vec<Option<TetrominoType>>>) -> Cells {
    columns.map_values(|c: Vec<Option<TetrominoType>>| c@)
}

/// An empty play field.
pub open spec fn empty_cells() -> Cells {
    Seq::new(MATRIX_WIDTH as nat, |c: int| Seq::new(MATRIX_HEIGHT as nat, |r: int| None))
}

/// What holds of every game between two actions.
pub open spec fn game_wf(g: GameView) -> bool {
    &&& matrix_wf(g.cells)
    &&& 0 <= g.falling.orientation < 4
    &&& in_bounds(g.falling)
    &&& g.preview.len() == NEXT_PREVIEW_LENGTH
    &&& bag_wf(g.bag)
}

/// `g` with `p` as its falling piece.
pub open spec fn with_falling(g: GameView, p: Piece) -> GameView {
    GameView { falling: p, ..g }
}

/// The game after an attempt to move the falling piece to `p`: the move is
/// made if `p` fits, and nothing changes otherwise.
pub open spec fn moved_to(g: GameView, p: Piece) -> GameView {
    if fits(g.cells, p) {
        with_falling(g, p)
    } else {
        g
    }
}

/// Describes the state of a Tetris game.
///
/// Rows are indexed from bottom to top, where the bottom row is indexed as 0.
/// Columns are indexed from left to right, where the left-most column is
/// indexed as 0. Coordinates are specified as (col, row).
#[derive(Debug)]
pub struct GameState {
    placed_squares: Vec<Vec<Option<TetrominoType>>>,
    falling_tetromino: Tetromino,
    /// The bag for determining the next tetrominoes.
    bag: Bag,
    next_preview: Vec<TetrominoType>,
    held: Option<TetrominoType>,
}

impl View for GameState {
    type V = GameView;

    closed spec fn view(&self) -> GameView {
        GameView {
            cells: cells_of(self.placed_squares@),
            falling: self.falling_tetromino@,
            preview: self.next_preview@,
            held: self.held,
            bag: self.bag@,
        }
    }
}

/// Builds an empty play field.
fn empty_matrix() -> (m: Vec<Vec<Option<TetrominoType>>>)
    ensures
        cells_of(m@) == empty_cells(),
{
    let mut m: Vec<Vec<Option<TetrominoType>>> = Vec::new();
    let mut c: usize = 0;
    while c < MATRIX_WIDTH
        invariant
            c <= MATRIX_WIDTH,
            m@.len() == c,
            forall|i: int| 0 <= i < c ==> (#[trigger] m@[i])@ == Seq::new(MATRIX_HEIGHT as nat, |r: int| None::<TetrominoType>),
        decreases MATRIX_WIDTH - c,
    {
        let mut column: Vec<Option<TetrominoType>> = Vec::new();
        let mut r: usize = 0;
        while r < MATRIX_HEIGHT
            invariant
                r <= MATRIX_HEIGHT,
                column@.len() == r,
                forall|j: int| 0 <= j < r ==> (#[trigger] column@[j]) is None,
            decreases MATRIX_HEIGHT - r,
        {
            column.push(None);
            r = r + 1;
        }
        assert(column@ =~= Seq::new(MATRIX_HEIGHT as nat, |r: int| None::<TetrominoType>));
        m.push(column);
        c = c + 1;
    }
    assert(cells_of(m@) =~= empty_cells());
    m
}

impl GameState {
    /// Everything that holds between two actions.
    pub open spec fn wf(&self) -> bool {
        game_wf(self@)
    }

    /// Create a new `GameState` representing the initial state of a tetris
    /// game: an empty matrix, and the first six kinds of a fresh bag as the
    /// falling piece and the preview.
    pub fn new() -> (gs: Self)
        ensures
            gs.wf(),
            gs@.cells == empty_cells(),
            gs@.falling == spawned(gs@.falling.kind),
            gs@.held is None,
            ({
                let drawn = seq![gs@.falling.kind] + gs@.preview;
                &&& drawn.no_duplicates()
                &&& gs@.bag.len() == 1
                &&& forall|t: TetrominoType| #[trigger] gs@.bag.contains(t) <==> !drawn.contains(t)
            }),
    {
        let mut bag = Bag::new();
        let ghost mut states: Seq<Seq<TetrominoType>> = seq![bag@];
        let initial_falling_tetromino_type = bag.draw();
        let ghost mut draws: Seq<TetrominoType> = seq![initial_falling_tetromino_type];
        proof {
            states = states.push(bag@);
        }
        let mut initial_next_preview: Vec<TetrominoType> = Vec::new();
        let mut i: usize = 0;
        while i < NEXT_PREVIEW_LENGTH
            invariant
                i <= NEXT_PREVIEW_LENGTH,
                bag.wf(),
                initial_next_preview@.len() == i,
                draws == seq![initial_falling_tetromino_type] + initial_next_preview@,
                states.len() == draws.len() + 1,
                states[0] == all_kinds(),
                states.last() == bag@,
                forall|k: int|
                    0 <= k < draws.len() ==> draw_step(states[k], draws[k], #[trigger] states[k + 1]),
            decreases NEXT_PREVIEW_LENGTH - i,
        {
            let ghost before = bag@;
            let next = bag.draw();
            initial_next_preview.push(next);
            proof {
                assert(states[states.len() - 1] == before);
                states = states.push(bag@);
                draws = draws.push(next);
                assert(draws =~= seq![initial_falling_tetromino_type] + initial_next_preview@);
            }
            i = i + 1;
        }
        proof {
            lemma_cycle_prefix(states, draws, 0, 6);
            assert(draws.subrange(0, 6) =~= draws);
            lemma_spawned_in_bounds(initial_falling_tetromino_type);
        }
        GameState {
            placed_squares: empty_matrix(),
            falling_tetromino: Tetromino::new(initial_falling_tetromino_type),
            bag: bag,
            next_preview: initial_next_preview,
            held: None,
        }
    }

    /// Creates a game in a given position: the matrix (indexed as
    /// `placed_squares` returns it), the kind of the falling piece, which
    /// starts at the spawn position, the preview and the held kind. The bag
    /// starts full. Returns `None` unless the matrix is `MATRIX_WIDTH` columns
    /// of `MATRIX_HEIGHT` cells and the preview holds `NEXT_PREVIEW_LENGTH`
    /// kinds.
    pub fn from_parts(
        placed_squares: Vec<Vec<Option<TetrominoType>>>,
        falling: TetrominoType,
        next_preview: Vec<TetrominoType>,
        held: Option<TetrominoType>,
    ) -> (r: Option<GameState>)
        ensures
            r is Some <==> matrix_wf(cells_of(placed_squares@)) && next_preview@.len()
                == NEXT_PREVIEW_LENGTH,
            r matches Some(gs) ==> {
                &&& gs.wf()
                &&& gs@ == (GameView {
                    cells: cells_of(placed_squares@),
                    falling: spawned(falling),
                    preview: next_preview@,
                    held: held,
                    bag: all_kinds(),
                })
            },
    {
        if placed_squares.len() != MATRIX_WIDTH || next_preview.len() != NEXT_PREVIEW_LENGTH {
            return None;
        }
        let mut c: usize = 0;
        while c < MATRIX_WIDTH
            invariant
                c <= MATRIX_WIDTH,
                placed_squares@.len() == MATRIX_WIDTH,
                forall|i: int| 0 <= i < c ==> (#[trigger] cells_of(placed_squares@)[i]).len() == MATRIX_HEIGHT,
            decreases MATRIX_WIDTH - c,
        {
            if placed_squares[c].len() != MATRIX_HEIGHT {
                assert(cells_of(placed_squares@)[c as int].len() != MATRIX_HEIGHT);
                return None;
            }
            c = c + 1;
        }
        proof {
            lemma_spawned_in_bounds(falling);
            lemma_all_kinds_wf();
        }
        Some(
            GameState {
                placed_squares: placed_squares,
                falling_tetromino: Tetromino::new(falling),
                bag: Bag::new(),
                next_preview: next_preview,
                held: held,
            },
        )
    }

    // Getters

    /// Returns a representation of all the squares that have previously been
    /// placed the matrix: `placed_squares[i][j] == Some(tt)` when a square of a
    /// tetromino of type `tt` was placed at coordinates (`i`, `j`), and `None`
    /// when no square has been placed there.
    pub fn placed_squares(&self) -> (r: &Vec<Vec<Option<TetrominoType>>>)
        ensures
            cells_of(r@) == self@.cells,
    {
        &self.placed_squares
    }

    /// A `Tetromino` object representing the currently falling tetromino.
    pub fn falling_tetromino(&self) -> (r: &Tetromino)
        ensures
            r@ == self@.falling,
    {
        &self.falling_tetromino
    }

    /// The next pieces that will drop.
    pub fn next_preview(&self) -> (r: &[TetrominoType])
        ensures
            r@ == self@.preview,
    {
        self.next_preview.as_slice()
    }

    /// The held tetromino, if any.
    pub fn held(&self) -> (r: &Option<TetrominoType>)
        ensures
            *r == self@.held,
    {
        &self.held
    }

    // Helpers

    /// Whether `t` lies on the play field, over empty cells only.
    fn tetromino_fits(&self, t: &Tetromino) -> (r: bool)
        requires
            matrix_wf(self@.cells),
        ensures
            r == fits(self@.cells, t@),
    {
        let minoes = t.minoes();
        let ghost m = minoes_of(t@);
        assert(minoes@.len() == 4) by {
            assert(widen(minoes@).len() == minoes@.len());
        }
        let mut i: usize = 0;
        while i < 4
            invariant
                i <= 4,
                minoes@.len() == 4,
                widen(minoes@) == m,
                m == minoes_of(t@),
                matrix_wf(self@.cells),
                forall|j: int| 0 <= j < i ==> free_at(self@.cells, #[trigger] m[j]),
            decreases 4 - i,
        {
            let mino_position = minoes[i];
            assert(m[i as int] == (mino_position.0 as int, mino_position.1 as int));
            if !(mino_position.0 >= 0 && mino_position.0 < (MATRIX_WIDTH as isize)
                && mino_position.1 >= 0 && mino_position.1 < (MATRIX_HEIGHT as isize)) {
                assert(!free_at(self@.cells, m[i as int]));
                return false;
            }
            let col = mino_position.0 as usize;
            let row = mino_position.1 as usize;
            assert(self@.cells[col as int] == self.placed_squares@[col as int]@);
            if self.placed_squares[col][row].is_some() {
                assert(!free_at(self@.cells, m[i as int]));
                return false;
            }
            i = i + 1;
        }
        true
    }

    /// Makes `(new_center, new_orientation)` the falling tetromino's place if
    /// it fits there, and returns whether it did.
    fn move_tetromino_if_fits(&mut self, new_center: (isize, isize), new_orientation: u32) -> (r: bool)
        requires
            old(self).wf(),
            new_orientation < 4,
            -1000 <= new_center.0 <= 1000,
            -1000 <= new_center.1 <= 1000,
        ensures
            ({
                let p = Piece {
                    kind: old(self)@.falling.kind,
                    col: new_center.0 as int,
                    row: new_center.1 as int,
                    orientation: new_orientation as int,
                };
                &&& r == fits(old(self)@.cells, p)
                &&& final(self)@ == moved_to(old(self)@, p)
            }),
            final(self).wf(),
    {
        let candidate = Tetromino {
            ttype: self.falling_tetromino.ttype,
            center: new_center,
            orientation: new_orientation,
        };
        let fits = self.tetromino_fits(&candidate);
        if fits {
            self.falling_tetromino = candidate;
        }
        fits
    }

    /// The falling tetromino's center, within two cells of the play field.
    fn falling_center(&self) -> (r: (isize, isize))
        requires
            self.wf(),
        ensures
            r.0 as int == self@.falling.col,
            r.1 as int == self@.falling.row,
            -2 <= r.0 < MATRIX_WIDTH + 2,
            -2 <= r.1 < MATRIX_HEIGHT + 2,
    {
        proof {
            lemma_center_near_minoes(self@.falling);
        }
        self.falling_tetromino.center
    }

    // Actions that can be made by the player

    /// Moves the currently falling piece down, due to gravity. Returns `true`
    /// if the tetromino was moved successfully, or `false` if it hit the floor.
    pub fn apply_gravity(&mut self) -> (r: bool)
        requires
            old(self).wf(),
        ensures
            r == fits(old(self)@.cells, shifted(old(self)@.falling, 0, -1)),
            r ==> fits(final(self)@.cells, final(self)@.falling),
            final(self)@ == moved_to(old(self)@, shifted(old(self)@.falling, 0, -1)),
            final(self).wf(),
    {
        let center = self.falling_center();
        let new_center = (center.0, center.1 - 1);
        let orientation = self.falling_tetromino.orientation;
        self.move_tetromino_if_fits(new_center, orientation)
    }

    /// Moves the current tetromino to the left, if it can. Returns `true` if
    /// the tetromino was moved successfully, else returns `false`.
    pub fn move_left(&mut self) -> (r: bool)
        requires
            old(self).wf(),
        ensures
            r == fits(old(self)@.cells, shifted(old(self)@.falling, -1, 0)),
            r ==> fits(final(self)@.cells, final(self)@.falling),
            final(self)@ == moved_to(old(self)@, shifted(old(self)@.falling, -1, 0)),
            final(self).wf(),
    {
        let center = self.falling_center();
        let new_center = (center.0 - 1, center.1);
        let orientation = self.falling_tetromino.orientation;
        self.move_tetromino_if_fits(new_center, orientation)
    }

    /// Moves the current tetromino to the right, if it can. Returns `true` if
    /// the tetromino was moved successfully, else returns `false`.
    pub fn move_right(&mut self) -> (r: bool)
        requires
            old(self).wf(),
        ensures
            r == fits(old(self)@.cells, shifted(old(self)@.falling, 1, 0)),
            r ==> fits(final(self)@.cells, final(self)@.falling),
            final(self)@ == moved_to(old(self)@, shifted(old(self)@.falling, 1, 0)),
            final(self).wf(),
    {
        let center = self.falling_center();
        let new_center = (center.0 + 1, center.1);
        let orientation = self.falling_tetromino.orientation;
        self.move_tetromino_if_fits(new_center, orientation)
    }
    /// Turns the falling tetromino to `new_orientation`, trying the kick
    /// candidates in table order and taking the first that fits. Returns
    /// whether one did.
    fn rotate_to_orientation(&mut self, new_orientation: u32) -> (r: bool)
        requires
            old(self).wf(),
            new_orientation < 4,
        ensures
            r == kick_search(old(self)@.cells, old(self)@.falling, new_orientation as int, 0) is Some,
            r ==> fits(final(self)@.cells, final(self)@.falling),
            final(self)@ == rotated_to(old(self)@, new_orientation as int),
            final(self).wf(),
    {
        let ghost g = self@;
        let ghost to = new_orientation as int;
        let old_orientation = self.falling_tetromino.orientation;
        let ttype = self.falling_tetromino.ttype;
        let center = self.falling_center();
        let offsets = tetromino_offset_data_from(&ttype);
        let mut k: usize = 0;
        while k < 5
            invariant
                k <= 5,
                self@ == g,
                old(self)@ == g,
                self.wf(),
                old_orientation as int == g.falling.orientation,
                ttype == g.falling.kind,
                center.0 as int == g.falling.col,
                center.1 as int == g.falling.row,
                -2 <= center.0 < MATRIX_WIDTH + 2,
                -2 <= center.1 < MATRIX_HEIGHT + 2,
                new_orientation < 4,
                to == new_orientation as int,
                forall|i: int| 0 <= i < 5 ==> widen(#[trigger] offsets@[i]@) == kick_table(ttype)[i],
                kick_search(g.cells, g.falling, to, 0) == kick_search(g.cells, g.falling, to, k as int),
            decreases 5 - k,
        {
            let offset_data = &offsets[k];
            proof {
                lemma_kick_entries_small(ttype, k as int, old_orientation as int);
                lemma_kick_entries_small(ttype, k as int, to);
                assert(widen(offset_data@)[old_orientation as int] == kick_table(ttype)[k as int][old_orientation as int]);
                assert(widen(offset_data@)[to] == kick_table(ttype)[k as int][to]);
            }
            let from = offset_data[old_orientation as usize];
            let onto = offset_data[new_orientation as usize];
            let offset = (from.0 - onto.0, from.1 - onto.1);
            let candidate_tetromino = Tetromino {
                ttype: ttype,
                center: (center.0 + offset.0, center.1 + offset.1),
                orientation: new_orientation,
            };
            assert(candidate_tetromino@ == kick_candidate(g.falling, to, k as int));
            if self.tetromino_fits(&candidate_tetromino) {
                assert(kick_search(g.cells, g.falling, to, k as int) == Some(candidate_tetromino@));
                self.falling_tetromino = candidate_tetromino;
                assert(self@ == with_falling(g, candidate_tetromino@));
                return true;
            }
            assert(kick_search(g.cells, g.falling, to, k as int) == kick_search(g.cells, g.falling, to, k + 1));
            k = k + 1;
        }
        false
    }

    /// Drops the current tetromino as far as it falls, then locks it.
    pub fn hard_drop(&mut self)
        requires
            old(self).wf(),
        ensures
            exists|k: int|
                lands_after(old(self)@.cells, old(self)@.falling, k) && lock_step(
                    with_falling(old(self)@, shifted(old(self)@.falling, 0, -k)),
                    final(self)@,
                ),
            final(self).wf(),
    {
        let ghost g = self@;
        let ghost mut k: int = 0;
        assert(shifted(g.falling, 0, 0) == g.falling);
        loop
            invariant_except_break
                self.wf(),
                0 <= k,
                self@ == with_falling(g, shifted(g.falling, 0, -k)),
                forall|j: int| 1 <= j <= k ==> fits(g.cells, #[trigger] shifted(g.falling, 0, -j)),
            ensures
                self.wf(),
                lands_after(g.cells, g.falling, k),
                self@ == with_falling(g, shifted(g.falling, 0, -k)),
            decreases g.falling.row - k + 3,
        {
            proof {
                lemma_center_near_minoes(self@.falling);
            }
            let moved = self.apply_gravity();
            assert(shifted(shifted(g.falling, 0, -k), 0, -1) == shifted(g.falling, 0, -(k + 1)));
            if !moved {
                break;
            }
            proof {
                k = k + 1;
                lemma_center_near_minoes(self@.falling);
            }
        }
        self.lock_piece();
    }

    /// Swaps the falling tetromino's kind with the held kind. With nothing
    /// held yet, the falling kind is held and the next piece spawns; otherwise
    /// the held kind comes back at the spawn position.
    pub fn hold(&mut self)
        requires
            old(self).wf(),
        ensures
            hold_step(old(self)@, final(self)@),
            final(self).wf(),
    {
        // Holding twice before a piece locks is not prevented.
        let new_held = self.falling_tetromino.ttype;
        match self.held {
            Some(old_held) => {
                self.falling_tetromino = Tetromino::new(old_held);
                proof {
                    lemma_spawned_in_bounds(old_held);
                }
            },
            None => {
                self.spawn_next_piece();
            },
        }
        self.held = Some(new_held);
    }

    /// Locks the currently falling tetromino on the matrix, clears full
    /// lines, and spawns the next tetromino.
    pub fn lock_piece(&mut self)
        requires
            old(self).wf(),
        ensures
            lock_step(old(self)@, final(self)@),
            final(self).wf(),
    {
        let ghost g = self@;
        let ghost m = minoes_of(g.falling);
        let minoes = self.falling_tetromino.minoes();
        let kind = self.falling_tetromino.ttype;
        assert(minoes@.len() == 4) by {
            assert(widen(minoes@).len() == minoes@.len());
        }
        let mut i: usize = 0;
        while i < 4
            invariant
                i <= 4,
                minoes@.len() == 4,
                widen(minoes@) == m,
                m == minoes_of(g.falling),
                kind == g.falling.kind,
                game_wf(g),
                self.wf(),
                self@ == (GameView { cells: self@.cells, ..g }),
                forall|c: int, r: int|
                    0 <= c < MATRIX_WIDTH && 0 <= r < MATRIX_HEIGHT ==> #[trigger] self@.cells[c][r] == (
                    if m.subrange(0, i as int).contains((c, r)) {
                        Some(kind)
                    } else {
                        g.cells[c][r]
                    }),
            decreases 4 - i,
        {
            let mino_position = minoes[i];
            assert(m[i as int] == (mino_position.0 as int, mino_position.1 as int));
            assert(in_grid(m[i as int]));
            let ghost before = self@.cells;
            let col = mino_position.0 as usize;
            let row = mino_position.1 as usize;
            self.set_cell(col, row, Some(kind));
            proof {
                assert forall|c: int, r: int|
                    0 <= c < MATRIX_WIDTH && 0 <= r < MATRIX_HEIGHT implies #[trigger] self@.cells[c][r] == (
                    if m.subrange(0, i + 1).contains((c, r)) {
                        Some(kind)
                    } else {
                        g.cells[c][r]
                    }) by {
                    lemma_prefix_contains(m, i as int, (c, r));
                    assert(before[c][r] == self@.cells[c][r] || (c == col && r == row));
                }
            }
            i = i + 1;
        }
        assert(m.subrange(0, 4) =~= m);
        let ghost locked = locked_cells(g.cells, g.falling);
        assert forall|c: int| 0 <= c < MATRIX_WIDTH implies #[trigger] self@.cells[c] =~= locked[c] by {
            assert forall|r: int| 0 <= r < MATRIX_HEIGHT implies #[trigger] self@.cells[c][r] == locked[c][r] by {}
        }
        assert(self@.cells =~= locked);
        self.clear_lines();
        self.spawn_next_piece();
    }

    // Helpers

    /// Writes `v` into the cell at (`col`, `row`).
    fn set_cell(&mut self, col: usize, row: usize, v: Option<TetrominoType>)
        requires
            old(self).wf(),
            col < MATRIX_WIDTH,
            row < MATRIX_HEIGHT,
        ensures
            final(self)@ == (GameView {
                cells: old(self)@.cells.update(col as int, old(self)@.cells[col as int].update(row as int, v)),
                ..old(self)@
            }),
            final(self).wf(),
    {
        let ghost before = self@.cells;
        assert(before[col as int] == self.placed_squares@[col as int]@);
        self.placed_squares[col][row] = v;
        assert(cells_of(self.placed_squares@) =~= before.update(col as int, before[col as int].update(row as int, v)));
        assert forall|c: int| 0 <= c < MATRIX_WIDTH implies (#[trigger] self@.cells[c]).len() == MATRIX_HEIGHT by {
            assert(before[c].len() == MATRIX_HEIGHT);
        }
    }

    /// Whether every cell of row `row` is occupied.
    fn row_filled(&self, row: usize) -> (r: bool)
        requires
            matrix_wf(self@.cells),
            row < MATRIX_HEIGHT,
        ensures
            r == full_row(row_of(self@.cells, row as int)),
    {
        let mut col: usize = 0;
        while col < MATRIX_WIDTH
            invariant
                col <= MATRIX_WIDTH,
                row < MATRIX_HEIGHT,
                matrix_wf(self@.cells),
                forall|c: int| 0 <= c < col ==> (#[trigger] row_of(self@.cells, row as int)[c]) is Some,
            decreases MATRIX_WIDTH - col,
        {
            assert(self@.cells[col as int] == self.placed_squares@[col as int]@);
            if self.placed_squares[col][row].is_none() {
                assert(row_of(self@.cells, row as int)[col as int] is None);
                return false;
            }
            col = col + 1;
        }
        true
    }

    /// Clears any full lines that are on the matrix, then moves the lines
    /// above them down.
    fn clear_lines(&mut self)
        requires
            old(self).wf(),
        ensures
            final(self)@ == (GameView { cells: cleared(old(self)@.cells), ..old(self)@ }),
            final(self).wf(),
    {
        let ghost g = self@;
        let ghost rows0 = rows_of(g.cells);
        let mut num_cleared_rows: usize = 0;
        // Write the contents of each row into the row below into which it
        // falls; num_cleared_rows counts how far to move it down.
        let mut row: usize = 0;
        while row < MATRIX_HEIGHT
            invariant
                row <= MATRIX_HEIGHT,
                num_cleared_rows <= row,
                game_wf(g),
                rows0 == rows_of(g.cells),
                self.wf(),
                self@ == (GameView { cells: self@.cells, ..g }),
                kept_rows(rows0.subrange(0, row as int)).len() == row - num_cleared_rows,
                forall|c: int, r: int|
                    0 <= c < MATRIX_WIDTH && 0 <= r < row - num_cleared_rows ==> #[trigger] self@.cells[c][r]
                        == kept_rows(rows0.subrange(0, row as int))[r][c],
                forall|c: int, r: int|
                    0 <= c < MATRIX_WIDTH && row <= r < MATRIX_HEIGHT ==> #[trigger] self@.cells[c][r]
                        == g.cells[c][r],
            decreases MATRIX_HEIGHT - row,
        {
            proof {
                lemma_kept_rows_push(rows0, row as int);
                assert(row_of(self@.cells, row as int) =~= rows0[row as int]);
            }
            let ghost kept = kept_rows(rows0.subrange(0, row as int));
            if self.row_filled(row) {
                // This row is full: a higher row will overwrite it.
                num_cleared_rows = num_cleared_rows + 1;
            } else {
                let dst = row - num_cleared_rows;
                let ghost start = self@.cells;
                let mut col: usize = 0;
                while col < MATRIX_WIDTH
                    invariant
                        col <= MATRIX_WIDTH,
                        dst <= row < MATRIX_HEIGHT,
                        game_wf(g),
                        self.wf(),
                        self@ == (GameView { cells: self@.cells, ..g }),
                        matrix_wf(start),
                        forall|c: int, r: int|
                            0 <= c < MATRIX_WIDTH && 0 <= r < MATRIX_HEIGHT ==> #[trigger] self@.cells[c][r] == (
                            if r == dst && c < col {
                                start[c][row as int]
                            } else {
                                start[c][r]
                            }),
                    decreases MATRIX_WIDTH - col,
                {
                    let ghost before = self@.cells;
                    assert(before[col as int] == self.placed_squares@[col as int]@);
                    let v = self.placed_squares[col][row];
                    self.set_cell(col, dst, v);
                    assert forall|c: int, r: int|
                        0 <= c < MATRIX_WIDTH && 0 <= r < MATRIX_HEIGHT implies #[trigger] self@.cells[c][r] == (
                        if r == dst && c < col + 1 {
                            start[c][row as int]
                        } else {
                            start[c][r]
                        }) by {
                        assert(before[c][r] == self@.cells[c][r] || (c == col && r == dst));
                    }
                    col = col + 1;
                }
                assert(kept_rows(rows0.subrange(0, row + 1)) == kept.push(rows0[row as int]));
            }
            row = row + 1;
        }
        assert(rows0.subrange(0, MATRIX_HEIGHT as int) =~= rows0);
        let ghost kept = kept_rows(rows0);
        // Empty the top num_cleared_rows rows.
        let mut row: usize = MATRIX_HEIGHT - num_cleared_rows;
        while row < MATRIX_HEIGHT
            invariant
                MATRIX_HEIGHT - num_cleared_rows <= row <= MATRIX_HEIGHT,
                kept.len() == MATRIX_HEIGHT - num_cleared_rows,
                game_wf(g),
                self.wf(),
                self@ == (GameView { cells: self@.cells, ..g }),
                forall|c: int, r: int|
                    0 <= c < MATRIX_WIDTH && 0 <= r < MATRIX_HEIGHT - num_cleared_rows ==> #[trigger] self@.cells[c][r]
                        == kept[r][c],
                forall|c: int, r: int|
                    0 <= c < MATRIX_WIDTH && MATRIX_HEIGHT - num_cleared_rows <= r < row ==> #[trigger] self@.cells[c][r]
                        is None,
            decreases MATRIX_HEIGHT - row,
        {
            let mut col: usize = 0;
            let ghost start = self@.cells;
            while col < MATRIX_WIDTH
                invariant
                    col <= MATRIX_WIDTH,
                    row < MATRIX_HEIGHT,
                    game_wf(g),
                    self.wf(),
                    self@ == (GameView { cells: self@.cells, ..g }),
                    forall|c: int, r: int|
                        0 <= c < MATRIX_WIDTH && 0 <= r < MATRIX_HEIGHT ==> #[trigger] self@.cells[c][r] == (
                        if r == row && c < col {
                            None
                        } else {
                            start[c][r]
                        }),
                decreases MATRIX_WIDTH - col,
            {
                let ghost before = self@.cells;
                self.set_cell(col, row, None);
                assert forall|c: int, r: int|
                    0 <= c < MATRIX_WIDTH && 0 <= r < MATRIX_HEIGHT implies #[trigger] self@.cells[c][r] == (
                    if r == row && c < col + 1 {
                        None
                    } else {
                        start[c][r]
                    }) by {
                    assert(before[c][r] == self@.cells[c][r] || (c == col && r == row));
                }
                col = col + 1;
            }
            row = row + 1;
        }
        let ghost target = cleared(g.cells);
        assert forall|c: int| 0 <= c < MATRIX_WIDTH implies #[trigger] self@.cells[c] =~= target[c] by {
            assert forall|r: int| 0 <= r < MATRIX_HEIGHT implies #[trigger] self@.cells[c][r] == target[c][r] by {
                assert(target[c][r] == cleared_rows(rows0)[r][c]);
            }
        }
        assert(self@.cells =~= target);
    }

    /// Takes the next tetromino from the front of the preview, and refills
    /// the back of the preview from the bag.
    fn spawn_next_piece(&mut self)
        requires
            old(self).wf(),
        ensures
            spawned_next(old(self)@, final(self)@),
            final(self).wf(),
    {
        let ghost g = self@;
        // add a new item to the end of the preview
        let drawn = self.bag.draw();
        self.next_preview.push(drawn);
        // spawn the next tetromino
        let next = self.next_preview.remove(0);
        self.falling_tetromino = Tetromino::new(next);
        proof {
            lemma_spawned_in_bounds(next);
            assert(self@.preview =~= g.preview.drop_first().push(drawn));
        }
    }

    /// Rotates the current tetromino counter-clockwise, if it can. All the
    /// kicks of the rotation system's tables are attempted. Returns `true` if
    /// a rotation successfully occurred, else returns `false`.
    pub fn rotate_left(&mut self) -> (r: bool)
        requires
            old(self).wf(),
        ensures
            r == kick_search(
                old(self)@.cells,
                old(self)@.falling,
                (old(self)@.falling.orientation + 3) % 4,
                0,
            ) is Some,
            r ==> fits(final(self)@.cells, final(self)@.falling),
            final(self)@ == rotated_to(old(self)@, (old(self)@.falling.orientation + 3) % 4),
            final(self).wf(),
    {
        let old_orientation = self.falling_tetromino.orientation;
        self.rotate_to_orientation((old_orientation + 3) % 4)
    }

    /// Rotates the current tetromino clockwise, if it can. All the kicks of
    /// the rotation system's tables are attempted. Returns `true` if a
    /// rotation successfully occurred, else returns `false`.
    pub fn rotate_right(&mut self) -> (r: bool)
        requires
            old(self).wf(),
        ensures
            r == kick_search(
                old(self)@.cells,
                old(self)@.falling,
                (old(self)@.falling.orientation + 1) % 4,
                0,
            ) is Some,
            r ==> fits(final(self)@.cells, final(self)@.falling),
            final(self)@ == rotated_to(old(self)@, (old(self)@.falling.orientation + 1) % 4),
            final(self).wf(),
    {
        let old_orientation = self.falling_tetromino.orientation;
        self.rotate_to_orientation((old_orientation + 1) % 4)
    }
    /// Returns `true` if the current tetromino has space under it to fall
    /// into, or `false` otherwise.
    fn would_fit_after_gravity(&self) -> (r: bool)
        requires
            self.wf(),
        ensures
            r == can_fall(self@),
    {
        let center = self.falling_center();
        let candidate = Tetromino {
            ttype: self.falling_tetromino.ttype,
            center: (center.0, center.1 - 1),
            orientation: self.falling_tetromino.orientation,
        };
        self.tetromino_fits(&candidate)
    }
}

// ----- Timing -----

/// Number of milliseconds it takes for a tetromino to go down by 1 space.
pub const FALL_INTERVAL: u32 = 500;

/// Number of milliseconds a tetromino spends on the ground until it is forced
/// to lock.
pub const LOCK_INTERVAL: u32 = 1000;

/// Describes what the current tetromino is doing.
#[derive(Clone, Copy, Debug, PartialEq, Eq, Structural)]
pub enum TimeStateAction {
    /// The current tetromino is falling, and there are `time_to_fall`
    /// milliseconds until it falls one more space.
    Falling { time_to_fall: u32 },
    /// The current tetromino is on the ground, and it is waiting to get locked.
    Locking,
}

/// The timing state of a tetris game.
#[derive(Clone, Copy, Debug, PartialEq, Eq, Structural)]
pub struct TimeState {
    /// The `TimeStateAction` describing the current tetromino.
    pub action: TimeStateAction,
    /// The remaining number of milliseconds the current tetromino can spend
    /// on the ground before it is forced to lock.
    pub time_to_lock: u32,
}

/// A timed game as the contracts speak of it.
pub struct TimedView {
    pub game: GameView,
    pub time: TimeState,
}

/// The falling piece has room to fall one row.
pub open spec fn can_fall(g: GameView) -> bool {
    fits(g.cells, shifted(g.falling, 0, -1))
}

/// The clock a game starts with.
pub open spec fn initial_time() -> TimeState {
    TimeState { action: TimeStateAction::Falling { time_to_fall: FALL_INTERVAL }, time_to_lock: LOCK_INTERVAL }
}

/// The clock `t` brought in line with the game `g`: a piece with room to fall
/// is falling, and starts a fresh fall interval if it was locking; a piece
/// without room is locking, with the lock time it had left.
pub open spec fn settled(g: GameView, t: TimeState) -> TimeState {
    if can_fall(g) {
        if t.action is Locking {
            TimeState { action: TimeStateAction::Falling { time_to_fall: FALL_INTERVAL }, ..t }
        } else {
            t
        }
    } else {
        TimeState { action: TimeStateAction::Locking, ..t }
    }
}

/// The counters lie within their intervals, and never at zero.
pub open spec fn clock_wf(t: TimeState) -> bool {
    &&& 1 <= t.time_to_lock <= LOCK_INTERVAL
    &&& (t.action matches TimeStateAction::Falling { time_to_fall } ==> 1 <= time_to_fall <= FALL_INTERVAL)
}

/// What holds of every timed game between two actions: the game is well
/// formed, the counters lie within their intervals, and the piece is falling
/// exactly when it has room to fall.
pub open spec fn timed_wf(s: TimedView) -> bool {
    &&& game_wf(s.game)
    &&& clock_wf(s.time)
    &&& (s.time.action is Falling <==> can_fall(s.game))
}

/// The milliseconds left until the clock fires: a fall or a lock.
pub open spec fn interval_left(t: TimeState) -> int {
    match t.action {
        TimeStateAction::Falling { time_to_fall } => time_to_fall as int,
        TimeStateAction::Locking => t.time_to_lock as int,
    }
}

/// The clock `t` after `budget` milliseconds in which it does not fire.
pub open spec fn waited(t: TimeState, budget: int) -> TimeState {
    match t.action {
        TimeStateAction::Falling { time_to_fall } => TimeState {
            action: TimeStateAction::Falling { time_to_fall: (time_to_fall - budget) as u32 },
            ..t
        },
        TimeStateAction::Locking => TimeState { time_to_lock: (t.time_to_lock - budget) as u32, ..t },
    }
}

/// `s2` follows from `s` when its clock fires: a falling piece falls one row
/// (if it can) and its fall interval starts again; a locking piece locks and
/// the lock interval starts again for the next one. The clock then settles.
pub open spec fn clock_fired(s: TimedView, s2: TimedView) -> bool {
    match s.time.action {
        TimeStateAction::Falling { .. } => {
            &&& s2.game == moved_to(s.game, shifted(s.game.falling, 0, -1))
            &&& s2.time == settled(
                s2.game,
                TimeState { action: TimeStateAction::Falling { time_to_fall: FALL_INTERVAL }, ..s.time },
            )
        },
        TimeStateAction::Locking => {
            &&& lock_step(s.game, s2.game)
            &&& s2.time == settled(s2.game, TimeState { time_to_lock: LOCK_INTERVAL, ..s.time })
        },
    }
}

/// `s2` is a state that `s` reaches after `budget` milliseconds without input:
/// the clock fires each time a full interval fits in what is left of the
/// budget, and the rest of the budget is taken off the current counter.
pub open spec fn advanced(s: TimedView, budget: int, s2: TimedView) -> bool
    decreases budget,
{
    if budget < interval_left(s.time) {
        s2 == TimedView { time: waited(s.time, budget), ..s }
    } else if interval_left(s.time) <= 0 {
        false
    } else {
        exists|mid: TimedView|
            #[trigger] clock_fired(s, mid) && advanced(mid, budget - interval_left(s.time), s2)
    }
}

/// A run that starts with the clock firing into `mid` and goes on from there.
pub proof fn lemma_advanced_fire(s: TimedView, budget: int, mid: TimedView, s2: TimedView)
    requires
        0 < interval_left(s.time) <= budget,
        clock_fired(s, mid),
        advanced(mid, budget - interval_left(s.time), s2),
    ensures
        advanced(s, budget, s2),
{
}

/// Describes the state of a tetris game, with timing information.
pub struct TimedGameState {
    game_state: GameState,
    time_state: TimeState,
}

impl View for TimedGameState {
    type V = TimedView;

    closed spec fn view(&self) -> TimedView {
        TimedView { game: self.game_state@, time: self.time_state }
    }
}

impl TimedGameState {
    /// Everything that holds between two actions.
    pub open spec fn wf(&self) -> bool {
        timed_wf(self@)
    }

    /// Create a new `TimedGameState` corresponding to the initial state of a
    /// timed tetris game.
    pub fn new() -> (tgs: Self)
        ensures
            tgs.wf(),
            tgs@.game.cells == empty_cells(),
            tgs@.game.falling == spawned(tgs@.game.falling.kind),
            tgs@.game.held is None,
            tgs@.time == settled(tgs@.game, initial_time()),
    {
        Self::from_game_state(GameState::new())
    }

    /// Starts the clock on a game, as at the start of a timed game.
    pub fn from_game_state(game_state: GameState) -> (tgs: Self)
        requires
            game_state.wf(),
        ensures
            tgs.wf(),
            tgs@.game == game_state@,
            tgs@.time == settled(game_state@, initial_time()),
    {
        let mut tgs = TimedGameState {
            game_state: game_state,
            time_state: TimeState {
                action: TimeStateAction::Falling { time_to_fall: FALL_INTERVAL },
                time_to_lock: LOCK_INTERVAL,
            },
        };
        tgs.update_time_state();
        tgs
    }

    // Getters

    /// Returns the underlying `GameState`.
    pub fn game_state(&self) -> (r: &GameState)
        ensures
            r@ == self@.game,
    {
        &self.game_state
    }

    /// Returns the timing information describing the current state.
    pub fn time_state(&self) -> (r: &TimeState)
        ensures
            *r == self@.time,
    {
        &self.time_state
    }

    /// Returns the squares placed on the matrix, as `GameState::placed_squares`
    /// does.
    pub fn placed_squares(&self) -> (r: &Vec<Vec<Option<TetrominoType>>>)
        ensures
            cells_of(r@) == self@.game.cells,
    {
        self.game_state.placed_squares()
    }

    /// A `Tetromino` object representing the currently falling tetromino.
    pub fn falling_tetromino(&self) -> (r: &Tetromino)
        ensures
            r@ == self@.game.falling,
    {
        self.game_state.falling_tetromino()
    }

    /// The next pieces that will drop.
    pub fn next_preview(&self) -> (r: &[TetrominoType])
        ensures
            r@ == self@.game.preview,
    {
        self.game_state.next_preview()
    }

    /// The held tetromino, if any.
    pub fn held(&self) -> (r: &Option<TetrominoType>)
        ensures
            *r == self@.game.held,
    {
        self.game_state.held()
    }

    // Actions passed through to the underlying `GameState`. These also update
    // the `TimeState` accordingly.

    /// Moves the current tetromino to the left, if it can. Returns `true` if
    /// the tetromino was moved successfully, else returns `false`.
    pub fn move_left(&mut self) -> (r: bool)
        requires
            old(self).wf(),
        ensures
            r == fits(old(self)@.game.cells, shifted(old(self)@.game.falling, -1, 0)),
            r ==> fits(final(self)@.game.cells, final(self)@.game.falling),
            final(self)@.game == moved_to(old(self)@.game, shifted(old(self)@.game.falling, -1, 0)),
            final(self)@.time == settled(final(self)@.game, old(self)@.time),
            final(self).wf(),
    {
        let r = self.game_state.move_left();
        self.update_time_state();
        r
    }

    /// Moves the current tetromino to the right, if it can. Returns `true` if
    /// the tetromino was moved successfully, else returns `false`.
    pub fn move_right(&mut self) -> (r: bool)
        requires
            old(self).wf(),
        ensures
            r == fits(old(self)@.game.cells, shifted(old(self)@.game.falling, 1, 0)),
            r ==> fits(final(self)@.game.cells, final(self)@.game.falling),
            final(self)@.game == moved_to(old(self)@.game, shifted(old(self)@.game.falling, 1, 0)),
            final(self)@.time == settled(final(self)@.game, old(self)@.time),
            final(self).wf(),
    {
        let r = self.game_state.move_right();
        self.update_time_state();
        r
    }

    /// Rotates the current tetromino counter-clockwise, if it can, trying the
    /// kicks of the rotation system's tables. Returns `true` if a rotation
    /// successfully occurred, else returns `false`.
    pub fn rotate_left(&mut self) -> (r: bool)
        requires
            old(self).wf(),
        ensures
            r == kick_search(
                old(self)@.game.cells,
                old(self)@.game.falling,
                (old(self)@.game.falling.orientation + 3) % 4,
                0,
            ) is Some,
            r ==> fits(final(self)@.game.cells, final(self)@.game.falling),
            final(self)@.game == rotated_to(old(self)@.game, (old(self)@.game.falling.orientation + 3) % 4),
            final(self)@.time == settled(final(self)@.game, old(self)@.time),
            final(self).wf(),
    {
        let r = self.game_state.rotate_left();
        self.update_time_state();
        r
    }

    /// Rotates the current tetromino clockwise, if it can, trying the kicks
    /// of the rotation system's tables. Returns `true` if a rotation
    /// successfully occurred, else returns `false`.
    pub fn rotate_right(&mut self) -> (r: bool)
        requires
            old(self).wf(),
        ensures
            r == kick_search(
                old(self)@.game.cells,
                old(self)@.game.falling,
                (old(self)@.game.falling.orientation + 1) % 4,
                0,
            ) is Some,
            r ==> fits(final(self)@.game.cells, final(self)@.game.falling),
            final(self)@.game == rotated_to(old(self)@.game, (old(self)@.game.falling.orientation + 1) % 4),
            final(self)@.time == settled(final(self)@.game, old(self)@.time),
            final(self).wf(),
    {
        let r = self.game_state.rotate_right();
        self.update_time_state();
        r
    }

    /// Drops the current tetromino and locks it; the next piece gets a full
    /// lock interval.
    pub fn hard_drop(&mut self)
        requires
            old(self).wf(),
        ensures
            exists|k: int|
                lands_after(old(self)@.game.cells, old(self)@.game.falling, k) && lock_step(
                    with_falling(old(self)@.game, shifted(old(self)@.game.falling, 0, -k)),
                    final(self)@.game,
                ),
            final(self)@.time == settled(
                final(self)@.game,
                TimeState { time_to_lock: LOCK_INTERVAL, ..old(self)@.time },
            ),
            final(self).wf(),
    {
        self.game_state.hard_drop();
        self.time_state.time_to_lock = LOCK_INTERVAL;
        self.update_time_state();
    }

    /// Holds the current tetromino as `GameState::hold` does; the piece that
    /// comes gets a full lock interval.
    pub fn hold(&mut self)
        requires
            old(self).wf(),
        ensures
            hold_step(old(self)@.game, final(self)@.game),
            final(self)@.time == settled(
                final(self)@.game,
                TimeState { time_to_lock: LOCK_INTERVAL, ..old(self)@.time },
            ),
            final(self).wf(),
    {
        self.game_state.hold();
        self.time_state.time_to_lock = LOCK_INTERVAL;
        self.update_time_state();
    }

    // Time-related functions

    /// Advance the tetris game by the given number of milliseconds, assuming
    /// no inputs are given during this period.
    pub fn advance_time(&mut self, t: u32)
        requires
            old(self).wf(),
        ensures
            advanced(old(self)@, t as int, final(self)@),
            final(self).wf(),
    {
        let ghost s0 = self@;
        let mut remaining = t;
        loop
            invariant_except_break
                self.wf(),
                forall|s2: TimedView| #[trigger] advanced(self@, remaining as int, s2) ==> advanced(s0, t as int, s2),
            ensures
                self.wf(),
                advanced(s0, t as int, self@),
            decreases remaining,
        {
            let ghost cur = self@;
            let ghost budget = remaining as int;
            if remaining == 0 {
                assert(waited(cur.time, 0) == cur.time);
                assert(advanced(cur, 0, cur));
                break;
            }
            match self.time_state.action {
                TimeStateAction::Falling { time_to_fall } => {
                    if remaining < time_to_fall {
                        // Not time to fall yet
                        self.time_state.action = TimeStateAction::Falling {
                            time_to_fall: time_to_fall - remaining,
                        };
                        assert(advanced(cur, budget, self@));
                        // Ran out of time to advance, so end loop
                        break;
                    } else {
                        // Fall in time_to_fall milliseconds
                        self.game_state.apply_gravity();
                        // Handle remaining time in next loop
                        remaining = remaining - time_to_fall;
                        // Reset time_to_fall for next fall cycle
                        self.time_state.action = TimeStateAction::Falling { time_to_fall: FALL_INTERVAL };
                    }
                },
                TimeStateAction::Locking => {
                    if remaining < self.time_state.time_to_lock {
                        // Not time to lock yet
                        self.time_state.time_to_lock = self.time_state.time_to_lock - remaining;
                        assert(advanced(cur, budget, self@));
                        // Ran out of time to advance, so end loop
                        break;
                    } else {
                        // Lock in time_to_lock milliseconds, spawning next piece
                        self.game_state.lock_piece();
                        // Handle remaining time in next loop
                        remaining = remaining - self.time_state.time_to_lock;
                        // Reset time_to_lock for next piece
                        self.time_state.time_to_lock = LOCK_INTERVAL;
                    }
                },
            }
            self.update_time_state();
            proof {
                let mid = self@;
                assert(clock_fired(cur, mid));
                assert(interval_left(cur.time) > 0);
                assert(budget >= interval_left(cur.time));
                assert(budget - interval_left(cur.time) == remaining as int);
                assert forall|s2: TimedView| #[trigger] advanced(mid, remaining as int, s2) implies advanced(
                    s0,
                    t as int,
                    s2,
                ) by {
                    lemma_advanced_fire(cur, budget, mid, s2);
                }
            }
        }
    }

    /// Adjusts the time state after a change in the game state: the action
    /// must be `Falling` if the current tetromino is off the ground, and
    /// `Locking` if it is on the ground.
    fn update_time_state(&mut self)
        requires
            game_wf(old(self)@.game),
            clock_wf(old(self)@.time),
        ensures
            final(self)@ == (TimedView { time: settled(old(self)@.game, old(self)@.time), ..old(self)@ }),
            final(self).wf(),
    {
        if self.game_state.would_fit_after_gravity() {
            if let TimeStateAction::Locking = self.time_state.action {
                // Start a new cycle of falling
                self.time_state.action = TimeStateAction::Falling { time_to_fall: FALL_INTERVAL };
            }
        } else {
            // Start/resume locking
            self.time_state.action = TimeStateAction::Locking;
        }
    }
}

} // verus!
