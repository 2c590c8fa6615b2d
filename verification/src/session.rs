//! A running session: the piece in play, its position, the frame counter and
//! the score, and how a key press or the passing of a frame changes them.
use rand::Rng;
use vstd::prelude::*;

use crate::board::{
    above_danger_line, cell_set, cleared, cleared_count, clear_blocks, free_at,
    empty_row, fits, fix_tetrimino, inside, is_game_over, is_movable, kept_rows,
    lands_on, lemma_kept_rows_len, reachable, move_tetrimino, next_rotation, placed, rotate_tetrimino,
    row_full, row_sum, BLOCK_NUM_X, BLOCK_NUM_Y, TETRIMINO_DEFAULT_X, TETRIMINO_DEFAULT_Y,
    TETRIMINO_MAX_Y,
};
use crate::game::{empty_stage, tetrimino_table, Game, State};

verus! {

/// Frames between two steps of the piece's fall.
pub const MOVE_DOWN_FRAME_COUNT: u32 = 60;
/// Points for one cleared row; clearing `n` rows at once earns `n * n` times this.
pub const BASE_SCORE: u32 = 1000;
/// Number of different pieces.
pub const SHAPE_COUNT: usize = 7;
/// Number of rotations a piece cycles through.
pub const ROTATION_COUNT: usize = 4;
/// The most points one settled piece can earn: every row of the field cleared at once.
pub const MAX_GAIN: u32 = 400000;

#[verifier::external_type_specification]
#[verifier::external_body]
pub struct ExThreadRng(rand::rngs::ThreadRng);

/// `rand::thread_rng`: a handle to the thread's random number generator.
/// Nothing is promised of it; it panics if the operating system gives no
/// seed, which no argument can rule out.
#[verifier::external_body]
fn thread_rng() -> rand::rngs::ThreadRng {
    rand::thread_rng()
}

/// `Rng::gen_range(0..n)`: a number drawn from `0..n`. The range is never
/// empty here (`n > 0`), on which the call would panic; which number comes
/// back is chance, so only that it lies in the range is stated.
#[verifier::external_body]
fn gen_range(rng: &mut rand::rngs::ThreadRng, n: usize) -> (k: usize)
    requires
        n > 0,
    ensures
        k < n,
{
    rng.gen_range(0..n)
}

/// A key the session reacts to.
#[derive(Clone, Copy, Debug, PartialEq, Eq, Structural)]
pub enum Key {
    Escape,
    Left,
    Right,
    Up,
    Down,
    Return,
    Other,
}

/// What the loop should do after an event.
#[derive(Clone, Copy, Debug, PartialEq, Eq, Structural)]
pub enum Control {
    Continue,
    Quit,
}

/// Everything a session holds but its random number generator.
pub struct SessionView {
    pub stage: Seq<Seq<u8>>,
    pub state: State,
    pub shape: int,
    pub rotate: int,
    pub x: int,
    pub y: int,
    pub frame_count: int,
    pub go_next: bool,
    pub score: int,
}

/// The game in progress and the piece in play.
pub struct Session {
    game: Game,
    shape: usize,
    rotate: usize,
    tetrimino_x: i32,
    tetrimino_y: i32,
    frame_count: u32,
    go_next: bool,
    score: u32,
    rng: rand::rngs::ThreadRng,
}

impl View for Session {
    type V = SessionView;

    closed spec fn view(&self) -> SessionView {
        SessionView {
            stage: self.game.stage.deep_view(),
            state: self.game.state,
            shape: self.shape as int,
            rotate: self.rotate as int,
            x: self.tetrimino_x as int,
            y: self.tetrimino_y as int,
            frame_count: self.frame_count as int,
            go_next: self.go_next,
            score: self.score as int,
        }
    }
}

/// The grid of piece `shape` in rotation `rotate`.
pub open spec fn piece_of(shape: int, rotate: int) -> Seq<Seq<u8>> {
    tetrimino_table()[shape][rotate]
}

/// The grid of the piece in play.
pub open spec fn current_piece(s: SessionView) -> Seq<Seq<u8>> {
    piece_of(s.shape, s.rotate)
}

/// A field of the right size whose cells are 0 (empty) or 1 (settled block).
pub open spec fn stage_wf(stage: Seq<Seq<u8>>) -> bool {
    &&& stage.len() == BLOCK_NUM_Y
    &&& forall|r: int| 0 <= r < stage.len() ==> #[trigger] stage[r].len() == BLOCK_NUM_X
    &&& forall|r: int, c: int|
        0 <= r < stage.len() && 0 <= c < stage[r].len() ==> #[trigger] stage[r][c] <= 1
}

/// What holds of a session between any two events.
pub open spec fn session_inv(s: SessionView) -> bool {
    &&& stage_wf(s.stage)
    &&& 0 <= s.shape < SHAPE_COUNT
    &&& 0 <= s.rotate < ROTATION_COUNT
    &&& 0 <= s.frame_count < MOVE_DOWN_FRAME_COUNT
    &&& inside(current_piece(s), s.x, s.y)
    &&& s.state == State::PLAYING ==> fits(s.stage, current_piece(s), s.x, s.y)
    &&& 0 <= s.score <= u32::MAX
}

/// The session after a new piece `shape` appears at the top.
pub open spec fn spawned(s: SessionView, shape: int) -> SessionView {
    SessionView {
        shape,
        rotate: 0,
        x: TETRIMINO_DEFAULT_X as int,
        y: TETRIMINO_DEFAULT_Y as int,
        frame_count: 0,
        ..s
    }
}

/// The session after the game restarts with piece `shape`; the score and the
/// pending-settle flag carry over.
pub open spec fn restarted(s: SessionView, shape: int) -> SessionView {
    spawned(SessionView { stage: empty_stage(), state: State::PLAYING, ..s }, shape)
}

/// A fresh session with piece `shape`.
pub open spec fn started(shape: int) -> SessionView {
    SessionView {
        stage: empty_stage(),
        state: State::PLAYING,
        shape,
        rotate: 0,
        x: TETRIMINO_DEFAULT_X as int,
        y: TETRIMINO_DEFAULT_Y as int,
        frame_count: 0,
        go_next: false,
        score: 0,
    }
}

/// The piece in play moved by `(dx, dy)` if it fits there, else unchanged.
pub open spec fn shifted(s: SessionView, dx: int, dy: int) -> SessionView {
    if fits(s.stage, current_piece(s), s.x + dx, s.y + dy) {
        SessionView { x: s.x + dx, y: s.y + dy, ..s }
    } else {
        s
    }
}

/// The piece in play turned to its next rotation if that fits, else unchanged.
pub open spec fn turned(s: SessionView) -> SessionView {
    if fits(s.stage, piece_of(s.shape, next_rotation(s.rotate)), s.x, s.y) {
        SessionView { rotate: next_rotation(s.rotate), ..s }
    } else {
        s
    }
}

/// The row a piece at `(x, y)` reaches by moving down one row at a time while it fits.
pub open spec fn drop_y(stage: Seq<Seq<u8>>, t: Seq<Seq<u8>>, x: int, y: int) -> int
    decreases TETRIMINO_MAX_Y - y,
{
    if y + 1 < TETRIMINO_MAX_Y && fits(stage, t, x, y + 1) {
        drop_y(stage, t, x, y + 1)
    } else {
        y
    }
}

/// The session after a key press; `shape` is the piece drawn for a restart.
pub open spec fn key_model(s: SessionView, key: Key, shape: int) -> (SessionView, Control) {
    match s.state {
        State::PLAYING => match key {
            Key::Escape => (s, Control::Quit),
            Key::Left => (shifted(s, -1, 0), Control::Continue),
            Key::Right => (shifted(s, 1, 0), Control::Continue),
            Key::Up => (turned(s), Control::Continue),
            Key::Down => (shifted(s, 0, 1), Control::Continue),
            Key::Return => (
                SessionView {
                    y: drop_y(s.stage, current_piece(s), s.x, s.y),
                    go_next: true,
                    ..s
                },
                Control::Continue,
            ),
            Key::Other => (s, Control::Continue),
        },
        State::GAMEOVER => match key {
            Key::Escape => (s, Control::Quit),
            Key::Return => (restarted(s, shape), Control::Continue),
            _ => (s, Control::Continue),
        },
    }
}

/// The frame counter advanced; on the fall frame the piece moves down one row,
/// or is marked to settle when it cannot.
pub open spec fn counted(s: SessionView) -> SessionView {
    if s.frame_count + 1 == MOVE_DOWN_FRAME_COUNT {
        if fits(s.stage, current_piece(s), s.x, s.y + 1) {
            SessionView { frame_count: 0, y: s.y + 1, ..s }
        } else {
            SessionView { frame_count: 0, go_next: true, ..s }
        }
    } else {
        SessionView { frame_count: s.frame_count + 1, ..s }
    }
}

/// The field after the piece in play settles and full rows clear.
pub open spec fn settled_stage(s: SessionView) -> Seq<Seq<u8>> {
    cleared(placed(s.stage, current_piece(s), s.x, s.y))
}

/// The rows that clear when the piece in play settles.
pub open spec fn settled_count(s: SessionView) -> int {
    cleared_count(placed(s.stage, current_piece(s), s.x, s.y))
}

/// Points for clearing `n` rows at once.
pub open spec fn points(n: int) -> int {
    n * n * BASE_SCORE
}

/// The piece in play settles: full rows clear, points are added, and either
/// the game ends or piece `shape` appears at the top.
pub open spec fn settle(s: SessionView, shape: int) -> SessionView {
    let after = SessionView {
        stage: settled_stage(s),
        go_next: false,
        score: s.score + points(settled_count(s)),
        ..s
    };
    if above_danger_line(after.stage) {
        SessionView { state: State::GAMEOVER, ..after }
    } else {
        spawned(after, shape)
    }
}

/// The session after one frame, with the rows cleared if a piece settled;
/// `shape` is the piece drawn if a new one appears.
pub open spec fn tick_model(s: SessionView, shape: int) -> (SessionView, Option<u32>) {
    match s.state {
        State::GAMEOVER => (s, None),
        State::PLAYING => {
            let c = counted(s);
            if c.go_next {
                (settle(c, shape), Some(settled_count(c) as u32))
            } else {
                (c, None)
            }
        },
    }
}

/// The points the next frame adds to the score.
pub open spec fn tick_points(s: SessionView) -> int {
    if s.state == State::PLAYING && counted(s).go_next {
        points(settled_count(counted(s)))
    } else {
        0
    }
}

/// Every piece grid in rotations `0..4` is five rows of five cells, and its
/// centre cell holds a block.
pub proof fn lemma_piece_shape(shape: int, rotate: int)
    requires
        0 <= shape < SHAPE_COUNT,
        0 <= rotate < ROTATION_COUNT,
    ensures
        piece_of(shape, rotate).len() == 5,
        forall|i: int| 0 <= i < 5 ==> #[trigger] piece_of(shape, rotate)[i].len() == 5,
        cell_set(piece_of(shape, rotate), 2, 2),
{
    let t = piece_of(shape, rotate);
    assert(t.len() == 5);
    assert(t[0].len() == 5);
    assert(t[1].len() == 5);
    assert(t[2].len() == 5);
    assert(t[3].len() == 5);
    assert(t[4].len() == 5);
    assert(t[2][2] == 1);
}

/// A row of the field's width whose cells are 0 or 1.
pub open spec fn row_wf(row: Seq<u8>) -> bool {
    &&& row.len() == BLOCK_NUM_X
    &&& forall|c: int| 0 <= c < row.len() ==> #[trigger] row[c] <= 1
}

/// A piece that fits lies inside the field.
pub proof fn lemma_fits_inside(stage: Seq<Seq<u8>>, t: Seq<Seq<u8>>, x: int, y: int)
    requires
        fits(stage, t, x, y),
    ensures
        inside(t, x, y),
{
}

/// A piece of the table inside the field has its grid corner near the field.
proof fn lemma_inside_bounds(shape: int, rotate: int, x: int, y: int)
    requires
        0 <= shape < SHAPE_COUNT,
        0 <= rotate < ROTATION_COUNT,
        inside(piece_of(shape, rotate), x, y),
    ensures
        -2 <= x <= 7,
        -2 <= y <= 17,
{
    lemma_piece_shape(shape, rotate);
    assert(cell_set(piece_of(shape, rotate), 2, 2));
}

/// A table piece near a well-formed field has its coordinates in `i32` and a
/// cell of the field under every block that lies inside it.
proof fn lemma_reachable(stage: Seq<Seq<u8>>, shape: int, rotate: int, x: int, y: int)
    requires
        stage_wf(stage),
        0 <= shape < SHAPE_COUNT,
        0 <= rotate < ROTATION_COUNT,
        -3 <= x <= 8,
        -3 <= y <= 18,
    ensures
        reachable(stage, piece_of(shape, rotate), x, y),
{
    lemma_piece_shape(shape, rotate);
}

/// A new piece fits at its starting place on a field with nothing above the
/// danger line.
proof fn lemma_spawn_fits(stage: Seq<Seq<u8>>, shape: int)
    requires
        stage_wf(stage),
        !above_danger_line(stage),
        0 <= shape < SHAPE_COUNT,
    ensures
        fits(stage, piece_of(shape, 0), TETRIMINO_DEFAULT_X as int, TETRIMINO_DEFAULT_Y as int),
{
    let t = piece_of(shape, 0);
    lemma_piece_shape(shape, 0);
    assert forall|i: int, j: int| #[trigger] cell_set(t, i, j) implies free_at(
        stage,
        TETRIMINO_DEFAULT_X + j,
        TETRIMINO_DEFAULT_Y + i,
    ) by {
        assert(stage[i].len() == BLOCK_NUM_X);
        if stage[i][3 + j] == 1 {
            assert(above_danger_line(stage));
        }
    }
}

/// The empty field is well formed and has nothing above the danger line.
pub proof fn lemma_empty_stage()
    ensures
        stage_wf(empty_stage()),
        !above_danger_line(empty_stage()),
{
}

/// A new piece at its starting place lies inside the field.
proof fn lemma_spawn_inside(shape: int)
    requires
        0 <= shape < SHAPE_COUNT,
    ensures
        inside(piece_of(shape, 0), TETRIMINO_DEFAULT_X as int, TETRIMINO_DEFAULT_Y as int),
{
    lemma_piece_shape(shape, 0);
}

/// A table piece inside the field lands on cells of a well-formed field.
proof fn lemma_lands(stage: Seq<Seq<u8>>, shape: int, rotate: int, x: int, y: int)
    requires
        stage_wf(stage),
        0 <= shape < SHAPE_COUNT,
        0 <= rotate < ROTATION_COUNT,
        inside(piece_of(shape, rotate), x, y),
    ensures
        lands_on(stage, piece_of(shape, rotate), x, y),
{
    lemma_piece_shape(shape, rotate);
}

/// Settling a piece keeps the field well formed.
pub proof fn lemma_placed_wf(stage: Seq<Seq<u8>>, t: Seq<Seq<u8>>, x: int, y: int)
    requires
        stage_wf(stage),
    ensures
        stage_wf(placed(stage, t, x, y)),
{
    let p = placed(stage, t, x, y);
    assert forall|r: int, c: int| 0 <= r < p.len() && 0 <= c < p[r].len() implies #[trigger] p[r][c] <= 1 by {
        assert(stage[r].len() == BLOCK_NUM_X);
    }
}

/// A row of 0s and 1s sums to at most its length.
pub proof fn lemma_row_sum_bound(row: Seq<u8>)
    requires
        forall|c: int| 0 <= c < row.len() ==> #[trigger] row[c] <= 1,
    ensures
        0 <= row_sum(row) <= row.len(),
    decreases row.len(),
{
    if row.len() > 0 {
        lemma_row_sum_bound(row.drop_last());
    }
}

/// Rows kept by clearing are rows of the field.
proof fn lemma_kept_rows_wf(stage: Seq<Seq<u8>>)
    requires
        forall|r: int| 0 <= r < stage.len() ==> row_wf(#[trigger] stage[r]),
    ensures
        forall|r: int| 0 <= r < kept_rows(stage).len() ==> row_wf(#[trigger] kept_rows(stage)[r]),
    decreases stage.len(),
{
    reveal(Seq::filter);
    if stage.len() > 0 {
        let rest = stage.drop_last();
        lemma_kept_rows_wf(rest);
        assert(kept_rows(stage) == if !row_full(stage.last()) {
            kept_rows(rest).push(stage.last())
        } else {
            kept_rows(rest)
        });
    }
}

/// Clearing keeps the field well formed, and clears at most all its rows.
pub proof fn lemma_cleared_wf(stage: Seq<Seq<u8>>)
    requires
        stage_wf(stage),
    ensures
        stage_wf(cleared(stage)),
        0 <= cleared_count(stage) <= BLOCK_NUM_Y,
{
    assert forall|r: int| 0 <= r < stage.len() implies row_wf(#[trigger] stage[r]) by {}
    lemma_kept_rows_wf(stage);
    lemma_kept_rows_len(stage);
    let k = kept_rows(stage);
    let cl = cleared(stage);
    let e = (BLOCK_NUM_Y - k.len()) as nat;
    assert forall|r: int| 0 <= r < cl.len() implies row_wf(#[trigger] cl[r]) by {
        if r >= e {
            assert(cl[r] == k[r - e]);
        } else {
            assert(cl[r] == empty_row());
        }
    }
}

/// The rows that clear at once earn at most `MAX_GAIN` points.
pub proof fn lemma_points_bound(n: int)
    requires
        0 <= n <= BLOCK_NUM_Y,
    ensures
        0 <= points(n) <= MAX_GAIN,
{
    assert(0 <= n * n <= 400) by (nonlinear_arith)
        requires
            0 <= n <= 20,
    ;
}

/// A piece that fits one row lower is not yet at the bottom row.
proof fn lemma_fits_below(stage: Seq<Seq<u8>>, shape: int, rotate: int, x: int, y: int)
    requires
        0 <= shape < SHAPE_COUNT,
        0 <= rotate < ROTATION_COUNT,
        fits(stage, piece_of(shape, rotate), x, y),
    ensures
        y < TETRIMINO_MAX_Y,
        -2 <= x <= 7,
        -2 <= y <= 17,
{
    lemma_piece_shape(shape, rotate);
    assert(cell_set(piece_of(shape, rotate), 2, 2));
}

/// Every table piece has at least the four rotations the game cycles through.
proof fn lemma_rotation_count(shape: int)
    requires
        0 <= shape < SHAPE_COUNT,
    ensures
        tetrimino_table().len() == SHAPE_COUNT,
        tetrimino_table()[shape].len() >= ROTATION_COUNT,
{
}

impl Session {
    /// The session's invariant: the pieces are those of the table and the
    /// state satisfies `session_inv`.
    pub closed spec fn wf(&self) -> bool {
        &&& self.game.tetriminoes.deep_view() == tetrimino_table()
        &&& session_inv(self@)
    }

    /// A new session on an empty field with a randomly chosen piece.
    pub fn new() -> (s: Session)
        ensures
            s.wf(),
            exists|k: int| 0 <= k < SHAPE_COUNT && #[trigger] started(k) == s@,
    {
        let game = Game::new();
        let mut rng = thread_rng();
        assert(game.tetriminoes@.len() == game.tetriminoes.deep_view().len());
        let shape: usize = gen_range(&mut rng, game.tetriminoes.len());
        let s = Session {
            game,
            shape,
            rotate: 0,
            tetrimino_x: TETRIMINO_DEFAULT_X,
            tetrimino_y: TETRIMINO_DEFAULT_Y,
            frame_count: 0,
            go_next: false,
            score: 0,
            rng,
        };
        proof {
            lemma_spawn_inside(shape as int);
            assert(s@ == started(shape as int));
        }
        s
    }

    /// A new session on an empty field with piece `shape` in play.
    pub fn with_shape(shape: usize) -> (s: Session)
        requires
            shape < SHAPE_COUNT,
        ensures
            s.wf(),
            s@ == started(shape as int),
    {
        let s = Session {
            game: Game::new(),
            shape,
            rotate: 0,
            tetrimino_x: TETRIMINO_DEFAULT_X,
            tetrimino_y: TETRIMINO_DEFAULT_Y,
            frame_count: 0,
            go_next: false,
            score: 0,
            rng: thread_rng(),
        };
        proof {
            lemma_spawn_inside(shape as int);
        }
        s
    }

    /// The field of settled blocks.
    pub fn stage(&self) -> (stage: &Vec<Vec<u8>>)
        ensures
            stage.deep_view() == self@.stage,
    {
        &self.game.stage
    }

    /// The grid of the piece in play.
    pub fn piece(&self) -> (piece: &Vec<Vec<u8>>)
        requires
            self.wf(),
        ensures
            piece.deep_view() == current_piece(self@),
    {
        proof {
            lemma_rotation_count(self.shape as int);
        }
        assert(self.game.tetriminoes.deep_view()[self.shape as int]
            == self.game.tetriminoes@[self.shape as int].deep_view());
        &self.game.tetriminoes[self.shape][self.rotate]
    }

    /// The column and row of the top-left corner of the piece's grid.
    pub fn position(&self) -> (pos: (i32, i32))
        ensures
            pos.0 == self@.x,
            pos.1 == self@.y,
    {
        (self.tetrimino_x, self.tetrimino_y)
    }

    /// Whether the game is under way or over.
    pub fn state(&self) -> (state: State)
        ensures
            state == self@.state,
    {
        self.game.state
    }

    /// The points earned so far.
    pub fn score(&self) -> (score: u32)
        ensures
            score == self@.score,
    {
        self.score
    }

    /// Moves the piece in play by `(dx, dy)` if it fits there.
    fn shift(&mut self, dx: i32, dy: i32) -> (moved: bool)
        requires
            old(self).wf(),
            -1 <= dx <= 1,
            -1 <= dy <= 1,
        ensures
            final(self).wf(),
            final(self)@ == shifted(old(self)@, dx as int, dy as int),
            moved == fits(old(self)@.stage, current_piece(old(self)@), old(self)@.x + dx, old(self)@.y + dy),
    {
        let ghost s = self@;
        proof {
            lemma_piece_shape(self.shape as int, self.rotate as int);
            lemma_inside_bounds(self.shape as int, self.rotate as int, s.x, s.y);
            lemma_reachable(s.stage, self.shape as int, self.rotate as int, s.x + dx, s.y + dy);
            lemma_rotation_count(self.shape as int);
        }
        assert(self.game.tetriminoes.deep_view()[self.shape as int]
            == self.game.tetriminoes@[self.shape as int].deep_view());
        let moved = move_tetrimino(
            &self.game.stage,
            &self.game.tetriminoes[self.shape][self.rotate],
            &mut self.tetrimino_x,
            &mut self.tetrimino_y,
            dx,
            dy,
        );
        proof {
            if moved {
                lemma_fits_inside(s.stage, current_piece(s), s.x + dx, s.y + dy);
            }
        }
        moved
    }

    /// Turns the piece in play to its next rotation if that fits.
    fn turn(&mut self)
        requires
            old(self).wf(),
        ensures
            final(self).wf(),
            final(self)@ == turned(old(self)@),
    {
        let ghost s = self@;
        let ghost nr = next_rotation(s.rotate);
        proof {
            lemma_rotation_count(s.shape);
            lemma_inside_bounds(s.shape, s.rotate, s.x, s.y);
            lemma_reachable(s.stage, s.shape, nr, s.x, s.y);
        }
        assert(self.game.tetriminoes.deep_view()[self.shape as int]
            == self.game.tetriminoes@[self.shape as int].deep_view());
        let turned_now = rotate_tetrimino(
            &self.game.stage,
            &self.game.tetriminoes[self.shape],
            self.tetrimino_x,
            self.tetrimino_y,
            &mut self.rotate,
        );
        proof {
            if turned_now {
                lemma_fits_inside(s.stage, piece_of(s.shape, nr), s.x, s.y);
            }
        }
    }

    /// Moves the piece in play down, one row at a time, as far as it fits.
    fn hard_drop(&mut self)
        requires
            old(self).wf(),
        ensures
            final(self).wf(),
            final(self)@ == (SessionView {
                y: drop_y(old(self)@.stage, current_piece(old(self)@), old(self)@.x, old(self)@.y),
                ..old(self)@
            }),
    {
        let ghost s = self@;
        let ghost target = drop_y(s.stage, current_piece(s), s.x, s.y);
        proof {
            lemma_inside_bounds(s.shape, s.rotate, s.x, s.y);
        }
        loop
            invariant
                self.wf(),
                self@ == (SessionView { y: self@.y, ..s }),
                -2 <= self@.y <= 17,
                drop_y(s.stage, current_piece(s), s.x, self@.y) == target,
            ensures
                self.wf(),
                self@ == (SessionView { y: target, ..s }),
            decreases TETRIMINO_MAX_Y - self@.y,
        {
            let ghost y0 = self@.y;
            let moved = self.shift(0, 1);
            if !moved {
                assert(drop_y(s.stage, current_piece(s), s.x, y0) == y0);
                break;
            }
            proof {
                lemma_fits_below(s.stage, s.shape, s.rotate, s.x, y0 + 1);
                assert(drop_y(s.stage, current_piece(s), s.x, y0) == drop_y(
                    s.stage,
                    current_piece(s),
                    s.x,
                    y0 + 1,
                ));
            }
        }
    }

    /// Starts the game over with piece `shape`; the score carries over.
    fn restart(&mut self, shape: usize)
        requires
            old(self).wf(),
            shape < SHAPE_COUNT,
        ensures
            final(self).wf(),
            final(self)@ == restarted(old(self)@, shape as int),
    {
        self.game = Game::new();
        self.shape = shape;
        self.rotate = 0;
        self.tetrimino_x = TETRIMINO_DEFAULT_X;
        self.tetrimino_y = TETRIMINO_DEFAULT_Y;
        self.frame_count = 0;
        proof {
            lemma_spawn_inside(shape as int);
            lemma_empty_stage();
            lemma_spawn_fits(empty_stage(), shape as int);
        }
    }

    /// Reacts to a key press as `key_model` says; `next_shape` is the piece
    /// that appears if the key restarts the game.
    pub fn press_with(&mut self, key: Key, next_shape: usize) -> (control: Control)
        requires
            old(self).wf(),
            next_shape < SHAPE_COUNT,
        ensures
            final(self).wf(),
            (final(self)@, control) == key_model(old(self)@, key, next_shape as int),
    {
        match self.game.state {
            State::PLAYING => match key {
                Key::Escape => Control::Quit,
                Key::Left => {
                    self.shift(-1, 0);
                    Control::Continue
                },
                Key::Right => {
                    self.shift(1, 0);
                    Control::Continue
                },
                Key::Up => {
                    self.turn();
                    Control::Continue
                },
                Key::Down => {
                    self.shift(0, 1);
                    Control::Continue
                },
                Key::Return => {
                    self.hard_drop();
                    self.go_next = true;
                    Control::Continue
                },
                Key::Other => Control::Continue,
            },
            State::GAMEOVER => match key {
                Key::Escape => Control::Quit,
                Key::Return => {
                    self.restart(next_shape);
                    Control::Continue
                },
                _ => Control::Continue,
            },
        }
    }

    /// Reacts to a key press; a restart brings a randomly chosen piece, drawn
    /// only then.
    pub fn press(&mut self, key: Key) -> (control: Control)
        requires
            old(self).wf(),
        ensures
            final(self).wf(),
            exists|k: int|
                0 <= k < SHAPE_COUNT && #[trigger] key_model(old(self)@, key, k) == (final(self)@, control),
    {
        let ghost s = self@;
        if self.game.state == State::GAMEOVER && key == Key::Return {
            proof {
                lemma_rotation_count(self.shape as int);
            }
            assert(self.game.tetriminoes@.len() == self.game.tetriminoes.deep_view().len());
            let next_shape = gen_range(&mut self.rng, self.game.tetriminoes.len());
            let control = self.press_with(key, next_shape);
            assert(key_model(s, key, next_shape as int) == (self@, control));
            control
        } else {
            let control = self.press_with(key, 0);
            assert(key_model(s, key, 0) == (self@, control));
            control
        }
    }

    /// Advances the frame counter; on the fall frame the piece moves down or
    /// is marked to settle.
    fn count_frame(&mut self)
        requires
            old(self).wf(),
            old(self)@.state == State::PLAYING,
        ensures
            final(self).wf(),
            final(self)@ == counted(old(self)@),
    {
        let ghost s = self@;
        self.frame_count += 1;
        if self.frame_count == MOVE_DOWN_FRAME_COUNT {
            self.frame_count = 0;
            let moved = self.shift(0, 1);
            if !moved {
                self.go_next = true;
            }
        }
        assert(self@ == counted(s));
    }

    /// The session's pieces are those of the table.
    closed spec fn pieces_ok(&self) -> bool {
        self.game.tetriminoes.deep_view() == tetrimino_table()
    }

    /// Settles the piece in play: writes it into the field, clears full rows
    /// and adds their points; ends the game when a block lies above the
    /// danger line. Returns the number of cleared rows and whether the game ended.
    fn settle_piece(&mut self) -> (result: (u32, bool))
        requires
            old(self).wf(),
            old(self)@.state == State::PLAYING,
            old(self)@.score + points(settled_count(old(self)@)) <= u32::MAX,
        ensures
            final(self).pieces_ok(),
            result.0 == settled_count(old(self)@),
            result.1 == above_danger_line(settled_stage(old(self)@)),
            stage_wf(final(self)@.stage),
            final(self)@ == (SessionView {
                stage: settled_stage(old(self)@),
                go_next: false,
                score: old(self)@.score + points(settled_count(old(self)@)),
                state: if result.1 {
                    State::GAMEOVER
                } else {
                    State::PLAYING
                },
                ..old(self)@
            }),
    {
        let ghost c = self@;
        self.go_next = false;
        proof {
            lemma_rotation_count(c.shape);
            lemma_lands(c.stage, c.shape, c.rotate, c.x, c.y);
            lemma_placed_wf(c.stage, current_piece(c), c.x, c.y);
            lemma_cleared_wf(placed(c.stage, current_piece(c), c.x, c.y));
            lemma_kept_rows_len(placed(c.stage, current_piece(c), c.x, c.y));
        }
        assert(self.game.tetriminoes.deep_view()[self.shape as int]
            == self.game.tetriminoes@[self.shape as int].deep_view());
        fix_tetrimino(
            &mut self.game.stage,
            &self.game.tetriminoes[self.shape][self.rotate],
            self.tetrimino_x,
            self.tetrimino_y,
        );
        let ghost p = self.game.stage.deep_view();
        proof {
            assert forall|r: int| 0 <= r < self.game.stage@.len() implies row_sum(
                #[trigger] self.game.stage.deep_view()[r],
            ) <= u8::MAX by {
                lemma_row_sum_bound(p[r]);
            }
        }
        let n = clear_blocks(&mut self.game.stage);
        proof {
            lemma_points_bound(n as int);
        }
        self.score += n * n * BASE_SCORE;
        let over = is_game_over(&self.game.stage);
        if over {
            self.game.state = State::GAMEOVER;
        }
        (n, over)
    }

    /// Brings piece `shape` in at the top of a field with nothing above the danger line.
    fn spawn(&mut self, shape: usize)
        requires
            old(self).pieces_ok(),
            stage_wf(old(self)@.stage),
            !above_danger_line(old(self)@.stage),
            old(self)@.state == State::PLAYING,
            0 <= old(self)@.score <= u32::MAX,
            shape < SHAPE_COUNT,
        ensures
            final(self).wf(),
            final(self)@ == spawned(old(self)@, shape as int),
    {
        self.shape = shape;
        self.rotate = 0;
        self.tetrimino_x = TETRIMINO_DEFAULT_X;
        self.tetrimino_y = TETRIMINO_DEFAULT_Y;
        self.frame_count = 0;
        proof {
            lemma_spawn_inside(shape as int);
            lemma_spawn_fits(self@.stage, shape as int);
        }
    }

    /// Advances one frame as `tick_model` says; `next_shape` is the piece that
    /// appears if one settles and the game goes on. Returns the number of rows
    /// cleared when a piece settled.
    pub fn tick_with(&mut self, next_shape: usize) -> (cleared_rows: Option<u32>)
        requires
            old(self).wf(),
            next_shape < SHAPE_COUNT,
            old(self)@.score + tick_points(old(self)@) <= u32::MAX,
        ensures
            final(self).wf(),
            (final(self)@, cleared_rows) == tick_model(old(self)@, next_shape as int),
    {
        if self.game.state == State::GAMEOVER {
            return None;
        }
        self.count_frame();
        if self.go_next {
            let (n, over) = self.settle_piece();
            if !over {
                self.spawn(next_shape);
            }
            return Some(n);
        }
        None
    }

    /// Advances one frame; a piece that appears is chosen at random, drawn
    /// only then. Returns the number of rows cleared when a piece settled.
    pub fn tick(&mut self) -> (cleared_rows: Option<u32>)
        requires
            old(self).wf(),
            old(self)@.score + tick_points(old(self)@) <= u32::MAX,
        ensures
            final(self).wf(),
            exists|k: int|
                0 <= k < SHAPE_COUNT && #[trigger] tick_model(old(self)@, k) == (final(self)@, cleared_rows),
    {
        let ghost s = self@;
        if self.game.state == State::GAMEOVER {
            assert(tick_model(s, 0) == (self@, Option::<u32>::None));
            return None;
        }
        self.count_frame();
        if self.go_next {
            let (n, over) = self.settle_piece();
            if !over {
                proof {
                    lemma_rotation_count(self.shape as int);
                }
                assert(self.game.tetriminoes@.len() == self.game.tetriminoes.deep_view().len());
                let next_shape = gen_range(&mut self.rng, self.game.tetriminoes.len());
                self.spawn(next_shape);
                assert(tick_model(s, next_shape as int) == (self@, Some(n)));
            } else {
                assert(tick_model(s, 0) == (self@, Some(n)));
            }
            return Some(n);
        }
        assert(tick_model(s, 0) == (self@, Option::<u32>::None));
        None
    }

    /// The points the next frame would add to the score: nonzero only when a
    /// piece settles and clears rows.
    pub fn tick_points_due(&self) -> (due: u32)
        requires
            self.wf(),
        ensures
            due == tick_points(self@),
    {
        let ghost s = self@;
        if self.game.state == State::GAMEOVER {
            return 0;
        }
        let mut settle = self.go_next;
        let mut y = self.tetrimino_y;
        proof {
            lemma_piece_shape(s.shape, s.rotate);
            lemma_inside_bounds(s.shape, s.rotate, s.x, s.y);
            lemma_reachable(s.stage, s.shape, s.rotate, s.x, s.y + 1);
            lemma_rotation_count(s.shape);
        }
        assert(self.game.tetriminoes.deep_view()[self.shape as int]
            == self.game.tetriminoes@[self.shape as int].deep_view());
        let piece = &self.game.tetriminoes[self.shape][self.rotate];
        if self.frame_count + 1 == MOVE_DOWN_FRAME_COUNT {
            if is_movable(&self.game.stage, piece, self.tetrimino_x, y, 0, 1) {
                y = y + 1;
                proof {
                    lemma_fits_inside(s.stage, current_piece(s), s.x, s.y + 1);
                }
            } else {
                settle = true;
            }
        }
        let ghost c = counted(s);
        assert(settle == c.go_next && y == c.y);
        if !settle {
            return 0;
        }
        let mut stage = copy_stage(&self.game.stage);
        proof {
            lemma_lands(c.stage, c.shape, c.rotate, c.x, c.y);
            lemma_placed_wf(c.stage, current_piece(c), c.x, c.y);
            lemma_cleared_wf(placed(c.stage, current_piece(c), c.x, c.y));
            lemma_kept_rows_len(placed(c.stage, current_piece(c), c.x, c.y));
        }
        fix_tetrimino(&mut stage, piece, self.tetrimino_x, y);
        let ghost p = stage.deep_view();
        proof {
            assert forall|r: int| 0 <= r < stage@.len() implies row_sum(
                #[trigger] stage.deep_view()[r],
            ) <= u8::MAX by {
                lemma_row_sum_bound(p[r]);
            }
        }
        let n = clear_blocks(&mut stage);
        proof {
            lemma_points_bound(n as int);
        }
        n * n * BASE_SCORE
    }
}

/// A copy of a field, cell by cell.
fn copy_stage(stage: &Vec<Vec<u8>>) -> (copy: Vec<Vec<u8>>)
    ensures
        copy.deep_view() == stage.deep_view(),
{
    let ghost st = stage.deep_view();
    let mut copy: Vec<Vec<u8>> = Vec::new();
    let n = stage.len();
    for r in 0..n
        invariant
            n == st.len(),
            st == stage.deep_view(),
            copy.deep_view() == st.take(r as int),
    {
        let src = &stage[r];
        assert(src@ =~= st[r as int]);
        let mut row: Vec<u8> = Vec::new();
        let m = src.len();
        for c in 0..m
            invariant
                m == src@.len(),
                row@ == src@.take(c as int),
        {
            row.push(src[c]);
            assert(row@ =~= src@.take(c + 1));
        }
        assert(row.deep_view() =~= st[r as int]);
        let ghost before = copy.deep_view();
        copy.push(row);
        assert(copy.deep_view() =~= before.push(st[r as int]));
        assert(st.take(r + 1) =~= st.take(r as int).push(st[r as int]));
    }
    assert(st.take(n as int) =~= st);
    copy
}

} // verus!
