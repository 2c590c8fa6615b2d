//! Properties of the game that span several operations.
use vstd::prelude::*;

use vstd::relations::injective_on;
use vstd::set_lib::{
    lemma_int_range, lemma_map_size, lemma_set_disjoint_lens, lemma_set_subset_finite,
    lemma_set_union_finite_iff, set_int_range,
};

use crate::board::{
    cell_set, cleared, cleared_count, covers_field, empty_row, fits, free_at, in_field, kept_rows,
    next_rotation, placed, row_full, row_sum, BLOCK_NUM_X, BLOCK_NUM_Y,
    TETRIMINO_MAX_X, TETRIMINO_MAX_Y,
};
use crate::game::{
    shape_i, shape_j, shape_l, shape_o, shape_s, shape_t, shape_z, tetrimino_table, State,
};
use crate::session::{
    current_piece, drop_y, key_model, lemma_cleared_wf, lemma_fits_inside, lemma_piece_shape,
    lemma_placed_wf, lemma_points_bound, piece_of, session_inv, settled_count, shifted, stage_wf,
    tick_model, Key, SessionView, MAX_GAIN, ROTATION_COUNT, SHAPE_COUNT,
};

verus! {

/// A move that succeeds can be undone: moving the piece back returns it to
/// where it was, as long as it fitted there to begin with.
pub proof fn law_move_back(s: SessionView, dx: int, dy: int)
    requires
        fits(s.stage, current_piece(s), s.x, s.y),
        fits(s.stage, current_piece(s), s.x + dx, s.y + dy),
    ensures
        shifted(shifted(s, dx, dy), -dx, -dy) == s,
{
    let m = shifted(s, dx, dy);
    if fits(s.stage, current_piece(s), s.x + dx, s.y + dy) {
        assert(m.x + -dx == s.x && m.y + -dy == s.y);
        assert(current_piece(m) == current_piece(s));
        assert(fits(m.stage, current_piece(m), m.x + -dx, m.y + -dy));
        let b = shifted(m, -dx, -dy);
        assert(b.x == s.x && b.y == s.y && b.stage == s.stage);
    }
}

/// Four turns bring a piece back to the rotation it started in: four calls of
/// `rotate_tetrimino` that succeed each set the rotation to `next_rotation` of
/// the previous one, and a rotation below four stays below four.
pub proof fn law_four_turns(r: int)
    requires
        0 <= r < ROTATION_COUNT,
    ensures
        next_rotation(next_rotation(next_rotation(next_rotation(r)))) == r,
        0 <= next_rotation(r) < ROTATION_COUNT,
{
}

/// A piece with at least one block that fitted where it settles no longer
/// fits there once settled.
pub proof fn law_settled_piece_blocks_its_place(
    stage: Seq<Seq<u8>>,
    t: Seq<Seq<u8>>,
    x: int,
    y: int,
    i: int,
    j: int,
)
    requires
        covers_field(stage),
        fits(stage, t, x, y),
        cell_set(t, i, j),
    ensures
        !fits(placed(stage, t, x, y), t, x, y),
{
    let p = placed(stage, t, x, y);
    assert(free_at(stage, x + j, y + i));
    assert(stage[y + i].len() >= TETRIMINO_MAX_X);
    assert(p[y + i][x + j] == 1);
}

/// Settling a piece twice at the same place leaves the field as settling it once.
pub proof fn law_settle_twice_is_settle_once(stage: Seq<Seq<u8>>, t: Seq<Seq<u8>>, x: int, y: int)
    ensures
        placed(placed(stage, t, x, y), t, x, y) == placed(stage, t, x, y),
{
    assert(placed(placed(stage, t, x, y), t, x, y) =~~= placed(stage, t, x, y));
}

/// Adding settled blocks never makes a place fit that did not fit before.
pub proof fn law_more_blocks_never_help(
    less: Seq<Seq<u8>>,
    more: Seq<Seq<u8>>,
    t: Seq<Seq<u8>>,
    x: int,
    y: int,
)
    requires
        forall|r: int, c: int| in_field(c, r) && #[trigger] less[r][c] == 1 ==> more[r][c] == 1,
    ensures
        fits(more, t, x, y) ==> fits(less, t, x, y),
{
    if fits(more, t, x, y) {
        assert forall|i: int, j: int| #[trigger] cell_set(t, i, j) implies free_at(less, x + j, y + i) by {
            assert(free_at(more, x + j, y + i));
            if less[y + i][x + j] == 1 {
                assert(more[y + i][x + j] == 1);
            }
        }
    }
}

/// A piece that fits keeps fitting whatever move is tried: it either moves to
/// a place that fits or stays where it was.
pub proof fn law_move_keeps_fit(stage: Seq<Seq<u8>>, t: Seq<Seq<u8>>, x: int, y: int, dx: int, dy: int)
    requires
        fits(stage, t, x, y),
    ensures
        ({
            let moved = fits(stage, t, x + dx, y + dy);
            let nx = if moved { x + dx } else { x };
            let ny = if moved { y + dy } else { y };
            fits(stage, t, nx, ny)
        }),
{
}

/// A move that succeeds from a place that fits is undone by the opposite move,
/// which also succeeds.
pub proof fn law_move_undone_by_opposite(
    stage: Seq<Seq<u8>>,
    t: Seq<Seq<u8>>,
    x: int,
    y: int,
    dx: int,
    dy: int,
)
    requires
        fits(stage, t, x, y),
        fits(stage, t, x + dx, y + dy),
    ensures
        fits(stage, t, (x + dx) + -dx, (y + dy) + -dy),
        (x + dx) + -dx == x,
        (y + dy) + -dy == y,
{
    assert((x + dx) + -dx == x && (y + dy) + -dy == y);
}

/// A piece with a block in grid row `i` that fits `k` rows below `y0` has
/// moved down at most `19 - y0 - i` rows: a run of successful downward moves
/// is bounded, so a hard drop ends.
pub proof fn law_down_moves_bounded(
    stage: Seq<Seq<u8>>,
    t: Seq<Seq<u8>>,
    x: int,
    y0: int,
    k: int,
    i: int,
    j: int,
)
    requires
        cell_set(t, i, j),
        0 <= k,
        fits(stage, t, x, y0 + k),
    ensures
        k <= TETRIMINO_MAX_Y - 1 - y0 - i,
        k <= TETRIMINO_MAX_Y - 1 - y0,
{
    assert(free_at(stage, x + j, y0 + k + i));
}

/// The cells of a field that hold a settled block, as (row, column).
pub open spec fn settled_cells(stage: Seq<Seq<u8>>) -> Set<(int, int)> {
    Set::new(|p: (int, int)| 0 <= p.0 < stage.len() && 0 <= p.1 < stage[p.0].len() && stage[p.0][p.1] == 1)
}

/// The field cells under the blocks of the piece `t` placed at `(x, y)`.
pub open spec fn piece_cells(t: Seq<Seq<u8>>, x: int, y: int) -> Set<(int, int)> {
    Set::new(|p: (int, int)| cell_set(t, p.0 - y, p.1 - x))
}

/// The blocks of the piece grid `t`, as (row, column) within the grid.
pub open spec fn grid_cells(t: Seq<Seq<u8>>) -> Set<(int, int)> {
    Set::new(|p: (int, int)| cell_set(t, p.0, p.1))
}

/// The cells of a `rows` by `cols` rectangle at the origin.
pub open spec fn rect_cells(rows: int, cols: int) -> Set<(int, int)> {
    Set::new(|p: (int, int)| 0 <= p.0 < rows && 0 <= p.1 < cols)
}

proof fn lemma_rect_finite(rows: int, cols: int)
    requires
        0 <= rows,
        0 <= cols,
    ensures
        rect_cells(rows, cols).finite(),
    decreases rows,
{
    if rows == 0 {
        assert(rect_cells(rows, cols) =~= Set::<(int, int)>::empty());
    } else {
        lemma_rect_finite(rows - 1, cols);
        lemma_int_range(0, cols);
        let row = set_int_range(0, cols).map(|c: int| (rows - 1, c));
        set_int_range(0, cols).lemma_map_finite(|c: int| (rows - 1, c));
        assert forall|p: (int, int)| #[trigger] rect_cells(rows, cols).contains(p) implies rect_cells(
            rows - 1,
            cols,
        ).union(row).contains(p) by {
            if p.0 == rows - 1 {
                assert(set_int_range(0, cols).contains(p.1));
                assert(row.contains((rows - 1, p.1)));
            }
        }
        assert(rect_cells(rows, cols).subset_of(rect_cells(rows - 1, cols).union(row)));
        lemma_set_union_finite_iff(rect_cells(rows - 1, cols), row);
        lemma_set_subset_finite(rect_cells(rows - 1, cols).union(row), rect_cells(rows, cols));
    }
}

/// Settling a piece that fits on a well-formed field adds exactly the piece's
/// cells to the settled ones, none of which held a block before; so the
/// number of settled blocks grows by the number of blocks of the piece.
pub proof fn law_settle_adds_the_piece(stage: Seq<Seq<u8>>, t: Seq<Seq<u8>>, x: int, y: int)
    requires
        stage_wf(stage),
        fits(stage, t, x, y),
    ensures
        stage_wf(placed(stage, t, x, y)),
        settled_cells(placed(stage, t, x, y)) == settled_cells(stage).union(piece_cells(t, x, y)),
        settled_cells(stage).disjoint(piece_cells(t, x, y)),
        settled_cells(placed(stage, t, x, y)).len() == settled_cells(stage).len() + grid_cells(t).len(),
{
    let p = placed(stage, t, x, y);
    let before = settled_cells(stage);
    let piece = piece_cells(t, x, y);
    lemma_placed_wf(stage, t, x, y);
    assert forall|q: (int, int)| #[trigger] piece.contains(q) implies 0 <= q.0 < stage.len() && 0 <= q.1
        < stage[q.0].len() && stage[q.0][q.1] != 1 by {
        assert(cell_set(t, q.0 - y, q.1 - x));
        assert(free_at(stage, x + (q.1 - x), y + (q.0 - y)));
    }
    assert(settled_cells(p) =~= before.union(piece));
    assert(before.disjoint(piece));
    lemma_rect_finite(BLOCK_NUM_Y as int, BLOCK_NUM_X as int);
    let field = rect_cells(BLOCK_NUM_Y as int, BLOCK_NUM_X as int);
    assert(before.subset_of(field));
    assert(piece.subset_of(field));
    lemma_set_subset_finite(field, before);
    lemma_set_subset_finite(field, piece);
    lemma_set_disjoint_lens(before, piece);
    let shift = |q: (int, int)| (q.0 + y, q.1 + x);
    let back = |q: (int, int)| (q.0 - y, q.1 - x);
    assert(piece.map(back) =~= grid_cells(t)) by {
        assert forall|q: (int, int)| #[trigger] grid_cells(t).contains(q) implies piece.map(back).contains(q) by {
            assert(piece.contains(shift(q)));
            assert(back(shift(q)) == q);
        }
    }
    piece.lemma_map_finite(back);
    assert(grid_cells(t).map(shift) =~= piece) by {
        assert forall|q: (int, int)| #[trigger] piece.contains(q) implies grid_cells(t).map(shift).contains(q) by {
            assert(grid_cells(t).contains(back(q)));
            assert(shift(back(q)) == q);
        }
    }
    assert(injective_on(shift, grid_cells(t)));
    lemma_map_size(grid_cells(t), piece, shift);
}

/// The number of full rows of a field.
pub open spec fn full_row_count(stage: Seq<Seq<u8>>) -> int {
    stage.filter(|row: Seq<u8>| row_full(row)).len() as int
}

proof fn lemma_filter_split(stage: Seq<Seq<u8>>)
    ensures
        full_row_count(stage) + kept_rows(stage).len() == stage.len(),
    decreases stage.len(),
{
    reveal(Seq::filter);
    if stage.len() > 0 {
        lemma_filter_split(stage.drop_last());
    }
}

/// Clearing a field of the full height removes exactly its full rows and
/// leaves a field of the full height.
pub proof fn law_clear_removes_full_rows(stage: Seq<Seq<u8>>)
    requires
        stage.len() == BLOCK_NUM_Y,
    ensures
        cleared_count(stage) == full_row_count(stage),
        cleared(stage).len() == BLOCK_NUM_Y,
        cleared(stage).subrange(cleared_count(stage), BLOCK_NUM_Y as int) == kept_rows(stage),
{
    lemma_filter_split(stage);
    let c = cleared(stage);
    assert(c.subrange(cleared_count(stage), BLOCK_NUM_Y as int) =~= kept_rows(stage));
}

proof fn lemma_zero_row_sum(row: Seq<u8>)
    requires
        forall|c: int| 0 <= c < row.len() ==> #[trigger] row[c] == 0,
    ensures
        row_sum(row) == 0,
    decreases row.len(),
{
    if row.len() > 0 {
        lemma_zero_row_sum(row.drop_last());
    }
}

/// After clearing, no row is full.
pub proof fn law_no_full_row_after_clear(stage: Seq<Seq<u8>>)
    requires
        kept_rows(stage).len() <= BLOCK_NUM_Y,
    ensures
        forall|r: int| 0 <= r < cleared(stage).len() ==> !row_full(#[trigger] cleared(stage)[r]),
{
    lemma_zero_row_sum(empty_row());
    let k = kept_rows(stage);
    let c = cleared(stage);
    let e = (BLOCK_NUM_Y - k.len()) as nat;
    assert forall|r: int| 0 <= r < c.len() implies !row_full(#[trigger] c[r]) by {
        if r >= e {
            assert(c[r] == k[r - e]);
            stage.lemma_filter_pred(|row: Seq<u8>| !row_full(row), r - e);
        } else {
            assert(c[r] == empty_row());
        }
    }
}

/// Filtering rows that all pass the test keeps them all.
proof fn lemma_kept_all(stage: Seq<Seq<u8>>)
    requires
        forall|r: int| 0 <= r < stage.len() ==> !row_full(#[trigger] stage[r]),
    ensures
        kept_rows(stage) == stage,
    decreases stage.len(),
{
    reveal(Seq::filter);
    if stage.len() > 0 {
        lemma_kept_all(stage.drop_last());
        assert(stage.drop_last().push(stage.last()) =~= stage);
    } else {
        assert(kept_rows(stage) =~= stage);
    }
}

/// Rows kept by clearing are rows of the field.
proof fn lemma_kept_rows_from(stage: Seq<Seq<u8>>, r: int)
    requires
        0 <= r < kept_rows(stage).len(),
    ensures
        exists|q: int| 0 <= q < stage.len() && stage[q] == #[trigger] kept_rows(stage)[r],
    decreases stage.len(),
{
    reveal(Seq::filter);
    let rest = stage.drop_last();
    if r < kept_rows(rest).len() {
        lemma_kept_rows_from(rest, r);
        let q = choose|q: int| 0 <= q < rest.len() && rest[q] == #[trigger] kept_rows(rest)[r];
        assert(stage[q] == kept_rows(stage)[r]);
    } else {
        assert(kept_rows(stage)[r] == stage[stage.len() - 1]);
    }
}

/// Clearing a second time right after clearing removes nothing and leaves the
/// field as it is; the second clearing's own byte-sum condition holds too.
pub proof fn law_clear_twice_is_clear_once(stage: Seq<Seq<u8>>)
    requires
        kept_rows(stage).len() <= BLOCK_NUM_Y,
        forall|r: int| 0 <= r < stage.len() ==> row_sum(#[trigger] stage[r]) <= u8::MAX,
    ensures
        kept_rows(cleared(stage)).len() <= BLOCK_NUM_Y,
        forall|r: int| 0 <= r < cleared(stage).len() ==> row_sum(#[trigger] cleared(stage)[r]) <= u8::MAX,
        cleared_count(cleared(stage)) == 0,
        cleared(cleared(stage)) == cleared(stage),
{
    let c = cleared(stage);
    let k = kept_rows(stage);
    let e = (BLOCK_NUM_Y - k.len()) as nat;
    law_no_full_row_after_clear(stage);
    lemma_kept_all(c);
    lemma_zero_row_sum(empty_row());
    assert forall|r: int| 0 <= r < c.len() implies row_sum(#[trigger] c[r]) <= u8::MAX by {
        if r >= e {
            assert(c[r] == k[r - e]);
            lemma_kept_rows_from(stage, r - e);
        } else {
            assert(c[r] == empty_row());
        }
    }
    assert(cleared(c) =~= c);
}

/// The row a hard drop reaches is at or below the start, and the piece fits
/// there unless it did not move at all.
pub proof fn lemma_drop_lands(stage: Seq<Seq<u8>>, t: Seq<Seq<u8>>, x: int, y: int)
    ensures
        drop_y(stage, t, x, y) >= y,
        drop_y(stage, t, x, y) == y || fits(stage, t, x, drop_y(stage, t, x, y)),
        drop_y(stage, t, x, y) + 1 >= TETRIMINO_MAX_Y || !fits(stage, t, x, drop_y(stage, t, x, y) + 1),
    decreases TETRIMINO_MAX_Y - y,
{
    if y + 1 < TETRIMINO_MAX_Y && fits(stage, t, x, y + 1) {
        lemma_drop_lands(stage, t, x, y + 1);
    }
}

/// After a hard drop the piece cannot move down any further.
pub proof fn law_hard_drop_rests(s: SessionView)
    requires
        session_inv(s),
        s.state == State::PLAYING,
    ensures
        ({
            let d = key_model(s, Key::Return, 0).0;
            &&& d.go_next
            &&& !fits(d.stage, current_piece(d), d.x, d.y + 1)
        }),
{
    let t = current_piece(s);
    lemma_drop_lands(s.stage, t, s.x, s.y);
    lemma_piece_shape(s.shape, s.rotate);
    let yd = drop_y(s.stage, t, s.x, s.y);
    if yd + 1 >= TETRIMINO_MAX_Y {
        assert(cell_set(t, 2, 2));
        assert(!in_field(s.x + 2, yd + 1 + 2));
    }
}

/// Once the game is over, frames change nothing.
pub proof fn law_game_over_is_still(s: SessionView, shape: int)
    requires
        s.state == State::GAMEOVER,
    ensures
        tick_model(s, shape) == (s, Option::<u32>::None),
{
}

/// The score never goes down: keys leave it alone and frames only add to it.
pub proof fn law_score_never_decreases(s: SessionView, key: Key, shape: int)
    requires
        session_inv(s),
    ensures
        key_model(s, key, shape).0.score == s.score,
        tick_model(s, shape).0.score >= s.score,
{
    let c = crate::session::counted(s);
    if s.state == State::PLAYING && c.go_next {
        assert(stage_wf(c.stage));
        lemma_placed_wf(c.stage, current_piece(c), c.x, c.y);
        lemma_cleared_wf(placed(c.stage, current_piece(c), c.x, c.y));
        lemma_points_bound(settled_count(c));
    }
}

/// Every key press keeps the session's invariant.
pub proof fn law_key_keeps_invariant(s: SessionView, key: Key, shape: int)
    requires
        session_inv(s),
        0 <= shape < SHAPE_COUNT,
    ensures
        session_inv(key_model(s, key, shape).0),
{
    let t = current_piece(s);
    lemma_piece_shape(s.shape, 0);
    if s.state == State::PLAYING {
        match key {
            Key::Left => {
                if fits(s.stage, t, s.x - 1, s.y) {
                    lemma_fits_inside(s.stage, t, s.x - 1, s.y);
                }
            },
            Key::Right => {
                if fits(s.stage, t, s.x + 1, s.y) {
                    lemma_fits_inside(s.stage, t, s.x + 1, s.y);
                }
            },
            Key::Down => {
                if fits(s.stage, t, s.x, s.y + 1) {
                    lemma_fits_inside(s.stage, t, s.x, s.y + 1);
                }
            },
            Key::Up => {
                let nr = next_rotation(s.rotate);
                if fits(s.stage, piece_of(s.shape, nr), s.x, s.y) {
                    lemma_fits_inside(s.stage, piece_of(s.shape, nr), s.x, s.y);
                }
            },
            Key::Return => {
                lemma_drop_lands(s.stage, t, s.x, s.y);
                let yd = drop_y(s.stage, t, s.x, s.y);
                if yd != s.y {
                    lemma_fits_inside(s.stage, t, s.x, yd);
                }
            },
            _ => {},
        }
    } else {
        if key == Key::Return {
            lemma_piece_shape(shape, 0);
            crate::session::lemma_empty_stage();
        }
    }
}

/// Every frame keeps the session's invariant, as long as the score has room
/// for the points of one settled piece.
pub proof fn law_tick_keeps_invariant(s: SessionView, shape: int)
    requires
        session_inv(s),
        0 <= shape < SHAPE_COUNT,
        s.score + MAX_GAIN <= u32::MAX,
    ensures
        session_inv(tick_model(s, shape).0),
{
    let t = current_piece(s);
    lemma_piece_shape(shape, 0);
    if s.state == State::PLAYING {
        if s.frame_count + 1 == crate::session::MOVE_DOWN_FRAME_COUNT && fits(s.stage, t, s.x, s.y + 1) {
            lemma_fits_inside(s.stage, t, s.x, s.y + 1);
        }
        let c = crate::session::counted(s);
        if c.go_next {
            lemma_placed_wf(c.stage, current_piece(c), c.x, c.y);
            lemma_cleared_wf(placed(c.stage, current_piece(c), c.x, c.y));
            lemma_points_bound(settled_count(c));
        }
    }
}

/// An index below five is one of 0, 1, 2, 3, 4.
proof fn lemma_index5(i: int)
    requires
        0 <= i < 5,
    ensures
        i == 0 || i == 1 || i == 2 || i == 3 || i == 4,
{
}

/// An index below four is one of 0, 1, 2, 3.
proof fn lemma_index4(r: int)
    requires
        0 <= r < 4,
    ensures
        r == 0 || r == 1 || r == 2 || r == 3,
{
}

/// Each turn of a piece other than the square one is a quarter turn of its
/// 5x5 grid about the centre: the block in row `i`, column `j` after the turn
/// is the block in row `j`, column `4 - i` before it; the square piece is the
/// same in every rotation.
pub proof fn law_turns_are_quarter_turns(shape: int, r: int, i: int, j: int)
    requires
        0 <= shape < SHAPE_COUNT,
        0 <= r < 4,
        0 <= i < 5,
        0 <= j < 5,
    ensures
        shape == 0 ==> piece_of(shape, (r + 1) % 4)[i][j] == piece_of(shape, r)[i][j],
        shape != 0 ==> piece_of(shape, (r + 1) % 4)[i][j] == piece_of(shape, r)[j][4 - i],
{
    lemma_index4(r);
    lemma_index5(i);
    lemma_index5(j);
    assert(tetrimino_table()[shape] == if shape == 0 {
        shape_o()
    } else if shape == 1 {
        shape_i()
    } else if shape == 2 {
        shape_t()
    } else if shape == 3 {
        shape_j()
    } else if shape == 4 {
        shape_l()
    } else if shape == 5 {
        shape_s()
    } else {
        shape_z()
    });
}

/// Every cell of the row holds a block.
pub open spec fn all_ones(row: Seq<u8>) -> bool {
    forall|c: int| 0 <= c < row.len() ==> #[trigger] row[c] == 1
}

/// A row of 0s and 1s of at most 255 cells sums to its length exactly when
/// every cell is 1.
proof fn lemma_sum_is_len_iff_all_ones(row: Seq<u8>)
    requires
        forall|c: int| 0 <= c < row.len() ==> #[trigger] row[c] <= 1,
    ensures
        row_sum(row) == row.len() <==> all_ones(row),
    decreases row.len(),
{
    if row.len() > 0 {
        let rest = row.drop_last();
        assert forall|c: int| 0 <= c < rest.len() implies #[trigger] rest[c] <= 1 by {
            assert(rest[c] == row[c]);
        }
        lemma_sum_is_len_iff_all_ones(rest);
        crate::session::lemma_row_sum_bound(rest);
        if all_ones(row) {
            assert forall|c: int| 0 <= c < rest.len() implies #[trigger] rest[c] == 1 by {
                assert(rest[c] == row[c]);
            }
        }
        if row_sum(row) == row.len() {
            assert(row.last() == 1);
            assert(all_ones(rest));
            assert forall|c: int| 0 <= c < row.len() implies #[trigger] row[c] == 1 by {
                if c < rest.len() {
                    assert(rest[c] == row[c]);
                }
            }
        }
    }
}

/// A row of 0s and 1s of at most 255 cells counts as full exactly when every
/// cell holds a block.
pub proof fn law_full_row_is_all_blocks(row: Seq<u8>)
    requires
        row.len() <= 255,
        forall|c: int| 0 <= c < row.len() ==> #[trigger] row[c] <= 1,
    ensures
        row_full(row) <==> all_ones(row),
{
    lemma_sum_is_len_iff_all_ones(row);
}

/// Rows for which two tests agree are filtered alike.
proof fn lemma_filter_congruent(stage: Seq<Seq<u8>>)
    requires
        forall|r: int| 0 <= r < stage.len() ==> (row_full(#[trigger] stage[r]) <==> all_ones(stage[r])),
    ensures
        kept_rows(stage) == stage.filter(|row: Seq<u8>| !all_ones(row)),
    decreases stage.len(),
{
    reveal(Seq::filter);
    if stage.len() > 0 {
        let rest = stage.drop_last();
        assert forall|r: int| 0 <= r < rest.len() implies (row_full(#[trigger] rest[r]) <==> all_ones(
            rest[r],
        )) by {
            assert(rest[r] == stage[r]);
        }
        lemma_filter_congruent(rest);
        assert(row_full(stage[stage.len() - 1]) <==> all_ones(stage.last()));
    }
}

/// On a field of 0s and 1s whose rows have at most 255 cells, clearing removes
/// exactly the rows in which every cell holds a block: a row with an empty
/// cell is kept, in order, and the number of cleared rows is the number of
/// rows without a gap.
pub proof fn law_clear_removes_exactly_rows_without_gap(stage: Seq<Seq<u8>>)
    requires
        forall|r: int| 0 <= r < stage.len() ==> (#[trigger] stage[r]).len() <= 255,
        forall|r: int, c: int| 0 <= r < stage.len() && 0 <= c < stage[r].len() ==> #[trigger] stage[r][c] <= 1,
    ensures
        kept_rows(stage) == stage.filter(|row: Seq<u8>| !all_ones(row)),
        cleared_count(stage) == BLOCK_NUM_Y - stage.filter(|row: Seq<u8>| !all_ones(row)).len(),
{
    assert forall|r: int| 0 <= r < stage.len() implies (row_full(#[trigger] stage[r]) <==> all_ones(
        stage[r],
    )) by {
        assert forall|c: int| 0 <= c < stage[r].len() implies #[trigger] stage[r][c] <= 1 by {
            assert(stage[r][c] <= 1);
        }
        law_full_row_is_all_blocks(stage[r]);
    }
    lemma_filter_congruent(stage);
}

/// Up, while the game is under way, turns the piece once: to rotation
/// `(r + 1) % 4` when the grid of that rotation fits where the piece is, and
/// nothing changes otherwise.
pub proof fn law_up_turns_once(s: SessionView, shape: int)
    requires
        s.state == State::PLAYING,
    ensures
        key_model(s, Key::Up, shape) == (
            if fits(s.stage, tetrimino_table()[s.shape][(s.rotate + 1) % 4], s.x, s.y) {
                SessionView { rotate: (s.rotate + 1) % 4, ..s }
            } else {
                s
            },
            crate::session::Control::Continue,
        ),
{
}

/// When a frame settles a piece and clears `n` rows, the score rises by
/// `n * n * 1000`: 1000, 4000, 9000 and 16000 for one to four rows; a frame
/// that settles nothing leaves the score alone. The points announced by
/// `tick_points` are that rise.
pub proof fn law_score_is_square_of_cleared_rows(s: SessionView, shape: int)
    requires
        session_inv(s),
    ensures
        ({
            let (after, cleared_rows) = tick_model(s, shape);
            &&& cleared_rows matches Some(n) ==> after.score == s.score + n * n * 1000
            &&& cleared_rows is None ==> after.score == s.score
            &&& after.score == s.score + crate::session::tick_points(s)
        }),
{
    let c = crate::session::counted(s);
    if s.state == State::PLAYING && c.go_next {
        lemma_placed_wf(c.stage, current_piece(c), c.x, c.y);
        lemma_cleared_wf(placed(c.stage, current_piece(c), c.x, c.y));
        let n = settled_count(c);
        assert(n * n * 1000 == n * n * 1000);
    }
}

/// A piece that fits at row `y` fits at every row its hard drop passes.
pub proof fn lemma_drop_path(stage: Seq<Seq<u8>>, t: Seq<Seq<u8>>, x: int, y: int)
    ensures
        forall|y2: int| y < y2 <= drop_y(stage, t, x, y) ==> #[trigger] fits(stage, t, x, y2),
    decreases TETRIMINO_MAX_Y - y,
{
    if y + 1 < TETRIMINO_MAX_Y && fits(stage, t, x, y + 1) {
        lemma_drop_path(stage, t, x, y + 1);
    }
}

/// Return, while the game is under way, drops the piece straight down: it
/// stays in its column and rotation, fits at every row from where it was down
/// to where it lands, does not fit one row lower, and is marked to settle.
pub proof fn law_hard_drop_passes_only_free_rows(s: SessionView, shape: int)
    requires
        session_inv(s),
        s.state == State::PLAYING,
    ensures
        ({
            let d = key_model(s, Key::Return, shape).0;
            &&& d == (SessionView { y: d.y, go_next: true, ..s })
            &&& s.y <= d.y
            &&& forall|y2: int| s.y <= y2 <= d.y ==> #[trigger] fits(s.stage, current_piece(s), s.x, y2)
            &&& !fits(s.stage, current_piece(s), s.x, d.y + 1)
        }),
{
    let t = current_piece(s);
    lemma_drop_path(s.stage, t, s.x, s.y);
    lemma_drop_lands(s.stage, t, s.x, s.y);
    law_hard_drop_rests(s);
}

/// The arrow keys, while the game is under way, move the piece one cell
/// left, right or down when it fits there and change nothing otherwise;
/// Escape quits and leaves the session as it is.
pub proof fn law_arrow_keys_move_one_cell(s: SessionView, shape: int)
    requires
        s.state == State::PLAYING,
    ensures
        key_model(s, Key::Left, shape).0 == if fits(s.stage, current_piece(s), s.x - 1, s.y) {
            SessionView { x: s.x - 1, ..s }
        } else {
            s
        },
        key_model(s, Key::Right, shape).0 == if fits(s.stage, current_piece(s), s.x + 1, s.y) {
            SessionView { x: s.x + 1, ..s }
        } else {
            s
        },
        key_model(s, Key::Down, shape).0 == if fits(s.stage, current_piece(s), s.x, s.y + 1) {
            SessionView { y: s.y + 1, ..s }
        } else {
            s
        },
        key_model(s, Key::Escape, shape) == (s, crate::session::Control::Quit),
        key_model(s, Key::Other, shape) == (s, crate::session::Control::Continue),
{
}

/// Once the game is over, Return starts a new game on an empty field with the
/// score kept, the new piece at column 3 of the top row in its first
/// rotation; Escape quits; other keys change nothing.
pub proof fn law_keys_after_game_over(s: SessionView, key: Key, shape: int)
    requires
        s.state == State::GAMEOVER,
    ensures
        key == Key::Return ==> key_model(s, key, shape) == (
            SessionView {
                stage: crate::game::empty_stage(),
                state: State::PLAYING,
                shape,
                rotate: 0,
                x: 3,
                y: 0,
                frame_count: 0,
                ..s
            },
            crate::session::Control::Continue,
        ),
        key == Key::Escape ==> key_model(s, key, shape) == (s, crate::session::Control::Quit),
        key != Key::Return && key != Key::Escape ==> key_model(s, key, shape) == (
            s,
            crate::session::Control::Continue,
        ),
{
}

/// While the game is under way and no piece waits to settle, a frame counts
/// up; every sixtieth frame the counter restarts and the piece moves one row
/// down if it fits there.
pub proof fn law_piece_falls_every_sixty_frames(s: SessionView, shape: int)
    requires
        s.state == State::PLAYING,
        !s.go_next,
    ensures
        s.frame_count + 1 < 60 ==> tick_model(s, shape) == (
            SessionView { frame_count: s.frame_count + 1, ..s },
            Option::<u32>::None,
        ),
        s.frame_count + 1 == 60 && fits(s.stage, current_piece(s), s.x, s.y + 1) ==> tick_model(
            s,
            shape,
        ) == (SessionView { frame_count: 0, y: s.y + 1, ..s }, Option::<u32>::None),
{
}

/// A new game's field is 20 rows of 10 empty cells.
pub proof fn law_new_field_is_empty()
    ensures
        crate::game::empty_stage().len() == 20,
        forall|r: int| 0 <= r < 20 ==> #[trigger] crate::game::empty_stage()[r].len() == 10,
        forall|r: int, c: int|
            0 <= r < 20 && 0 <= c < 10 ==> #[trigger] crate::game::empty_stage()[r][c] == 0,
{
}

} // verus!
