//! Where things are drawn: the window, the field on it, and the blocks.
use vstd::prelude::*;

use crate::board::{BLOCK_NUM_X, BLOCK_NUM_Y, DANGER_LINE_Y};

verus! {

/// Window width in pixels.
pub const WIDTH: u32 = 800;
/// Window height in pixels.
pub const HEIGHT: u32 = 600;
/// Side of one block in pixels.
pub const BLOCK_SIZE: u32 = 24;
/// Field width in pixels.
pub const STAGE_WIDTH: u32 = 240;
/// Field height in pixels.
pub const STAGE_HEIGHT: u32 = 480;
/// Left edge of the field, which is centred in the window.
pub const STAGE_X: i32 = 280;
/// Top edge of the field, which is centred in the window.
pub const STAGE_Y: i32 = 60;
/// Offset of the "game over" text from the field's corner.
pub const GAME_OVER_X: i32 = -120;
pub const GAME_OVER_Y: i32 = 150;
/// Offset of the retry message from the field's corner.
pub const RETRY_MSG_X: i32 = -50;
pub const RETRY_MSG_Y: i32 = 270;

/// The field is as many blocks as it has cells, and it is centred in the window.
pub proof fn lemma_layout()
    ensures
        STAGE_WIDTH == BLOCK_SIZE * BLOCK_NUM_X,
        STAGE_HEIGHT == BLOCK_SIZE * BLOCK_NUM_Y,
        STAGE_X == (WIDTH - STAGE_WIDTH) / 2,
        STAGE_Y == (HEIGHT - STAGE_HEIGHT) / 2,
{
}

/// The pixel rectangle (left, top, width, height) of the block at column `x`, row `y`.
pub open spec fn block_rect_spec(x: int, y: int) -> (int, int, int, int) {
    (STAGE_X + x * BLOCK_SIZE, STAGE_Y + y * BLOCK_SIZE, BLOCK_SIZE as int, BLOCK_SIZE as int)
}

/// The pixel rectangle of the block at column `x`, row `y` of the field.
pub fn block_rect(x: i32, y: i32) -> (rect: (i32, i32, u32, u32))
    requires
        i32::MIN <= x * BLOCK_SIZE <= i32::MAX,
        i32::MIN <= y * BLOCK_SIZE <= i32::MAX,
        i32::MIN <= STAGE_X + x * BLOCK_SIZE <= i32::MAX,
        i32::MIN <= STAGE_Y + y * BLOCK_SIZE <= i32::MAX,
    ensures
        (rect.0 as int, rect.1 as int, rect.2 as int, rect.3 as int) == block_rect_spec(x as int, y as int),
{
    let size: i32 = 24;
    (STAGE_X + x * size, STAGE_Y + y * size, BLOCK_SIZE, BLOCK_SIZE)
}

/// The end points of the danger line, across the field at row `DANGER_LINE_Y`.
pub fn danger_line() -> (line: ((i32, i32), (i32, i32)))
    ensures
        as_point(line.0) == (STAGE_X as int, STAGE_Y + DANGER_LINE_Y * BLOCK_SIZE),
        as_point(line.1) == (STAGE_X + STAGE_WIDTH, STAGE_Y + DANGER_LINE_Y * BLOCK_SIZE),
{
    let size: i32 = 24;
    let width: i32 = 240;
    (
        (STAGE_X, STAGE_Y + DANGER_LINE_Y * size),
        (STAGE_X + width, STAGE_Y + DANGER_LINE_Y * size),
    )
}

/// Top-left corner of the "game over" text.
pub fn game_over_origin() -> (p: (i32, i32))
    ensures
        as_point(p) == (STAGE_X + GAME_OVER_X, STAGE_Y + GAME_OVER_Y),
{
    (STAGE_X + GAME_OVER_X, STAGE_Y + GAME_OVER_Y)
}

/// Top-left corner of the retry message.
pub fn retry_msg_origin() -> (p: (i32, i32))
    ensures
        as_point(p) == (STAGE_X + RETRY_MSG_X, STAGE_Y + RETRY_MSG_Y),
{
    (STAGE_X + RETRY_MSG_X, STAGE_Y + RETRY_MSG_Y)
}

/// Field coordinates of the cells holding 1 in `row`, which lies at row `y`
/// with its first cell at column `x`, left to right.
pub open spec fn row_marks(row: Seq<u8>, x: int, y: int) -> Seq<(int, int)>
    decreases row.len(),
{
    if row.len() == 0 {
        Seq::empty()
    } else {
        row_marks(row.drop_last(), x, y) + if row.last() == 1 {
            seq![(x + row.len() - 1, y)]
        } else {
            Seq::empty()
        }
    }
}

/// Field coordinates of the cells holding 1 in the grid `t` placed at
/// `(x, y)`, row by row from the top, each row left to right.
pub open spec fn grid_marks(t: Seq<Seq<u8>>, x: int, y: int) -> Seq<(int, int)>
    decreases t.len(),
{
    if t.len() == 0 {
        Seq::empty()
    } else {
        grid_marks(t.drop_last(), x, y) + row_marks(t.last(), x, y + t.len() - 1)
    }
}

/// Every cell holding 1 in the grid `t` placed at `(x, y)` has its field
/// coordinates in `i32`.
pub open spec fn marks_fit(t: Seq<Seq<u8>>, x: int, y: int) -> bool {
    forall|i: int, j: int|
        0 <= i < t.len() && 0 <= j < t[i].len() && #[trigger] t[i][j] == 1 ==> {
            &&& i <= i32::MAX && j <= i32::MAX
            &&& x + j <= i32::MAX && y + i <= i32::MAX
        }
}

/// A pair of `i32` coordinates as integers.
pub open spec fn as_point(p: (i32, i32)) -> (int, int) {
    (p.0 as int, p.1 as int)
}

/// The field coordinates of the blocks of `blocks` placed at `(x, y)`, in the
/// order they are drawn.
pub fn block_cells(blocks: &Vec<Vec<u8>>, x: i32, y: i32) -> (cells: Vec<(i32, i32)>)
    requires
        marks_fit(blocks.deep_view(), x as int, y as int),
    ensures
        cells@.map_values(|p: (i32, i32)| as_point(p)) == grid_marks(blocks.deep_view(), x as int, y as int),
{
    let ghost t = blocks.deep_view();
    let mut cells: Vec<(i32, i32)> = Vec::new();
    let n = blocks.len();
    for i in 0..n
        invariant
            n == t.len(),
            t == blocks.deep_view(),
            marks_fit(t, x as int, y as int),
            cells@.map_values(|p: (i32, i32)| as_point(p)) == grid_marks(t.take(i as int), x as int, y as int),
    {
        let row = &blocks[i];
        let m = row.len();
        assert(row@ =~= t[i as int]);
        let ghost before = cells@.map_values(|p: (i32, i32)| as_point(p));
        for j in 0..m
            invariant
                n == t.len(),
                0 <= i < n,
                t == blocks.deep_view(),
                row@ == t[i as int],
                m == row@.len(),
                marks_fit(t, x as int, y as int),
                before == grid_marks(t.take(i as int), x as int, y as int),
                cells@.map_values(|p: (i32, i32)| as_point(p)) == before + row_marks(
                    row@.take(j as int),
                    x as int,
                    y + i,
                ),
        {
            assert(row@.take(j + 1).drop_last() =~= row@.take(j as int));
            assert(row@.take(j + 1).last() == row@[j as int]);
            let ghost prev = cells@;
            if row[j] == 1 {
                assert(t[i as int][j as int] == 1);
                let p: (i32, i32) = (x + j as i32, y + i as i32);
                cells.push(p);
                assert(cells@.map_values(|p: (i32, i32)| as_point(p)) =~= prev.map_values(
                    |p: (i32, i32)| as_point(p),
                ).push(as_point(p)));
            }
            assert(cells@.map_values(|p: (i32, i32)| as_point(p)) =~= before + row_marks(
                row@.take(j + 1),
                x as int,
                y + i,
            ));
        }
        assert(row@.take(m as int) =~= row@);
        assert(t.take(i + 1).drop_last() =~= t.take(i as int));
        assert(t.take(i + 1).last() == t[i as int]);
    }
    assert(t.take(n as int) =~= t);
    cells
}

} // verus!
