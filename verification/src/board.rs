//! The playing field and the moves a piece can make on it.
use vstd::prelude::*;

verus! {

/// Number of columns of the playing field.
pub const BLOCK_NUM_X: u32 = 10;
/// Number of rows of the playing field.
pub const BLOCK_NUM_Y: u32 = 20;
/// Rows above this line (row indices smaller than it) must stay empty.
pub const DANGER_LINE_Y: i32 = 5;
/// Smallest column a block may occupy.
pub const TETRIMINO_MIN_X: i32 = 0;
/// One past the largest column a block may occupy.
pub const TETRIMINO_MAX_X: i32 = 10;
/// Column at which a new piece appears.
pub const TETRIMINO_DEFAULT_X: i32 = 3;
/// Smallest row a block may occupy.
pub const TETRIMINO_MIN_Y: i32 = 0;
/// One past the largest row a block may occupy.
pub const TETRIMINO_MAX_Y: i32 = 20;
/// Row at which a new piece appears.
pub const TETRIMINO_DEFAULT_Y: i32 = 0;

/// Cell `(i, j)` (row `i`, column `j`) of the piece grid `t` holds a block.
pub open spec fn cell_set(t: Seq<Seq<u8>>, i: int, j: int) -> bool {
    &&& 0 <= i < t.len()
    &&& 0 <= j < t[i].len()
    &&& t[i][j] != 0
}

/// Column `c` and row `r` lie inside the playing field.
pub open spec fn in_field(c: int, r: int) -> bool {
    &&& TETRIMINO_MIN_X <= c < TETRIMINO_MAX_X
    &&& TETRIMINO_MIN_Y <= r < TETRIMINO_MAX_Y
}

/// Column `c`, row `r` lies inside the field and holds no settled block.
pub open spec fn free_at(stage: Seq<Seq<u8>>, c: int, r: int) -> bool {
    &&& in_field(c, r)
    &&& stage[r][c] != 1
}

/// The piece `t` with its grid's top-left corner at column `x`, row `y`
/// lies inside the field and overlaps no settled block.
pub open spec fn fits(stage: Seq<Seq<u8>>, t: Seq<Seq<u8>>, x: int, y: int) -> bool {
    forall|i: int, j: int| #[trigger] cell_set(t, i, j) ==> free_at(stage, x + j, y + i)
}

/// Every block of the piece `t` placed at `(x, y)` lies inside the field.
pub open spec fn inside(t: Seq<Seq<u8>>, x: int, y: int) -> bool {
    forall|i: int, j: int| #[trigger] cell_set(t, i, j) ==> in_field(x + j, y + i)
}

/// The stage has a cell at every place of the field.
pub open spec fn covers_field(stage: Seq<Seq<u8>>) -> bool {
    &&& stage.len() >= TETRIMINO_MAX_Y
    &&& forall|r: int| 0 <= r < TETRIMINO_MAX_Y ==> #[trigger] stage[r].len() >= TETRIMINO_MAX_X
}

/// Every block of the piece `t` placed at `(x, y)` has its coordinates in
/// `i32`, and where it lies inside the field, `stage` has a cell under it.
pub open spec fn reachable(stage: Seq<Seq<u8>>, t: Seq<Seq<u8>>, x: int, y: int) -> bool {
    forall|i: int, j: int| #[trigger] cell_set(t, i, j) ==> {
        &&& i32::MIN <= x && x + j <= i32::MAX
        &&& i32::MIN <= y && y + i <= i32::MAX
        &&& i <= i32::MAX && j <= i32::MAX
        &&& in_field(x + j, y + i) ==> y + i < stage.len() && x + j < stage[y + i].len()
    }
}

/// Whether the piece `tetrimino` at `(x, y)`, shifted by `(dx, dy)`, would lie
/// inside the field without overlapping a settled block.
pub fn is_movable(
    stage: &Vec<Vec<u8>>,
    tetrimino: &Vec<Vec<u8>>,
    x: i32,
    y: i32,
    dx: i32,
    dy: i32,
) -> (movable: bool)
    requires
        reachable(stage.deep_view(), tetrimino.deep_view(), x + dx, y + dy),
    ensures
        movable == fits(stage.deep_view(), tetrimino.deep_view(), x + dx, y + dy),
{
    let ghost st = stage.deep_view();
    let ghost t = tetrimino.deep_view();
    let ghost bx = x + dx;
    let ghost by = y + dy;
    let n = tetrimino.len();
    for i in 0..n
        invariant
            n == t.len(),
            t == tetrimino.deep_view(),
            st == stage.deep_view(),
            bx == x + dx,
            by == y + dy,
            reachable(st, t, bx, by),
            forall|i2: int, j: int|
                0 <= i2 < i && #[trigger] cell_set(t, i2, j) ==> free_at(st, bx + j, by + i2),
    {
        let row = &tetrimino[i];
        let m = row.len();
        assert(row@.len() == t[i as int].len());
        for j in 0..m
            invariant
                n == t.len(),
                0 <= i < n,
                t == tetrimino.deep_view(),
                st == stage.deep_view(),
                row == tetrimino@[i as int],
                m == t[i as int].len(),
                bx == x + dx,
                by == y + dy,
                reachable(st, t, bx, by),
                forall|i2: int, j2: int|
                    0 <= i2 < i && #[trigger] cell_set(t, i2, j2) ==> free_at(st, bx + j2, by + i2),
                forall|j2: int|
                    0 <= j2 < j && #[trigger] cell_set(t, i as int, j2) ==> free_at(st, bx + j2, by + i),
        {
            assert(row@[j as int] == t[i as int][j as int]);
            if row[j] != 0 {
                assert(cell_set(t, i as int, j as int));
                let new_x: i32 = x + dx + j as i32;
                let new_y: i32 = y + dy + i as i32;
                if new_x < TETRIMINO_MIN_X || TETRIMINO_MAX_X <= new_x {
                    return false;
                }
                if new_y < TETRIMINO_MIN_Y || TETRIMINO_MAX_Y <= new_y {
                    return false;
                }
                assert(in_field(bx + j, by + i));
                assert(st[new_y as int] == stage@[new_y as int].deep_view());
                assert(stage@[new_y as int]@[new_x as int] == st[new_y as int][new_x as int]);
                if stage[new_y as usize][new_x as usize] == 1 {
                    return false;
                }
            }
        }
    }
    true
}

/// Moves the piece at `(*x, *y)` by `(dx, dy)` when it fits there; reports whether it moved.
pub fn move_tetrimino(
    stage: &Vec<Vec<u8>>,
    tetrimino: &Vec<Vec<u8>>,
    x: &mut i32,
    y: &mut i32,
    dx: i32,
    dy: i32,
) -> (moved: bool)
    requires
        reachable(stage.deep_view(), tetrimino.deep_view(), *old(x) + dx, *old(y) + dy),
        fits(stage.deep_view(), tetrimino.deep_view(), *old(x) + dx, *old(y) + dy) ==> {
            &&& i32::MIN <= *old(x) + dx <= i32::MAX
            &&& i32::MIN <= *old(y) + dy <= i32::MAX
        },
    ensures
        moved == fits(stage.deep_view(), tetrimino.deep_view(), *old(x) + dx, *old(y) + dy),
        moved ==> *final(x) == *old(x) + dx && *final(y) == *old(y) + dy,
        !moved ==> *final(x) == *old(x) && *final(y) == *old(y),
{
    if !is_movable(stage, tetrimino, *x, *y, dx, dy) {
        return false;
    }
    *x += dx;
    *y += dy;
    true
}

/// The rotation that follows rotation `r`: rotations cycle through four states.
pub open spec fn next_rotation(r: int) -> int {
    (r + 1) % 4
}

/// Turns the piece to its next rotation when that rotation fits at `(x, y)`;
/// reports whether it turned.
pub fn rotate_tetrimino(
    stage: &Vec<Vec<u8>>,
    rotations: &Vec<Vec<Vec<u8>>>,
    x: i32,
    y: i32,
    rotate: &mut usize,
) -> (rotated: bool)
    requires
        *old(rotate) < usize::MAX,
        next_rotation(*old(rotate) as int) < rotations.len(),
        reachable(
            stage.deep_view(),
            rotations.deep_view()[next_rotation(*old(rotate) as int)],
            x as int,
            y as int,
        ),
    ensures
        rotated == fits(
            stage.deep_view(),
            rotations.deep_view()[next_rotation(*old(rotate) as int)],
            x as int,
            y as int,
        ),
        rotated ==> *final(rotate) == next_rotation(*old(rotate) as int),
        *old(rotate) < 4 ==> *final(rotate) < 4,
        !rotated ==> *final(rotate) == *old(rotate),
{
    let new_rotate: usize = (*rotate + 1) % 4;
    assert(rotations.deep_view()[new_rotate as int] == rotations@[new_rotate as int].deep_view());
    if !is_movable(stage, &rotations[new_rotate], x, y, 0, 0) {
        return false;
    }
    *rotate = new_rotate;
    true
}

/// Every block of the piece `t` at `(x, y)` lands on a cell of `stage`, with
/// every coordinate representable as an `i32`.
pub open spec fn lands_on(stage: Seq<Seq<u8>>, t: Seq<Seq<u8>>, x: int, y: int) -> bool {
    forall|i: int, j: int| #[trigger] cell_set(t, i, j) ==> {
        &&& 0 <= y + i < stage.len()
        &&& 0 <= x + j < stage[y + i].len()
        &&& i <= i32::MAX && j <= i32::MAX
        &&& y + i <= i32::MAX
        &&& x + j <= i32::MAX
    }
}

/// The stage with a settled block (value 1) written under every block of the
/// piece `t` at `(x, y)`; every other cell is unchanged.
pub open spec fn placed(stage: Seq<Seq<u8>>, t: Seq<Seq<u8>>, x: int, y: int) -> Seq<Seq<u8>> {
    Seq::new(
        stage.len(),
        |r: int|
            Seq::new(
                stage[r].len(),
                |c: int|
                    if cell_set(t, r - y, c - x) {
                        1u8
                    } else {
                        stage[r][c]
                    },
            ),
    )
}

/// The cells of `t` that come before `(ni, nj)` in row-major order.
pub open spec fn cell_before(t: Seq<Seq<u8>>, i: int, j: int, ni: int, nj: int) -> bool {
    &&& cell_set(t, i, j)
    &&& (i < ni || (i == ni && j < nj))
}

/// Settles the piece `tetrimino` at `(x, y)`: writes 1 under each of its blocks.
pub fn fix_tetrimino(stage: &mut Vec<Vec<u8>>, tetrimino: &Vec<Vec<u8>>, x: i32, y: i32)
    requires
        lands_on(old(stage).deep_view(), tetrimino.deep_view(), x as int, y as int),
    ensures
        final(stage).deep_view() == placed(
            old(stage).deep_view(),
            tetrimino.deep_view(),
            x as int,
            y as int,
        ),
{
    let ghost st0 = stage.deep_view();
    let ghost t = tetrimino.deep_view();
    let n = tetrimino.len();
    for i in 0..n
        invariant
            n == t.len(),
            t == tetrimino.deep_view(),
            lands_on(st0, t, x as int, y as int),
            stage@.len() == st0.len(),
            forall|r: int| 0 <= r < st0.len() ==> #[trigger] stage@[r]@.len() == st0[r].len(),
            forall|r: int, c: int|
                0 <= r < st0.len() && 0 <= c < st0[r].len() ==> #[trigger] stage@[r]@[c] == (
                if cell_before(t, r - y, c - x, i as int, 0) {
                    1u8
                } else {
                    st0[r][c]
                }),
    {
        let row = &tetrimino[i];
        let m = row.len();
        assert(row@.len() == t[i as int].len());
        for j in 0..m
            invariant
                n == t.len(),
                0 <= i < n,
                t == tetrimino.deep_view(),
                row == tetrimino@[i as int],
                m == t[i as int].len(),
                lands_on(st0, t, x as int, y as int),
                stage@.len() == st0.len(),
                forall|r: int| 0 <= r < st0.len() ==> #[trigger] stage@[r]@.len() == st0[r].len(),
                forall|r: int, c: int|
                    0 <= r < st0.len() && 0 <= c < st0[r].len() ==> #[trigger] stage@[r]@[c] == (
                    if cell_before(t, r - y, c - x, i as int, j as int) {
                        1u8
                    } else {
                        st0[r][c]
                    }),
        {
            assert(row@[j as int] == t[i as int][j as int]);
            if row[j] != 0 {
                assert(cell_set(t, i as int, j as int));
                let r: usize = (i as i32 + y) as usize;
                let c: usize = (j as i32 + x) as usize;
                stage[r][c] = 1;
            }
        }
    }
    assert forall|r: int, c: int|
        0 <= r < st0.len() && 0 <= c < st0[r].len() implies #[trigger] stage@[r]@[c] == (
        if cell_set(t, r - y, c - x) {
            1u8
        } else {
            st0[r][c]
        }) by {
        assert(cell_set(t, r - y, c - x) == cell_before(t, r - y, c - x, n as int, 0));
    }
    assert(stage.deep_view() =~~= placed(st0, t, x as int, y as int));
}

/// The sum of the cells of a row.
pub open spec fn row_sum(row: Seq<u8>) -> int
    decreases row.len(),
{
    if row.len() == 0 {
        0
    } else {
        row_sum(row.drop_last()) + row.last()
    }
}

/// A row is full when the sum of its cells equals its length, the length taken
/// as a byte (that is, modulo 256).
pub open spec fn row_full(row: Seq<u8>) -> bool {
    row_sum(row) == row.len() % 256
}

/// The rows of `stage` that are not full, in their order.
pub open spec fn kept_rows(stage: Seq<Seq<u8>>) -> Seq<Seq<u8>> {
    stage.filter(|row: Seq<u8>| !row_full(row))
}

/// A row of the field's width with no block in it.
pub open spec fn empty_row() -> Seq<u8> {
    Seq::new(BLOCK_NUM_X as nat, |_c: int| 0u8)
}

/// `n` empty rows.
pub open spec fn empty_rows(n: nat) -> Seq<Seq<u8>> {
    Seq::new(n, |_r: int| empty_row())
}

/// The stage once its full rows are removed and empty rows are added on top
/// until it has the field's height again.
pub open spec fn cleared(stage: Seq<Seq<u8>>) -> Seq<Seq<u8>> {
    empty_rows((BLOCK_NUM_Y - kept_rows(stage).len()) as nat) + kept_rows(stage)
}

/// The number of rows that `cleared` removes.
pub open spec fn cleared_count(stage: Seq<Seq<u8>>) -> int {
    BLOCK_NUM_Y - kept_rows(stage).len()
}

/// Whether a row is full; its sum is computed in bytes, as the game does.
fn row_is_full(row: &Vec<u8>) -> (full: bool)
    requires
        row_sum(row@) <= u8::MAX,
    ensures
        full == row_full(row@),
{
    let mut sum: u8 = 0;
    let n = row.len();
    let mut k: usize = 0;
    while k < n
        invariant
            n == row@.len(),
            0 <= k <= n,
            row_sum(row@) <= u8::MAX,
            sum == row_sum(row@.take(k as int)),
        decreases n - k,
    {
        assert(row@.take(k + 1).drop_last() =~= row@.take(k as int));
        proof {
            lemma_row_sum_prefix(row@, k as int + 1);
        }
        sum = sum + row[k];
        k = k + 1;
    }
    assert(row@.take(n as int) =~= row@);
    let len_byte: u8 = n as u8;
    assert(len_byte == n % 256) by (bit_vector)
        requires
            len_byte == n as u8,
    ;
    sum == len_byte
}

/// The sum of a prefix of a row is at most the sum of the row.
pub proof fn lemma_row_sum_prefix(row: Seq<u8>, k: int)
    requires
        0 <= k <= row.len(),
    ensures
        row_sum(row.take(k)) <= row_sum(row),
    decreases row.len() - k,
{
    if k < row.len() {
        lemma_row_sum_prefix(row, k + 1);
        assert(row.take(k + 1).drop_last() =~= row.take(k));
    } else {
        assert(row.take(k) =~= row);
    }
}

/// A row with no block in it.
pub(crate) fn new_empty_row() -> (row: Vec<u8>)
    ensures
        row@ == empty_row(),
{
    let mut row: Vec<u8> = Vec::new();
    let mut c: u32 = 0;
    while c < BLOCK_NUM_X
        invariant
            c <= BLOCK_NUM_X,
            row@ == Seq::new(c as nat, |_c: int| 0u8),
        decreases BLOCK_NUM_X - c,
    {
        row.push(0);
        c = c + 1;
        assert(row@ =~= Seq::new(c as nat, |_c: int| 0u8));
    }
    row
}

/// Removes the full rows, adds empty rows on top until the stage has the
/// field's height again, and returns how many rows were removed.
pub fn clear_blocks(stage: &mut Vec<Vec<u8>>) -> (cleared_row_count: u32)
    requires
        forall|r: int|
            0 <= r < old(stage)@.len() ==> row_sum(#[trigger] old(stage).deep_view()[r]) <= u8::MAX,
        kept_rows(old(stage).deep_view()).len() <= BLOCK_NUM_Y,
    ensures
        final(stage).deep_view() == cleared(old(stage).deep_view()),
        cleared_row_count == cleared_count(old(stage).deep_view()),
{
    let ghost st0 = stage.deep_view();
    let ghost keep = |row: Seq<u8>| !row_full(row);
    let ghost mut k: int = 0;
    let mut i: usize = 0;
    reveal(Seq::filter);
    assert(st0.take(0).filter(keep) =~= Seq::<Seq<u8>>::empty());
    assert(stage.deep_view() =~= st0.take(0).filter(keep) + st0.skip(0));
    while i < stage.len()
        invariant
            0 <= k <= st0.len(),
            st0 == old(stage).deep_view(),
            forall|r: int| 0 <= r < st0.len() ==> row_sum(#[trigger] st0[r]) <= u8::MAX,
            keep == (|row: Seq<u8>| !row_full(row)),
            i == st0.take(k).filter(keep).len(),
            stage.deep_view() == st0.take(k).filter(keep) + st0.skip(k),
        decreases st0.len() - k,
    {
        let ghost before = stage.deep_view();
        let ghost front = st0.take(k).filter(keep);
        assert(k < st0.len());
        assert(before[i as int] == st0[k]);
        assert(stage@[i as int]@ =~= before[i as int]);
        assert(st0.take(k + 1).drop_last() =~= st0.take(k));
        assert(st0.take(k + 1).last() == st0[k]);
        assert(st0.skip(k).drop_first() =~= st0.skip(k + 1));
        let full = row_is_full(&stage[i]);
        assert(full == row_full(st0[k]));
        assert(keep(st0[k]) == !full);
        reveal(Seq::filter);
        assert(st0.take(k + 1).filter(keep) == if keep(st0[k]) {
            front.push(st0[k])
        } else {
            front
        });
        if full {
            assert(st0.take(k + 1).filter(keep) == front);
            stage.remove(i);
            assert(stage.deep_view() =~= before.remove(i as int));
            assert(before.remove(i as int) =~= front + st0.skip(k + 1));
        } else {
            assert(st0.take(k + 1).filter(keep) == front.push(st0[k]));
            assert(stage.deep_view() =~= front.push(st0[k]) + st0.skip(k + 1));
            i = i + 1;
        }
        proof {
            k = k + 1;
        }
    }
    assert(st0.take(k) =~= st0);
    assert(stage.deep_view() =~= kept_rows(st0));
    proof {
        lemma_kept_rows_len(st0);
    }
    let cleared_row_count: u32 = BLOCK_NUM_Y - stage.len() as u32;
    while stage.len() < BLOCK_NUM_Y as usize
        invariant
            stage@.len() <= BLOCK_NUM_Y,
            kept_rows(st0).len() <= stage@.len(),
            stage.deep_view() == empty_rows((stage@.len() - kept_rows(st0).len()) as nat)
                + kept_rows(st0),
        decreases BLOCK_NUM_Y - stage@.len(),
    {
        let ghost before = stage.deep_view();
        let row = new_empty_row();
        assert(row.deep_view() =~= empty_row());
        stage.insert(0, row);
        assert(stage.deep_view() =~= before.insert(0, empty_row()));
        assert(stage.deep_view() =~= empty_rows((stage@.len() - kept_rows(st0).len()) as nat)
            + kept_rows(st0));
    }
    cleared_row_count
}

/// Filtering never lengthens a sequence of rows.
pub proof fn lemma_kept_rows_len(stage: Seq<Seq<u8>>)
    ensures
        kept_rows(stage).len() <= stage.len(),
{
    stage.lemma_filter_len(|row: Seq<u8>| !row_full(row));
}

/// Some cell above the danger line holds a settled block.
pub open spec fn above_danger_line(stage: Seq<Seq<u8>>) -> bool {
    exists|r: int, c: int|
        0 <= r < DANGER_LINE_Y && r < stage.len() && 0 <= c < stage[r].len() && #[trigger] stage[r][c]
            == 1
}

/// Whether a settled block lies above the danger line.
pub fn is_game_over(stage: &Vec<Vec<u8>>) -> (over: bool)
    requires
        stage@.len() >= DANGER_LINE_Y || above_danger_line(stage.deep_view()),
    ensures
        over == above_danger_line(stage.deep_view()),
{
    let ghost st = stage.deep_view();
    let mut i: usize = 0;
    while i < DANGER_LINE_Y as usize
        invariant
            st == stage.deep_view(),
            stage@.len() >= DANGER_LINE_Y || above_danger_line(st),
            i <= DANGER_LINE_Y,
            forall|r: int, c: int|
                0 <= r < i && r < st.len() && 0 <= c < st[r].len() ==> #[trigger] st[r][c] != 1,
        decreases DANGER_LINE_Y - i,
    {
        proof {
            if i >= st.len() {
                let (r, c) = choose|r: int, c: int|
                    0 <= r < DANGER_LINE_Y && r < st.len() && 0 <= c < st[r].len() && #[trigger] st[r][c]
                        == 1;
                assert(st[r][c] != 1);
            }
        }
        let row = &stage[i];
        assert(row@ =~= st[i as int]);
        let mut j: usize = 0;
        while j < row.len()
            invariant
                st == stage.deep_view(),
                stage@.len() >= DANGER_LINE_Y || above_danger_line(st),
                i < DANGER_LINE_Y,
                i < st.len(),
                row@ == st[i as int],
                j <= row@.len(),
                forall|r: int, c: int|
                    0 <= r < i && r < st.len() && 0 <= c < st[r].len() ==> #[trigger] st[r][c] != 1,
                forall|c: int| 0 <= c < j ==> #[trigger] st[i as int][c] != 1,
            decreases row@.len() - j,
        {
            if row[j] == 1 {
                assert(st[i as int][j as int] == 1);
                return true;
            }
            j = j + 1;
        }
        i = i + 1;
    }
    false
}

} // verus!
