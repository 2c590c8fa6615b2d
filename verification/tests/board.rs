use tetris::board::{clear_blocks, fix_tetrimino, is_game_over, is_movable, move_tetrimino, rotate_tetrimino};
use tetris::game::{Game, State};

fn empty_stage() -> Vec<Vec<u8>> {
    vec![vec![0; 10]; 20]
}

fn o_piece() -> Vec<Vec<u8>> {
    vec![
        vec![0, 0, 0, 0, 0],
        vec![0, 1, 1, 0, 0],
        vec![0, 1, 1, 0, 0],
        vec![0, 0, 0, 0, 0],
        vec![0, 0, 0, 0, 0],
    ]
}

#[test]
fn new_game_has_seven_pieces_and_empty_field() {
    let g = Game::new();
    assert_eq!(g.tetriminoes.len(), 7);
    for (k, shape) in g.tetriminoes.iter().enumerate() {
        let expected = if k == 6 { 8 } else { 4 };
        assert_eq!(shape.len(), expected);
        for rot in shape.iter().take(4) {
            assert_eq!(rot.len(), 5);
            assert!(rot.iter().all(|r| r.len() == 5));
            assert_eq!(rot[2][2], 1);
            let blocks: u32 = rot.iter().flatten().map(|v| *v as u32).sum();
            assert_eq!(blocks, 4);
        }
    }
    assert_eq!(g.stage, empty_stage());
    assert_eq!(g.state, State::PLAYING);
    assert_eq!(g.tetriminoes[1][1][2], vec![1, 1, 1, 1, 0]);
}

#[test]
fn movable_inside_empty_field() {
    let stage = empty_stage();
    let o = o_piece();
    assert!(is_movable(&stage, &o, 3, 0, 0, 0));
    assert!(is_movable(&stage, &o, 3, 0, -4, 0));
    assert!(!is_movable(&stage, &o, 3, 0, -5, 0));
    assert!(is_movable(&stage, &o, 7, 0, 0, 0));
    assert!(!is_movable(&stage, &o, 7, 0, 1, 0));
    assert!(is_movable(&stage, &o, 3, 17, 0, 0));
    assert!(!is_movable(&stage, &o, 3, 17, 0, 1));
    assert!(!is_movable(&stage, &o, 3, -2, 0, 0));
}

#[test]
fn not_movable_onto_a_block() {
    let mut stage = empty_stage();
    stage[5][5] = 1;
    let o = o_piece();
    assert!(!is_movable(&stage, &o, 3, 3, 0, 0));
    assert!(is_movable(&stage, &o, 3, 2, 0, 0));
    assert!(!is_movable(&stage, &o, 3, 2, 0, 1));
    // cells other than 1 do not block
    stage[5][5] = 2;
    assert!(is_movable(&stage, &o, 3, 3, 0, 0));
}

#[test]
fn move_updates_position_only_on_success() {
    let stage = empty_stage();
    let o = o_piece();
    let (mut x, mut y) = (3, 0);
    assert!(move_tetrimino(&stage, &o, &mut x, &mut y, 1, 0));
    assert_eq!((x, y), (4, 0));
    assert!(move_tetrimino(&stage, &o, &mut x, &mut y, 0, 1));
    assert_eq!((x, y), (4, 1));
    let (mut x, mut y) = (7, 0);
    assert!(!move_tetrimino(&stage, &o, &mut x, &mut y, 1, 0));
    assert_eq!((x, y), (7, 0));
}

#[test]
fn rotate_cycles_and_respects_walls() {
    let g = Game::new();
    let stage = empty_stage();
    let i_piece = &g.tetriminoes[1];
    let mut rotate = 0usize;
    assert!(rotate_tetrimino(&stage, i_piece, 3, 3, &mut rotate));
    assert_eq!(rotate, 1);
    assert!(rotate_tetrimino(&stage, i_piece, 3, 3, &mut rotate));
    assert!(rotate_tetrimino(&stage, i_piece, 3, 3, &mut rotate));
    assert_eq!(rotate, 3);
    assert!(rotate_tetrimino(&stage, i_piece, 3, 3, &mut rotate));
    assert_eq!(rotate, 0);
    // vertical I at column -2 + 2 = 0: turning it horizontal would leave the field
    let mut rotate = 0usize;
    assert!(is_movable(&stage, &i_piece[0], -2, 3, 0, 0));
    assert!(!rotate_tetrimino(&stage, i_piece, -2, 3, &mut rotate));
    assert_eq!(rotate, 0);
}

#[test]
fn fix_writes_ones_under_blocks() {
    let mut stage = empty_stage();
    let o = o_piece();
    fix_tetrimino(&mut stage, &o, 3, 17);
    assert_eq!(stage[18][4], 1);
    assert_eq!(stage[18][5], 1);
    assert_eq!(stage[19][4], 1);
    assert_eq!(stage[19][5], 1);
    let total: u32 = stage.iter().flatten().map(|v| *v as u32).sum();
    assert_eq!(total, 4);
    // the settled piece no longer fits where it settled
    assert!(!is_movable(&stage, &o, 3, 17, 0, 0));
}

#[test]
fn clear_removes_full_rows_and_refills_from_top() {
    let mut stage = empty_stage();
    stage[19] = vec![1; 10];
    stage[18][0] = 1;
    stage[17] = vec![1; 10];
    stage[16][9] = 1;
    let n = clear_blocks(&mut stage);
    assert_eq!(n, 2);
    assert_eq!(stage.len(), 20);
    assert_eq!(stage[19], vec![1, 0, 0, 0, 0, 0, 0, 0, 0, 0]);
    assert_eq!(stage[18], vec![0, 0, 0, 0, 0, 0, 0, 0, 0, 1]);
    for r in 0..18 {
        assert_eq!(stage[r], vec![0; 10]);
    }
    // nothing left to clear
    assert_eq!(clear_blocks(&mut stage), 0);
}

#[test]
fn clear_on_full_field_empties_it() {
    let mut stage = vec![vec![1; 10]; 20];
    assert_eq!(clear_blocks(&mut stage), 20);
    assert_eq!(stage, empty_stage());
}

#[test]
fn game_over_when_block_above_danger_line() {
    let mut stage = empty_stage();
    assert!(!is_game_over(&stage));
    stage[5][3] = 1;
    assert!(!is_game_over(&stage));
    stage[4][9] = 1;
    assert!(is_game_over(&stage));
    let mut stage = empty_stage();
    stage[0][0] = 1;
    assert!(is_game_over(&stage));
}

#[test]
fn empty_piece_is_movable_on_any_field() {
    let tiny: Vec<Vec<u8>> = vec![vec![1]];
    let empty_piece: Vec<Vec<u8>> = vec![vec![0, 0], vec![0]];
    assert!(is_movable(&tiny, &empty_piece, 5, 5, 1, 1));
    let none: Vec<Vec<u8>> = vec![];
    assert!(is_movable(&none, &empty_piece, -100, 100, 0, 0));
}

#[test]
fn game_over_on_short_field_with_block() {
    let stage = vec![vec![0, 0], vec![0, 1]];
    assert!(is_game_over(&stage));
}

#[test]
fn settling_twice_equals_settling_once() {
    let mut once = vec![vec![0; 10]; 20];
    let o = o_piece();
    fix_tetrimino(&mut once, &o, 2, 5);
    let mut twice = once.clone();
    fix_tetrimino(&mut twice, &o, 2, 5);
    assert_eq!(once, twice);
}

#[test]
fn more_blocks_never_help_a_placement() {
    let o = o_piece();
    let less = vec![vec![0; 10]; 20];
    let mut more = less.clone();
    more[10][4] = 1;
    assert!(is_movable(&less, &o, 3, 9, 0, 0));
    assert!(!is_movable(&more, &o, 3, 9, 0, 0));
    assert!(is_movable(&more, &o, 3, 12, 0, 0));
    assert!(is_movable(&less, &o, 3, 12, 0, 0));
}

#[test]
fn rotation_index_stays_below_four() {
    let g = Game::new();
    let stage = vec![vec![0; 10]; 20];
    let mut rotate = 3usize;
    assert!(rotate_tetrimino(&stage, &g.tetriminoes[6], 3, 3, &mut rotate));
    assert_eq!(rotate, 0);
}

#[test]
fn settling_adds_exactly_the_piece_blocks() {
    let mut stage = vec![vec![0; 10]; 20];
    stage[19] = vec![1, 1, 0, 0, 0, 0, 0, 0, 0, 0];
    let g = Game::new();
    let t = &g.tetriminoes[2][0];
    assert!(is_movable(&stage, t, 3, 10, 0, 0));
    let before: u32 = stage.iter().flatten().map(|v| *v as u32).sum();
    fix_tetrimino(&mut stage, t, 3, 10);
    let after: u32 = stage.iter().flatten().map(|v| *v as u32).sum();
    assert_eq!(after, before + 4);
}

#[test]
fn clearing_twice_is_clearing_once() {
    let mut stage = vec![vec![1, 1, 1], vec![0, 1, 0], vec![1, 1, 1], vec![1, 0, 0]];
    assert_eq!(clear_blocks(&mut stage), 18);
    assert_eq!(stage.len(), 20);
    assert_eq!(stage[18], vec![0, 1, 0]);
    assert_eq!(stage[19], vec![1, 0, 0]);
    let once = stage.clone();
    assert_eq!(clear_blocks(&mut stage), 0);
    assert_eq!(stage, once);
}
