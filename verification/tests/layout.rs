use tetris::layout::{block_cells, block_rect, danger_line, game_over_origin, retry_msg_origin};

#[test]
fn block_rect_is_on_the_grid() {
    assert_eq!(block_rect(0, 0), (280, 60, 24, 24));
    assert_eq!(block_rect(9, 19), (280 + 216, 60 + 456, 24, 24));
    assert_eq!(block_rect(-1, 2), (256, 108, 24, 24));
}

#[test]
fn danger_line_spans_the_field() {
    assert_eq!(danger_line(), ((280, 180), (520, 180)));
}

#[test]
fn text_origins() {
    assert_eq!(game_over_origin(), (160, 210));
    assert_eq!(retry_msg_origin(), (230, 330));
}

#[test]
fn block_cells_lists_ones_row_by_row() {
    let grid = vec![vec![0, 1, 0], vec![1, 1, 2], vec![0, 0, 1]];
    assert_eq!(block_cells(&grid, 4, 7), vec![(5, 7), (4, 8), (5, 8), (6, 9)]);
    let empty: Vec<Vec<u8>> = vec![];
    assert_eq!(block_cells(&empty, 0, 0), vec![]);
}
