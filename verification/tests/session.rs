use tetris::board::is_movable;
use tetris::game::State;
use tetris::session::{Control, Key, Session, MOVE_DOWN_FRAME_COUNT};

fn ticks(s: &mut Session, n: u32) -> Option<u32> {
    let mut last = None;
    for _ in 0..n {
        last = s.tick_with(0);
    }
    last
}

#[test]
fn new_session_starts_at_top() {
    let s = Session::new();
    assert_eq!(s.position(), (3, 0));
    assert_eq!(s.state(), State::PLAYING);
    assert_eq!(s.score(), 0);
    assert_eq!(s.piece().len(), 5);
    assert!(s.stage().iter().all(|r| r.iter().all(|v| *v == 0)));
}

#[test]
fn keys_move_and_quit() {
    let mut s = Session::with_shape(0);
    assert_eq!(s.press_with(Key::Left, 0), Control::Continue);
    assert_eq!(s.position(), (2, 0));
    assert_eq!(s.press_with(Key::Right, 0), Control::Continue);
    assert_eq!(s.press_with(Key::Right, 0), Control::Continue);
    assert_eq!(s.position(), (4, 0));
    assert_eq!(s.press_with(Key::Down, 0), Control::Continue);
    assert_eq!(s.position(), (4, 1));
    assert_eq!(s.press_with(Key::Other, 0), Control::Continue);
    assert_eq!(s.position(), (4, 1));
    assert_eq!(s.press_with(Key::Escape, 0), Control::Quit);
}

#[test]
fn left_wall_stops_the_piece() {
    let mut s = Session::with_shape(0);
    for _ in 0..10 {
        s.press_with(Key::Left, 0);
    }
    // the O piece's blocks sit in grid columns 1 and 2
    assert_eq!(s.position(), (-1, 0));
}

#[test]
fn piece_falls_once_every_sixty_frames() {
    let mut s = Session::with_shape(0);
    assert_eq!(ticks(&mut s, MOVE_DOWN_FRAME_COUNT - 1), None);
    assert_eq!(s.position(), (3, 0));
    assert_eq!(s.tick_with(0), None);
    assert_eq!(s.position(), (3, 1));
}

#[test]
fn hard_drop_then_tick_settles_the_piece() {
    let mut s = Session::with_shape(0);
    s.press_with(Key::Return, 0);
    assert_eq!(s.position(), (3, 17));
    // after a hard drop the piece cannot go lower
    assert!(!is_movable(s.stage(), s.piece(), 3, 17, 0, 1));
    assert_eq!(s.tick_with(2), Some(0));
    assert_eq!(s.stage()[18][4], 1);
    assert_eq!(s.stage()[19][5], 1);
    assert_eq!(s.position(), (3, 0));
    assert_eq!(s.score(), 0);
    assert_eq!(s.state(), State::PLAYING);
}

#[test]
fn clearing_two_rows_scores_four_thousand() {
    let mut s = Session::with_shape(0);
    // O pieces dropped side by side fill the bottom two rows
    for col in 0..5 {
        let target = -1 + 2 * col;
        let (mut x, _) = s.position();
        while x > target {
            s.press_with(Key::Left, 0);
            x -= 1;
        }
        while x < target {
            s.press_with(Key::Right, 0);
            x += 1;
        }
        assert_eq!(s.position().0, target);
        s.press_with(Key::Return, 0);
        let cleared = s.tick_with(0);
        if col < 4 {
            assert_eq!(cleared, Some(0));
        } else {
            assert_eq!(cleared, Some(2));
        }
    }
    assert_eq!(s.score(), 4000);
    assert!(s.stage().iter().all(|r| r.iter().all(|v| *v == 0)));
}

#[test]
fn stacking_to_the_top_ends_the_game_and_return_restarts() {
    let mut s = Session::with_shape(0);
    let mut rounds = 0;
    while s.state() == State::PLAYING {
        s.press_with(Key::Return, 0);
        s.tick_with(0);
        rounds += 1;
        assert!(rounds < 20);
    }
    assert_eq!(s.state(), State::GAMEOVER);
    // frames and moves change nothing once the game is over
    let before = s.stage().clone();
    assert_eq!(s.tick_with(0), None);
    assert_eq!(s.press_with(Key::Left, 0), Control::Continue);
    assert_eq!(s.stage(), &before);
    assert_eq!(s.press_with(Key::Escape, 0), Control::Quit);
    assert_eq!(s.press_with(Key::Return, 3), Control::Continue);
    assert_eq!(s.state(), State::PLAYING);
    assert_eq!(s.position(), (3, 0));
    assert!(s.stage().iter().all(|r| r.iter().all(|v| *v == 0)));
}

#[test]
fn four_turns_return_to_the_start() {
    let mut s = Session::with_shape(2);
    s.press_with(Key::Down, 0);
    s.press_with(Key::Down, 0);
    let start = s.piece().clone();
    for _ in 0..4 {
        s.press_with(Key::Up, 0);
    }
    assert_eq!(s.piece(), &start);
    s.press_with(Key::Up, 0);
    assert_ne!(s.piece(), &start);
}

#[test]
fn move_then_move_back() {
    let mut s = Session::with_shape(4);
    s.press_with(Key::Right, 0);
    s.press_with(Key::Left, 0);
    assert_eq!(s.position(), (3, 0));
}

#[test]
fn random_press_and_tick_keep_the_game_going() {
    let mut s = Session::new();
    for _ in 0..200 {
        s.press(Key::Down);
        s.tick();
    }
    assert!(s.score() % 1000 == 0);
}

#[test]
fn points_due_only_when_a_piece_settles() {
    let mut s = Session::with_shape(0);
    assert_eq!(s.tick_points_due(), 0);
    // fill the bottom two rows but for the O piece's place
    for col in 0..4 {
        let target = 1 + 2 * col;
        let (mut x, _) = s.position();
        while x < target {
            s.press_with(Key::Right, 0);
            x += 1;
        }
        while x > target {
            s.press_with(Key::Left, 0);
            x -= 1;
        }
        s.press_with(Key::Return, 0);
        assert_eq!(s.tick_points_due(), 0);
        s.tick_with(0);
    }
    for _ in 0..4 {
        s.press_with(Key::Left, 0);
    }
    assert_eq!(s.position(), (-1, 0));
    assert_eq!(s.tick_points_due(), 0);
    s.press_with(Key::Return, 0);
    assert_eq!(s.tick_points_due(), 4000);
    assert_eq!(s.tick_with(0), Some(2));
    assert_eq!(s.score(), 4000);
}

#[test]
fn playing_piece_never_overlaps_settled_blocks() {
    let mut s = Session::new();
    for k in 0..500u32 {
        let key = match k % 5 {
            0 => Key::Left,
            1 => Key::Up,
            2 => Key::Right,
            3 => Key::Down,
            _ => Key::Other,
        };
        s.press(key);
        s.tick();
        if s.state() == State::PLAYING {
            let (x, y) = s.position();
            assert!(is_movable(s.stage(), s.piece(), x, y, 0, 0));
        }
    }
}
