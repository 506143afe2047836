use launchy::minesweeper::{generate_mines, Game, ReleaseOutcome};
use launchy::{CanvasMessage, MsgPollingWrapper};

#[test]
fn mine_generation_gives_distinct_in_range_mines() {
    for _ in 0..20 {
        let mines = generate_mines(10);
        assert_eq!(mines.len(), 10);
        for &(x, y) in &mines {
            assert!(x <= 7 && y <= 7);
        }
        for i in 0..mines.len() {
            for j in 0..i {
                assert_ne!(mines[i], mines[j]);
            }
        }
    }
}

#[test]
fn mine_generation_can_fill_the_board() {
    let mines = generate_mines(64);
    assert_eq!(mines.len(), 64);
}

#[test]
fn flood_fill_opens_a_fully_empty_board() {
    let mut game = Game::new(Vec::new());
    let revealed = game.uncover(0, 0);
    // with no mines anywhere, one uncover cascades across all 64 cells
    assert_eq!(revealed.len(), 64);
    for &(x, y, count) in &revealed {
        assert!(x <= 7 && y <= 7);
        assert_eq!(count, 0);
    }
    // no cell was revealed twice
    for i in 0..revealed.len() {
        for j in 0..i {
            assert_ne!((revealed[i].0, revealed[i].1), (revealed[j].0, revealed[j].1));
        }
    }
    // a second uncover finds nothing left to reveal
    let again = game.uncover(3, 3);
    assert!(again.is_empty());
}

#[test]
fn flood_fill_stops_at_numbered_cells() {
    // a mine in the middle: uncovering a bordering cell reveals only it
    let game_mines = vec![(4u8, 4u8)];
    let mut game = Game::new(game_mines);
    assert_eq!(game.neighbor_mine_count(3, 3), 1);
    let revealed = game.uncover(3, 3);
    assert_eq!(revealed.len(), 1);
    assert_eq!(revealed[0], (3, 3, 1));
    // uncovering a far-away cell floods up to the mine's rim but not onto it
    let revealed = game.uncover(0, 7);
    assert!(revealed.len() > 1);
    assert!(!game.is_uncovered(4, 4));
}

#[test]
fn neighbor_counts_clip_at_the_edges() {
    let game = Game::new(vec![(0, 1), (1, 0), (1, 1)]);
    assert_eq!(game.neighbor_mine_count(0, 0), 3);
    assert_eq!(game.neighbor_mine_count(7, 7), 0);
    assert_eq!(game.neighbor_mine_count(2, 2), 1);
}

#[test]
fn release_on_a_mine_loses() {
    let mut game = Game::new(vec![(2, 2)]);
    game.press(2, 2, 1);
    let outcome = game.release(2, 2);
    assert!(matches!(outcome, ReleaseOutcome::Mine));
}

#[test]
fn release_without_a_press_is_ignored() {
    let mut game = Game::new(vec![(2, 2)]);
    let outcome = game.release(3, 3);
    assert!(matches!(outcome, ReleaseOutcome::Ignored));
}

#[test]
fn clearing_the_board_wins_and_freezes_the_game() {
    // a single mine in a corner: one release elsewhere cascades over the
    // other 63 cells and wins
    let mut game = Game::new(vec![(0, 0)]);
    game.press(7, 7, 1);
    let outcome = game.release(7, 7);
    match outcome {
        ReleaseOutcome::Uncovered { revealed, won } => {
            assert!(won);
            assert_eq!(revealed.len(), 63);
        },
        _ => panic!("expected a reveal"),
    }
    assert!(game.won);
    // a won game ignores further input
    game.press(0, 0, 2);
    assert!(matches!(game.release(0, 0), ReleaseOutcome::Ignored));
}

#[test]
fn hold_to_flag_only_fires_for_the_current_press() {
    let mut game = Game::new(vec![(2, 2)]);
    game.press(1, 1, 41);
    // the press was released (and re-pressed) before the timer fired
    game.press(1, 1, 42);
    assert_eq!(game.hold_fired(1, 1, 41), None);
    // the current press flags the cell
    assert_eq!(game.hold_fired(1, 1, 42), Some(true));
    // flagging consumed the press, so releasing does nothing
    assert!(matches!(game.release(1, 1), ReleaseOutcome::Ignored));
    // a second hold on a new press unflags
    game.press(1, 1, 43);
    assert_eq!(game.hold_fired(1, 1, 43), Some(false));
}

#[test]
fn polling_wrapper_hands_out_queued_messages() {
    let (sender, poller) = launchy::canvas_message_channel();
    assert_eq!(poller.try_recv(), None);
    assert!(launchy::send_message(&sender, CanvasMessage::Press { x: 1, y: 2 }));
    assert!(launchy::send_message(&sender, CanvasMessage::Release { x: 1, y: 2 }));
    assert_eq!(poller.try_recv(), Some(CanvasMessage::Press { x: 1, y: 2 }));
    let pending = poller.iter_pending();
    assert_eq!(pending, vec![CanvasMessage::Release { x: 1, y: 2 }]);
    assert_eq!(poller.drain(), 0);
    assert!(launchy::send_message(&sender, CanvasMessage::Press { x: 0, y: 0 }));
    assert_eq!(poller.drain(), 1);
}

#[test]
fn polling_recv_sees_sent_messages_and_closed_channels() {
    let (sender, poller) = launchy::canvas_message_channel();
    assert!(launchy::send_message(&sender, CanvasMessage::Press { x: 9, y: 9 }));
    assert_eq!(poller.recv(), Some(CanvasMessage::Press { x: 9, y: 9 }));
    assert_eq!(
        poller.recv_timeout(launchy::duration_from_millis(1)),
        None
    );
    drop(sender);
    // with every sender gone, receiving reports the closed channel
    assert_eq!(poller.recv(), None);
}

#[test]
fn zero_duration_iteration_never_blocks() {
    let (sender, poller) = launchy::canvas_message_channel();
    // even with a message already queued, a deadline of zero yields nothing
    assert!(launchy::send_message(&sender, CanvasMessage::Press { x: 5, y: 5 }));
    let start = std::time::Instant::now();
    let mut iter = poller.iter_for(launchy::duration_from_millis(0));
    let mut yielded = 0;
    while let Some(_msg) = iter.next() {
        yielded += 1;
        if yielded > 100 {
            break;
        }
    }
    assert_eq!(yielded, 0);
    // and it must not have blocked past the requested duration
    assert!(start.elapsed() < std::time::Duration::from_millis(500));
    // the queued message is still there for a later poll
    assert_eq!(poller.try_recv(), Some(CanvasMessage::Press { x: 5, y: 5 }));
}

#[test]
fn bounded_iteration_collects_what_is_already_queued() {
    let (sender, poller) = launchy::canvas_message_channel();
    assert!(launchy::send_message(&sender, CanvasMessage::Press { x: 1, y: 1 }));
    assert!(launchy::send_message(&sender, CanvasMessage::Release { x: 1, y: 1 }));
    let mut iter = poller.iter_for_millis(200);
    assert_eq!(iter.next(), Some(CanvasMessage::Press { x: 1, y: 1 }));
    assert_eq!(iter.next(), Some(CanvasMessage::Release { x: 1, y: 1 }));
}
