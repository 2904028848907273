use svt::app::{App, Command};
use svt::config::Config;
use svt::fit::{FitMode, ViewMode};
use svt::geometry::Rect;
use svt::layout::{calculate_tile_grid, image_area, tile_grid_for};
use svt::sender::{StatusIndicator, WriterRequest};
use svt::session::{key_action, Action, InputEvent, Key, Session};

fn app_with(images: usize) -> App {
    let names: Vec<String> = (0..images).map(|i| format!("img{}.png", i)).collect();
    let mut app = App::new(names, Config::default(), false, (8, 16), 1, String::new());
    let _ = app.take_commands();
    app
}

fn press(session: &mut Session, app: &mut App, key: Key, now: u64) -> bool {
    session.on_event(app, InputEvent::Press(key), Rect::new(0, 0, 80, 24), now).stop_draining
}

#[test]
fn image_area_leaves_status_row() {
    assert_eq!(image_area(Rect::new(0, 0, 80, 24)), Rect::new(0, 0, 80, 23));
    assert_eq!(image_area(Rect::new(5, 7, 120, 2)), Rect::new(0, 0, 120, 1));
    assert_eq!(image_area(Rect::new(0, 0, 80, 0)).height, 0);
}

#[test]
fn tile_grid_is_clamped() {
    assert_eq!(calculate_tile_grid(Rect::new(0, 0, 80, 24), 2_000), (5, 2));
    assert_eq!(calculate_tile_grid(Rect::new(0, 0, 200, 100), 2_000), (6, 6));
    assert_eq!(calculate_tile_grid(Rect::new(0, 0, 10, 3), 2_000), (2, 2));
    // A ratio of 1.0 needs 16 rows per tile, a ratio of 4.0 needs 4.
    assert_eq!(tile_grid_for(Rect::new(0, 0, 64, 48), 1_000), (4, 3));
    assert_eq!(tile_grid_for(Rect::new(0, 0, 64, 20), 4_000), (4, 5));
    // 16 / 2.5 is 6.4, rounded to 6; 16 / 3.2 is 5; 16 / 2.9 rounds to 6.
    assert_eq!(tile_grid_for(Rect::new(0, 0, 64, 18), 2_500), (4, 3));
    assert_eq!(tile_grid_for(Rect::new(0, 0, 64, 20), 3_200), (4, 4));
    assert_eq!(tile_grid_for(Rect::new(0, 0, 64, 17), 2_900), (4, 2));
    assert_eq!(tile_grid_for(Rect::new(0, 0, 64, 200), 0), (4, 2));
}

#[test]
fn key_bindings() {
    assert_eq!(key_action(Key::Char('q')), Action::Quit);
    assert_eq!(key_action(Key::Char('j')), Action::Vertical { forward: true });
    assert_eq!(key_action(Key::Char(' ')), Action::Vertical { forward: true });
    assert_eq!(key_action(Key::Char('k')), Action::Vertical { forward: false });
    assert_eq!(key_action(Key::Backspace), Action::Vertical { forward: false });
    assert_eq!(key_action(Key::Char('h')), Action::Horizontal { forward: false });
    assert_eq!(key_action(Key::Char('l')), Action::Horizontal { forward: true });
    assert_eq!(key_action(Key::Char('H')), Action::Page { forward: false });
    assert_eq!(key_action(Key::Char('K')), Action::Page { forward: false });
    assert_eq!(key_action(Key::Char('J')), Action::Page { forward: true });
    assert_eq!(key_action(Key::Char('L')), Action::Page { forward: true });
    assert_eq!(key_action(Key::Enter), Action::Select);
    assert_eq!(key_action(Key::Char('g')), Action::First);
    assert_eq!(key_action(Key::Char('G')), Action::Last);
    assert_eq!(key_action(Key::Char('f')), Action::ToggleFit);
    assert_eq!(key_action(Key::Char('r')), Action::Reload);
    assert_eq!(key_action(Key::Char('t')), Action::ToggleView);
    assert_eq!(key_action(Key::Char('y')), Action::CopyPath);
    assert_eq!(key_action(Key::Char('Y')), Action::CopyImage);
    assert_eq!(key_action(Key::Char('x')), Action::Nothing);
    assert_eq!(key_action(Key::Other), Action::Nothing);
}

#[test]
fn count_prefix_multiplies_navigation() {
    let mut app = app_with(50);
    let mut session = Session::new();
    assert!(!press(&mut session, &mut app, Key::Char('0'), 0));
    assert_eq!(session.count, 0);
    assert!(!press(&mut session, &mut app, Key::Char('1'), 0));
    assert!(!press(&mut session, &mut app, Key::Char('0'), 0));
    assert_eq!(session.count, 10);
    assert!(press(&mut session, &mut app, Key::Char('j'), 1_000));
    assert_eq!(app.current_index, 10);
    assert_eq!(session.count, 0);
    assert_eq!(session.nav_until, 1_150);
    assert!(press(&mut session, &mut app, Key::Char('k'), 1_000));
    assert_eq!(app.current_index, 9);
    for _ in 0..12 {
        let _ = press(&mut session, &mut app, Key::Char('9'), 0);
    }
    assert_eq!(session.count, u32::MAX);
    assert!(press(&mut session, &mut app, Key::Char('l'), 0));
    assert_eq!(app.current_index, ((9u64 + i32::MAX as u64) % 50) as usize);
}

#[test]
fn go_to_first_last_and_counted() {
    let mut app = app_with(10);
    let mut session = Session::new();
    assert!(press(&mut session, &mut app, Key::Char('G'), 0));
    assert_eq!(app.current_index, 9);
    assert!(press(&mut session, &mut app, Key::Char('g'), 0));
    assert_eq!(app.current_index, 0);
    let _ = press(&mut session, &mut app, Key::Char('4'), 0);
    assert!(press(&mut session, &mut app, Key::Char('g'), 0));
    assert_eq!(app.current_index, 3);
    let _ = press(&mut session, &mut app, Key::Char('7'), 0);
    assert!(press(&mut session, &mut app, Key::Char('G'), 0));
    assert_eq!((app.current_index, app.tile_cursor), (6, 6));
    let _ = press(&mut session, &mut app, Key::Char('5'), 0);
    assert!(!press(&mut session, &mut app, Key::Char('x'), 0));
    assert_eq!(session.count, 0);
}

#[test]
fn navigation_cancels_unless_transmitting() {
    let mut app = app_with(3);
    let mut session = Session::new();
    assert!(press(&mut session, &mut app, Key::Char('j'), 10));
    assert_eq!(app.render_epoch, 1);
    let commands = app.take_commands();
    assert!(matches!(commands[0], Command::Writer(WriterRequest::CancelImage { epoch: 1, .. })));
    app.in_flight_transmit = true;
    assert!(press(&mut session, &mut app, Key::Char('j'), 20));
    assert_eq!(app.render_epoch, 1);
    assert!(app.take_commands().is_empty());
    assert!(app.in_flight_transmit);
}

#[test]
fn tile_keys_move_cursor_and_pages() {
    let mut app = app_with(40);
    let mut session = Session::new();
    assert!(press(&mut session, &mut app, Key::Char('t'), 0));
    assert_eq!(app.view_mode, ViewMode::Tile);
    let _ = app.take_commands();
    // The grid is 5 x 2 on an 80 x 24 terminal.
    assert!(!press(&mut session, &mut app, Key::Char('l'), 0));
    assert_eq!(app.tile_cursor, 1);
    match &app.take_commands()[0] {
        Command::Writer(WriterRequest::TileCursor { grid, cursor_idx, prev_cursor_idx, image_area, cell_size }) => {
            assert_eq!(*grid, (5, 2));
            assert_eq!(*cursor_idx, 1);
            assert_eq!(*prev_cursor_idx, Some(0));
            assert_eq!(*image_area, Rect::new(0, 0, 80, 23));
            assert_eq!(*cell_size, (8, 16));
        }
        _ => panic!("expected a tile cursor request"),
    }
    assert!(!press(&mut session, &mut app, Key::Char('j'), 0));
    assert_eq!(app.tile_cursor, 6);
    assert!(press(&mut session, &mut app, Key::Char('j'), 0));
    assert_eq!(app.tile_cursor, 11);
    assert!(press(&mut session, &mut app, Key::Char('L'), 0));
    assert_eq!(app.tile_cursor, 20);
    assert!(press(&mut session, &mut app, Key::Char('H'), 0));
    assert_eq!(app.tile_cursor, 10);
    assert!(press(&mut session, &mut app, Key::Char('h'), 0));
    assert_eq!(app.tile_cursor, 9);
    assert!(press(&mut session, &mut app, Key::Enter, 0));
    assert_eq!((app.view_mode, app.current_index), (ViewMode::Single, 9));
    assert!(!press(&mut session, &mut app, Key::Enter, 0));
    assert!(press(&mut session, &mut app, Key::Char('f'), 0));
    assert_eq!(app.fit_mode, FitMode::Fit);
    assert!(press(&mut session, &mut app, Key::Char('r'), 0));
    assert!(!press(&mut session, &mut app, Key::Char('q'), 0));
    assert!(app.should_quit);
}

#[test]
fn latch_holds_rendering_back() {
    let mut app = app_with(3);
    let mut session = Session::new();
    let terminal = Rect::new(0, 0, 80, 24);
    assert!(press(&mut session, &mut app, Key::Char('j'), 1_000));
    let _ = app.take_commands();

    let tick = session.end_tick(&mut app, terminal, 1_100);
    assert!(!tick.quit);
    assert_eq!(tick.wait_ms, 1);
    let commands = app.take_commands();
    assert_eq!(commands.len(), 1);
    match &commands[0] {
        Command::Writer(WriterRequest::Status { text, size, indicator }) => {
            assert!(text.starts_with("2/3 "));
            assert_eq!(*size, (80, 24));
            assert_eq!(*indicator, StatusIndicator::Busy);
        }
        _ => panic!("expected a status update"),
    }
    let tick = session.end_tick(&mut app, terminal, 1_149);
    assert_eq!(tick.wait_ms, 1);
    assert!(app.take_commands().is_empty());

    let tick = session.end_tick(&mut app, terminal, 1_150);
    assert_eq!(tick.wait_ms, 16);
    let commands = app.take_commands();
    assert_eq!(commands.len(), 1);
    assert!(matches!(commands[0], Command::Worker(_)));
}

#[test]
fn resize_clears_screen_and_forces_status() {
    let mut app = app_with(3);
    let mut session = Session::new();
    let terminal = Rect::new(0, 0, 80, 24);
    let _ = session.end_tick(&mut app, terminal, 0);
    let _ = app.take_commands();
    let outcome = session.on_event(&mut app, InputEvent::Resize(100, 30), terminal, 5);
    assert!(outcome.clear_screen);
    assert!(!outcome.stop_draining);
    assert_eq!(session.last_size, (100, 30));
    assert_eq!(session.last_status, "");
    assert!(app.pending_request.is_none());
    let other = session.on_event(&mut app, InputEvent::Other, terminal, 5);
    assert!(!other.clear_screen && !other.stop_draining && !other.copy_image);
}

#[test]
fn clipboard_messages_own_the_status_row_for_a_while() {
    let mut app = app_with(1);
    let mut session = Session::new();
    let terminal = Rect::new(0, 0, 80, 24);
    let _ = session.end_tick(&mut app, terminal, 0);
    let _ = app.take_commands();

    assert!(!press(&mut session, &mut app, Key::Char('y'), 100));
    assert_eq!(session.temp_status_until, Some(1_600));
    let commands = app.take_commands();
    assert_eq!(commands.len(), 2);
    assert!(matches!(commands[0], Command::Writer(WriterRequest::CopyToClipboard { .. })));
    match &commands[1] {
        Command::Writer(WriterRequest::Status { text, indicator, .. }) => {
            assert_eq!(text, "Copied path to clipboard");
            assert_eq!(*indicator, StatusIndicator::Ready);
        }
        _ => panic!("expected a status update"),
    }
    app.poll_worker(Vec::new(), Vec::new());
    app.move_by(0);
    let _ = session.end_tick(&mut app, terminal, 1_599);
    assert!(app.take_commands().iter().all(|c| !matches!(c, Command::Writer(WriterRequest::Status { .. }))));
    let _ = session.end_tick(&mut app, terminal, 1_600);
    assert!(app.take_commands().iter().any(|c| matches!(c, Command::Writer(WriterRequest::Status { .. }))));
    assert_eq!(session.temp_status_until, None);

    let outcome = session.on_event(&mut app, InputEvent::Press(Key::Char('Y')), terminal, 2_000);
    assert!(outcome.copy_image);
    session.image_copied(&mut app, false, terminal, 2_000);
    assert_eq!(session.temp_status_until, Some(3_500));
    match &app.take_commands()[0] {
        Command::Writer(WriterRequest::Status { text, indicator, .. }) => {
            assert_eq!(text, "Failed to copy image");
            assert_eq!(*indicator, StatusIndicator::Busy);
        }
        _ => panic!("expected a status update"),
    }
    let mut empty = app_with(0);
    assert!(!press(&mut session, &mut empty, Key::Char('y'), 0));
    match &empty.take_commands()[0] {
        Command::Writer(WriterRequest::Status { text, .. }) => assert_eq!(text, "Failed to copy path"),
        _ => panic!("expected a status update"),
    }
}

#[test]
fn quit_removes_placed_image() {
    let mut app = app_with(1);
    let mut session = Session::new();
    app.kgp_state.set_last(Rect::new(0, 0, 4, 4), 1);
    let _ = press(&mut session, &mut app, Key::Char('q'), 0);
    let tick = session.end_tick(&mut app, Rect::new(0, 0, 80, 24), 0);
    assert!(tick.quit);
    let commands = app.take_commands();
    assert_eq!(commands.len(), 1);
    assert!(matches!(commands[0], Command::Writer(WriterRequest::ClearAll { area: Some(_), .. })));
}

#[test]
fn tile_cursor_is_drawn_after_transmit_completes() {
    let mut app = app_with(20);
    let mut session = Session::new();
    let terminal = Rect::new(0, 0, 80, 24);
    app.view_mode = ViewMode::Tile;
    app.in_flight_transmit = true;
    session.begin_tick(&mut app, Vec::new(), Vec::new(), Vec::new(), terminal);
    assert!(session.was_transmitting);
    assert!(app.take_commands().is_empty());
    app.pending_display = Some(Rect::new(0, 0, 80, 23));
    let done = svt::sender::WriterResult {
        kind: svt::sender::WriterResultKind::TransmitDone { kgp_id: app.kgp_id },
        epoch: app.render_epoch,
    };
    session.begin_tick(&mut app, Vec::new(), Vec::new(), vec![done], terminal);
    let commands = app.take_commands();
    assert_eq!(commands.len(), 1);
    assert!(matches!(commands[0], Command::Writer(WriterRequest::TileCursor { .. })));
    assert!(session.was_transmitting);
    // The iteration after the completion still counts as one that followed
    // a transmission, and draws the cursor once more.
    session.begin_tick(&mut app, Vec::new(), Vec::new(), Vec::new(), terminal);
    assert!(!session.was_transmitting);
    assert_eq!(app.take_commands().len(), 1);
    session.begin_tick(&mut app, Vec::new(), Vec::new(), Vec::new(), terminal);
    assert!(app.take_commands().is_empty());
}
