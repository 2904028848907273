use std::sync::Arc;

use svt::app::{generate_kgp_id, wrap_index, App, CacheKey, Command, RenderedImage};
use svt::config::Config;
use svt::fit::{FitMode, ViewMode};
use svt::geometry::Rect;
use svt::lru::LruCache;
use svt::sender::{StatusIndicator, WriterRequest, WriterResult, WriterResultKind};
use svt::worker::ImageResult;

fn create_test_app(image_count: usize) -> App {
    let images: Vec<String> = (0..image_count).map(|i| format!("test{}.png", i)).collect();
    let mut app = App::new(images, Config::default(), false, (8, 16), 4242, String::new());
    app.render_cache = LruCache::new(5);
    app
}

fn rendered(actual: (u32, u32)) -> RenderedImage {
    RenderedImage {
        original_size: (100, 100),
        actual_size: actual,
        encoded_chunks: Arc::new(vec![b"x".to_vec()]),
    }
}

fn result_for(path: &str, target: (u32, u32), actual: (u32, u32)) -> ImageResult {
    ImageResult {
        path: path.to_string(),
        target,
        fit_mode: FitMode::Normal,
        original_size: (640, 480),
        actual_size: actual,
        encoded_chunks: Arc::new(vec![b"chunk".to_vec()]),
    }
}

#[test]
fn test_move_by_positive() {
    let mut app = create_test_app(3);
    assert_eq!(app.current_index, 0);
    app.move_by(1);
    assert_eq!(app.current_index, 1);
}

#[test]
fn test_move_by_wraps_forward() {
    let mut app = create_test_app(3);
    app.current_index = 2;
    app.move_by(1);
    assert_eq!(app.current_index, 0);
}

#[test]
fn test_move_by_negative() {
    let mut app = create_test_app(3);
    app.current_index = 1;
    app.move_by(-1);
    assert_eq!(app.current_index, 0);
}

#[test]
fn test_move_by_wraps_backward() {
    let mut app = create_test_app(3);
    app.current_index = 0;
    app.move_by(-1);
    assert_eq!(app.current_index, 2);
}

#[test]
fn test_status_text() {
    let app = create_test_app(3);
    let terminal = Rect::new(0, 0, 80, 24);
    let status = app.status_text(terminal);
    assert!(status.contains("1/3"));
    assert!(status.contains("test0.png"));
}

#[test]
fn test_go_to_index_with_tile() {
    let mut app = create_test_app(3);
    app.current_index = 1;
    app.go_to_index_with_tile(0);
    assert_eq!(app.current_index, 0);
    assert_eq!(app.tile_cursor, 0);
    app.go_to_index_with_tile(2);
    assert_eq!(app.current_index, 2);
    assert_eq!(app.tile_cursor, 2);
}

#[test]
fn test_go_to_index_with_tile_clamps() {
    let mut app = create_test_app(3);
    app.go_to_index_with_tile(1);
    assert_eq!(app.current_index, 1);
    assert_eq!(app.tile_cursor, 1);
    app.go_to_index_with_tile(999);
    assert_eq!(app.current_index, 2);
    assert_eq!(app.tile_cursor, 2);
}

#[test]
fn test_toggle_fit_mode_cycles() {
    let mut app = create_test_app(1);
    assert_eq!(app.fit_mode, FitMode::Normal);
    app.toggle_fit_mode();
    assert_eq!(app.fit_mode, FitMode::Fit);
    app.toggle_fit_mode();
    assert_eq!(app.fit_mode, FitMode::Normal);
}

#[test]
fn test_reload_clears_cache() {
    let mut app = create_test_app(2);
    let key = CacheKey { path: "x.png".to_string(), target: (1, 1), fit_mode: FitMode::Normal };
    app.render_cache.insert(
        key,
        RenderedImage {
            original_size: (100, 100),
            actual_size: (1, 1),
            encoded_chunks: Arc::new(vec![b"x".to_vec()]),
        },
    );
    app.pending_request =
        Some(CacheKey { path: "y.png".to_string(), target: (1, 1), fit_mode: FitMode::Normal });
    app.in_flight_transmit = true;

    app.reload();
    assert!(app.render_cache.is_empty());
    assert!(app.pending_request.is_none());
    assert!(!app.in_flight_transmit);
}

#[test]
fn move_by_goes_round_three_images() {
    let mut app = create_test_app(3);
    app.move_by(1);
    assert_eq!(app.current_index, 1);
    app.move_by(1);
    assert_eq!(app.current_index, 2);
    app.move_by(1);
    assert_eq!(app.current_index, 0);
}

#[test]
fn move_by_is_modular_for_large_steps() {
    let mut app = create_test_app(7);
    app.current_index = 3;
    app.move_by(-23);
    assert_eq!(app.current_index, 1);
    app.move_by(i32::MAX);
    assert_eq!(app.current_index, ((1i64 + i32::MAX as i64) % 7) as usize);
    app.move_by(i32::MIN);
    let expected = (((1i64 + i32::MAX as i64) % 7) + i32::MIN as i64).rem_euclid(7);
    assert_eq!(app.current_index, expected as usize);
}

#[test]
fn move_by_composes() {
    let mut one = create_test_app(5);
    let mut two = create_test_app(5);
    one.move_by(3);
    one.move_by(-9);
    two.move_by(-6);
    assert_eq!(one.current_index, two.current_index);
}

#[test]
fn move_by_on_empty_list_does_nothing() {
    let mut app = create_test_app(0);
    app.move_by(5);
    assert_eq!(app.current_index, 0);
    assert_eq!(app.prefetch_worker.epoch, 0);
}

#[test]
fn wrap_index_exact_values() {
    assert_eq!(wrap_index(0, -1, 3), 2);
    assert_eq!(wrap_index(2, 1, 3), 0);
    assert_eq!(wrap_index(10, -4, 4), 2);
    assert_eq!(wrap_index(0, i32::MIN, 1), 0);
}

#[test]
fn kgp_id_has_usable_octets() {
    for pid in [0u32, 1, 2, 4242, 65535, u32::MAX] {
        let id = generate_kgp_id(pid);
        assert!((id >> 16) & 0xff >= 16);
        assert!((id >> 8) & 0xff >= 16);
        assert!(id & 0xff >= 16);
    }
    let first = 1u32.wrapping_mul(0x9E37_79B1).rotate_left(8);
    if (first >> 16) & 0xff >= 16 && (first >> 8) & 0xff >= 16 && first & 0xff >= 16 {
        assert_eq!(generate_kgp_id(1), first);
    }
}

#[test]
fn new_app_asks_for_a_clean_terminal() {
    let mut app = create_test_app(1);
    let commands = app.take_commands();
    assert_eq!(commands.len(), 1);
    assert!(matches!(
        commands[0],
        Command::Writer(WriterRequest::ClearAll { area: None, is_tmux: false })
    ));
    assert!(app.take_commands().is_empty());
}

#[test]
fn toggle_view_mode_carries_selection() {
    let mut app = create_test_app(10);
    app.current_index = 4;
    app.toggle_view_mode();
    assert_eq!(app.view_mode, ViewMode::Tile);
    assert_eq!(app.tile_cursor, 4);
    app.tile_cursor = 7;
    app.toggle_view_mode();
    assert_eq!(app.view_mode, ViewMode::Single);
    assert_eq!(app.current_index, 7);
}

#[test]
fn tile_cursor_reports_page_change() {
    let mut app = create_test_app(20);
    app.view_mode = ViewMode::Tile;
    assert!(!app.move_tile_cursor(1, (2, 2)));
    assert_eq!(app.tile_cursor, 1);
    assert_eq!(app.prev_tile_cursor, Some(0));
    assert!(app.move_tile_cursor(3, (2, 2)));
    assert_eq!(app.tile_cursor, 4);
    assert!(app.move_tile_cursor_row(1, (2, 2)) == false);
    assert_eq!(app.tile_cursor, 6);
    assert!(app.move_tile_cursor(-7, (2, 2)));
    assert_eq!(app.tile_cursor, 19);
    assert!(!app.move_tile_cursor(1, (0, 2)));
}

#[test]
fn tile_page_moves_stay_in_bounds() {
    let mut app = create_test_app(10);
    app.view_mode = ViewMode::Tile;
    app.tile_cursor = 5;
    app.move_tile_page(1, (2, 2));
    assert_eq!(app.tile_cursor, 8);
    app.move_tile_page(5, (2, 2));
    assert_eq!(app.tile_cursor, 8);
    app.move_tile_page(-9, (2, 2));
    assert_eq!(app.tile_cursor, 0);
    app.move_tile_page(-1, (2, 2));
    assert_eq!(app.tile_cursor, 0);
}

#[test]
fn select_tile_switches_to_single() {
    let mut app = create_test_app(4);
    app.view_mode = ViewMode::Tile;
    app.tile_cursor = 9;
    app.select_tile();
    assert_eq!(app.current_index, 3);
    assert_eq!(app.view_mode, ViewMode::Single);
}

#[test]
fn cancel_advances_epoch_and_keeps_area() {
    let mut app = create_test_app(2);
    let _ = app.take_commands();
    app.pending_display = Some(Rect::new(1, 2, 3, 4));
    app.kgp_state.set_last(Rect::new(0, 0, 5, 5), 7);
    app.in_flight_transmit = true;
    app.cancel_image_output();
    assert_eq!(app.render_epoch, 1);
    assert!(app.clear_after_nav);
    assert!(!app.in_flight_transmit);
    assert_eq!(app.pending_display, None);
    assert_eq!(app.kgp_state.last_area(), Some(Rect::new(0, 0, 5, 5)));
    assert_eq!(app.kgp_state.last_kgp_id(), None);
    let commands = app.take_commands();
    assert_eq!(commands.len(), 1);
    match &commands[0] {
        Command::Writer(WriterRequest::CancelImage { area, epoch }) => {
            assert_eq!(*area, Some(Rect::new(1, 2, 3, 4)));
            assert_eq!(*epoch, 1);
        }
        _ => panic!("expected a cancel request"),
    }
}

#[test]
fn render_miss_requests_once_then_hit_transmits_once() {
    let mut app = create_test_app(3);
    let _ = app.take_commands();
    let terminal = Rect::new(0, 0, 80, 24);

    app.prepare_render_request(terminal, false);
    assert!(app.take_commands().is_empty());

    app.prepare_render_request(terminal, true);
    let commands = app.take_commands();
    assert_eq!(commands.len(), 1);
    let target = match &commands[0] {
        Command::Worker(req) => {
            assert_eq!(req.path, "test0.png");
            assert_eq!(req.view_mode, ViewMode::Single);
            assert_eq!(req.compress_level, Some(6));
            assert_eq!(req.tmux_kitty_max_pixels, 1_500_000);
            req.target
        }
        _ => panic!("expected a processor request"),
    };
    assert_eq!(target, (80 * 8, 23 * 16));
    assert_eq!(app.status_indicator(terminal, true), StatusIndicator::Busy);

    app.prepare_render_request(terminal, true);
    assert!(app.take_commands().is_empty());

    app.poll_worker(vec![result_for("test0.png", target, (320, 160))], Vec::new());
    assert!(app.pending_request.is_none());
    assert_eq!(app.render_cache.len(), 1);

    app.prepare_render_request(terminal, true);
    let commands = app.take_commands();
    assert_eq!(commands.len(), 1);
    let (area, epoch) = match &commands[0] {
        Command::Writer(WriterRequest::ImageTransmit { area, kgp_id, old_area, epoch, .. }) => {
            assert_eq!(*kgp_id, app.kgp_id);
            assert_eq!(*old_area, None);
            (*area, *epoch)
        }
        _ => panic!("expected a transmit request"),
    };
    // 320 x 160 pixels are 40 x 10 cells, centred in 80 x 23 cells.
    assert_eq!(area, Rect::new(20, 6, 40, 10));
    assert!(app.is_transmitting());
    assert_eq!(app.pending_display, Some(area));

    app.prepare_render_request(terminal, true);
    assert!(app.take_commands().is_empty());

    // A completion of another epoch changes nothing.
    app.poll_writer(vec![WriterResult {
        kind: WriterResultKind::TransmitDone { kgp_id: app.kgp_id },
        epoch: epoch + 1,
    }]);
    assert!(app.is_transmitting());
    assert_eq!(app.kgp_state.last_area(), None);

    app.poll_writer(vec![WriterResult {
        kind: WriterResultKind::TransmitDone { kgp_id: app.kgp_id },
        epoch,
    }]);
    assert!(!app.is_transmitting());
    assert_eq!(app.kgp_state.last_area(), Some(area));
    assert_eq!(app.kgp_state.last_kgp_id(), Some(app.kgp_id));
    assert_eq!(app.status_indicator(terminal, true), StatusIndicator::Ready);
    assert_eq!(app.status_indicator(terminal, false), StatusIndicator::Busy);

    app.prepare_render_request(terminal, true);
    assert!(app.take_commands().is_empty());
}

#[test]
fn render_cache_evicts_least_recently_used() {
    let mut app = create_test_app(1);
    app.render_cache = LruCache::new(2);
    let key = |name: &str| CacheKey {
        path: name.to_string(),
        target: (1, 1),
        fit_mode: FitMode::Normal,
    };
    app.poll_worker(
        vec![
            result_for("A", (1, 1), (1, 1)),
            result_for("B", (1, 1), (1, 1)),
            result_for("C", (1, 1), (1, 1)),
        ],
        Vec::new(),
    );
    assert!(!app.render_cache.contains_key(&key("A")));
    assert!(app.render_cache.contains_key(&key("B")));
    assert!(app.render_cache.contains_key(&key("C")));
    assert!(app.render_cache.touch(&key("B")));
    app.poll_worker(vec![result_for("D", (1, 1), (1, 1))], Vec::new());
    assert!(app.render_cache.contains_key(&key("B")));
    assert!(app.render_cache.contains_key(&key("D")));
    assert!(!app.render_cache.contains_key(&key("C")));
    assert_eq!(app.render_cache.len(), 2);
}

#[test]
fn stale_prefetch_results_are_dropped() {
    let mut app = create_test_app(3);
    app.move_by(1);
    assert_eq!(app.prefetch_worker.current_epoch(), 1);
    app.poll_worker(Vec::new(), vec![(0, result_for("old", (1, 1), (1, 1)))]);
    assert!(app.render_cache.is_empty());
    app.poll_worker(Vec::new(), vec![(1, result_for("new", (1, 1), (1, 1)))]);
    assert_eq!(app.render_cache.len(), 1);
    let before = rendered((1, 1)).actual_size;
    app.poll_worker(Vec::new(), vec![(1, result_for("new", (1, 1), (9, 9)))]);
    let key = CacheKey { path: "new".to_string(), target: (1, 1), fit_mode: FitMode::Normal };
    assert_eq!(app.render_cache.peek(&key).map(|r| r.actual_size), Some(before));
}

#[test]
fn prefetch_single_alternates_and_skips_cached() {
    let mut app = create_test_app(5);
    let _ = app.take_commands();
    let terminal = Rect::new(0, 0, 80, 24);
    app.config.prefetch_count = 2;
    app.poll_worker(vec![result_for("test1.png", (640, 368), (10, 10))], Vec::new());
    app.prefetch_adjacent(terminal);
    let commands = app.take_commands();
    assert_eq!(commands.len(), 1);
    match &commands[0] {
        Command::Prefetch(req) => {
            assert_eq!(req.paths, vec!["test4.png", "test2.png", "test3.png"]);
            assert_eq!(req.target, (640, 368));
            assert_eq!(req.epoch, 0);
        }
        _ => panic!("expected a prefetch batch"),
    }
    app.prefetch_adjacent(terminal);
    assert!(app.take_commands().is_empty());
}

#[test]
fn prefetch_waits_for_pending_request() {
    let mut app = create_test_app(5);
    let _ = app.take_commands();
    let terminal = Rect::new(0, 0, 80, 24);
    app.prepare_render_request(terminal, true);
    let _ = app.take_commands();
    app.prefetch_adjacent(terminal);
    assert!(app.take_commands().is_empty());
}

#[test]
fn prefetch_tile_asks_for_next_page() {
    let mut app = create_test_app(30);
    let _ = app.take_commands();
    app.view_mode = ViewMode::Tile;
    let terminal = Rect::new(0, 0, 80, 24);
    app.prefetch_adjacent(terminal);
    let commands = app.take_commands();
    assert_eq!(commands.len(), 1);
    match &commands[0] {
        Command::Worker(req) => {
            // 80 columns give 5 tiles across, 23 rows give 2 down.
            assert_eq!(req.tile_grid, Some((5, 2)));
            assert_eq!(req.path, "__tile_page_10");
            assert_eq!(req.view_mode, ViewMode::Tile);
            assert_eq!(req.tile_paths.as_ref().map(|p| p.len()), Some(10));
            assert_eq!(req.tile_paths.as_ref().map(|p| p[0].clone()), Some("test10.png".to_string()));
            assert_eq!(req.cell_size, Some((8, 16)));
        }
        _ => panic!("expected a processor request"),
    }
    assert!(app.pending_request.is_none());
}

#[test]
fn tile_status_text_names_page_range() {
    let mut app = create_test_app(30);
    app.view_mode = ViewMode::Tile;
    app.tile_cursor = 12;
    let status = app.status_text(Rect::new(0, 0, 80, 24));
    assert!(status.starts_with("[11-20/30] "));
    assert!(status.ends_with(" test12.png"));
}

#[test]
fn status_text_shows_resolution_and_debug() {
    let mut app = create_test_app(2);
    app.poll_worker(vec![result_for("test0.png", (1, 1), (1, 1))], Vec::new());
    assert_eq!(
        app.status_text(Rect::new(0, 0, 80, 24)),
        "1/2 \u{e0b1} \u{e60d} test0.png [640x480]"
    );
    app.config.debug = true;
    app.is_tmux = true;
    app.capabilities = "Kitty".to_string();
    assert_eq!(
        app.status_text(Rect::new(0, 0, 80, 24)),
        "1/2 \u{e0b1} \u{e60d} test0.png [640x480] tmux caps:Kitty cell:(8, 16)"
    );
    assert_eq!(app.current_image_name(), "test0.png");
}

#[test]
fn copy_path_sends_bytes_of_path() {
    let mut app = create_test_app(1);
    let _ = app.take_commands();
    assert!(app.copy_path_to_clipboard());
    match &app.take_commands()[0] {
        Command::Writer(WriterRequest::CopyToClipboard { data, is_tmux }) => {
            assert_eq!(data, b"test0.png");
            assert!(!*is_tmux);
        }
        _ => panic!("expected a clipboard request"),
    }
    let mut empty = create_test_app(0);
    assert!(!empty.copy_path_to_clipboard());
}

#[test]
fn handle_resize_clears_placed_image() {
    let mut app = create_test_app(1);
    let _ = app.take_commands();
    app.handle_resize();
    let commands = app.take_commands();
    assert_eq!(commands.len(), 1);
    assert!(matches!(commands[0], Command::Writer(WriterRequest::CancelImage { area: None, epoch: 1 })));
    app.kgp_state.set_last(Rect::new(1, 1, 2, 2), 5);
    app.pending_request =
        Some(CacheKey { path: "y.png".to_string(), target: (1, 1), fit_mode: FitMode::Normal });
    app.handle_resize();
    let commands = app.take_commands();
    assert_eq!(commands.len(), 2);
    match &commands[0] {
        Command::Writer(WriterRequest::ClearAll { area, .. }) => {
            assert_eq!(*area, Some(Rect::new(1, 1, 2, 2)));
        }
        _ => panic!("expected a clear request"),
    }
    assert!(matches!(commands[1], Command::Writer(WriterRequest::CancelImage { area: None, epoch: 2 })));
    assert_eq!(app.kgp_state.last_area(), None);
    assert_eq!(app.render_epoch, 2);
    assert!(app.pending_request.is_none());
    assert!(app.render_cache.is_empty());
}
