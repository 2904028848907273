//! The input loop's decisions: what a key does, when rendering is held
//! back after navigation, and when the status row is redrawn.

use vstd::prelude::*;
use crate::app::{App, AppModel, CommandModel};
use crate::fit::ViewMode;
use crate::geometry::Rect;
use crate::layout::{grid_for, image_area, image_area_of, tile_grid_for};
use crate::sender::{RequestModel, StatusIndicator, WriterResult};
use crate::worker::ImageResult;

verus! {

/// How long a message about the clipboard stays in the status row.
pub const TEMP_STATUS_MS: u64 = 1500;

/// How long the loop waits for input while the user navigates, and when
/// things have settled.
pub const NAVIGATING_TICK_MS: u64 = 1;

pub const SETTLED_TICK_MS: u64 = 16;

/// A key press.
#[derive(Clone, Copy, Debug, PartialEq, Eq, Structural)]
pub enum Key {
    Char(char),
    Backspace,
    Enter,
    Other,
}

/// An input event.
#[derive(Clone, Copy, Debug, PartialEq, Eq, Structural)]
pub enum InputEvent {
    Resize(u16, u16),
    Press(Key),
    Other,
}

/// What a key asks for.
#[derive(Clone, Copy, Debug, PartialEq, Eq, Structural)]
pub enum Action {
    Quit,
    /// Next or previous image; in the tile view a row down or up.
    Vertical { forward: bool },
    /// Next or previous image; in the tile view a tile right or left.
    Horizontal { forward: bool },
    /// Next or previous image; in the tile view a page on or back.
    Page { forward: bool },
    /// Show the tile under the cursor alone.
    Select,
    /// Go to the image the count names, else to the first.
    First,
    /// Go to the image the count names, else to the last.
    Last,
    ToggleFit,
    Reload,
    ToggleView,
    CopyPath,
    CopyImage,
    Nothing,
}

/// The key bindings.
pub open spec fn action_of(key: Key) -> Action {
    match key {
        Key::Char(c) => if c == 'q' {
            Action::Quit
        } else if c == 'j' || c == ' ' {
            Action::Vertical { forward: true }
        } else if c == 'k' {
            Action::Vertical { forward: false }
        } else if c == 'h' {
            Action::Horizontal { forward: false }
        } else if c == 'l' {
            Action::Horizontal { forward: true }
        } else if c == 'H' || c == 'K' {
            Action::Page { forward: false }
        } else if c == 'J' || c == 'L' {
            Action::Page { forward: true }
        } else if c == 'g' {
            Action::First
        } else if c == 'G' {
            Action::Last
        } else if c == 'f' {
            Action::ToggleFit
        } else if c == 'r' {
            Action::Reload
        } else if c == 't' {
            Action::ToggleView
        } else if c == 'y' {
            Action::CopyPath
        } else if c == 'Y' {
            Action::CopyImage
        } else {
            Action::Nothing
        },
        Key::Backspace => Action::Vertical { forward: false },
        Key::Enter => Action::Select,
        Key::Other => Action::Nothing,
    }
}

/// Look a key up in the key bindings.
pub fn key_action(key: Key) -> (action: Action)
    ensures
        action == action_of(key),
{
    match key {
        Key::Char(c) => if c == 'q' {
            Action::Quit
        } else if c == 'j' || c == ' ' {
            Action::Vertical { forward: true }
        } else if c == 'k' {
            Action::Vertical { forward: false }
        } else if c == 'h' {
            Action::Horizontal { forward: false }
        } else if c == 'l' {
            Action::Horizontal { forward: true }
        } else if c == 'H' || c == 'K' {
            Action::Page { forward: false }
        } else if c == 'J' || c == 'L' {
            Action::Page { forward: true }
        } else if c == 'g' {
            Action::First
        } else if c == 'G' {
            Action::Last
        } else if c == 'f' {
            Action::ToggleFit
        } else if c == 'r' {
            Action::Reload
        } else if c == 't' {
            Action::ToggleView
        } else if c == 'y' {
            Action::CopyPath
        } else if c == 'Y' {
            Action::CopyImage
        } else {
            Action::Nothing
        },
        Key::Backspace => Action::Vertical { forward: false },
        Key::Enter => Action::Select,
        Key::Other => Action::Nothing,
    }
}

/// The digit a key stands for, if it is one.
pub open spec fn digit_of(key: Key) -> Option<u32> {
    match key {
        Key::Char(c) => if '0' <= c <= '9' {
            Some((c as u32 - '0' as u32) as u32)
        } else {
            None
        },
        _ => None,
    }
}

/// The count after a digit: ten times the old count plus the digit, kept
/// at the largest value once it is reached.
pub open spec fn count_after(count: u32, digit: u32) -> u32 {
    if count * 10 + digit > u32::MAX {
        u32::MAX
    } else {
        (count * 10 + digit) as u32
    }
}

/// How many steps a count stands for: at least one, at most the largest
/// step.
pub open spec fn steps_of(count: u32) -> i32 {
    if count == 0 {
        1
    } else if count > i32::MAX {
        i32::MAX
    } else {
        count as i32
    }
}

/// What the loop keeps between iterations.
pub struct Session {
    /// Rendering is held back until this time, in milliseconds.
    pub nav_until: u64,
    /// The count typed before a command.
    pub count: u32,
    pub last_status: String,
    pub last_size: (u16, u16),
    pub last_indicator: StatusIndicator,
    /// While set, a message about the clipboard owns the status row.
    pub temp_status_until: Option<u64>,
    pub was_transmitting: bool,
}

/// The loop's state as a mathematical value.
pub struct SessionModel {
    pub nav_until: u64,
    pub count: u32,
    pub last_status: Seq<char>,
    pub last_size: (u16, u16),
    pub last_indicator: StatusIndicator,
    pub temp_status_until: Option<u64>,
    pub was_transmitting: bool,
}

impl View for Session {
    type V = SessionModel;

    open spec fn view(&self) -> SessionModel {
        SessionModel {
            nav_until: self.nav_until,
            count: self.count,
            last_status: self.last_status@,
            last_size: self.last_size,
            last_indicator: self.last_indicator,
            temp_status_until: self.temp_status_until,
            was_transmitting: self.was_transmitting,
        }
    }
}

/// What the caller has to do after an event.
#[derive(Clone, Copy, Debug, PartialEq, Eq, Structural)]
pub struct EventOutcome {
    /// The event was a navigation: leave further events for the next
    /// iteration, so that the status row follows each step.
    pub stop_draining: bool,
    /// The screen has to be cleared.
    pub clear_screen: bool,
    /// The selected image is to be copied to the clipboard; report back
    /// with `image_copied`.
    pub copy_image: bool,
}

/// What the caller has to do at the end of an iteration.
#[derive(Clone, Copy, Debug, PartialEq, Eq, Structural)]
pub struct Tick {
    pub quit: bool,
    /// How long to wait for input, in milliseconds.
    pub wait_ms: u64,
}

/// A time `ms` milliseconds after `now`, kept at the largest value.
pub open spec fn later(now: u64, ms: u64) -> u64 {
    if now + ms > u64::MAX {
        u64::MAX
    } else {
        (now + ms) as u64
    }
}

/// The orchestrator after an action of `n` steps (with `count` as typed),
/// and whether the action was a navigation.
pub open spec fn acted(
    app: AppModel,
    action: Action,
    n: i32,
    count: u32,
    image_area: Rect,
    grid: (usize, usize),
) -> (AppModel, bool) {
    let signed = |forward: bool| if forward { n } else { (-n) as i32 };
    match action {
        Action::Quit => (AppModel { should_quit: true, ..app }, false),
        Action::Vertical { forward } => match app.view_mode {
            ViewMode::Single => (app.move_by(signed(forward)), true),
            ViewMode::Tile => {
                let (moved, changed) = app.move_tile_cursor(
                    crate::app::row_step(signed(forward), grid.0),
                    grid,
                );
                if changed {
                    (moved, true)
                } else {
                    (moved.draw_tile_cursor(image_area, grid), false)
                }
            },
        },
        Action::Horizontal { forward } => match app.view_mode {
            ViewMode::Single => (app.move_by(signed(forward)), true),
            ViewMode::Tile => {
                let (moved, changed) = app.move_tile_cursor(signed(forward), grid);
                if changed {
                    (moved, true)
                } else {
                    (moved.draw_tile_cursor(image_area, grid), false)
                }
            },
        },
        Action::Page { forward } => match app.view_mode {
            ViewMode::Single => (app.move_by(signed(forward)), true),
            ViewMode::Tile => (app.move_tile_page(signed(forward), grid), true),
        },
        Action::Select => match app.view_mode {
            ViewMode::Single => (app, false),
            ViewMode::Tile => (app.select_tile(), true),
        },
        Action::First => (
            app.go_to_index_with_tile(if count > 0 { (count - 1) as usize } else { 0 }),
            true,
        ),
        Action::Last => (
            app.go_to_index_with_tile(
                if count > 0 {
                    (count - 1) as usize
                } else if app.images.len() == 0 {
                    0
                } else {
                    (app.images.len() - 1) as usize
                },
            ),
            true,
        ),
        Action::ToggleFit => (app.toggle_fit_mode(), true),
        Action::Reload => (app.reload(), true),
        Action::ToggleView => (app.toggle_view_mode(), true),
        Action::CopyPath => (app.copy_path_to_clipboard().0, false),
        Action::CopyImage => (app, false),
        Action::Nothing => (app, false),
    }
}

/// The status message after an attempt to copy to the clipboard.
pub open spec fn clipboard_status(
    app: AppModel,
    what_ok: Seq<char>,
    what_failed: Seq<char>,
    ok: bool,
    size: (u16, u16),
) -> AppModel {
    app.sent(
        CommandModel::Writer(
            RequestModel::Status {
                text: if ok { what_ok } else { what_failed },
                size,
                indicator: if ok { StatusIndicator::Ready } else { StatusIndicator::Busy },
            },
        ),
    )
}

/// Session and orchestrator after a key press, and what the caller has to
/// do. Digits build the count (a zero only continues one) and do nothing
/// else. Any other key is looked up in the key bindings and acts with the
/// count typed so far. After a navigation the image output is cancelled
/// unless a transmission is in flight, and rendering is held back for the
/// length of the latch.
pub open spec fn key_pressed(
    session: SessionModel,
    app: AppModel,
    key: Key,
    terminal_size: Rect,
    image_area: Rect,
    grid: (usize, usize),
    now: u64,
) -> (SessionModel, AppModel, EventOutcome) {
    let quiet = EventOutcome { stop_draining: false, clear_screen: false, copy_image: false };
    match digit_of(key) {
        Some(digit) if digit != 0 || session.count != 0 => (
            SessionModel { count: count_after(session.count, digit), ..session },
            app,
            quiet,
        ),
        _ => {
            let action = action_of(key);
            let (after, did_nav) = acted(
                app,
                action,
                steps_of(session.count),
                session.count,
                image_area,
                grid,
            );
            let size = (terminal_size.width, terminal_size.height);
            if did_nav {
                (
                    SessionModel {
                        nav_until: later(now, app.config.nav_latch_ms),
                        count: 0,
                        ..session
                    },
                    if after.in_flight_transmit { after } else { after.cancel_image_output() },
                    EventOutcome { stop_draining: true, ..quiet },
                )
            } else if action == Action::CopyPath {
                (
                    SessionModel {
                        count: 0,
                        temp_status_until: Some(later(now, TEMP_STATUS_MS)),
                        ..session
                    },
                    clipboard_status(
                        after,
                        "Copied path to clipboard"@,
                        "Failed to copy path"@,
                        app.current_path() is Some,
                        size,
                    ),
                    quiet,
                )
            } else {
                (
                    SessionModel { count: 0, ..session },
                    after,
                    EventOutcome { copy_image: action == Action::CopyImage, ..quiet },
                )
            }
        },
    }
}

/// Session and orchestrator after an event.
pub open spec fn event_handled(
    session: SessionModel,
    app: AppModel,
    event: InputEvent,
    terminal_size: Rect,
    image_area: Rect,
    grid: (usize, usize),
    now: u64,
) -> (SessionModel, AppModel, EventOutcome) {
    match event {
        InputEvent::Resize(w, h) => (
            SessionModel { last_size: (w, h), last_status: Seq::<char>::empty(), ..session },
            app.handle_resize(),
            EventOutcome { stop_draining: false, clear_screen: true, copy_image: false },
        ),
        InputEvent::Press(key) => key_pressed(
            session,
            app,
            key,
            terminal_size,
            image_area,
            grid,
            now,
        ),
        InputEvent::Other => (
            session,
            app,
            EventOutcome { stop_draining: false, clear_screen: false, copy_image: false },
        ),
    }
}

/// Session and orchestrator at the start of an iteration, after the
/// results that arrived were taken in: once a transmission has come to its
/// end in the tile view, the cursor is drawn over the fresh image.
pub open spec fn tick_begun(
    session: SessionModel,
    app: AppModel,
    results: Seq<ImageResult>,
    prefetched: Seq<(u64, ImageResult)>,
    completions: Seq<WriterResult>,
    image_area: Rect,
    grid: (usize, usize),
) -> (SessionModel, AppModel) {
    let polled = app.accept_results(results).accept_all_prefetched(prefetched);
    let settled = polled.accept_completions(completions);
    (
        SessionModel {
            was_transmitting: polled.in_flight_transmit || settled.in_flight_transmit,
            ..session
        },
        if session.was_transmitting && !settled.in_flight_transmit && settled.view_mode
            == ViewMode::Tile {
            settled.draw_tile_cursor(image_area, grid)
        } else {
            settled
        },
    )
}

/// Session and orchestrator at the end of an iteration. On quit the placed
/// image is removed and nothing else happens. Otherwise: a clipboard
/// message that has had its time gives the status row back; the status is
/// sent when text, size or indicator changed; what is shown is reconciled
/// with what should be shown; and once the view is displayed, its
/// neighbours are prefetched. While the latch holds, rendering and
/// prefetching are not allowed.
pub open spec fn tick_ended(
    session: SessionModel,
    app: AppModel,
    terminal_size: Rect,
    image_area: Rect,
    grid: (usize, usize),
    now: u64,
) -> (SessionModel, AppModel, Tick) {
    if app.should_quit {
        (session, app.clear_kgp_overlay(), Tick { quit: true, wait_ms: 0 })
    } else {
        let allow = now >= session.nav_until;
        let expired = session.temp_status_until matches Some(t) && now >= t;
        let s1 = if expired {
            SessionModel {
                temp_status_until: None,
                last_status: Seq::<char>::empty(),
                ..session
            }
        } else {
            session
        };
        let size = (terminal_size.width, terminal_size.height);
        let text = app.status_text(grid);
        let indicator = app.status_indicator(image_area, grid, allow);
        let draw = (text != s1.last_status || size != s1.last_size || indicator
            != s1.last_indicator) && s1.temp_status_until is None;
        let s2 = if draw {
            SessionModel { last_status: text, last_size: size, last_indicator: indicator, ..s1 }
        } else {
            s1
        };
        let a1 = if draw {
            app.sent(CommandModel::Writer(RequestModel::Status { text, size, indicator }))
        } else {
            app
        };
        let a2 = a1.prepare_render(image_area, grid, allow);
        let a3 = if allow && indicator != StatusIndicator::Busy {
            a2.prefetch_adjacent(image_area, grid)
        } else {
            a2
        };
        (s2, a3, Tick { quit: false, wait_ms: if allow { SETTLED_TICK_MS } else { NAVIGATING_TICK_MS } })
    }
}

impl Session {
    /// The state before the first iteration: nothing holds rendering back,
    /// and the first status is always drawn.
    pub fn new() -> (session: Session)
        ensures
            session@ == (SessionModel {
                nav_until: 0,
                count: 0,
                last_status: Seq::<char>::empty(),
                last_size: (0, 0),
                last_indicator: StatusIndicator::Busy,
                temp_status_until: None,
                was_transmitting: false,
            }),
    {
        Session {
            nav_until: 0,
            count: 0,
            last_status: String::new(),
            last_size: (0, 0),
            last_indicator: StatusIndicator::Busy,
            temp_status_until: None,
            was_transmitting: false,
        }
    }

    /// Start an iteration, for an image area and a grid.
    pub fn begin_tick_at(
        &mut self,
        app: &mut App,
        results: Vec<ImageResult>,
        prefetched: Vec<(u64, ImageResult)>,
        completions: Vec<WriterResult>,
        image_area: Rect,
        grid: (usize, usize),
    )
        requires
            grid.0 * grid.1 <= usize::MAX,
        ensures
            (final(self)@, final(app)@) == tick_begun(
                old(self)@,
                old(app)@,
                results@,
                prefetched@,
                completions@,
                image_area,
                grid,
            ),
    {
        app.poll_worker(results, prefetched);
        let before: bool = app.is_transmitting();
        app.poll_writer(completions);
        let after: bool = app.is_transmitting();
        if self.was_transmitting && !after && app.view_mode == ViewMode::Tile {
            app.draw_tile_cursor_at(image_area, grid);
        }
        self.was_transmitting = before || after;
    }

    /// Start an iteration: take in the results that arrived.
    pub fn begin_tick(
        &mut self,
        app: &mut App,
        results: Vec<ImageResult>,
        prefetched: Vec<(u64, ImageResult)>,
        completions: Vec<WriterResult>,
        terminal_size: Rect,
    )
        ensures
            (final(self)@, final(app)@) == tick_begun(
                old(self)@,
                old(app)@,
                results@,
                prefetched@,
                completions@,
                image_area_of(terminal_size),
                grid_for(image_area_of(terminal_size), old(app)@.config.cell_aspect_ratio),
            ),
    {
        let area = image_area(terminal_size);
        let grid = tile_grid_for(area, app.config.cell_aspect_ratio);
        assert(grid.0 * grid.1 <= 36) by (nonlinear_arith)
            requires
                0 <= grid.0 <= 6,
                0 <= grid.1 <= 6,
        ;
        self.begin_tick_at(app, results, prefetched, completions, area, grid);
    }

    fn act(
        app: &mut App,
        action: Action,
        n: i32,
        count: u32,
        image_area: Rect,
        grid: (usize, usize),
    ) -> (did_nav: bool)
        requires
            grid.0 * grid.1 <= usize::MAX,
            n >= 1,
        ensures
            (final(app)@, did_nav) == acted(old(app)@, action, n, count, image_area, grid),
    {
        match action {
            Action::Quit => {
                app.should_quit = true;
                false
            },
            Action::Vertical { forward } => {
                let delta: i32 = if forward { n } else { -n };
                match app.view_mode {
                    ViewMode::Single => {
                        app.move_by(delta);
                        true
                    },
                    ViewMode::Tile => {
                        if app.move_tile_cursor_row(delta, grid) {
                            true
                        } else {
                            app.draw_tile_cursor_at(image_area, grid);
                            false
                        }
                    },
                }
            },
            Action::Horizontal { forward } => {
                let delta: i32 = if forward { n } else { -n };
                match app.view_mode {
                    ViewMode::Single => {
                        app.move_by(delta);
                        true
                    },
                    ViewMode::Tile => {
                        if app.move_tile_cursor(delta, grid) {
                            true
                        } else {
                            app.draw_tile_cursor_at(image_area, grid);
                            false
                        }
                    },
                }
            },
            Action::Page { forward } => {
                let delta: i32 = if forward { n } else { -n };
                match app.view_mode {
                    ViewMode::Single => app.move_by(delta),
                    ViewMode::Tile => app.move_tile_page(delta, grid),
                }
                true
            },
            Action::Select => {
                match app.view_mode {
                    ViewMode::Single => false,
                    ViewMode::Tile => {
                        app.select_tile();
                        true
                    },
                }
            },
            Action::First => {
                app.go_to_index_with_tile(if count > 0 { (count - 1) as usize } else { 0 });
                true
            },
            Action::Last => {
                let target: usize = if count > 0 {
                    (count - 1) as usize
                } else if app.images.len() == 0 {
                    0
                } else {
                    app.images.len() - 1
                };
                app.go_to_index_with_tile(target);
                true
            },
            Action::ToggleFit => {
                app.toggle_fit_mode();
                true
            },
            Action::Reload => {
                app.reload();
                true
            },
            Action::ToggleView => {
                app.toggle_view_mode();
                true
            },
            Action::CopyPath => {
                let _ = app.copy_path_to_clipboard();
                false
            },
            Action::CopyImage => false,
            Action::Nothing => false,
        }
    }

    /// Handle one event, for an image area and a grid.
    pub fn on_event_at(
        &mut self,
        app: &mut App,
        event: InputEvent,
        terminal_size: Rect,
        image_area: Rect,
        grid: (usize, usize),
        now: u64,
    ) -> (outcome: EventOutcome)
        requires
            grid.0 * grid.1 <= usize::MAX,
        ensures
            (final(self)@, final(app)@, outcome) == event_handled(
                old(self)@,
                old(app)@,
                event,
                terminal_size,
                image_area,
                grid,
                now,
            ),
    {
        let quiet = EventOutcome { stop_draining: false, clear_screen: false, copy_image: false };
        let key = match event {
            InputEvent::Resize(w, h) => {
                app.handle_resize();
                self.last_size = (w, h);
                self.last_status = String::new();
                return EventOutcome { stop_draining: false, clear_screen: true, copy_image: false };
            },
            InputEvent::Other => {
                return quiet;
            },
            InputEvent::Press(key) => key,
        };
        match key {
            Key::Char(c) => {
                if '0' <= c && c <= '9' {
                    let digit: u32 = c as u32 - '0' as u32;
                    if digit != 0 || self.count != 0 {
                        let grown: u64 = self.count as u64 * 10 + digit as u64;
                        self.count = if grown > u32::MAX as u64 { u32::MAX } else { grown as u32 };
                        return quiet;
                    }
                }
            },
            _ => {},
        }
        let action = key_action(key);
        let n: i32 = if self.count == 0 {
            1
        } else if self.count > i32::MAX as u32 {
            i32::MAX
        } else {
            self.count as i32
        };
        let had_path: bool = app.current_index < app.images.len();
        let latch: u64 = app.config.nav_latch_ms;
        let did_nav = Self::act(app, action, n, self.count, image_area, grid);
        self.count = 0;
        if did_nav {
            if !app.is_transmitting() {
                app.cancel_image_output();
            }
            self.nav_until = if now > u64::MAX - latch { u64::MAX } else { now + latch };
            return EventOutcome { stop_draining: true, clear_screen: false, copy_image: false };
        }
        match action {
            Action::CopyPath => {
                let size = (terminal_size.width, terminal_size.height);
                if had_path {
                    app.send_status(
                        String::from_str("Copied path to clipboard"),
                        size,
                        StatusIndicator::Ready,
                    );
                } else {
                    app.send_status(
                        String::from_str("Failed to copy path"),
                        size,
                        StatusIndicator::Busy,
                    );
                }
                self.temp_status_until = Some(
                    if now > u64::MAX - TEMP_STATUS_MS { u64::MAX } else { now + TEMP_STATUS_MS },
                );
                quiet
            },
            Action::CopyImage => EventOutcome {
                stop_draining: false,
                clear_screen: false,
                copy_image: true,
            },
            _ => quiet,
        }
    }

    /// Handle one event.
    pub fn on_event(
        &mut self,
        app: &mut App,
        event: InputEvent,
        terminal_size: Rect,
        now: u64,
    ) -> (outcome: EventOutcome)
        ensures
            (final(self)@, final(app)@, outcome) == event_handled(
                old(self)@,
                old(app)@,
                event,
                terminal_size,
                image_area_of(terminal_size),
                grid_for(image_area_of(terminal_size), old(app)@.config.cell_aspect_ratio),
                now,
            ),
    {
        let area = image_area(terminal_size);
        let grid = tile_grid_for(area, app.config.cell_aspect_ratio);
        assert(grid.0 * grid.1 <= 36) by (nonlinear_arith)
            requires
                0 <= grid.0 <= 6,
                0 <= grid.1 <= 6,
        ;
        self.on_event_at(app, event, terminal_size, area, grid, now)
    }

    /// Report how copying the image to the clipboard went: the status row
    /// says so for a while.
    pub fn image_copied(&mut self, app: &mut App, ok: bool, terminal_size: Rect, now: u64)
        ensures
            final(self)@ == (SessionModel {
                temp_status_until: Some(later(now, TEMP_STATUS_MS)),
                ..old(self)@
            }),
            final(app)@ == clipboard_status(
                old(app)@,
                "Copied image to clipboard"@,
                "Failed to copy image"@,
                ok,
                (terminal_size.width, terminal_size.height),
            ),
    {
        let size = (terminal_size.width, terminal_size.height);
        if ok {
            app.send_status(
                String::from_str("Copied image to clipboard"),
                size,
                StatusIndicator::Ready,
            );
        } else {
            app.send_status(String::from_str("Failed to copy image"), size, StatusIndicator::Busy);
        }
        self.temp_status_until = Some(
            if now > u64::MAX - TEMP_STATUS_MS { u64::MAX } else { now + TEMP_STATUS_MS },
        );
    }

    /// End an iteration, for an image area and a grid.
    pub fn end_tick_at(
        &mut self,
        app: &mut App,
        terminal_size: Rect,
        image_area: Rect,
        grid: (usize, usize),
        now: u64,
    ) -> (tick: Tick)
        requires
            image_area.wf(),
            grid.0 * grid.1 <= usize::MAX,
            grid.0 * grid.1 > 0,
        ensures
            (final(self)@, final(app)@, tick) == tick_ended(
                old(self)@,
                old(app)@,
                terminal_size,
                image_area,
                grid,
                now,
            ),
    {
        if app.should_quit {
            app.clear_kgp_overlay();
            return Tick { quit: true, wait_ms: 0 };
        }
        let allow: bool = now >= self.nav_until;
        let expired: bool = match self.temp_status_until {
            Some(t) => now >= t,
            None => false,
        };
        if expired {
            self.temp_status_until = None;
            self.last_status = String::new();
        }
        let size = (terminal_size.width, terminal_size.height);
        let text = app.status_text_at(grid);
        let indicator = app.status_indicator_at(image_area, grid, allow);
        let changed: bool = text != self.last_status || size.0 != self.last_size.0 || size.1
            != self.last_size.1 || indicator != self.last_indicator;
        if changed && self.temp_status_until.is_none() {
            app.send_status(text.clone(), size, indicator);
            self.last_status = text;
            self.last_size = size;
            self.last_indicator = indicator;
        }
        app.prepare_render_request_at(image_area, grid, allow);
        let displayed: bool = match indicator {
            StatusIndicator::Busy => false,
            _ => true,
        };
        if allow && displayed {
            app.prefetch_adjacent_at(image_area, grid);
        }
        Tick { quit: false, wait_ms: if allow { SETTLED_TICK_MS } else { NAVIGATING_TICK_MS } }
    }

    /// End an iteration: update the status row, reconcile the display,
    /// prefetch, and say how long to wait for input.
    pub fn end_tick(&mut self, app: &mut App, terminal_size: Rect, now: u64) -> (tick: Tick)
        ensures
            (final(self)@, final(app)@, tick) == tick_ended(
                old(self)@,
                old(app)@,
                terminal_size,
                image_area_of(terminal_size),
                grid_for(image_area_of(terminal_size), old(app)@.config.cell_aspect_ratio),
                now,
            ),
    {
        let area = image_area(terminal_size);
        let grid = tile_grid_for(area, app.config.cell_aspect_ratio);
        assert(4 <= grid.0 * grid.1 <= 36) by (nonlinear_arith)
            requires
                2 <= grid.0 <= 6,
                2 <= grid.1 <= 6,
        ;
        self.end_tick_at(app, terminal_size, area, grid, now)
    }
}

/// While the latch holds, the end of an iteration hands the collaborators
/// nothing but, at most, one status update: no image is requested,
/// transmitted or prefetched, and the orchestrator is otherwise unchanged.
pub proof fn lemma_latch_holds_images_back(
    session: SessionModel,
    app: AppModel,
    terminal_size: Rect,
    image_area: Rect,
    grid: (usize, usize),
    now: u64,
)
    requires
        now < session.nav_until,
        !app.should_quit,
    ensures
        ({
            let after = tick_ended(session, app, terminal_size, image_area, grid, now).1;
            ||| after == app
            ||| after == app.sent(
                CommandModel::Writer(
                    RequestModel::Status {
                        text: app.status_text(grid),
                        size: (terminal_size.width, terminal_size.height),
                        indicator: StatusIndicator::Busy,
                    },
                ),
            )
        }),
        tick_ended(session, app, terminal_size, image_area, grid, now).2.wait_ms
            == NAVIGATING_TICK_MS,
{
}

/// A navigation key starts the latch: rendering is held back until the
/// latch time has passed.
pub proof fn lemma_navigation_starts_latch(
    session: SessionModel,
    app: AppModel,
    key: Key,
    terminal_size: Rect,
    image_area: Rect,
    grid: (usize, usize),
    now: u64,
)
    requires
        key_pressed(session, app, key, terminal_size, image_area, grid, now).2.stop_draining,
    ensures
        key_pressed(session, app, key, terminal_size, image_area, grid, now).0.nav_until == later(
            now,
            app.config.nav_latch_ms,
        ),
        key_pressed(session, app, key, terminal_size, image_area, grid, now).0.count == 0,
{
}

} // verus!
