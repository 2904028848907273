//! The orchestrator: selection, modes, the render cache, the placement
//! record and the bookkeeping of work in flight. It talks to the processor,
//! the prefetch pool and the writer through an outbox of commands.

use std::sync::Arc;
use vstd::prelude::*;
use vstd::string::*;
use crate::config::Config;
use crate::fit::{FitMode, ViewMode};
use crate::geometry::Rect;
use crate::kgp::KgpState;
use crate::lru::{
    distinct_keys, has_key, inserted, lemma_inserted, lemma_touched, touched, value_of, LruCache,
    LruKey,
};
use crate::pixels::FilterType;
use crate::layout::{calculate_tile_grid, grid_for, image_area, image_area_of, tile_grid_for};
use crate::prefetch::{is_stale, next_epoch, PrefetchRequest, PrefetchWorker};
use crate::text::{decimal_text, file_name, file_name_of, push_number, push_str, texts};
use crate::sender::{
    byte_blocks, RequestModel, StatusIndicator, WriterRequest, WriterResult, WriterResultKind,
};
use crate::worker::{ImageRequest, ImageResult};

verus! {

/// Key of a rendered artifact: path (or the synthetic name of a tile
/// page), target pixel box and fit mode.
#[derive(Debug)]
pub struct CacheKey {
    pub path: String,
    pub target: (u32, u32),
    pub fit_mode: FitMode,
}

impl Clone for CacheKey {
    fn clone(&self) -> (key: CacheKey)
        ensures
            key@ == self@,
    {
        CacheKey {
            path: self.path.clone(),
            target: (self.target.0, self.target.1),
            fit_mode: self.fit_mode,
        }
    }
}

/// A cache key as a mathematical value.
pub type KeyModel = (Seq<char>, (u32, u32), FitMode);

impl View for CacheKey {
    type V = KeyModel;

    open spec fn view(&self) -> KeyModel {
        (self.path@, self.target, self.fit_mode)
    }
}

impl LruKey for CacheKey {
    fn same(&self, other: &Self) -> (b: bool) {
        self.path == other.path && self.target.0 == other.target.0 && self.target.1
            == other.target.1 && self.fit_mode == other.fit_mode
    }
}

/// One entry of the render cache.
pub struct RenderedImage {
    pub original_size: (u32, u32),
    pub actual_size: (u32, u32),
    pub encoded_chunks: Arc<Vec<Vec<u8>>>,
}

/// What a prefetch sweep was made for; a sweep is not repeated while this
/// stays the same.
#[derive(Clone, Copy, Debug, PartialEq, Eq)]
pub struct PrefetchSignature {
    pub view_mode: ViewMode,
    pub fit_mode: FitMode,
    pub target: (u32, u32),
    pub prefetch_count: usize,
    pub anchor: usize,
    pub grid: Option<(usize, usize)>,
}

impl PrefetchSignature {
    /// Whether two signatures are the same.
    pub fn same(&self, other: &PrefetchSignature) -> (b: bool)
        ensures
            b == (*self == *other),
    {
        let same_grid: bool = match (self.grid, other.grid) {
            (Some(a), Some(b)) => a.0 == b.0 && a.1 == b.1,
            (None, None) => true,
            _ => false,
        };
        self.view_mode == other.view_mode && self.fit_mode == other.fit_mode && self.target.0
            == other.target.0 && self.target.1 == other.target.1 && self.prefetch_count
            == other.prefetch_count && self.anchor == other.anchor && same_grid
    }
}

/// Something for one of the orchestrator's collaborators to do.
pub enum Command {
    /// For the terminal writer.
    Writer(WriterRequest),
    /// For the image processor.
    Worker(ImageRequest),
    /// For the prefetch pool.
    Prefetch(PrefetchRequest),
}

/// A processor request as a mathematical value.
pub struct ImageRequestModel {
    pub path: Seq<char>,
    pub target: (u32, u32),
    pub fit_mode: FitMode,
    pub kgp_id: u32,
    pub is_tmux: bool,
    pub compress_level: Option<u32>,
    pub tmux_kitty_max_pixels: u64,
    pub trace_worker: bool,
    pub resize_filter: FilterType,
    pub view_mode: ViewMode,
    pub tile_paths: Option<Seq<Seq<char>>>,
    pub tile_grid: Option<(usize, usize)>,
    pub cell_size: Option<(u16, u16)>,
    pub tile_filter: FilterType,
}

impl View for ImageRequest {
    type V = ImageRequestModel;

    open spec fn view(&self) -> ImageRequestModel {
        ImageRequestModel {
            path: self.path@,
            target: self.target,
            fit_mode: self.fit_mode,
            kgp_id: self.kgp_id,
            is_tmux: self.is_tmux,
            compress_level: self.compress_level,
            tmux_kitty_max_pixels: self.tmux_kitty_max_pixels,
            trace_worker: self.trace_worker,
            resize_filter: self.resize_filter,
            view_mode: self.view_mode,
            tile_paths: match self.tile_paths {
                Some(paths) => Some(texts(paths@)),
                None => None,
            },
            tile_grid: self.tile_grid,
            cell_size: self.cell_size,
            tile_filter: self.tile_filter,
        }
    }
}

/// A prefetch batch as a mathematical value.
pub struct PrefetchRequestModel {
    pub paths: Seq<Seq<char>>,
    pub target: (u32, u32),
    pub fit_mode: FitMode,
    pub epoch: u64,
    pub kgp_id: u32,
    pub is_tmux: bool,
    pub compress_level: Option<u32>,
    pub tmux_kitty_max_pixels: u64,
    pub resize_filter: FilterType,
}

impl View for PrefetchRequest {
    type V = PrefetchRequestModel;

    open spec fn view(&self) -> PrefetchRequestModel {
        PrefetchRequestModel {
            paths: texts(self.paths@),
            target: self.target,
            fit_mode: self.fit_mode,
            epoch: self.epoch,
            kgp_id: self.kgp_id,
            is_tmux: self.is_tmux,
            compress_level: self.compress_level,
            tmux_kitty_max_pixels: self.tmux_kitty_max_pixels,
            resize_filter: self.resize_filter,
        }
    }
}

/// A command as a mathematical value.
pub enum CommandModel {
    Writer(RequestModel),
    Worker(ImageRequestModel),
    Prefetch(PrefetchRequestModel),
}

impl View for Command {
    type V = CommandModel;

    open spec fn view(&self) -> CommandModel {
        match *self {
            Command::Writer(req) => CommandModel::Writer(req@),
            Command::Worker(req) => CommandModel::Worker(req@),
            Command::Prefetch(req) => CommandModel::Prefetch(req@),
        }
    }
}

/// Each command by its view.
pub open spec fn command_views(commands: Seq<Command>) -> Seq<CommandModel> {
    Seq::new(commands.len(), |i: int| commands[i]@)
}

/// The orchestrator.
pub struct App {
    pub images: Vec<String>,
    pub current_index: usize,
    /// Pixel size of a terminal cell.
    pub cell_size: (u16, u16),
    pub should_quit: bool,
    pub fit_mode: FitMode,
    pub view_mode: ViewMode,
    /// Selection in tile mode, as an index into `images`.
    pub tile_cursor: usize,
    pub prev_tile_cursor: Option<usize>,
    pub kgp_state: KgpState,
    pub config: Config,
    pub prefetch_worker: PrefetchWorker,
    pub pending_request: Option<CacheKey>,
    pub render_cache: LruCache<CacheKey, RenderedImage>,
    pub kgp_id: u32,
    pub in_flight_transmit: bool,
    pub pending_display: Option<Rect>,
    pub render_epoch: u64,
    pub clear_after_nav: bool,
    pub is_tmux: bool,
    pub last_prefetch_signature: Option<PrefetchSignature>,
    /// What the terminal is known to support, shown in the debug status.
    pub capabilities: String,
    /// Commands not yet handed to the collaborators, oldest first.
    pub outbox: Vec<Command>,
}

/// The orchestrator as a mathematical value.
pub struct AppModel {
    pub images: Seq<Seq<char>>,
    pub current_index: usize,
    pub cell_size: (u16, u16),
    pub should_quit: bool,
    pub fit_mode: FitMode,
    pub view_mode: ViewMode,
    pub tile_cursor: usize,
    pub prev_tile_cursor: Option<usize>,
    pub kgp_state: KgpState,
    pub config: Config,
    pub prefetch_epoch: u64,
    pub pending_request: Option<KeyModel>,
    pub cache: Seq<(KeyModel, RenderedImage)>,
    pub cache_limit: nat,
    pub kgp_id: u32,
    pub in_flight_transmit: bool,
    pub pending_display: Option<Rect>,
    pub render_epoch: u64,
    pub clear_after_nav: bool,
    pub is_tmux: bool,
    pub last_prefetch_signature: Option<PrefetchSignature>,
    pub capabilities: Seq<char>,
    pub outbox: Seq<CommandModel>,
}

impl View for App {
    type V = AppModel;

    open spec fn view(&self) -> AppModel {
        AppModel {
            images: texts(self.images@),
            current_index: self.current_index,
            cell_size: self.cell_size,
            should_quit: self.should_quit,
            fit_mode: self.fit_mode,
            view_mode: self.view_mode,
            tile_cursor: self.tile_cursor,
            prev_tile_cursor: self.prev_tile_cursor,
            kgp_state: self.kgp_state,
            config: self.config,
            prefetch_epoch: self.prefetch_worker.epoch,
            pending_request: match self.pending_request {
                Some(key) => Some(key@),
                None => None,
            },
            cache: self.render_cache@,
            cache_limit: self.render_cache.limit(),
            kgp_id: self.kgp_id,
            in_flight_transmit: self.in_flight_transmit,
            pending_display: self.pending_display,
            render_epoch: self.render_epoch,
            clear_after_nav: self.clear_after_nav,
            is_tmux: self.is_tmux,
            last_prefetch_signature: self.last_prefetch_signature,
            capabilities: self.capabilities@,
            outbox: command_views(self.outbox@),
        }
    }
}

/// The index `delta` steps from `index` in a list of `len` entries, going
/// round at both ends.
pub open spec fn wrapped(index: int, delta: int, len: int) -> int {
    (index + delta) % len
}

/// Step through a list, going round at both ends.
pub fn wrap_index(index: usize, delta: i32, len: usize) -> (r: usize)
    requires
        len > 0,
    ensures
        r == wrapped(index as int, delta as int, len as int),
        r < len,
{
    let sum: i128 = index as i128 + delta as i128;
    proof {
        vstd::arithmetic::div_mod::lemma_mod_bound(sum as int, len as int);
    }
    if sum >= 0 {
        ((sum as u128) % (len as u128)) as usize
    } else {
        let back: u128 = (-sum) as u128;
        let over: u128 = back % (len as u128);
        proof {
            let n = len as int;
            let q = (back as int) / n;
            vstd::arithmetic::div_mod::lemma_fundamental_div_mod(back as int, n);
            vstd::arithmetic::div_mod::lemma_mod_bound(back as int, n);
            if over == 0 {
                assert(sum as int == (-q) * n + 0) by (nonlinear_arith)
                    requires
                        back as int == n * q,
                        sum as int == -(back as int),
                ;
                vstd::arithmetic::div_mod::lemma_fundamental_div_mod_converse(sum as int, n, -q, 0);
            } else {
                assert(sum as int == (-q - 1) * n + (n - over)) by (nonlinear_arith)
                    requires
                        back as int == n * q + over,
                        sum as int == -(back as int),
                ;
                vstd::arithmetic::div_mod::lemma_fundamental_div_mod_converse(
                    sum as int,
                    n,
                    -q - 1,
                    n - over,
                );
            }
        }
        if over == 0 {
            0
        } else {
            (len as u128 - over) as usize
        }
    }
}

/// The `idx`-th candidate identifier: `idx` times a fixed odd constant,
/// reduced to 32 bits and rotated left by eight bits.
pub open spec fn kgp_candidate(idx: u32) -> u32 {
    let product = (idx * 0x9E37_79B1) % 0x1_0000_0000;
    ((product % 0x100_0000) * 0x100 + product / 0x100_0000) as u32
}

/// Whether each of the three low octets of an identifier is at least 16,
/// so that none of the colour channels that carry them is near zero.
pub open spec fn octets_usable(id: u32) -> bool {
    &&& (id / 0x1_0000) % 0x100 >= 16
    &&& (id / 0x100) % 0x100 >= 16
    &&& id % 0x100 >= 16
}

/// The identifier used when the search finds none.
pub const FALLBACK_KGP_ID: u32 = 0x1010_1010;

/// How many candidates the search tries.
pub const KGP_ID_ATTEMPTS: u32 = 10_000;

/// The first usable candidate among `attempts` candidates from `idx` on,
/// or the fallback.
pub open spec fn kgp_id_search(idx: u32, attempts: nat) -> u32
    decreases attempts,
{
    if attempts == 0 {
        FALLBACK_KGP_ID
    } else if octets_usable(kgp_candidate(idx)) {
        kgp_candidate(idx)
    } else {
        kgp_id_search(if idx == u32::MAX { 0 } else { (idx + 1) as u32 }, (attempts - 1) as nat)
    }
}

/// Derive the placement identifier of a process from its process id.
pub fn generate_kgp_id(base: u32) -> (id: u32)
    ensures
        id == kgp_id_search(base, KGP_ID_ATTEMPTS as nat),
        octets_usable(id),
{
    let mut idx: u32 = base;
    let mut left: u32 = KGP_ID_ATTEMPTS;
    while left > 0
        invariant
            kgp_id_search(base, KGP_ID_ATTEMPTS as nat) == kgp_id_search(idx, left as nat),
        decreases left,
    {
        assert(idx * 0x9E37_79B1 <= 0xFFFF_FFFF * 0x9E37_79B1) by (nonlinear_arith)
            requires
                idx <= 0xFFFF_FFFF,
        ;
        let product: u64 = ((idx as u64) * 0x9E37_79B1) % 0x1_0000_0000;
        let id: u32 = ((product % 0x100_0000) * 0x100 + product / 0x100_0000) as u32;
        if (id / 0x1_0000) % 0x100 >= 16 && (id / 0x100) % 0x100 >= 16 && id % 0x100 >= 16 {
            return id;
        }
        idx = if idx == u32::MAX { 0 } else { idx + 1 };
        left = left - 1;
    }
    FALLBACK_KGP_ID
}

/// `delta` rows as a number of tiles in a grid of `cols` columns, kept
/// within the range of a step.
pub open spec fn row_step(delta: i32, cols: usize) -> i32 {
    let product = delta * cols;
    if product > i32::MAX {
        i32::MAX
    } else if product < i32::MIN {
        i32::MIN
    } else {
        product as i32
    }
}

/// The page `delta` pages from `page`, kept between the first page and
/// `max_page`.
pub open spec fn clamped_page(page: int, delta: int, max_page: int) -> int {
    if page + delta < 0 {
        0
    } else if page + delta > max_page {
        max_page
    } else {
        page + delta
    }
}

impl AppModel {
    /// Forget the outstanding processor request and cancel prefetching.
    /// A transmission in flight is left to complete.
    pub open spec fn invalidate_render(self) -> AppModel {
        AppModel {
            pending_request: None,
            prefetch_epoch: next_epoch(self.prefetch_epoch),
            last_prefetch_signature: None,
            ..self
        }
    }

    pub open spec fn move_by(self, delta: i32) -> AppModel {
        if delta == 0 || self.images.len() == 0 {
            self
        } else {
            AppModel {
                current_index: wrapped(
                    self.current_index as int,
                    delta as int,
                    self.images.len() as int,
                ) as usize,
                ..self
            }.invalidate_render()
        }
    }

    pub open spec fn toggle_fit_mode(self) -> AppModel {
        AppModel { fit_mode: self.fit_mode.toggled(), ..self }.invalidate_render()
    }

    pub open spec fn toggle_view_mode(self) -> AppModel {
        match self.view_mode {
            ViewMode::Single => AppModel {
                view_mode: ViewMode::Tile,
                tile_cursor: self.current_index,
                ..self
            }.invalidate_render(),
            ViewMode::Tile => AppModel {
                view_mode: ViewMode::Single,
                current_index: self.tile_cursor,
                ..self
            }.invalidate_render(),
        }
    }

    /// The state after the tile cursor moved by `delta`, and whether it
    /// came to lie on another page. Only a page change invalidates.
    pub open spec fn move_tile_cursor(self, delta: i32, grid: (usize, usize)) -> (AppModel, bool) {
        let per_page = grid.0 * grid.1;
        if self.images.len() == 0 || per_page == 0 {
            (self, false)
        } else {
            let cursor = wrapped(self.tile_cursor as int, delta as int, self.images.len() as int);
            let moved = AppModel {
                prev_tile_cursor: Some(self.tile_cursor),
                tile_cursor: cursor as usize,
                ..self
            };
            if self.tile_cursor as int / per_page != cursor / per_page {
                (moved.invalidate_render(), true)
            } else {
                (moved, false)
            }
        }
    }

    /// The state after a move by `delta` pages: the cursor lands on the
    /// first tile of the new page; nothing changes when the page stays.
    pub open spec fn move_tile_page(self, delta: i32, grid: (usize, usize)) -> AppModel {
        let per_page = grid.0 * grid.1;
        if self.images.len() == 0 || per_page == 0 {
            self
        } else {
            let page = self.tile_cursor as int / per_page;
            let max_page = (self.images.len() - 1) / per_page;
            let new_page = clamped_page(page, delta as int, max_page);
            if new_page == page {
                self
            } else {
                AppModel {
                    prev_tile_cursor: Some(self.tile_cursor),
                    tile_cursor: (new_page * per_page) as usize,
                    ..self
                }.invalidate_render()
            }
        }
    }

    pub open spec fn select_tile(self) -> AppModel {
        if self.images.len() == 0 {
            self
        } else {
            AppModel {
                current_index: if self.tile_cursor < self.images.len() {
                    self.tile_cursor
                } else {
                    (self.images.len() - 1) as usize
                },
                view_mode: ViewMode::Single,
                ..self
            }.invalidate_render()
        }
    }

    pub open spec fn go_to_index_with_tile(self, index: usize) -> AppModel {
        if self.images.len() == 0 {
            self
        } else {
            let target = if index < self.images.len() {
                index
            } else {
                (self.images.len() - 1) as usize
            };
            AppModel {
                current_index: target,
                tile_cursor: target,
                prev_tile_cursor: None,
                ..self
            }.invalidate_render()
        }
    }

    /// The state with one more command in the outbox.
    pub open spec fn sent(self, command: CommandModel) -> AppModel {
        AppModel { outbox: self.outbox.push(command), ..self }
    }

    /// Cancel what the writer is doing for the current epoch: the epoch
    /// advances (it stays at the largest value once there), the writer is
    /// told which area may hold partial output, and the placement record
    /// keeps its area but loses its identifier.
    pub open spec fn cancel_image_output(self) -> AppModel {
        let epoch = if self.render_epoch == u64::MAX {
            u64::MAX
        } else {
            (self.render_epoch + 1) as u64
        };
        AppModel {
            render_epoch: epoch,
            clear_after_nav: true,
            in_flight_transmit: false,
            pending_display: None,
            kgp_state: KgpState { area: self.kgp_state.area, kgp_id: None },
            ..self
        }.sent(CommandModel::Writer(RequestModel::CancelImage { area: self.pending_display, epoch }))
    }

    /// Ask the writer to remove the placed image, if one is on record.
    pub open spec fn clear_kgp_overlay(self) -> AppModel {
        match self.kgp_state.area {
            Some(area) => self.sent(
                CommandModel::Writer(
                    RequestModel::ClearAll { area: Some(area), is_tmux: self.is_tmux },
                ),
            ),
            None => self,
        }
    }

    /// Forget everything rendered and placed.
    pub open spec fn forget_renders(self) -> AppModel {
        AppModel {
            cache: Seq::<(KeyModel, RenderedImage)>::empty(),
            pending_request: None,
            kgp_state: KgpState { area: None, kgp_id: None },
            prefetch_epoch: next_epoch(self.prefetch_epoch),
            last_prefetch_signature: None,
            ..self
        }
    }

    /// The state after a reload: the image output is cancelled and
    /// everything rendered and placed is forgotten.
    pub open spec fn reload(self) -> AppModel {
        self.cancel_image_output().forget_renders()
    }

    /// The state after the terminal changed size: the placed image is
    /// removed from the screen, then everything is as after a reload.
    pub open spec fn handle_resize(self) -> AppModel {
        self.clear_kgp_overlay().reload()
    }

    /// The path of the selected image.
    pub open spec fn current_path(self) -> Option<Seq<char>> {
        if self.current_index < self.images.len() {
            Some(self.images[self.current_index as int])
        } else {
            None
        }
    }

    pub open spec fn copy_path_to_clipboard(self) -> (AppModel, bool) {
        match self.current_path() {
            Some(path) => (
                self.sent(
                    CommandModel::Writer(
                        RequestModel::CopyToClipboard {
                            data: vstd::utf8::encode_utf8(path),
                            is_tmux: self.is_tmux,
                        },
                    ),
                ),
                true,
            ),
            None => (self, false),
        }
    }
}

/// Number of cells needed to show `pixels` pixels in cells of `cell`
/// pixels, but no more than `room` cells.
pub open spec fn cells_for(pixels: u32, cell: u16, room: u16) -> u16 {
    let needed = (pixels + cell - 1) / (cell as int);
    if needed < room { needed as u16 } else { room }
}

/// The cell rectangle of an image of `actual_size` pixels inside the
/// image area: centred in the single view, anchored at the top left corner
/// in the tile view.
pub open spec fn placement(
    view_mode: ViewMode,
    image_area: Rect,
    cell_size: (u16, u16),
    actual_size: (u32, u32),
) -> Rect {
    let cells_w = cells_for(actual_size.0, cell_size.0, image_area.width);
    let cells_h = cells_for(actual_size.1, cell_size.1, image_area.height);
    match view_mode {
        ViewMode::Single => Rect {
            x: (image_area.x + (image_area.width - cells_w) / 2) as u16,
            y: (image_area.y + (image_area.height - cells_h) / 2) as u16,
            width: cells_w,
            height: cells_h,
        },
        ViewMode::Tile => Rect { x: image_area.x, y: image_area.y, width: cells_w, height: cells_h },
    }
}

/// The name under which a composed tile page is cached.
pub open spec fn tile_page_name(page_start: nat) -> Seq<char> {
    "__tile_page_"@ + decimal_text(page_start)
}

/// Compute the placement of an image.
pub fn place_image(
    view_mode: ViewMode,
    image_area: Rect,
    cell_size: (u16, u16),
    actual_size: (u32, u32),
) -> (area: Rect)
    requires
        image_area.wf(),
        cell_size.0 != 0,
        cell_size.1 != 0,
    ensures
        area == placement(view_mode, image_area, cell_size, actual_size),
        area.wf(),
{
    let needed_w: u64 = (actual_size.0 as u64 + cell_size.0 as u64 - 1) / (cell_size.0 as u64);
    let needed_h: u64 = (actual_size.1 as u64 + cell_size.1 as u64 - 1) / (cell_size.1 as u64);
    let cells_w: u16 = if needed_w < image_area.width as u64 {
        needed_w as u16
    } else {
        image_area.width
    };
    let cells_h: u16 = if needed_h < image_area.height as u64 {
        needed_h as u16
    } else {
        image_area.height
    };
    match view_mode {
        ViewMode::Single => Rect {
            x: image_area.x + (image_area.width - cells_w) / 2,
            y: image_area.y + (image_area.height - cells_h) / 2,
            width: cells_w,
            height: cells_h,
        },
        ViewMode::Tile => Rect { x: image_area.x, y: image_area.y, width: cells_w, height: cells_h },
    }
}

impl AppModel {
    /// Whether anything can be shown: cells and image area have an extent.
    pub open spec fn usable(self, image_area: Rect) -> bool {
        &&& self.cell_size.0 != 0
        &&& self.cell_size.1 != 0
        &&& image_area.width != 0
        &&& image_area.height != 0
    }

    /// The pixel box of the image area.
    pub open spec fn target(self, image_area: Rect) -> (u32, u32) {
        (
            (image_area.width * self.cell_size.0) as u32,
            (image_area.height * self.cell_size.1) as u32,
        )
    }

    /// Index of the first image of the page the tile cursor is on.
    pub open spec fn page_start(self, grid: (usize, usize)) -> int {
        (self.tile_cursor as int / (grid.0 * grid.1)) * (grid.0 * grid.1)
    }

    /// The paths of the images of the page that starts at `start`.
    pub open spec fn page_paths(self, grid: (usize, usize), start: int) -> Seq<Seq<char>> {
        let end = if start + grid.0 * grid.1 < self.images.len() {
            start + grid.0 * grid.1
        } else {
            self.images.len() as int
        };
        if 0 <= start <= end {
            self.images.subrange(start, end)
        } else {
            Seq::<Seq<char>>::empty()
        }
    }

    /// The cache key of what the current view shows: the selected image in
    /// the single view, the page under the cursor in the tile view.
    pub open spec fn view_key(self, image_area: Rect, grid: (usize, usize)) -> Option<KeyModel> {
        match self.view_mode {
            ViewMode::Single => match self.current_path() {
                Some(path) => Some((path, self.target(image_area), self.fit_mode)),
                None => None,
            },
            ViewMode::Tile => if grid.0 * grid.1 == 0 {
                None
            } else {
                Some(
                    (
                        tile_page_name(self.page_start(grid) as nat),
                        self.target(image_area),
                        self.fit_mode,
                    ),
                )
            },
        }
    }

    /// The indicator: busy unless the current view's artifact is cached and
    /// placed where it belongs under the current identifier, with nothing
    /// in flight.
    pub open spec fn status_indicator(
        self,
        image_area: Rect,
        grid: (usize, usize),
        allow_transmission: bool,
    ) -> StatusIndicator {
        if !allow_transmission || self.pending_display is Some || self.in_flight_transmit
            || !self.usable(image_area) {
            StatusIndicator::Busy
        } else {
            match self.view_key(image_area, grid) {
                None => StatusIndicator::Busy,
                Some(key) => match value_of(self.cache, key) {
                    None => StatusIndicator::Busy,
                    Some(rendered) => {
                        let area = placement(
                            self.view_mode,
                            image_area,
                            self.cell_size,
                            rendered.actual_size,
                        );
                        if self.kgp_state.area != Some(area) || self.kgp_state.kgp_id != Some(
                            self.kgp_id,
                        ) {
                            StatusIndicator::Busy
                        } else {
                            match self.view_mode {
                                ViewMode::Single => match self.fit_mode {
                                    FitMode::Fit => StatusIndicator::Fit,
                                    FitMode::Normal => StatusIndicator::Ready,
                                },
                                ViewMode::Tile => StatusIndicator::Tile,
                            }
                        }
                    },
                },
            }
        }
    }

    /// The state after a processor result arrived: the artifact is cached,
    /// and the outstanding request is settled if this is its result.
    pub open spec fn accept_result(self, result: ImageResult) -> AppModel {
        let key = (result.path@, result.target, result.fit_mode);
        AppModel {
            pending_request: if self.pending_request == Some(key) {
                None
            } else {
                self.pending_request
            },
            cache: inserted(
                self.cache,
                self.cache_limit,
                key,
                RenderedImage {
                    original_size: result.original_size,
                    actual_size: result.actual_size,
                    encoded_chunks: result.encoded_chunks,
                },
            ),
            ..self
        }
    }

    /// The state after a prefetch result arrived, tagged with the epoch of
    /// its batch: a stale result is dropped, and so is one whose key is
    /// cached already.
    pub open spec fn accept_prefetched(self, epoch: u64, result: ImageResult) -> AppModel {
        let key = (result.path@, result.target, result.fit_mode);
        if is_stale(epoch, self.prefetch_epoch) || has_key(self.cache, key) {
            self
        } else {
            AppModel {
                cache: inserted(
                    self.cache,
                    self.cache_limit,
                    key,
                    RenderedImage {
                        original_size: result.original_size,
                        actual_size: result.actual_size,
                        encoded_chunks: result.encoded_chunks,
                    },
                ),
                ..self
            }
        }
    }

    /// The state after a completion of the writer arrived: a completion of
    /// another epoch changes nothing; one of the current epoch ends the
    /// transmission in flight and records the area it placed.
    pub open spec fn accept_completion(self, result: WriterResult) -> AppModel {
        if result.epoch != self.render_epoch {
            self
        } else {
            AppModel {
                in_flight_transmit: false,
                pending_display: None,
                kgp_state: match self.pending_display {
                    Some(area) => KgpState { area: Some(area), kgp_id: Some(self.kgp_id) },
                    None => self.kgp_state,
                },
                ..self
            }
        }
    }

    /// The processor request for the key of the current view.
    pub open spec fn worker_request(
        self,
        key: KeyModel,
        tiles: Option<(Seq<Seq<char>>, (usize, usize))>,
    ) -> ImageRequestModel {
        ImageRequestModel {
            path: key.0,
            target: key.1,
            fit_mode: self.fit_mode,
            kgp_id: self.kgp_id,
            is_tmux: self.is_tmux,
            compress_level: self.config.compression(),
            tmux_kitty_max_pixels: self.config.tmux_kitty_max_pixels,
            trace_worker: self.config.trace_worker,
            resize_filter: self.config.resize_filter,
            view_mode: if tiles is Some { ViewMode::Tile } else { ViewMode::Single },
            tile_paths: match tiles {
                Some((paths, _)) => Some(paths),
                None => None,
            },
            tile_grid: match tiles {
                Some((_, grid)) => Some(grid),
                None => None,
            },
            cell_size: if tiles is Some { Some(self.cell_size) } else { None },
            tile_filter: self.config.tile_filter,
        }
    }

    /// The state after a cached artifact was found for the current view.
    /// The hit refreshes the entry. Nothing more happens when the artifact
    /// is placed already, is on its way to this area, or another
    /// transmission is in flight; otherwise a transmission is started,
    /// after a full reset of the terminal's graphics if one was asked for.
    pub open spec fn show_cached(self, key: KeyModel, rendered: RenderedImage, image_area: Rect) -> AppModel {
        let refreshed = AppModel { cache: touched(self.cache, key), ..self };
        let area = placement(self.view_mode, image_area, self.cell_size, rendered.actual_size);
        if (self.kgp_state.area == Some(area) && self.kgp_state.kgp_id == Some(self.kgp_id))
            || self.pending_display == Some(area) || self.in_flight_transmit {
            refreshed
        } else {
            let cleared = if self.clear_after_nav {
                AppModel { clear_after_nav: false, ..refreshed }.sent(
                    CommandModel::Writer(
                        RequestModel::ClearAll { area: None, is_tmux: self.is_tmux },
                    ),
                )
            } else {
                refreshed
            };
            AppModel { in_flight_transmit: true, pending_display: Some(area), ..cleared }.sent(
                CommandModel::Writer(
                    RequestModel::ImageTransmit {
                        chunks: byte_blocks(rendered.encoded_chunks@),
                        area,
                        kgp_id: self.kgp_id,
                        old_area: self.kgp_state.area,
                        epoch: self.render_epoch,
                        is_tmux: self.is_tmux,
                    },
                ),
            )
        }
    }

    /// The state after no cached artifact was found for the current view:
    /// the processor is asked for it, unless it has been asked already.
    pub open spec fn request_render(
        self,
        key: KeyModel,
        tiles: Option<(Seq<Seq<char>>, (usize, usize))>,
    ) -> AppModel {
        if self.pending_request == Some(key) {
            self
        } else {
            AppModel { pending_request: Some(key), ..self }.sent(
                CommandModel::Worker(self.worker_request(key, tiles)),
            )
        }
    }

    /// One reconciliation of what is shown with what should be shown.
    /// Nothing happens while transmission is not allowed, or while nothing
    /// can be shown.
    pub open spec fn prepare_render(
        self,
        image_area: Rect,
        grid: (usize, usize),
        allow_transmission: bool,
    ) -> AppModel {
        if !allow_transmission || !self.usable(image_area) {
            self
        } else {
            match self.view_key(image_area, grid) {
                None => self,
                Some(key) => {
                    let tiles = match self.view_mode {
                        ViewMode::Single => None,
                        ViewMode::Tile => Some(
                            (self.page_paths(grid, self.page_start(grid)), grid),
                        ),
                    };
                    if tiles matches Some((paths, _)) && paths.len() == 0 {
                        self
                    } else {
                        match value_of(self.cache, key) {
                            Some(rendered) => self.show_cached(key, rendered, image_area),
                            None => self.request_render(key, tiles),
                        }
                    }
                },
            }
        }
    }

    /// The state after the writer was asked to draw the tile cursor.
    pub open spec fn draw_tile_cursor(self, image_area: Rect, grid: (usize, usize)) -> AppModel {
        let per_page = grid.0 * grid.1;
        if per_page == 0 {
            self
        } else {
            self.sent(
                CommandModel::Writer(
                    RequestModel::TileCursor {
                        grid,
                        cursor_idx: (self.tile_cursor as int % per_page) as usize,
                        image_area,
                        prev_cursor_idx: match self.prev_tile_cursor {
                            Some(prev) => Some((prev as int % per_page) as usize),
                            None => None,
                        },
                        cell_size: self.cell_size,
                    },
                ),
            )
        }
    }
}

impl App {
    /// A fresh orchestrator. Its first command asks the writer to remove
    /// whatever graphics an earlier run left on the terminal.
    pub fn new(
        images: Vec<String>,
        config: Config,
        is_tmux: bool,
        cell_size: (u16, u16),
        process_id: u32,
        capabilities: String,
    ) -> (app: App)
        ensures
            app@ == (AppModel {
                images: texts(images@),
                current_index: 0,
                cell_size,
                should_quit: false,
                fit_mode: FitMode::Normal,
                view_mode: ViewMode::Single,
                tile_cursor: 0,
                prev_tile_cursor: None,
                kgp_state: KgpState { area: None, kgp_id: None },
                config,
                prefetch_epoch: 0,
                pending_request: None,
                cache: Seq::<(KeyModel, RenderedImage)>::empty(),
                cache_limit: config.render_cache_size as nat,
                kgp_id: kgp_id_search(process_id, KGP_ID_ATTEMPTS as nat),
                in_flight_transmit: false,
                pending_display: None,
                render_epoch: 0,
                clear_after_nav: false,
                is_tmux,
                last_prefetch_signature: None,
                capabilities: capabilities@,
                outbox: seq![
                    CommandModel::Writer(RequestModel::ClearAll { area: None, is_tmux }),
                ],
            }),
    {
        let mut outbox: Vec<Command> = Vec::new();
        outbox.push(Command::Writer(WriterRequest::ClearAll { area: None, is_tmux }));
        let app = App {
            images,
            current_index: 0,
            cell_size,
            should_quit: false,
            fit_mode: FitMode::Normal,
            view_mode: ViewMode::Single,
            tile_cursor: 0,
            prev_tile_cursor: None,
            kgp_state: KgpState::new(),
            config,
            prefetch_worker: PrefetchWorker::new(),
            pending_request: None,
            render_cache: LruCache::new(config.render_cache_size),
            kgp_id: generate_kgp_id(process_id),
            in_flight_transmit: false,
            pending_display: None,
            render_epoch: 0,
            clear_after_nav: false,
            is_tmux,
            last_prefetch_signature: None,
            capabilities,
            outbox,
        };
        assert(app@.outbox =~= seq![
            CommandModel::Writer(RequestModel::ClearAll { area: None, is_tmux }),
        ]);
        app
    }

    /// Hand over the commands gathered so far.
    pub fn take_commands(&mut self) -> (commands: Vec<Command>)
        ensures
            command_views(commands@) == old(self)@.outbox,
            final(self)@ == (AppModel { outbox: Seq::<CommandModel>::empty(), ..old(self)@ }),
    {
        let mut commands: Vec<Command> = Vec::new();
        std::mem::swap(&mut self.outbox, &mut commands);
        assert(final(self)@.outbox =~= Seq::<CommandModel>::empty());
        commands
    }

    fn send(&mut self, command: Command)
        ensures
            final(self)@ == old(self)@.sent(command@),
    {
        self.outbox.push(command);
        assert(final(self)@.outbox =~= old(self)@.outbox.push(command@));
    }

    fn invalidate_render(&mut self)
        ensures
            final(self)@ == old(self)@.invalidate_render(),
    {
        self.pending_request = None;
        self.prefetch_worker.cancel();
        self.last_prefetch_signature = None;
    }

    /// Move the selection by `delta` images, going round at both ends.
    pub fn move_by(&mut self, delta: i32)
        ensures
            final(self)@ == old(self)@.move_by(delta),
    {
        if delta == 0 || self.images.len() == 0 {
            return ;
        }
        self.current_index = wrap_index(self.current_index, delta, self.images.len());
        self.invalidate_render();
    }

    /// Toggle between `Normal` and `Fit`.
    pub fn toggle_fit_mode(&mut self)
        ensures
            final(self)@ == old(self)@.toggle_fit_mode(),
    {
        self.fit_mode = self.fit_mode.next();
        self.invalidate_render();
    }

    /// Toggle between the single view and the tile view; the selection
    /// carries over.
    pub fn toggle_view_mode(&mut self)
        ensures
            final(self)@ == old(self)@.toggle_view_mode(),
    {
        match self.view_mode {
            ViewMode::Single => {
                self.view_mode = ViewMode::Tile;
                self.tile_cursor = self.current_index;
            },
            ViewMode::Tile => {
                self.current_index = self.tile_cursor;
                self.view_mode = ViewMode::Single;
            },
        }
        self.invalidate_render();
    }

    /// Move the tile cursor by `delta` tiles, going round at both ends.
    /// Returns whether the page changed.
    pub fn move_tile_cursor(&mut self, delta: i32, grid: (usize, usize)) -> (page_changed: bool)
        requires
            grid.0 * grid.1 <= usize::MAX,
        ensures
            (final(self)@, page_changed) == old(self)@.move_tile_cursor(delta, grid),
    {
        if self.images.len() == 0 {
            return false;
        }
        let per_page: usize = grid.0 * grid.1;
        if per_page == 0 {
            return false;
        }
        let old_page: usize = self.tile_cursor / per_page;
        self.prev_tile_cursor = Some(self.tile_cursor);
        self.tile_cursor = wrap_index(self.tile_cursor, delta, self.images.len());
        let new_page: usize = self.tile_cursor / per_page;
        let page_changed: bool = old_page != new_page;
        if page_changed {
            self.invalidate_render();
        }
        page_changed
    }

    /// Move the tile cursor by `delta` rows. Returns whether the page
    /// changed.
    pub fn move_tile_cursor_row(&mut self, delta: i32, grid: (usize, usize)) -> (page_changed: bool)
        requires
            grid.0 * grid.1 <= usize::MAX,
        ensures
            (final(self)@, page_changed) == old(self)@.move_tile_cursor(
                row_step(delta, grid.0),
                grid,
            ),
    {
        assert(-0x8000_0000 * 0xFFFF_FFFF_FFFF_FFFF <= delta * grid.0 <= 0x7FFF_FFFF
            * 0xFFFF_FFFF_FFFF_FFFF) by (nonlinear_arith)
            requires
                -0x8000_0000 <= delta <= 0x7FFF_FFFF,
                0 <= grid.0 <= 0xFFFF_FFFF_FFFF_FFFF,
        ;
        let product: i128 = (delta as i128) * (grid.0 as i128);
        let step: i32 = if product > i32::MAX as i128 {
            i32::MAX
        } else if product < i32::MIN as i128 {
            i32::MIN
        } else {
            product as i32
        };
        self.move_tile_cursor(step, grid)
    }

    /// Move by `delta` pages, staying within the pages there are. The
    /// cursor lands on the first tile of the new page.
    pub fn move_tile_page(&mut self, delta: i32, grid: (usize, usize))
        requires
            grid.0 * grid.1 <= usize::MAX,
        ensures
            final(self)@ == old(self)@.move_tile_page(delta, grid),
    {
        let per_page: usize = grid.0 * grid.1;
        let len: usize = self.images.len();
        if len == 0 || per_page == 0 {
            return ;
        }
        let page: usize = self.tile_cursor / per_page;
        let max_page: usize = (len - 1) / per_page;
        let wanted: i128 = page as i128 + delta as i128;
        let new_page: usize = if wanted < 0 {
            0
        } else if wanted > max_page as i128 {
            max_page
        } else {
            wanted as usize
        };
        if new_page == page {
            return ;
        }
        proof {
            vstd::arithmetic::div_mod::lemma_fundamental_div_mod(len - 1, per_page as int);
            vstd::arithmetic::div_mod::lemma_mod_bound(len - 1, per_page as int);
            assert(new_page * per_page <= max_page * per_page) by (nonlinear_arith)
                requires
                    0 <= new_page <= max_page,
                    per_page > 0,
            ;
            assert(max_page * per_page == per_page * max_page) by (nonlinear_arith);
        }
        self.prev_tile_cursor = Some(self.tile_cursor);
        self.tile_cursor = new_page * per_page;
        self.invalidate_render();
    }

    /// Make the tile under the cursor the selected image and show it alone.
    pub fn select_tile(&mut self)
        ensures
            final(self)@ == old(self)@.select_tile(),
    {
        if self.images.len() == 0 {
            return ;
        }
        let last: usize = self.images.len() - 1;
        self.current_index = if self.tile_cursor < self.images.len() {
            self.tile_cursor
        } else {
            last
        };
        self.view_mode = ViewMode::Single;
        self.invalidate_render();
    }

    /// Go to an image by index; an index past the end goes to the last
    /// image. Selection and tile cursor move together.
    pub fn go_to_index_with_tile(&mut self, index: usize)
        ensures
            final(self)@ == old(self)@.go_to_index_with_tile(index),
    {
        if self.images.len() == 0 {
            return ;
        }
        let last: usize = self.images.len() - 1;
        let target: usize = if index < self.images.len() { index } else { last };
        self.current_index = target;
        self.tile_cursor = target;
        self.prev_tile_cursor = None;
        self.invalidate_render();
    }

    /// Whether a transmission is in flight.
    pub fn is_transmitting(&self) -> (b: bool)
        ensures
            b == self@.in_flight_transmit,
    {
        self.in_flight_transmit
    }

    /// Queue a status update for the writer.
    pub fn send_status(&mut self, text: String, size: (u16, u16), indicator: StatusIndicator)
        ensures
            final(self)@ == old(self)@.sent(
                CommandModel::Writer(RequestModel::Status { text: text@, size, indicator }),
            ),
    {
        self.send(Command::Writer(WriterRequest::Status { text, size, indicator }));
    }

    /// Cancel the image output in flight.
    pub fn cancel_image_output(&mut self)
        ensures
            final(self)@ == old(self)@.cancel_image_output(),
    {
        self.render_epoch = if self.render_epoch == u64::MAX {
            u64::MAX
        } else {
            self.render_epoch + 1
        };
        let cancel_area = self.pending_display;
        self.send(
            Command::Writer(WriterRequest::CancelImage { area: cancel_area, epoch: self.render_epoch }),
        );
        self.clear_after_nav = true;
        self.in_flight_transmit = false;
        self.pending_display = None;
        self.kgp_state.invalidate();
    }

    /// Ask the writer to remove the placed image, if one is on record.
    pub fn clear_kgp_overlay(&mut self)
        ensures
            final(self)@ == old(self)@.clear_kgp_overlay(),
    {
        match self.kgp_state.last_area() {
            Some(area) => {
                self.send(
                    Command::Writer(WriterRequest::ClearAll { area: Some(area), is_tmux: self.is_tmux }),
                );
            },
            None => {},
        }
    }

    fn forget_renders(&mut self)
        ensures
            final(self)@ == old(self)@.forget_renders(),
    {
        self.render_cache.clear();
        self.pending_request = None;
        self.kgp_state = KgpState::new();
        self.prefetch_worker.cancel();
        self.last_prefetch_signature = None;
    }

    /// Drop caches and state so that the next tick renders afresh.
    pub fn reload(&mut self)
        ensures
            final(self)@ == old(self)@.reload(),
    {
        self.cancel_image_output();
        self.forget_renders();
    }

    /// The terminal changed size: remove the placed image and render
    /// afresh.
    pub fn handle_resize(&mut self)
        ensures
            final(self)@ == old(self)@.handle_resize(),
    {
        self.clear_kgp_overlay();
        self.reload();
    }

    /// Copy the path of the selected image to the clipboard. Returns
    /// whether there is a selected image.
    pub fn copy_path_to_clipboard(&mut self) -> (copied: bool)
        ensures
            (final(self)@, copied) == old(self)@.copy_path_to_clipboard(),
    {
        if self.current_index >= self.images.len() {
            return false;
        }
        let data = self.images[self.current_index].as_str().as_bytes_vec();
        self.send(Command::Writer(WriterRequest::CopyToClipboard { data, is_tmux: self.is_tmux }));
        true
    }
}

impl AppModel {
    /// The state after a run of processor results.
    pub open spec fn accept_results(self, results: Seq<ImageResult>) -> AppModel
        decreases results.len(),
    {
        if results.len() == 0 {
            self
        } else {
            self.accept_result(results[0]).accept_results(results.drop_first())
        }
    }

    /// The state after a run of prefetch results, each with its epoch.
    pub open spec fn accept_all_prefetched(self, results: Seq<(u64, ImageResult)>) -> AppModel
        decreases results.len(),
    {
        if results.len() == 0 {
            self
        } else {
            self.accept_prefetched(results[0].0, results[0].1).accept_all_prefetched(
                results.drop_first(),
            )
        }
    }

    /// The state after a run of writer completions.
    pub open spec fn accept_completions(self, results: Seq<WriterResult>) -> AppModel
        decreases results.len(),
    {
        if results.len() == 0 {
            self
        } else {
            self.accept_completion(results[0]).accept_completions(results.drop_first())
        }
    }
}

impl App {
    /// Take a processor result into the render cache.
    pub fn accept_result(&mut self, result: ImageResult)
        ensures
            final(self)@ == old(self)@.accept_result(result),
    {
        let key = CacheKey { path: result.path, target: result.target, fit_mode: result.fit_mode };
        let settled: bool = match &self.pending_request {
            Some(pending) => pending.same(&key),
            None => false,
        };
        if settled {
            self.pending_request = None;
        }
        self.render_cache.insert(
            key,
            RenderedImage {
                original_size: result.original_size,
                actual_size: result.actual_size,
                encoded_chunks: result.encoded_chunks,
            },
        );
    }

    /// Take a prefetch result into the render cache, unless it is stale or
    /// its key is cached already.
    pub fn accept_prefetched(&mut self, epoch: u64, result: ImageResult)
        ensures
            final(self)@ == old(self)@.accept_prefetched(epoch, result),
    {
        let key = CacheKey { path: result.path, target: result.target, fit_mode: result.fit_mode };
        if epoch < self.prefetch_worker.current_epoch() || self.render_cache.contains_key(&key) {
            return ;
        }
        self.render_cache.insert(
            key,
            RenderedImage {
                original_size: result.original_size,
                actual_size: result.actual_size,
                encoded_chunks: result.encoded_chunks,
            },
        );
    }

    /// Take in what the processor and the prefetch pool have completed.
    pub fn poll_worker(&mut self, results: Vec<ImageResult>, prefetched: Vec<(u64, ImageResult)>)
        ensures
            final(self)@ == old(self)@.accept_results(results@).accept_all_prefetched(prefetched@),
    {
        let ghost all_results = results@;
        let ghost all_prefetched = prefetched@;
        let mut results = results;
        let mut prefetched = prefetched;
        while results.len() > 0
            invariant
                self@.accept_results(results@) == old(self)@.accept_results(all_results),
            decreases results@.len(),
        {
            let ghost before = results@;
            let result = results.remove(0);
            assert(results@ =~= before.drop_first());
            self.accept_result(result);
        }
        while prefetched.len() > 0
            invariant
                self@.accept_all_prefetched(prefetched@) == old(self)@.accept_results(
                    all_results,
                ).accept_all_prefetched(all_prefetched),
            decreases prefetched@.len(),
        {
            let ghost before = prefetched@;
            let (epoch, result) = prefetched.remove(0);
            assert(prefetched@ =~= before.drop_first());
            self.accept_prefetched(epoch, result);
        }
    }

    /// Take in one completion of the writer.
    pub fn accept_completion(&mut self, result: WriterResult)
        ensures
            final(self)@ == old(self)@.accept_completion(result),
    {
        if result.epoch != self.render_epoch {
            return ;
        }
        match result.kind {
            WriterResultKind::TransmitDone { .. } => {
                self.in_flight_transmit = false;
            },
        }
        match self.pending_display.take() {
            Some(area) => {
                self.kgp_state.set_last(area, self.kgp_id);
            },
            None => {},
        }
    }

    /// Take in what the writer has completed.
    pub fn poll_writer(&mut self, results: Vec<WriterResult>)
        ensures
            final(self)@ == old(self)@.accept_completions(results@),
    {
        let mut i: usize = 0;
        assert(results@.subrange(0, results@.len() as int) =~= results@);
        while i < results.len()
            invariant
                i <= results@.len(),
                self@.accept_completions(results@.subrange(i as int, results@.len() as int)) == old(
                    self,
                )@.accept_completions(results@),
            decreases results@.len() - i,
        {
            let ghost rest = results@.subrange(i as int, results@.len() as int);
            assert(rest.drop_first() =~= results@.subrange(i as int + 1, results@.len() as int));
            self.accept_completion(results[i]);
            i = i + 1;
        }
    }

    /// The pixel box of the image area.
    fn target_pixels(&self, image_area: Rect) -> (target: (u32, u32))
        ensures
            target == self@.target(image_area),
    {
        assert(image_area.width * self.cell_size.0 <= 0xFFFF * 0xFFFF && image_area.height
            * self.cell_size.1 <= 0xFFFF * 0xFFFF) by (nonlinear_arith)
            requires
                0 <= image_area.width <= 0xFFFF,
                0 <= image_area.height <= 0xFFFF,
                0 <= self.cell_size.0 <= 0xFFFF,
                0 <= self.cell_size.1 <= 0xFFFF,
        ;
        (
            image_area.width as u32 * self.cell_size.0 as u32,
            image_area.height as u32 * self.cell_size.1 as u32,
        )
    }

    /// The cache key of a tile page.
    fn tile_page_key(&self, page_start: usize, target: (u32, u32)) -> (key: CacheKey)
        ensures
            key@ == (tile_page_name(page_start as nat), target, self.fit_mode),
    {
        let mut name = String::from_str("__tile_page_");
        push_number(&mut name, page_start as u128);
        CacheKey { path: name, target, fit_mode: self.fit_mode }
    }

    /// The cache key of what the current view shows.
    fn view_key(&self, image_area: Rect, grid: (usize, usize)) -> (key: Option<CacheKey>)
        requires
            grid.0 * grid.1 <= usize::MAX,
        ensures
            match key {
                Some(k) => self@.view_key(image_area, grid) == Some(k@),
                None => self@.view_key(image_area, grid) is None,
            },
    {
        let target = self.target_pixels(image_area);
        match self.view_mode {
            ViewMode::Single => {
                if self.current_index < self.images.len() {
                    Some(
                        CacheKey {
                            path: self.images[self.current_index].clone(),
                            target,
                            fit_mode: self.fit_mode,
                        },
                    )
                } else {
                    None
                }
            },
            ViewMode::Tile => {
                let per_page: usize = grid.0 * grid.1;
                if per_page == 0 {
                    None
                } else {
                    proof {
                        vstd::arithmetic::div_mod::lemma_fundamental_div_mod(
                            self.tile_cursor as int,
                            per_page as int,
                        );
                        vstd::arithmetic::div_mod::lemma_mod_bound(
                            self.tile_cursor as int,
                            per_page as int,
                        );
                        assert((self.tile_cursor as int / per_page as int) * per_page
                            == per_page * (self.tile_cursor as int / per_page as int))
                            by (nonlinear_arith);
                    }
                    Some(self.tile_page_key((self.tile_cursor / per_page) * per_page, target))
                }
            },
        }
    }

    /// The indicator for an image area and a grid.
    pub fn status_indicator_at(
        &self,
        image_area: Rect,
        grid: (usize, usize),
        allow_transmission: bool,
    ) -> (indicator: StatusIndicator)
        requires
            image_area.wf(),
            grid.0 * grid.1 <= usize::MAX,
        ensures
            indicator == self@.status_indicator(image_area, grid, allow_transmission),
    {
        if !allow_transmission || self.pending_display.is_some() || self.in_flight_transmit {
            return StatusIndicator::Busy;
        }
        if self.cell_size.0 == 0 || self.cell_size.1 == 0 || image_area.width == 0
            || image_area.height == 0 {
            return StatusIndicator::Busy;
        }
        let key = match self.view_key(image_area, grid) {
            Some(key) => key,
            None => {
                return StatusIndicator::Busy;
            },
        };
        let rendered = match self.render_cache.peek(&key) {
            Some(rendered) => rendered,
            None => {
                return StatusIndicator::Busy;
            },
        };
        let area = place_image(self.view_mode, image_area, self.cell_size, rendered.actual_size);
        if self.kgp_state.last_area() != Some(area) || self.kgp_state.last_kgp_id() != Some(
            self.kgp_id,
        ) {
            return StatusIndicator::Busy;
        }
        match self.view_mode {
            ViewMode::Single => match self.fit_mode {
                FitMode::Fit => StatusIndicator::Fit,
                FitMode::Normal => StatusIndicator::Ready,
            },
            ViewMode::Tile => StatusIndicator::Tile,
        }
    }

    /// Compute the tile grid for a terminal and a cell aspect ratio given in
    /// thousandths.
    pub fn calculate_tile_grid(terminal_size: Rect, cell_aspect_ratio: u32) -> (grid: (usize, usize))
        ensures
            grid == grid_for(image_area_of(terminal_size), cell_aspect_ratio),
            2 <= grid.0 <= 6,
            2 <= grid.1 <= 6,
    {
        calculate_tile_grid(terminal_size, cell_aspect_ratio)
    }

    /// The indicator for a terminal size.
    pub fn status_indicator(&self, terminal_size: Rect, allow_transmission: bool) -> (indicator:
        StatusIndicator)
        ensures
            indicator == self@.status_indicator(
                image_area_of(terminal_size),
                grid_for(image_area_of(terminal_size), self@.config.cell_aspect_ratio),
                allow_transmission,
            ),
    {
        let area = image_area(terminal_size);
        let grid = tile_grid_for(area, self.config.cell_aspect_ratio);
        assert(grid.0 * grid.1 <= 36) by (nonlinear_arith)
            requires
                0 <= grid.0 <= 6,
                0 <= grid.1 <= 6,
        ;
        self.status_indicator_at(area, grid, allow_transmission)
    }

    /// The paths of the images from `start` on, at most a page of them.
    fn page_paths(&self, grid: (usize, usize), start: usize) -> (paths: Vec<String>)
        requires
            grid.0 * grid.1 <= usize::MAX,
        ensures
            texts(paths@) == self@.page_paths(grid, start as int),
    {
        let per_page: usize = grid.0 * grid.1;
        let mut paths: Vec<String> = Vec::new();
        let len: usize = self.images.len();
        if start >= len {
            assert(texts(paths@) =~= self@.page_paths(grid, start as int));
            return paths;
        }
        let end: usize = if per_page < len - start { start + per_page } else { len };
        let mut i: usize = start;
        while i < end
            invariant
                start <= i <= end <= self.images@.len(),
                texts(paths@) == texts(self.images@).subrange(start as int, i as int),
            decreases end - i,
        {
            let ghost before = texts(paths@);
            let path = self.images[i].clone();
            assert(path@ == self.images@[i as int]@);
            paths.push(path);
            assert(texts(paths@) =~= before.push(self.images@[i as int]@));
            assert(texts(self.images@).subrange(start as int, i as int + 1) =~= texts(
                self.images@,
            ).subrange(start as int, i as int).push(self.images@[i as int]@));
            i = i + 1;
        }
        paths
    }

    fn make_request(
        &self,
        key: &CacheKey,
        tiles: Option<(Vec<String>, (usize, usize))>,
    ) -> (req: ImageRequest)
        ensures
            req@ == self@.worker_request(
                key@,
                match tiles {
                    Some((paths, grid)) => Some((texts(paths@), grid)),
                    None => None,
                },
            ),
    {
        let (view_mode, tile_paths, tile_grid, cell_size) = match tiles {
            Some((paths, grid)) => (ViewMode::Tile, Some(paths), Some(grid), Some(self.cell_size)),
            None => (ViewMode::Single, None, None, None),
        };
        ImageRequest {
            path: key.path.clone(),
            target: key.target,
            fit_mode: self.fit_mode,
            kgp_id: self.kgp_id,
            is_tmux: self.is_tmux,
            compress_level: self.config.compression_level(),
            tmux_kitty_max_pixels: self.config.tmux_kitty_max_pixels,
            trace_worker: self.config.trace_worker,
            resize_filter: self.config.resize_filter,
            view_mode,
            tile_paths,
            tile_grid,
            cell_size,
            tile_filter: self.config.tile_filter,
        }
    }

    fn show_cached(&mut self, key: &CacheKey, image_area: Rect)
        requires
            image_area.wf(),
            old(self).cell_size.0 != 0,
            old(self).cell_size.1 != 0,
            has_key(old(self)@.cache, key@),
        ensures
            final(self)@ == old(self)@.show_cached(
                key@,
                value_of(old(self)@.cache, key@)->0,
                image_area,
            ),
    {
        let (actual_size, chunks) = match self.render_cache.peek(key) {
            Some(rendered) => (rendered.actual_size, rendered.encoded_chunks.clone()),
            None => {
                return ;
            },
        };
        let _ = self.render_cache.touch(key);
        let area = place_image(self.view_mode, image_area, self.cell_size, actual_size);
        if self.kgp_state.last_area() == Some(area) && self.kgp_state.last_kgp_id() == Some(
            self.kgp_id,
        ) {
            return ;
        }
        if self.pending_display == Some(area) || self.in_flight_transmit {
            return ;
        }
        self.in_flight_transmit = true;
        if self.clear_after_nav {
            self.send(Command::Writer(WriterRequest::ClearAll { area: None, is_tmux: self.is_tmux }));
            self.clear_after_nav = false;
        }
        let old_area = self.kgp_state.last_area();
        self.send(
            Command::Writer(
                WriterRequest::ImageTransmit {
                    encoded_chunks: chunks,
                    area,
                    kgp_id: self.kgp_id,
                    old_area,
                    epoch: self.render_epoch,
                    is_tmux: self.is_tmux,
                },
            ),
        );
        self.pending_display = Some(area);
    }

    fn request_render(&mut self, key: CacheKey, tiles: Option<(Vec<String>, (usize, usize))>)
        ensures
            final(self)@ == old(self)@.request_render(
                key@,
                match tiles {
                    Some((paths, grid)) => Some((texts(paths@), grid)),
                    None => None,
                },
            ),
    {
        let asked: bool = match &self.pending_request {
            Some(pending) => pending.same(&key),
            None => false,
        };
        if asked {
            return ;
        }
        let req = self.make_request(&key, tiles);
        self.send(Command::Worker(req));
        self.pending_request = Some(key);
    }

    /// Reconcile what is shown with what should be shown, for an image
    /// area and a grid.
    pub fn prepare_render_request_at(
        &mut self,
        image_area: Rect,
        grid: (usize, usize),
        allow_transmission: bool,
    )
        requires
            image_area.wf(),
            grid.0 * grid.1 <= usize::MAX,
        ensures
            final(self)@ == old(self)@.prepare_render(image_area, grid, allow_transmission),
    {
        if !allow_transmission {
            return ;
        }
        if self.cell_size.0 == 0 || self.cell_size.1 == 0 || image_area.width == 0
            || image_area.height == 0 {
            return ;
        }
        let key = match self.view_key(image_area, grid) {
            Some(key) => key,
            None => {
                return ;
            },
        };
        let tiles: Option<(Vec<String>, (usize, usize))> = match self.view_mode {
            ViewMode::Single => None,
            ViewMode::Tile => {
                let per_page: usize = grid.0 * grid.1;
                proof {
                    vstd::arithmetic::div_mod::lemma_fundamental_div_mod(
                        self.tile_cursor as int,
                        per_page as int,
                    );
                    vstd::arithmetic::div_mod::lemma_mod_bound(
                        self.tile_cursor as int,
                        per_page as int,
                    );
                    assert((self.tile_cursor as int / per_page as int) * per_page == per_page * (
                    self.tile_cursor as int / per_page as int)) by (nonlinear_arith);
                }
                let paths = self.page_paths(grid, (self.tile_cursor / per_page) * per_page);
                if paths.len() == 0 {
                    return ;
                }
                Some((paths, grid))
            },
        };
        if self.render_cache.contains_key(&key) {
            self.show_cached(&key, image_area);
        } else {
            self.request_render(key, tiles);
        }
    }

    /// Reconcile what is shown with what should be shown. While
    /// transmission is not allowed this does nothing, so that navigation
    /// stays responsive.
    pub fn prepare_render_request(&mut self, terminal_size: Rect, allow_transmission: bool)
        ensures
            final(self)@ == old(self)@.prepare_render(
                image_area_of(terminal_size),
                grid_for(image_area_of(terminal_size), old(self)@.config.cell_aspect_ratio),
                allow_transmission,
            ),
            !allow_transmission ==> final(self)@ == old(self)@,
    {
        let area = image_area(terminal_size);
        let grid = tile_grid_for(area, self.config.cell_aspect_ratio);
        assert(grid.0 * grid.1 <= 36) by (nonlinear_arith)
            requires
                0 <= grid.0 <= 6,
                0 <= grid.1 <= 6,
        ;
        self.prepare_render_request_at(area, grid, allow_transmission);
    }

    /// Ask the writer to draw the tile cursor, for an image area and a
    /// grid.
    pub fn draw_tile_cursor_at(&mut self, image_area: Rect, grid: (usize, usize))
        requires
            grid.0 * grid.1 <= usize::MAX,
        ensures
            final(self)@ == old(self)@.draw_tile_cursor(image_area, grid),
    {
        let per_page: usize = grid.0 * grid.1;
        if per_page == 0 {
            return ;
        }
        let prev_cursor_idx: Option<usize> = match self.prev_tile_cursor {
            Some(prev) => Some(prev % per_page),
            None => None,
        };
        self.send(
            Command::Writer(
                WriterRequest::TileCursor {
                    grid,
                    cursor_idx: self.tile_cursor % per_page,
                    image_area,
                    prev_cursor_idx,
                    cell_size: self.cell_size,
                },
            ),
        );
    }

    /// Ask the writer to draw the tile cursor.
    pub fn draw_tile_cursor(&mut self, terminal_size: Rect)
        ensures
            final(self)@ == old(self)@.draw_tile_cursor(
                image_area_of(terminal_size),
                grid_for(image_area_of(terminal_size), old(self)@.config.cell_aspect_ratio),
            ),
    {
        let area = image_area(terminal_size);
        let grid = tile_grid_for(area, self.config.cell_aspect_ratio);
        assert(grid.0 * grid.1 <= 36) by (nonlinear_arith)
            requires
                0 <= grid.0 <= 6,
                0 <= grid.1 <= 6,
        ;
        self.draw_tile_cursor_at(area, grid);
    }
}

/// The indices around `current` in the order they are prefetched: one
/// ahead, one back, two ahead, two back, up to `steps` away, each going
/// round the ends of a list of `len` entries.
pub open spec fn adjacent_indices(current: int, len: int, steps: nat) -> Seq<int>
    decreases steps,
{
    if steps == 0 {
        Seq::<int>::empty()
    } else {
        adjacent_indices(current, len, (steps - 1) as nat).push(
            wrapped(current, steps as int, len),
        ).push(wrapped(current, -(steps as int), len))
    }
}

/// How far the sweep has to go: `count` steps, but by `len` steps every
/// index of the list has been met, so further steps add nothing new.
pub open spec fn sweep_steps(count: usize, len: nat) -> nat {
    if count < len { count as nat } else { len }
}

/// Number of pages that `len` images fill.
pub open spec fn total_pages(len: nat, per_page: nat) -> nat {
    (len + per_page - 1) as nat / per_page
}

impl AppModel {
    /// The paths to prefetch for a run of indices: each index once, at its
    /// first occurrence, and only if no artifact is cached for it.
    pub open spec fn prefetch_paths(self, indices: Seq<int>, target: (u32, u32)) -> Seq<Seq<char>>
        decreases indices.len(),
    {
        if indices.len() == 0 {
            Seq::<Seq<char>>::empty()
        } else {
            let head = indices.drop_last();
            let idx = indices.last();
            let rest = self.prefetch_paths(head, target);
            if head.contains(idx) || has_key(
                self.cache,
                (self.images[idx], target, self.fit_mode),
            ) {
                rest
            } else {
                rest.push(self.images[idx])
            }
        }
    }

    /// The state after a prefetch sweep in the single view. Nothing is
    /// submitted when nothing can be shown, when there is no other image,
    /// when the sweep was made before, or when every neighbour is cached.
    pub open spec fn prefetch_single(self, image_area: Rect) -> AppModel {
        let target = self.target(image_area);
        let signature = PrefetchSignature {
            view_mode: ViewMode::Single,
            fit_mode: self.fit_mode,
            target,
            prefetch_count: self.config.prefetch_count,
            anchor: self.current_index,
            grid: None,
        };
        let paths = self.prefetch_paths(
            adjacent_indices(
                self.current_index as int,
                self.images.len() as int,
                sweep_steps(self.config.prefetch_count, self.images.len()),
            ),
            target,
        );
        if !self.usable(image_area) || self.images.len() <= 1 || self.last_prefetch_signature
            == Some(signature) || paths.len() == 0 {
            self
        } else {
            AppModel { last_prefetch_signature: Some(signature), ..self }.sent(
                CommandModel::Prefetch(
                    PrefetchRequestModel {
                        paths,
                        target,
                        fit_mode: self.fit_mode,
                        epoch: self.prefetch_epoch,
                        kgp_id: self.kgp_id,
                        is_tmux: self.is_tmux,
                        compress_level: self.config.compression(),
                        tmux_kitty_max_pixels: self.config.tmux_kitty_max_pixels,
                        resize_filter: self.config.resize_filter,
                    },
                ),
            )
        }
    }

    /// Whether a page is worth composing ahead: it holds images and no
    /// artifact is cached for it.
    pub open spec fn wants_page(self, grid: (usize, usize), target: (u32, u32), page: int) -> bool {
        &&& 0 <= page
        &&& page * (grid.0 * grid.1) < self.images.len()
        &&& !has_key(
            self.cache,
            (tile_page_name((page * (grid.0 * grid.1)) as nat), target, self.fit_mode),
        )
    }

    /// The first page worth composing ahead, looking `i` pages ahead, then
    /// `i` pages back, then further out, up to `count` pages away. Pages do
    /// not go round.
    pub open spec fn prefetch_page_from(
        self,
        grid: (usize, usize),
        target: (u32, u32),
        i: nat,
        count: nat,
    ) -> Option<int>
        decreases count + 1 - i,
    {
        if i > count {
            None
        } else {
            let page = self.tile_cursor as int / (grid.0 * grid.1);
            if self.wants_page(grid, target, page + i) {
                Some(page + i)
            } else if self.wants_page(grid, target, page - i) {
                Some(page - i)
            } else {
                self.prefetch_page_from(grid, target, i + 1, count)
            }
        }
    }

    /// The state after a prefetch sweep in the tile view: one page is
    /// handed to the processor, the first that is worth it.
    pub open spec fn prefetch_tile(self, image_area: Rect, grid: (usize, usize)) -> AppModel {
        let target = self.target(image_area);
        let per_page = grid.0 * grid.1;
        let signature = PrefetchSignature {
            view_mode: ViewMode::Tile,
            fit_mode: self.fit_mode,
            target,
            prefetch_count: self.config.prefetch_count,
            anchor: (self.tile_cursor as int / per_page) as usize,
            grid: Some(grid),
        };
        if !self.usable(image_area) || per_page == 0 || total_pages(
            self.images.len(),
            per_page as nat,
        ) <= 1 || self.last_prefetch_signature == Some(signature) {
            self
        } else {
            match self.prefetch_page_from(grid, target, 1, self.config.prefetch_count as nat) {
                None => self,
                Some(page) => {
                    let key = (tile_page_name((page * per_page) as nat), target, self.fit_mode);
                    AppModel { last_prefetch_signature: Some(signature), ..self }.sent(
                        CommandModel::Worker(
                            self.worker_request(
                                key,
                                Some((self.page_paths(grid, page * per_page), grid)),
                            ),
                        ),
                    )
                },
            }
        }
    }

    /// The state after prefetching was considered. Nothing is prefetched
    /// while a processor request is outstanding or when the prefetch count
    /// is zero.
    pub open spec fn prefetch_adjacent(self, image_area: Rect, grid: (usize, usize)) -> AppModel {
        if self.pending_request is Some || self.config.prefetch_count == 0 {
            self
        } else {
            match self.view_mode {
                ViewMode::Single => self.prefetch_single(image_area),
                ViewMode::Tile => self.prefetch_tile(image_area, grid),
            }
        }
    }

    /// Beyond the last page ahead and the first page back no page is worth
    /// composing.
    pub proof fn lemma_no_page_beyond(
        self,
        grid: (usize, usize),
        target: (u32, u32),
        i: nat,
        count: nat,
    )
        requires
            grid.0 * grid.1 > 0,
            i > self.tile_cursor as int / (grid.0 * grid.1),
            (self.tile_cursor as int / (grid.0 * grid.1) + i) * (grid.0 * grid.1)
                >= self.images.len(),
        ensures
            self.prefetch_page_from(grid, target, i, count) is None,
        decreases count + 1 - i,
    {
        if i <= count {
            let per_page = grid.0 * grid.1;
            let page = self.tile_cursor as int / per_page;
            assert((page + i + 1) * per_page >= (page + i) * per_page) by (nonlinear_arith)
                requires
                    per_page > 0,
            ;
            self.lemma_no_page_beyond(grid, target, i + 1, count);
        }
    }

    /// The name of the selected image: the file name of its path.
    pub open spec fn image_name(self, index: usize) -> Seq<char> {
        if index < self.images.len() {
            match file_name_of(self.images[index as int]) {
                Some(name) => name,
                None => "unknown"@,
            }
        } else {
            "unknown"@
        }
    }

    /// Index of the oldest cache entry for a path, or the number of entries
    /// if there is none.
    pub open spec fn first_entry_for(self, path: Seq<char>, from: int) -> int
        decreases self.cache.len() - from,
    {
        if from >= self.cache.len() || from < 0 {
            self.cache.len() as int
        } else if self.cache[from].0.0 == path {
            from
        } else {
            self.first_entry_for(path, from + 1)
        }
    }

    /// The original size of the selected image, known once an artifact of
    /// it is cached.
    pub open spec fn current_resolution(self) -> Option<(u32, u32)> {
        match self.current_path() {
            Some(path) => {
                let i = self.first_entry_for(path, 0);
                if i < self.cache.len() {
                    Some(self.cache[i].1.original_size)
                } else {
                    None
                }
            },
            None => None,
        }
    }

    /// Position and name of the selected image.
    pub open spec fn position_text(self) -> Seq<char> {
        decimal_text((self.current_index + 1) as nat) + "/"@ + decimal_text(self.images.len())
            + " \u{e0b1} \u{e60d} "@ + self.image_name(self.current_index)
    }

    /// The resolution of the selected image in brackets, when known.
    pub open spec fn resolution_text(self) -> Seq<char> {
        match self.current_resolution() {
            Some((w, h)) => " ["@ + decimal_text(w as nat) + "x"@ + decimal_text(h as nat) + "]"@,
            None => Seq::<char>::empty(),
        }
    }

    /// What debugging adds to the status: the multiplexer, the terminal's
    /// capabilities and the cell size.
    pub open spec fn debug_text(self) -> Seq<char> {
        if self.config.debug {
            (if self.is_tmux { " tmux"@ } else { Seq::<char>::empty() }) + " caps:"@
                + self.capabilities + " cell:("@ + decimal_text(self.cell_size.0 as nat) + ", "@
                + decimal_text(self.cell_size.1 as nat) + ")"@
        } else {
            Seq::<char>::empty()
        }
    }

    /// The status text of the single view: position, name, and the
    /// resolution when known; with debugging on also the multiplexer, the
    /// terminal's capabilities and the cell size.
    pub open spec fn single_status(self) -> Seq<char> {
        self.position_text() + self.resolution_text() + self.debug_text()
    }

    /// The status text of the tile view: the range of the page, the number
    /// of images, and the name under the cursor.
    pub open spec fn tile_status(self, grid: (usize, usize)) -> Seq<char> {
        let start = self.page_start(grid);
        let end = if start + grid.0 * grid.1 < self.images.len() {
            start + grid.0 * grid.1
        } else {
            self.images.len() as int
        };
        "["@ + decimal_text((start + 1) as nat) + "-"@ + decimal_text(end as nat) + "/"@
            + decimal_text(self.images.len()) + "] \u{e0b1} \u{e60d} "@ + self.image_name(
            self.tile_cursor,
        )
    }

    /// The status text of the current view.
    pub open spec fn status_text(self, grid: (usize, usize)) -> Seq<char> {
        match self.view_mode {
            ViewMode::Single => self.single_status(),
            ViewMode::Tile => self.tile_status(grid),
        }
    }
}

/// Step `steps` entries ahead or back through a list, going round.
fn step_index(current: usize, steps: usize, len: usize, ahead: bool) -> (r: usize)
    requires
        len > 0,
    ensures
        r == wrapped(current as int, if ahead { steps as int } else { -(steps as int) }, len as int),
        r < len,
{
    let n: u128 = len as u128;
    let base: u128 = (current as u128) % n;
    let shift: u128 = (steps as u128) % n;
    proof {
        let c = current as int;
        let k = steps as int;
        let m = len as int;
        vstd::arithmetic::div_mod::lemma_mod_bound(c, m);
        vstd::arithmetic::div_mod::lemma_mod_bound(k, m);
        vstd::arithmetic::div_mod::lemma_add_mod_noop(c, k, m);
        vstd::arithmetic::div_mod::lemma_fundamental_div_mod(k, m);
        vstd::arithmetic::div_mod::lemma_fundamental_div_mod(c, m);
        assert(c - k == m * (c / m - k / m - 1) + (c % m + m - k % m)) by (nonlinear_arith)
            requires
                c == m * (c / m) + c % m,
                k == m * (k / m) + k % m,
        ;
        vstd::arithmetic::div_mod::lemma_mod_multiples_vanish(
            c / m - k / m - 1,
            c % m + m - k % m,
            m,
        );
        vstd::arithmetic::div_mod::lemma_mod_bound(c + k, m);
        vstd::arithmetic::div_mod::lemma_mod_bound(c - k, m);
    }
    if ahead {
        ((base + shift) % n) as usize
    } else {
        ((base + n - shift) % n) as usize
    }
}

impl App {
    /// Whether one of the first `upto` indices is `idx`.
    fn seen_before(indices: &Vec<usize>, upto: usize, idx: usize) -> (b: bool)
        requires
            upto <= indices@.len(),
        ensures
            b == indices@.subrange(0, upto as int).contains(idx),
    {
        let mut i: usize = 0;
        while i < upto
            invariant
                i <= upto <= indices@.len(),
                forall|j: int| 0 <= j < i ==> indices@[j] != idx,
            decreases upto - i,
        {
            if indices[i] == idx {
                assert(indices@.subrange(0, upto as int)[i as int] == idx);
                return true;
            }
            i = i + 1;
        }
        assert(!indices@.subrange(0, upto as int).contains(idx)) by {
            if indices@.subrange(0, upto as int).contains(idx) {
                let j = choose|j: int|
                    0 <= j < upto && indices@.subrange(0, upto as int)[j] == idx;
                assert(indices@[j] == idx);
            }
        }
        false
    }

    fn prefetch_adjacent_single(&mut self, image_area: Rect)
        ensures
            final(self)@ == old(self)@.prefetch_single(image_area),
    {
        if self.cell_size.0 == 0 || self.cell_size.1 == 0 || image_area.width == 0
            || image_area.height == 0 {
            return ;
        }
        let target = self.target_pixels(image_area);
        let len: usize = self.images.len();
        if len <= 1 {
            return ;
        }
        let prefetch_count: usize = self.config.prefetch_count;
        let signature = PrefetchSignature {
            view_mode: ViewMode::Single,
            fit_mode: self.fit_mode,
            target,
            prefetch_count,
            anchor: self.current_index,
            grid: None,
        };
        let repeated: bool = match &self.last_prefetch_signature {
            Some(last) => last.same(&signature),
            None => false,
        };
        if repeated {
            return ;
        }
        let steps: usize = if prefetch_count < len { prefetch_count } else { len };
        let ghost model = self@;
        let ghost current = self.current_index as int;
        let mut indices: Vec<usize> = Vec::new();
        let mut done: usize = 0;
        assert(indices@.map_values(|v: usize| v as int) =~= adjacent_indices(
            current,
            len as int,
            0,
        ));
        while done < steps
            invariant
                done <= steps <= len,
                len == self.images@.len(),
                len > 0,
                current == self.current_index,
                indices@.map_values(|v: usize| v as int) == adjacent_indices(
                    current,
                    len as int,
                    done as nat,
                ),
                forall|j: int| 0 <= j < indices@.len() ==> indices@[j] < len,
            decreases steps - done,
        {
            let ahead = step_index(self.current_index, done + 1, len, true);
            let back = step_index(self.current_index, done + 1, len, false);
            indices.push(ahead);
            indices.push(back);
            done = done + 1;
            assert(indices@.map_values(|v: usize| v as int) =~= adjacent_indices(
                current,
                len as int,
                done as nat,
            ));
        }
        let ghost wanted = adjacent_indices(current, len as int, steps as nat);
        let mut paths: Vec<String> = Vec::new();
        let mut k: usize = 0;
        assert(wanted.subrange(0, 0) =~= Seq::<int>::empty());
        while k < indices.len()
            invariant
                k <= indices@.len(),
                len == self.images@.len(),
                self@ == model,
                indices@.map_values(|v: usize| v as int) == wanted,
                forall|j: int| 0 <= j < indices@.len() ==> indices@[j] < len,
                target == model.target(image_area),
                texts(paths@) == model.prefetch_paths(wanted.subrange(0, k as int), target),
            decreases indices@.len() - k,
        {
            let idx: usize = indices[k];
            let ghost upto = wanted.subrange(0, k as int + 1);
            proof {
                assert(upto.drop_last() =~= wanted.subrange(0, k as int));
                assert(upto.last() == idx as int);
                assert(wanted.subrange(0, k as int).contains(idx as int) <==> indices@.subrange(
                    0,
                    k as int,
                ).contains(idx)) by {
                    if wanted.subrange(0, k as int).contains(idx as int) {
                        let j = choose|j: int|
                            0 <= j < k && wanted.subrange(0, k as int)[j] == idx as int;
                        assert(indices@.subrange(0, k as int)[j] == idx);
                    }
                    if indices@.subrange(0, k as int).contains(idx) {
                        let j = choose|j: int|
                            0 <= j < k && indices@.subrange(0, k as int)[j] == idx;
                        assert(wanted.subrange(0, k as int)[j] == idx as int);
                    }
                }
            }
            if !Self::seen_before(&indices, k, idx) {
                let key = CacheKey {
                    path: self.images[idx].clone(),
                    target,
                    fit_mode: self.fit_mode,
                };
                if !self.render_cache.contains_key(&key) {
                    let ghost before = texts(paths@);
                    paths.push(self.images[idx].clone());
                    assert(texts(paths@) =~= before.push(self.images@[idx as int]@));
                }
            }
            k = k + 1;
        }
        assert(wanted.subrange(0, wanted.len() as int) =~= wanted);
        if paths.len() == 0 {
            return ;
        }
        let req = PrefetchRequest {
            paths,
            target,
            fit_mode: self.fit_mode,
            epoch: self.prefetch_worker.current_epoch(),
            kgp_id: self.kgp_id,
            is_tmux: self.is_tmux,
            compress_level: self.config.compression_level(),
            tmux_kitty_max_pixels: self.config.tmux_kitty_max_pixels,
            resize_filter: self.config.resize_filter,
        };
        self.send(Command::Prefetch(req));
        self.last_prefetch_signature = Some(signature);
    }

    /// Whether a page is worth composing ahead.
    fn wants_page(&self, grid: (usize, usize), target: (u32, u32), page: usize) -> (b: bool)
        requires
            grid.0 * grid.1 <= usize::MAX,
            grid.0 * grid.1 > 0,
        ensures
            b == self@.wants_page(grid, target, page as int),
    {
        let per_page: usize = grid.0 * grid.1;
        let len: usize = self.images.len();
        proof {
            vstd::arithmetic::div_mod::lemma_fundamental_div_mod(len as int, per_page as int);
            vstd::arithmetic::div_mod::lemma_mod_bound(len as int, per_page as int);
            if page as int <= len as int / per_page as int {
                assert(page * per_page <= (len as int / per_page as int) * per_page)
                    by (nonlinear_arith)
                    requires
                        0 <= page as int <= len as int / per_page as int,
                        per_page > 0,
                ;
                assert((len as int / per_page as int) * per_page == per_page * (len as int
                    / per_page as int)) by (nonlinear_arith);
            } else {
                assert(page * per_page >= (len as int / per_page as int + 1) * per_page)
                    by (nonlinear_arith)
                    requires
                        page as int >= len as int / per_page as int + 1,
                        per_page > 0,
                ;
                assert((len as int / per_page as int + 1) * per_page == per_page * (len as int
                    / per_page as int) + per_page) by (nonlinear_arith);
            }
        }
        if page > len / per_page {
            return false;
        }
        let start: usize = page * per_page;
        if start >= len {
            return false;
        }
        let key = self.tile_page_key(start, target);
        !self.render_cache.contains_key(&key)
    }

    fn prefetch_adjacent_tile(&mut self, image_area: Rect, grid: (usize, usize))
        requires
            grid.0 * grid.1 <= usize::MAX,
        ensures
            final(self)@ == old(self)@.prefetch_tile(image_area, grid),
    {
        if self.cell_size.0 == 0 || self.cell_size.1 == 0 || image_area.width == 0
            || image_area.height == 0 {
            return ;
        }
        let target = self.target_pixels(image_area);
        let per_page: usize = grid.0 * grid.1;
        if per_page == 0 {
            return ;
        }
        let len: usize = self.images.len();
        let pages: u128 = (len as u128 + per_page as u128 - 1) / (per_page as u128);
        if pages <= 1 {
            return ;
        }
        let current_page: usize = self.tile_cursor / per_page;
        let prefetch_count: usize = self.config.prefetch_count;
        let signature = PrefetchSignature {
            view_mode: ViewMode::Tile,
            fit_mode: self.fit_mode,
            target,
            prefetch_count,
            anchor: current_page,
            grid: Some(grid),
        };
        let repeated: bool = match &self.last_prefetch_signature {
            Some(last) => last.same(&signature),
            None => false,
        };
        if repeated {
            return ;
        }
        let ghost model = self@;
        let mut found: Option<usize> = None;
        let mut i: usize = 1;
        loop
            invariant_except_break
                found is None,
                model.prefetch_page_from(grid, target, 1, prefetch_count as nat)
                    == model.prefetch_page_from(grid, target, i as nat, prefetch_count as nat),
            invariant
                1 <= i,
                per_page == grid.0 * grid.1,
                per_page > 0,
                current_page == self.tile_cursor / per_page,
                len == self.images@.len(),
                self@ == model,
                prefetch_count == model.config.prefetch_count,
            ensures
                match found {
                    Some(page) => model.prefetch_page_from(grid, target, 1, prefetch_count as nat)
                        == Some(page as int),
                    None => model.prefetch_page_from(grid, target, 1, prefetch_count as nat)
                        is None,
                },
            decreases prefetch_count + 1 - i,
        {
            if i > prefetch_count {
                break ;
            }
            let ahead_in_range: bool = i <= usize::MAX - current_page;
            if ahead_in_range && self.wants_page(grid, target, current_page + i) {
                found = Some(current_page + i);
                break ;
            }
            proof {
                if !ahead_in_range {
                    assert((current_page + i) * per_page >= len) by (nonlinear_arith)
                        requires
                            current_page + i > usize::MAX,
                            per_page >= 1,
                            len <= usize::MAX,
                    ;
                }
                assert(!model.wants_page(grid, target, current_page + i));
            }
            let back_in_range: bool = i <= current_page;
            if back_in_range && self.wants_page(grid, target, current_page - i) {
                found = Some(current_page - i);
                break ;
            }
            if !back_in_range {
                let beyond: bool = !ahead_in_range || len == 0 || current_page + i > (len - 1)
                    / per_page;
                if beyond {
                    proof {
                        if ahead_in_range && len > 0 {
                            let last_page = (len - 1) as int / per_page as int;
                            vstd::arithmetic::div_mod::lemma_fundamental_div_mod(
                                (len - 1) as int,
                                per_page as int,
                            );
                            vstd::arithmetic::div_mod::lemma_mod_bound(
                                (len - 1) as int,
                                per_page as int,
                            );
                            assert((current_page + i) * per_page >= per_page * last_page
                                + per_page) by (nonlinear_arith)
                                requires
                                    current_page + i >= last_page + 1,
                                    per_page > 0,
                            ;
                        }
                        if len == 0 {
                            assert((current_page + i) * per_page >= 0) by (nonlinear_arith)
                                requires
                                    current_page + i >= 0,
                                    per_page > 0,
                            ;
                        }
                        model.lemma_no_page_beyond(grid, target, i as nat, prefetch_count as nat);
                    }
                    break ;
                }
            }
            if i == usize::MAX {
                assert(model.prefetch_page_from(
                    grid,
                    target,
                    (i + 1) as nat,
                    prefetch_count as nat,
                ) is None);
                break ;
            }
            i = i + 1;
        }
        let page: usize = match found {
            Some(page) => page,
            None => {
                return ;
            },
        };
        proof {
            assert(model.wants_page(grid, target, page as int)) by {
                lemma_found_page_wanted(model, grid, target, 1, prefetch_count as nat);
            }
        }
        let start: usize = page * per_page;
        let key = self.tile_page_key(start, target);
        let paths = self.page_paths(grid, start);
        let req = self.make_request(&key, Some((paths, grid)));
        self.send(Command::Worker(req));
        self.last_prefetch_signature = Some(signature);
    }

    /// Prefetch what lies next to the current view, for an image area and a
    /// grid.
    pub fn prefetch_adjacent_at(&mut self, image_area: Rect, grid: (usize, usize))
        requires
            grid.0 * grid.1 <= usize::MAX,
        ensures
            final(self)@ == old(self)@.prefetch_adjacent(image_area, grid),
    {
        if self.pending_request.is_some() || self.config.prefetch_count == 0 {
            return ;
        }
        match self.view_mode {
            ViewMode::Single => self.prefetch_adjacent_single(image_area),
            ViewMode::Tile => self.prefetch_adjacent_tile(image_area, grid),
        }
    }

    /// Prefetch what lies next to the current view. To be called once the
    /// current view is displayed.
    pub fn prefetch_adjacent(&mut self, terminal_size: Rect)
        ensures
            final(self)@ == old(self)@.prefetch_adjacent(
                image_area_of(terminal_size),
                grid_for(image_area_of(terminal_size), old(self)@.config.cell_aspect_ratio),
            ),
    {
        let area = image_area(terminal_size);
        let grid = tile_grid_for(area, self.config.cell_aspect_ratio);
        assert(grid.0 * grid.1 <= 36) by (nonlinear_arith)
            requires
                0 <= grid.0 <= 6,
                0 <= grid.1 <= 6,
        ;
        self.prefetch_adjacent_at(area, grid);
    }

    fn image_name(&self, index: usize) -> (name: String)
        ensures
            name@ == self@.image_name(index),
    {
        if index < self.images.len() {
            match file_name(self.images[index].as_str()) {
                Some(name) => String::from_str(name),
                None => String::from_str("unknown"),
            }
        } else {
            String::from_str("unknown")
        }
    }

    /// The file name of the selected image, or `unknown`.
    pub fn current_image_name(&self) -> (name: String)
        ensures
            name@ == self@.image_name(self@.current_index),
    {
        self.image_name(self.current_index)
    }

    /// The original size of the selected image, from the cache.
    pub fn current_image_resolution(&self) -> (r: Option<(u32, u32)>)
        ensures
            r == self@.current_resolution(),
    {
        if self.current_index >= self.images.len() {
            return None;
        }
        let path = &self.images[self.current_index];
        let n: usize = self.render_cache.len();
        let mut i: usize = 0;
        assert(self@.current_path() == Some(path@));
        while i < n
            invariant
                i <= n,
                n == self@.cache.len(),
                self@.current_path() == Some(path@),
                self@.first_entry_for(path@, 0) == self@.first_entry_for(path@, i as int),
            decreases n - i,
        {
            let (key, rendered) = self.render_cache.entry(i);
            assert(key.path@ == self@.cache[i as int].0.0);
            if key.path == *path {
                assert(self@.first_entry_for(path@, i as int) == i);
                assert(*rendered == self@.cache[i as int].1);
                return Some(rendered.original_size);
            }
            i = i + 1;
        }
        None
    }

    fn push_position(&self, text: &mut String)
        ensures
            final(text)@ == old(text)@ + self@.position_text(),
    {
        push_number(text, self.current_index as u128 + 1);
        push_str(text, "/");
        push_number(text, self.images.len() as u128);
        push_str(text, " \u{e0b1} \u{e60d} ");
        let name = self.image_name(self.current_index);
        push_str(text, name.as_str());
        assert(text@ =~= old(text)@ + self@.position_text());
    }

    fn push_resolution(&self, text: &mut String)
        ensures
            final(text)@ == old(text)@ + self@.resolution_text(),
    {
        match self.current_image_resolution() {
            Some((w, h)) => {
                push_str(text, " [");
                push_number(text, w as u128);
                push_str(text, "x");
                push_number(text, h as u128);
                push_str(text, "]");
            },
            None => {},
        }
        assert(text@ =~= old(text)@ + self@.resolution_text());
    }

    fn push_debug(&self, text: &mut String)
        ensures
            final(text)@ == old(text)@ + self@.debug_text(),
    {
        if self.config.debug {
            if self.is_tmux {
                push_str(text, " tmux");
            }
            push_str(text, " caps:");
            push_str(text, self.capabilities.as_str());
            push_str(text, " cell:(");
            push_number(text, self.cell_size.0 as u128);
            push_str(text, ", ");
            push_number(text, self.cell_size.1 as u128);
            push_str(text, ")");
        }
        assert(text@ =~= old(text)@ + self@.debug_text());
    }

    fn tile_status(&self, grid: (usize, usize)) -> (text: String)
        requires
            grid.0 * grid.1 <= usize::MAX,
            grid.0 * grid.1 > 0,
        ensures
            text@ == self@.tile_status(grid),
    {
        let mut text = String::new();
        let per_page: usize = grid.0 * grid.1;
        proof {
            vstd::arithmetic::div_mod::lemma_fundamental_div_mod(
                self.tile_cursor as int,
                per_page as int,
            );
            vstd::arithmetic::div_mod::lemma_mod_bound(self.tile_cursor as int, per_page as int);
            assert((self.tile_cursor as int / per_page as int) * per_page == per_page * (
            self.tile_cursor as int / per_page as int)) by (nonlinear_arith);
        }
        let start: usize = (self.tile_cursor / per_page) * per_page;
        let len: usize = self.images.len();
        let end: u128 = if (start as u128) + (per_page as u128) < len as u128 {
            start as u128 + per_page as u128
        } else {
            len as u128
        };
        push_str(&mut text, "[");
        push_number(&mut text, start as u128 + 1);
        push_str(&mut text, "-");
        push_number(&mut text, end);
        push_str(&mut text, "/");
        push_number(&mut text, len as u128);
        push_str(&mut text, "] \u{e0b1} \u{e60d} ");
        let name = self.image_name(self.tile_cursor);
        push_str(&mut text, name.as_str());
        assert(text@ =~= self@.tile_status(grid));
        text
    }

    /// The status text for a grid.
    pub fn status_text_at(&self, grid: (usize, usize)) -> (text: String)
        requires
            grid.0 * grid.1 <= usize::MAX,
            self@.view_mode == ViewMode::Tile ==> grid.0 * grid.1 > 0,
        ensures
            text@ == self@.status_text(grid),
    {
        match self.view_mode {
            ViewMode::Single => {
                let mut text = String::new();
                self.push_position(&mut text);
                self.push_resolution(&mut text);
                self.push_debug(&mut text);
                assert(text@ =~= self@.single_status());
                text
            },
            ViewMode::Tile => self.tile_status(grid),
        }
    }

    /// The status text for a terminal size.
    pub fn status_text(&self, terminal_size: Rect) -> (text: String)
        ensures
            text@ == self@.status_text(
                grid_for(image_area_of(terminal_size), self@.config.cell_aspect_ratio),
            ),
    {
        let grid = calculate_tile_grid(terminal_size, self.config.cell_aspect_ratio);
        assert(4 <= grid.0 * grid.1 <= 36) by (nonlinear_arith)
            requires
                2 <= grid.0 <= 6,
                2 <= grid.1 <= 6,
        ;
        self.status_text_at(grid)
    }
}

/// A page that the search finds is worth composing.
pub proof fn lemma_found_page_wanted(
    model: AppModel,
    grid: (usize, usize),
    target: (u32, u32),
    i: nat,
    count: nat,
)
    ensures
        model.prefetch_page_from(grid, target, i, count) matches Some(page) ==> model.wants_page(
            grid,
            target,
            page,
        ),
    decreases count + 1 - i,
{
    if i <= count {
        lemma_found_page_wanted(model, grid, target, i + 1, count);
    }
}

/// The render cache holds no key twice and keeps its bound; a bound of
/// zero still leaves room for one entry.
pub open spec fn cache_sound(app: AppModel) -> bool {
    &&& distinct_keys(app.cache)
    &&& (app.cache.len() <= app.cache_limit || app.cache.len() <= 1)
}

/// A result of the processor leaves the render cache sound, with the
/// result's key at the most recent end.
pub proof fn lemma_result_keeps_cache_sound(app: AppModel, result: ImageResult)
    requires
        cache_sound(app),
    ensures
        cache_sound(app.accept_result(result)),
        app.accept_result(result).cache.last().0 == (result.path@, result.target, result.fit_mode),
        app.cache_limit >= 1 ==> app.accept_result(result).cache.len() <= app.cache_limit,
{
    lemma_inserted(
        app.cache,
        app.cache_limit,
        (result.path@, result.target, result.fit_mode),
        RenderedImage {
            original_size: result.original_size,
            actual_size: result.actual_size,
            encoded_chunks: result.encoded_chunks,
        },
    );
}

/// A result of the prefetch pool leaves the render cache sound.
pub proof fn lemma_prefetched_keeps_cache_sound(app: AppModel, epoch: u64, result: ImageResult)
    requires
        cache_sound(app),
    ensures
        cache_sound(app.accept_prefetched(epoch, result)),
        app.cache_limit >= 1 ==> app.accept_prefetched(epoch, result).cache.len()
            <= app.cache_limit,
{
    lemma_inserted(
        app.cache,
        app.cache_limit,
        (result.path@, result.target, result.fit_mode),
        RenderedImage {
            original_size: result.original_size,
            actual_size: result.actual_size,
            encoded_chunks: result.encoded_chunks,
        },
    );
}

/// A reconciliation leaves the render cache sound and as large as it was;
/// on a hit the key of the current view is at the most recent end.
pub proof fn lemma_render_keeps_cache_sound(
    app: AppModel,
    image_area: Rect,
    grid: (usize, usize),
    allow_transmission: bool,
)
    requires
        cache_sound(app),
    ensures
        cache_sound(app.prepare_render(image_area, grid, allow_transmission)),
        app.prepare_render(image_area, grid, allow_transmission).cache.len() == app.cache.len(),
        app.prepare_render(image_area, grid, allow_transmission).cache_limit == app.cache_limit,
        (allow_transmission && app.usable(image_area) && app.view_key(image_area, grid) is Some
            && has_key(app.cache, app.view_key(image_area, grid)->0) && (app.view_mode
            == ViewMode::Tile ==> app.page_paths(grid, app.page_start(grid)).len() > 0))
            ==> app.prepare_render(image_area, grid, allow_transmission).cache.last().0
            == app.view_key(image_area, grid)->0,
{
    match app.view_key(image_area, grid) {
        Some(key) => {
            lemma_touched(app.cache, key);
        },
        None => {},
    }
}

/// Navigation, cancellation and reloading leave the render cache sound.
pub proof fn lemma_navigation_keeps_cache_sound(app: AppModel, delta: i32, grid: (usize, usize))
    requires
        cache_sound(app),
    ensures
        cache_sound(app.move_by(delta)),
        cache_sound(app.toggle_fit_mode()),
        cache_sound(app.toggle_view_mode()),
        cache_sound(app.move_tile_cursor(delta, grid).0),
        cache_sound(app.move_tile_page(delta, grid)),
        cache_sound(app.select_tile()),
        cache_sound(app.cancel_image_output()),
        cache_sound(app.reload()),
        cache_sound(app.handle_resize()),
{
}

/// Once a transmission that was started for a cached artifact completes
/// in the epoch it was started in, the placement record is the area that
/// was transmitted together with the current identifier.
pub proof fn lemma_completed_transmit_is_recorded(
    app: AppModel,
    key: KeyModel,
    rendered: RenderedImage,
    image_area: Rect,
    completion: WriterResult,
)
    requires
        app.show_cached(key, rendered, image_area).outbox.len() > app.outbox.len(),
        completion.epoch == app.render_epoch,
    ensures
        ({
            let started = app.show_cached(key, rendered, image_area);
            let area = placement(app.view_mode, image_area, app.cell_size, rendered.actual_size);
            &&& started.outbox.last() == CommandModel::Writer(
                RequestModel::ImageTransmit {
                    chunks: byte_blocks(rendered.encoded_chunks@),
                    area,
                    kgp_id: app.kgp_id,
                    old_area: app.kgp_state.area,
                    epoch: app.render_epoch,
                    is_tmux: app.is_tmux,
                },
            )
            &&& started.accept_completion(completion).kgp_state == (KgpState {
                area: Some(area),
                kgp_id: Some(app.kgp_id),
            })
            &&& !started.accept_completion(completion).in_flight_transmit
        }),
{
}

/// A completion from another epoch than the current one changes nothing;
/// nor does a prefetch result from before the last cancellation.
pub proof fn lemma_stale_completion_is_ignored(
    app: AppModel,
    completion: WriterResult,
    epoch: u64,
    result: ImageResult,
)
    ensures
        completion.epoch != app.render_epoch ==> app.accept_completion(completion) == app,
        epoch < app.prefetch_epoch ==> app.accept_prefetched(epoch, result) == app,
{
}

/// A cancellation makes every completion of the epoch before it stale.
pub proof fn lemma_cancel_outdates_completions(app: AppModel, completion: WriterResult)
    requires
        app.render_epoch < u64::MAX,
        completion.epoch <= app.render_epoch,
    ensures
        app.cancel_image_output().accept_completion(completion).kgp_state
            == app.cancel_image_output().kgp_state,
        app.cancel_image_output().accept_completion(completion).in_flight_transmit
            == app.cancel_image_output().in_flight_transmit,
        app.cancel_image_output().accept_completion(completion) == app.cancel_image_output(),
{
}

/// The selection moves through the list modulo its length: a move by
/// `delta` lands on `(index + delta) mod len`, whatever the sign of
/// `delta`.
pub proof fn lemma_move_by_is_modular(app: AppModel, delta: i32)
    requires
        0 < app.images.len() <= usize::MAX,
        delta != 0,
    ensures
        app.move_by(delta).current_index == (app.current_index + delta) % (app.images.len() as int),
        app.move_by(delta).current_index < app.images.len(),
{
    vstd::arithmetic::div_mod::lemma_mod_bound(
        app.current_index + delta,
        app.images.len() as int,
    );
}

/// Two moves in a row land where one move by the sum lands.
pub proof fn lemma_move_by_composes(app: AppModel, first: i32, second: i32)
    requires
        app.images.len() > 0,
        app.images.len() <= usize::MAX,
        app.current_index < app.images.len(),
        i32::MIN <= first + second <= i32::MAX,
    ensures
        app.move_by(first).move_by(second).current_index == app.move_by(
            (first + second) as i32,
        ).current_index,
{
    let n = app.images.len() as int;
    let i = app.current_index as int;
    vstd::arithmetic::div_mod::lemma_mod_bound(i + first, n);
    vstd::arithmetic::div_mod::lemma_mod_bound(i + first + second, n);
    vstd::arithmetic::div_mod::lemma_add_mod_noop(i + first, second as int, n);
    vstd::arithmetic::div_mod::lemma_mod_twice(i + first, n);
    vstd::arithmetic::div_mod::lemma_small_mod(i as nat, n as nat);
    vstd::arithmetic::div_mod::lemma_mod_bound(second as int, n);
    let mid = (i + first) % n;
    vstd::arithmetic::div_mod::lemma_add_mod_noop(mid, second as int, n);
    assert((mid + second) % n == (i + first + second) % n);
}

/// The rectangles the orchestrator keeps are well formed.
pub open spec fn rects_sound(app: AppModel) -> bool {
    &&& app.kgp_state.area matches Some(r) ==> r.wf()
    &&& app.pending_display matches Some(r) ==> r.wf()
}

/// Every writer request in a run of commands carries well-formed
/// rectangles only, which is what the writer asks of a request.
pub open spec fn requests_sound(commands: Seq<CommandModel>) -> bool {
    forall|i: int|
        0 <= i < commands.len() ==> ((#[trigger] commands[i]) matches CommandModel::Writer(req)
            ==> req.wf())
}

/// An image is placed inside the image area.
pub proof fn lemma_placement_within(
    view_mode: ViewMode,
    image_area: Rect,
    cell_size: (u16, u16),
    actual_size: (u32, u32),
)
    requires
        image_area.wf(),
        cell_size.0 != 0,
        cell_size.1 != 0,
    ensures
        ({
            let area = placement(view_mode, image_area, cell_size, actual_size);
            &&& area.wf()
            &&& image_area.x <= area.x
            &&& image_area.y <= area.y
            &&& area.right() <= image_area.right()
            &&& area.bottom() <= image_area.bottom()
        }),
{
    vstd::arithmetic::div_mod::lemma_div_pos_is_pos(
        actual_size.0 + cell_size.0 - 1,
        cell_size.0 as int,
    );
    vstd::arithmetic::div_mod::lemma_div_pos_is_pos(
        actual_size.1 + cell_size.1 - 1,
        cell_size.1 as int,
    );
}

/// What the orchestrator asks of the writer, the writer accepts: as long
/// as the rectangles on record are well formed, every request that a
/// reconciliation, a cancellation, a reload or a resize adds to the outbox
/// is well formed, and so are the rectangles on record afterwards.
pub proof fn lemma_requests_stay_sound(
    app: AppModel,
    image_area: Rect,
    grid: (usize, usize),
    allow_transmission: bool,
    completion: WriterResult,
)
    requires
        rects_sound(app),
        requests_sound(app.outbox),
        image_area.wf(),
    ensures
        rects_sound(app.prepare_render(image_area, grid, allow_transmission)),
        requests_sound(app.prepare_render(image_area, grid, allow_transmission).outbox),
        rects_sound(app.cancel_image_output()),
        requests_sound(app.cancel_image_output().outbox),
        rects_sound(app.reload()),
        requests_sound(app.reload().outbox),
        rects_sound(app.handle_resize()),
        requests_sound(app.handle_resize().outbox),
        rects_sound(app.accept_completion(completion)),
        requests_sound(app.accept_completion(completion).outbox),
        requests_sound(app.draw_tile_cursor(image_area, grid).outbox),
{
    match app.view_key(image_area, grid) {
        Some(key) => {
            match value_of(app.cache, key) {
                Some(rendered) => {
                    if app.usable(image_area) {
                        lemma_placement_within(
                            app.view_mode,
                            image_area,
                            app.cell_size,
                            rendered.actual_size,
                        );
                    }
                },
                None => {},
            }
        },
        None => {},
    }
}

/// The render epoch never goes back.
pub proof fn lemma_render_epoch_grows(
    app: AppModel,
    image_area: Rect,
    grid: (usize, usize),
    allow_transmission: bool,
    completion: WriterResult,
    result: ImageResult,
)
    ensures
        app.cancel_image_output().render_epoch >= app.render_epoch,
        app.render_epoch < u64::MAX ==> app.cancel_image_output().render_epoch == app.render_epoch
            + 1,
        app.reload().render_epoch >= app.render_epoch,
        app.handle_resize().render_epoch >= app.render_epoch,
        app.prepare_render(image_area, grid, allow_transmission).render_epoch == app.render_epoch,
        app.accept_completion(completion).render_epoch == app.render_epoch,
        app.accept_result(result).render_epoch == app.render_epoch,
{
}

} // verus!
