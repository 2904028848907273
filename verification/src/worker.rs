//! The image processor: from a decoded image to protocol chunks, and the
//! state the processor keeps between requests.

use std::sync::Arc;
use vstd::prelude::*;
use crate::fit::{FitMode, ViewMode};
use crate::kgp::{encode_chunks, is_transmission, transmit_payload};
use crate::lru::{inserted, touched, value_of, LruKey, LruCache};
use crate::pixels::{
    filter_tag, resize_fits, resize_image, resized_dimensions, FilterType, PixelFormat, Pixels,
};
use crate::sizing::{apply_budget, compute_target, render_size, spec_at_least_one, target_size};
use crate::tiles::{grid_holds, in_grid, tile_cells, tile_span};

verus! {

/// Number of thumbnails kept for the tile view.
pub const THUMBNAIL_CACHE_SIZE: usize = 500;

/// Key of a thumbnail: the image's path, the inner size of the tile it was
/// made for, and the tag of the filter it was made with.
#[derive(Debug)]
pub struct ThumbnailKey {
    pub path: String,
    pub width: u32,
    pub height: u32,
    pub filter: u8,
}

impl Clone for ThumbnailKey {
    fn clone(&self) -> (key: ThumbnailKey)
        ensures
            key@ == self@,
    {
        ThumbnailKey {
            path: self.path.clone(),
            width: self.width,
            height: self.height,
            filter: self.filter,
        }
    }
}

impl View for ThumbnailKey {
    type V = (Seq<char>, u32, u32, u8);

    open spec fn view(&self) -> (Seq<char>, u32, u32, u8) {
        (self.path@, self.width, self.height, self.filter)
    }
}

impl LruKey for ThumbnailKey {
    fn same(&self, other: &Self) -> (b: bool) {
        self.path == other.path && self.width == other.width && self.height == other.height
            && self.filter == other.filter
    }
}

/// Thumbnails by key, bounded, least recently used first to go.
pub struct ThumbnailCache {
    cache: LruCache<ThumbnailKey, Arc<Pixels>>,
}

impl ThumbnailCache {
    /// The entries, least recently used first.
    pub closed spec fn view(&self) -> Seq<((Seq<char>, u32, u32, u8), Arc<Pixels>)> {
        self.cache@
    }

    /// The bound on the number of entries.
    pub closed spec fn capacity(&self) -> nat {
        self.cache.limit()
    }

    pub fn new(capacity: usize) -> (cache: Self)
        ensures
            cache@.len() == 0,
            cache.capacity() == capacity,
    {
        ThumbnailCache { cache: LruCache::new(capacity) }
    }

    /// Number of thumbnails held.
    pub fn len(&self) -> (n: usize)
        ensures
            n == self@.len(),
            n <= self.capacity() || n <= 1,
    {
        self.cache.len()
    }

    /// The thumbnail under the key; a hit makes it the most recent.
    pub fn get(&mut self, key: &ThumbnailKey) -> (r: Option<Arc<Pixels>>)
        ensures
            r == value_of(old(self)@, key@),
            final(self)@ == touched(old(self)@, key@),
            final(self).capacity() == old(self).capacity(),
    {
        if self.cache.touch(key) {
            proof {
                crate::lru::lemma_touched(old(self)@, key@);
                crate::lru::lemma_value_kept(old(self)@, key@);
            }
            match self.cache.peek(key) {
                Some(img) => Some(img.clone()),
                None => None,
            }
        } else {
            None
        }
    }

    /// Store a thumbnail; a duplicate key is updated and refreshed, and a
    /// full cache drops its least recently used entry first.
    pub fn insert(&mut self, key: ThumbnailKey, img: Arc<Pixels>)
        ensures
            final(self)@ == inserted(old(self)@, old(self).capacity(), key@, img),
            final(self).capacity() == old(self).capacity(),
    {
        self.cache.insert(key, img);
    }
}

/// A request to the processor.
pub struct ImageRequest {
    pub path: String,
    pub target: (u32, u32),
    pub fit_mode: FitMode,
    pub kgp_id: u32,
    pub is_tmux: bool,
    pub compress_level: Option<u32>,
    pub tmux_kitty_max_pixels: u64,
    pub trace_worker: bool,
    /// Filter for the single view.
    pub resize_filter: FilterType,
    pub view_mode: ViewMode,
    /// The images of the page, in tile mode.
    pub tile_paths: Option<Vec<String>>,
    pub tile_grid: Option<(usize, usize)>,
    /// Cell size in pixels, in tile mode.
    pub cell_size: Option<(u16, u16)>,
    pub tile_filter: FilterType,
}

/// A rendered artifact on its way to the render cache.
pub struct ImageResult {
    pub path: String,
    pub target: (u32, u32),
    pub fit_mode: FitMode,
    pub original_size: (u32, u32),
    pub actual_size: (u32, u32),
    pub encoded_chunks: Arc<Vec<Vec<u8>>>,
}

/// Whether an image of size `orig` has to be resampled to be shown at
/// `size`.
pub open spec fn needs_resize(orig: (u32, u32), size: (int, int)) -> bool {
    size.0 != orig.0 || size.1 != orig.1
}

/// Whether `img` is `decoded` rendered for the request: the image itself
/// when it already has the render size; otherwise an image of the same
/// pixel format with the dimensions that the resampler gives for the
/// render size. The resampler's pixel values are not described.
pub open spec fn is_rendering(
    img: &Pixels,
    decoded: &Pixels,
    target: (u32, u32),
    fit_mode: FitMode,
    budget: u64,
) -> bool {
    let orig = (decoded.width, decoded.height);
    let size = render_size(orig, target, fit_mode, budget);
    if needs_resize(orig, size) {
        &&& img.wf()
        &&& img.format == decoded.format
        &&& (img.width, img.height) == resized_dimensions(
            decoded.width,
            decoded.height,
            size.0 as u32,
            size.1 as u32,
        )
    } else {
        *img == *decoded
    }
}

/// Whether `res` describes `decoded` processed for a request: the sizes
/// before and after rendering, and the transmission of the rendered image.
pub open spec fn is_processed(
    res: &ImageResult,
    decoded: &Pixels,
    target: (u32, u32),
    fit_mode: FitMode,
    kgp_id: u32,
    is_tmux: bool,
    compress_level: Option<u32>,
    budget: u64,
) -> bool {
    &&& res.target == target
    &&& res.fit_mode == fit_mode
    &&& res.original_size == (decoded.width, decoded.height)
    &&& exists|img: Pixels|
        {
            &&& is_rendering(&img, decoded, target, fit_mode, budget)
            &&& res.actual_size == (img.width, img.height)
            &&& #[trigger] is_transmission(
                res.encoded_chunks@,
                transmit_payload(&img, compress_level),
                img.format.spec_bits() as u32,
                img.width,
                img.height,
                kgp_id,
                is_tmux,
            )
        }
}

/// Whether the machine can hold the buffers that rendering needs.
pub open spec fn can_render(
    decoded: &Pixels,
    target: (u32, u32),
    fit_mode: FitMode,
    budget: u64,
) -> bool {
    let orig = (decoded.width, decoded.height);
    let size = render_size(orig, target, fit_mode, budget);
    needs_resize(orig, size) ==> resize_fits(decoded.width, size.0 as u32, size.1 as u32)
}

/// Whether both requested buffers of a resize stay within what a vector
/// can hold.
fn fits(width: u32, nwidth: u32, nheight: u32) -> (b: bool)
    ensures
        b == resize_fits(width, nwidth, nheight),
{
    let rows: u128 = nheight as u128 + 1;
    let limit: u128 = isize::MAX as u128;
    assert((width + 1) * (nheight + 1) * 16 <= 0x1_0000_0000 * 0x1_0000_0000 * 16 && (nwidth + 1)
        * (nheight + 1) * 16 <= 0x1_0000_0000 * 0x1_0000_0000 * 16) by (nonlinear_arith)
        requires
            0 <= width <= 0xFFFF_FFFF,
            0 <= nwidth <= 0xFFFF_FFFF,
            0 <= nheight <= 0xFFFF_FFFF,
    ;
    assert(0 <= (width + 1) * (nheight + 1) && 0 <= (nwidth + 1) * (nheight + 1))
        by (nonlinear_arith)
        requires
            0 <= width,
            0 <= nwidth,
            0 <= nheight,
    ;
    (width as u128 + 1) * rows * 16 <= limit && (nwidth as u128 + 1) * rows * 16 <= limit
}

/// The state the processor keeps between requests: the image decoded last,
/// the thumbnails of the tile view, and a request that arrived while
/// another was in work.
pub struct ImageWorker {
    pub decoded: Option<(String, Arc<Pixels>)>,
    pub thumbnails: ThumbnailCache,
    pub pending: Option<ImageRequest>,
}

impl ImageWorker {
    pub fn new() -> (worker: ImageWorker)
        ensures
            worker.decoded is None,
            worker.pending is None,
            worker.thumbnails@.len() == 0,
            worker.thumbnails.capacity() == THUMBNAIL_CACHE_SIZE,
    {
        ImageWorker {
            decoded: None,
            thumbnails: ThumbnailCache::new(THUMBNAIL_CACHE_SIZE),
            pending: None,
        }
    }

    /// Of a request and those that arrived after it, in order, the one to
    /// work on: the newest.
    pub fn drain_to_latest(current: ImageRequest, newer: Vec<ImageRequest>) -> (latest:
        ImageRequest)
        ensures
            latest == if newer@.len() == 0 { current } else { newer@.last() },
    {
        let mut newer = newer;
        match newer.pop() {
            Some(last) => last,
            None => current,
        }
    }

    /// The decoded image kept for `path`, if the image decoded last was
    /// this one.
    pub fn cached_decode(&self, path: &String) -> (r: Option<Arc<Pixels>>)
        ensures
            r == match self.decoded {
                Some((cached_path, img)) => if cached_path@ == path@ { Some(img) } else { None },
                None => None,
            },
    {
        match &self.decoded {
            Some((cached_path, img)) => {
                if *cached_path == *path {
                    Some(img.clone())
                } else {
                    None
                }
            },
            None => None,
        }
    }

    /// Keep a freshly decoded image in place of the one kept before.
    pub fn remember_decode(&mut self, path: String, img: Arc<Pixels>)
        ensures
            final(self).decoded == Some((path, img)),
            final(self).thumbnails == old(self).thumbnails,
            final(self).pending == old(self).pending,
    {
        self.decoded = Some((path, img));
    }

    /// Compute the render size of an image inside a pixel box.
    pub fn compute_target(orig: (u32, u32), max: (u32, u32), fit_mode: FitMode) -> (r: (u32, u32))
        ensures
            (r.0 as int, r.1 as int) == crate::sizing::target_size(orig, max, fit_mode),
    {
        compute_target(orig, max, fit_mode)
    }

    /// Bring a decoded image to its render size: the target for the fit
    /// mode, in `Normal` mode cut back to the pixel budget. An image that
    /// already has that size is shared, not copied. `None` when the
    /// resampler's buffers would not fit this machine.
    pub fn render(
        decoded: &Arc<Pixels>,
        target: (u32, u32),
        fit_mode: FitMode,
        budget: u64,
        filter: FilterType,
    ) -> (r: Option<Arc<Pixels>>)
        requires
            decoded.wf(),
        ensures
            r is Some <==> can_render(decoded, target, fit_mode, budget),
            r matches Some(img) ==> is_rendering(&img, decoded, target, fit_mode, budget),
    {
        let orig = (decoded.width, decoded.height);
        let mut size = compute_target(orig, target, fit_mode);
        match fit_mode {
            FitMode::Normal => {
                size = apply_budget(size, budget);
            },
            FitMode::Fit => {},
        }
        if size.0 == orig.0 && size.1 == orig.1 {
            return Some(decoded.clone());
        }
        if !fits(decoded.width, size.0, size.1) {
            return None;
        }
        Some(Arc::new(resize_image(decoded, size.0, size.1, filter)))
    }

    /// Encode a rendered image and describe it for the render cache.
    pub fn finish(
        path: String,
        target: (u32, u32),
        fit_mode: FitMode,
        original_size: (u32, u32),
        rendered: &Pixels,
        kgp_id: u32,
        is_tmux: bool,
        compress_level: Option<u32>,
    ) -> (res: ImageResult)
        requires
            compress_level matches Some(level) ==> level <= 9,
        ensures
            res.path == path,
            res.target == target,
            res.fit_mode == fit_mode,
            res.original_size == original_size,
            res.actual_size == (rendered.width, rendered.height),
            is_transmission(
                res.encoded_chunks@,
                transmit_payload(rendered, compress_level),
                rendered.format.spec_bits() as u32,
                rendered.width,
                rendered.height,
                kgp_id,
                is_tmux,
            ),
    {
        let chunks = encode_chunks(rendered, kgp_id, is_tmux, compress_level);
        ImageResult {
            path,
            target,
            fit_mode,
            original_size,
            actual_size: (rendered.width, rendered.height),
            encoded_chunks: Arc::new(chunks),
        }
    }

    /// Process one decoded image: resize, encode. `None` only when the
    /// machine cannot hold the resampler's buffers.
    pub fn process_image(
        decoded: &Arc<Pixels>,
        path: String,
        target: (u32, u32),
        fit_mode: FitMode,
        kgp_id: u32,
        is_tmux: bool,
        compress_level: Option<u32>,
        tmux_kitty_max_pixels: u64,
        resize_filter: FilterType,
    ) -> (r: Option<ImageResult>)
        requires
            decoded.wf(),
            compress_level matches Some(level) ==> level <= 9,
        ensures
            r is Some <==> can_render(decoded, target, fit_mode, tmux_kitty_max_pixels),
            r matches Some(res) ==> res.path == path && is_processed(
                &res,
                decoded,
                target,
                fit_mode,
                kgp_id,
                is_tmux,
                compress_level,
                tmux_kitty_max_pixels,
            ),
    {
        let rendered = match Self::render(
            decoded,
            target,
            fit_mode,
            tmux_kitty_max_pixels,
            resize_filter,
        ) {
            Some(img) => img,
            None => {
                return None;
            },
        };
        let res = Self::finish(
            path,
            target,
            fit_mode,
            (decoded.width, decoded.height),
            &rendered,
            kgp_id,
            is_tmux,
            compress_level,
        );
        assert(is_transmission(
            res.encoded_chunks@,
            transmit_payload(&*rendered, compress_level),
            rendered.format.spec_bits() as u32,
            rendered.width,
            rendered.height,
            kgp_id,
            is_tmux,
        ));
        Some(res)
    }
}

/// One tile of a page that has no thumbnail yet: where the tile lies on the
/// canvas and how large a thumbnail fits inside its padding.
pub struct TileSlot {
    pub path: String,
    pub tile_x: u32,
    pub tile_y: u32,
    pub inner_w: u32,
    pub inner_h: u32,
}

impl TileSlot {
    /// Whether the tile with its padding lies within the pixel range.
    pub open spec fn in_range(&self, cell: (u16, u16)) -> bool {
        &&& self.tile_x + 2 * cell.0 + self.inner_w <= u32::MAX
        &&& self.tile_y + 2 * cell.1 + self.inner_h <= u32::MAX
    }

    /// Whether the tile with its padding lies within the pixel range.
    pub fn is_in_range(&self, cell: (u16, u16)) -> (b: bool)
        ensures
            b == self.in_range(cell),
    {
        self.tile_x as u64 + 2 * cell.0 as u64 + self.inner_w as u64 <= u32::MAX as u64
            && self.tile_y as u64 + 2 * cell.1 as u64 + self.inner_h as u64 <= u32::MAX as u64
    }
}

/// A thumbnail with the place of its top left corner on the canvas.
pub struct PlacedTile {
    pub x: u32,
    pub y: u32,
    pub image: Arc<Pixels>,
}

/// What is known about a page before anything is decoded: the thumbnails
/// found in the cache, placed, and the tiles that still need one.
pub struct TilePlan {
    pub placed: Vec<PlacedTile>,
    pub missing: Vec<TileSlot>,
}

/// Where a tile lies on a canvas, in pixels, and what room it leaves
/// inside one cell of padding on each side: left edge, top edge, inner
/// width, inner height. Tiles are bounded in whole cells first.
pub open spec fn slot_geometry(
    grid: (usize, usize),
    index: int,
    canvas: (u32, u32),
    cell: (u16, u16),
) -> (int, int, int, int) {
    let (x0, y0, x1, y1) = tile_cells(
        grid,
        index,
        canvas.0 as int / cell.0 as int,
        canvas.1 as int / cell.1 as int,
    );
    let inner_w = (x1 - x0) * cell.0 - 2 * cell.0;
    let inner_h = (y1 - y0) * cell.1 - 2 * cell.1;
    (
        x0 * cell.0,
        y0 * cell.1,
        if inner_w < 0 { 0 } else { inner_w },
        if inner_h < 0 { 0 } else { inner_h },
    )
}

/// Where a thumbnail of extent `size` begins so that it is centred in the
/// room `inner` behind the padding `pad` of a tile that begins at `origin`.
pub open spec fn centred(origin: int, pad: int, inner: int, size: int) -> int {
    origin + pad + (if size < inner { (inner - size) / 2 } else { 0 })
}

/// The size of the thumbnail of an image in the room of a tile: the image
/// is shrunk to fit and never enlarged, and no side is below one.
pub open spec fn thumbnail_size(orig: (u32, u32), inner: (u32, u32)) -> (int, int) {
    let fitted = target_size(orig, inner, FitMode::Normal);
    (spec_at_least_one(fitted.0), spec_at_least_one(fitted.1))
}

/// Compute the geometry of a tile of the grid.
pub fn tile_geometry(grid: (usize, usize), index: usize, canvas: (u32, u32), cell: (u16, u16)) -> (g:
    (u32, u32, u32, u32))
    requires
        in_grid(grid, index as int),
        cell.0 > 0,
        cell.1 > 0,
    ensures
        (g.0 as int, g.1 as int, g.2 as int, g.3 as int) == slot_geometry(
            grid,
            index as int,
            canvas,
            cell,
        ),
        g.0 + 2 * cell.0 + g.2 <= canvas.0 || g.2 == 0,
        g.1 + 2 * cell.1 + g.3 <= canvas.1 || g.3 == 0,
{
    let cells_w: u32 = canvas.0 / cell.0 as u32;
    let cells_h: u32 = canvas.1 / cell.1 as u32;
    let (x0, y0, x1, y1) = tile_span(grid, index, cells_w, cells_h);
    proof {
        vstd::arithmetic::div_mod::lemma_fundamental_div_mod(canvas.0 as int, cell.0 as int);
        vstd::arithmetic::div_mod::lemma_mod_bound(canvas.0 as int, cell.0 as int);
        vstd::arithmetic::div_mod::lemma_fundamental_div_mod(canvas.1 as int, cell.1 as int);
        vstd::arithmetic::div_mod::lemma_mod_bound(canvas.1 as int, cell.1 as int);
        assert(x0 * cell.0 <= x1 * cell.0 <= cells_w * cell.0) by (nonlinear_arith)
            requires
                0 <= x0 <= x1 <= cells_w,
                cell.0 > 0,
        ;
        assert(y0 * cell.1 <= y1 * cell.1 <= cells_h * cell.1) by (nonlinear_arith)
            requires
                0 <= y0 <= y1 <= cells_h,
                cell.1 > 0,
        ;
        assert((x1 - x0) * cell.0 == x1 * cell.0 - x0 * cell.0) by (nonlinear_arith);
        assert((y1 - y0) * cell.1 == y1 * cell.1 - y0 * cell.1) by (nonlinear_arith);
        assert(cells_w * cell.0 == cell.0 * cells_w) by (nonlinear_arith);
        assert(cells_h * cell.1 == cell.1 * cells_h) by (nonlinear_arith);
    }
    let tile_x: u32 = x0 * cell.0 as u32;
    let tile_y: u32 = y0 * cell.1 as u32;
    let tile_w: u32 = (x1 - x0) * cell.0 as u32;
    let tile_h: u32 = (y1 - y0) * cell.1 as u32;
    let pad_w: u32 = 2 * cell.0 as u32;
    let pad_h: u32 = 2 * cell.1 as u32;
    (
        tile_x,
        tile_y,
        if tile_w < pad_w { 0 } else { tile_w - pad_w },
        if tile_h < pad_h { 0 } else { tile_h - pad_h },
    )
}

/// A placed thumbnail as it enters the contracts: place and image.
pub type PlacedModel = (u32, u32, Arc<Pixels>);

/// A tile without thumbnail as it enters the contracts: path, left edge,
/// top edge, inner width, inner height.
pub type SlotModel = (Seq<char>, u32, u32, u32, u32);

/// Each placed thumbnail as place and image.
pub open spec fn placed_views(tiles: Seq<PlacedTile>) -> Seq<PlacedModel> {
    Seq::new(tiles.len(), |i: int| (tiles[i].x, tiles[i].y, tiles[i].image))
}

/// Each slot by its values.
pub open spec fn slot_views(slots: Seq<TileSlot>) -> Seq<SlotModel> {
    Seq::new(
        slots.len(),
        |i: int| (slots[i].path@, slots[i].tile_x, slots[i].tile_y, slots[i].inner_w, slots[i].inner_h),
    )
}

/// The plan for the first `n` tiles of a page, and the thumbnail cache
/// after the lookups: a tile without room inside its padding is left out;
/// a tile whose thumbnail is cached is placed with it, which refreshes the
/// cache entry; any other tile is listed as missing.
pub open spec fn planned(
    paths: Seq<Seq<char>>,
    grid: (usize, usize),
    canvas: (u32, u32),
    cell: (u16, u16),
    tag: u8,
    cache: Seq<((Seq<char>, u32, u32, u8), Arc<Pixels>)>,
    n: nat,
) -> (Seq<PlacedModel>, Seq<SlotModel>, Seq<((Seq<char>, u32, u32, u8), Arc<Pixels>)>)
    decreases n,
{
    if n == 0 {
        (Seq::<PlacedModel>::empty(), Seq::<SlotModel>::empty(), cache)
    } else {
        let (placed, missing, seen) = planned(paths, grid, canvas, cell, tag, cache, (n - 1) as nat);
        let i = n - 1;
        let (tile_x, tile_y, inner_w, inner_h) = slot_geometry(grid, i, canvas, cell);
        if inner_w == 0 || inner_h == 0 {
            (placed, missing, seen)
        } else {
            let key = (paths[i], inner_w as u32, inner_h as u32, tag);
            match value_of(seen, key) {
                Some(thumb) => (
                    placed.push(
                        (
                            centred(tile_x, cell.0 as int, inner_w, thumb.width as int) as u32,
                            centred(tile_y, cell.1 as int, inner_h, thumb.height as int) as u32,
                            thumb,
                        ),
                    ),
                    missing,
                    touched(seen, key),
                ),
                None => (
                    placed,
                    missing.push((paths[i], tile_x as u32, tile_y as u32, inner_w as u32, inner_h as u32)),
                    seen,
                ),
            }
        }
    }
}

/// Number of tiles of a page: the paths that have a place in the grid.
pub open spec fn tile_count(paths: nat, grid: (usize, usize)) -> nat {
    if grid.0 == 0 || grid.1 == 0 {
        0
    } else if paths < grid.0 * grid.1 {
        paths
    } else {
        (grid.0 * grid.1) as nat
    }
}

/// Where a thumbnail begins along one axis.
fn centre(origin: u32, pad: u16, inner: u32, size: u32) -> (r: u32)
    requires
        origin + 2 * pad + inner <= u32::MAX,
    ensures
        r == centred(origin as int, pad as int, inner as int, size as int),
        size <= inner ==> r + size <= origin + pad + inner,
{
    origin + pad as u32 + (if size < inner { (inner - size) / 2 } else { 0 })
}

/// The bytes of an image with four bytes per pixel: pixels of three bytes
/// get an opaque alpha byte.
pub open spec fn rgba_bytes(data: Seq<u8>, format: PixelFormat) -> Seq<u8> {
    match format {
        PixelFormat::Rgba8 => data,
        PixelFormat::Rgb8 => Seq::new(
            ((data.len() / 3) * 4) as nat,
            |k: int| if k % 4 == 3 { 255u8 } else { data[(k / 4) * 3 + k % 4] },
        ),
    }
}

/// Bring an image to four bytes per pixel.
pub fn to_rgba(img: &Pixels) -> (out: Pixels)
    requires
        img.wf(),
    ensures
        out.wf(),
        out.width == img.width,
        out.height == img.height,
        out.format == PixelFormat::Rgba8,
        out.data@ == rgba_bytes(img.data@, img.format),
{
    let mut data: Vec<u8> = Vec::new();
    match img.format {
        PixelFormat::Rgba8 => {
            data.extend_from_slice(img.data.as_slice());
            assert(data@ =~= img.data@);
        },
        PixelFormat::Rgb8 => {
            let len: usize = img.data.len();
            let n: usize = len / 3;
            let mut p: usize = 0;
            proof {
                assert(img.width * img.height * 3 == 3 * (img.width * img.height))
                    by (nonlinear_arith);
                vstd::arithmetic::div_mod::lemma_div_multiples_vanish(
                    img.width * img.height,
                    3,
                );
                assert(0 <= img.width * img.height) by (nonlinear_arith)
                    requires
                        0 <= img.width,
                        0 <= img.height,
                ;
            }
            while p < n
                invariant
                    p <= n,
                    n == img.data@.len() / 3,
                    n == img.width * img.height,
                    3 * n == img.data@.len(),
                    len == img.data@.len(),
                    data@.len() == p * 4,
                    forall|k: int|
                        0 <= k < data@.len() ==> #[trigger] data@[k] == (if k % 4 == 3 {
                            255u8
                        } else {
                            img.data@[(k / 4) * 3 + k % 4]
                        }),
                decreases n - p,
            {
                data.push(img.data[p * 3]);
                data.push(img.data[p * 3 + 1]);
                data.push(img.data[p * 3 + 2]);
                data.push(255);
                p = p + 1;
            }
            proof {
                assert(data@ =~= rgba_bytes(img.data@, img.format));
                assert(img.width * img.height * 4 == 4 * (img.width * img.height))
                    by (nonlinear_arith);
            }
        },
    }
    Pixels { width: img.width, height: img.height, format: PixelFormat::Rgba8, data }
}

/// A canvas after `rows` rows of a thumbnail were copied onto it with the
/// thumbnail's top left corner at column `x`, row `y`. Canvas and thumbnail
/// have four bytes per pixel; the canvas is `cw` pixels wide.
pub open spec fn blit_rows(
    canvas: Seq<u8>,
    cw: int,
    x: int,
    y: int,
    tile: Seq<u8>,
    tw: int,
    rows: nat,
) -> Seq<u8>
    decreases rows,
{
    if rows == 0 {
        canvas
    } else {
        let prev = blit_rows(canvas, cw, x, y, tile, tw, (rows - 1) as nat);
        let r = rows - 1;
        let dst = ((y + r) * cw + x) * 4;
        let src = r * tw * 4;
        prev.subrange(0, dst) + tile.subrange(src, src + tw * 4) + prev.subrange(
            dst + tw * 4,
            prev.len() as int,
        )
    }
}

/// Whether a thumbnail can be copied onto a canvas of `cw` by `ch`
/// pixels: it has four bytes per pixel, holds what its size says, and lies
/// within the canvas.
pub open spec fn blit_fits(cw: u32, ch: u32, tile: PlacedModel) -> bool {
    &&& tile.2.format == PixelFormat::Rgba8
    &&& tile.2.wf()
    &&& tile.0 + tile.2.width <= cw
    &&& tile.1 + tile.2.height <= ch
}

/// A canvas after the thumbnails were copied onto it in order; one that
/// does not fit is left out.
pub open spec fn composited(canvas: Seq<u8>, cw: u32, ch: u32, tiles: Seq<PlacedModel>) -> Seq<u8>
    decreases tiles.len(),
{
    if tiles.len() == 0 {
        canvas
    } else {
        let prev = composited(canvas, cw, ch, tiles.drop_last());
        let tile = tiles.last();
        if blit_fits(cw, ch, tile) {
            blit_rows(
                prev,
                cw as int,
                tile.0 as int,
                tile.1 as int,
                tile.2.data@,
                tile.2.width as int,
                tile.2.height as nat,
            )
        } else {
            prev
        }
    }
}

/// Copying rows keeps the length of the canvas.
pub proof fn lemma_blit_rows_len(
    canvas: Seq<u8>,
    cw: int,
    ch: int,
    x: int,
    y: int,
    tile: Seq<u8>,
    tw: int,
    th: int,
    rows: nat,
)
    requires
        canvas.len() == cw * ch * 4,
        tile.len() == tw * th * 4,
        0 <= x,
        0 <= y,
        0 <= tw,
        x + tw <= cw,
        y + th <= ch,
        rows <= th,
    ensures
        blit_rows(canvas, cw, x, y, tile, tw, rows).len() == canvas.len(),
    decreases rows,
{
    if rows > 0 {
        lemma_blit_rows_len(canvas, cw, ch, x, y, tile, tw, th, (rows - 1) as nat);
        lemma_row_bounds(cw, ch, x, y, tw, th, rows - 1);
    }
}

/// Row `r` of a thumbnail lies within the thumbnail and within the canvas.
pub proof fn lemma_row_bounds(cw: int, ch: int, x: int, y: int, tw: int, th: int, r: int)
    requires
        0 <= x,
        0 <= y,
        0 <= tw,
        x + tw <= cw,
        y + th <= ch,
        0 <= r < th,
    ensures
        0 <= ((y + r) * cw + x) * 4,
        ((y + r) * cw + x) * 4 + tw * 4 <= cw * ch * 4,
        0 <= r * tw * 4,
        r * tw * 4 + tw * 4 <= tw * th * 4,
{
    assert(0 <= (y + r) * cw && (y + r) * cw + cw <= ch * cw) by (nonlinear_arith)
        requires
            0 <= y + r,
            y + r + 1 <= ch,
            0 <= cw,
    ;
    assert(ch * cw == cw * ch) by (nonlinear_arith);
    assert(cw * ch * 4 == (cw * ch) * 4) by (nonlinear_arith);
    assert(0 <= r * tw && r * tw + tw <= th * tw) by (nonlinear_arith)
        requires
            0 <= r,
            r + 1 <= th,
            0 <= tw,
    ;
    assert(th * tw == tw * th) by (nonlinear_arith);
    assert(tw * th * 4 == (tw * th) * 4) by (nonlinear_arith);
    assert(r * tw * 4 == (r * tw) * 4) by (nonlinear_arith);
}

/// Copy a thumbnail onto a canvas.
fn blit(canvas: &mut Vec<u8>, cw: u32, ch: u32, tile: &PlacedTile)
    requires
        old(canvas)@.len() == cw * ch * 4,
        blit_fits(cw, ch, (tile.x, tile.y, tile.image)),
    ensures
        final(canvas)@ == blit_rows(
            old(canvas)@,
            cw as int,
            tile.x as int,
            tile.y as int,
            tile.image.data@,
            tile.image.width as int,
            tile.image.height as nat,
        ),
        final(canvas)@.len() == old(canvas)@.len(),
{
    let tw: usize = tile.image.width as usize;
    let th: usize = tile.image.height as usize;
    let ghost start = canvas@;
    let ghost src_all = tile.image.data@;
    let canvas_len: usize = canvas.len();
    let tile_len: usize = tile.image.data.len();
    let mut r: usize = 0;
    while r < th
        invariant
            r <= th,
            canvas_len == start.len(),
            tile_len == src_all.len(),
            tw == tile.image.width,
            th == tile.image.height,
            src_all == tile.image.data@,
            src_all.len() == tw * th * 4,
            start.len() == cw * ch * 4,
            tile.x + tw <= cw,
            tile.y + th <= ch,
            canvas@.len() == start.len(),
            canvas@ == blit_rows(
                start,
                cw as int,
                tile.x as int,
                tile.y as int,
                src_all,
                tw as int,
                r as nat,
            ),
        decreases th - r,
    {
        proof {
            lemma_row_bounds(
                cw as int,
                ch as int,
                tile.x as int,
                tile.y as int,
                tw as int,
                th as int,
                r as int,
            );
        }
        let ghost prev = canvas@;
        let ghost dst_spec = ((tile.y + r) * cw + tile.x) * 4;
        let ghost src_spec = r * tw * 4;
        assert((tile.y + r) * cw <= dst_spec && (tile.y + r) * cw + tile.x <= dst_spec && r * tw
            <= src_spec) by (nonlinear_arith)
            requires
                dst_spec == ((tile.y + r) * cw + tile.x) * 4,
                src_spec == r * tw * 4,
                0 <= (tile.y + r) * cw,
                0 <= r * tw,
        ;
        let dst: usize = ((tile.y as usize + r) * cw as usize + tile.x as usize) * 4;
        let src: usize = r * tw * 4;
        let row_len: usize = tw * 4;
        let mut c: usize = 0;
        while c < row_len
            invariant
                c <= row_len,
                row_len == tw * 4,
                dst == dst_spec,
                src == src_spec,
                dst + row_len <= canvas@.len(),
                src + row_len <= src_all.len(),
                canvas_len == canvas@.len(),
                tile_len == src_all.len(),
                src_all == tile.image.data@,
                canvas@.len() == prev.len(),
                canvas@ == prev.subrange(0, dst as int) + src_all.subrange(
                    src as int,
                    src + c,
                ) + prev.subrange(dst + c, prev.len() as int),
            decreases row_len - c,
        {
            let v: u8 = tile.image.data[src + c];
            canvas.set(dst + c, v);
            c = c + 1;
            assert(canvas@ =~= prev.subrange(0, dst as int) + src_all.subrange(src as int, src + c)
                + prev.subrange(dst + c, prev.len() as int));
        }
        r = r + 1;
    }
}

impl ImageWorker {
    /// Plan a page of tiles: look each tile's thumbnail up in the cache.
    pub fn plan_tiles(
        paths: &Vec<String>,
        grid: (usize, usize),
        canvas: (u32, u32),
        cell: (u16, u16),
        filter: FilterType,
        cache: &mut ThumbnailCache,
    ) -> (plan: TilePlan)
        requires
            cell.0 > 0,
            cell.1 > 0,
        ensures
            (placed_views(plan.placed@), slot_views(plan.missing@), final(cache)@) == planned(
                crate::text::texts(paths@),
                grid,
                canvas,
                cell,
                filter_tag(filter),
                old(cache)@,
                tile_count(paths@.len(), grid),
            ),
            final(cache).capacity() == old(cache).capacity(),
    {
        let tag = crate::pixels::filter_cache_id(filter);
        let mut placed: Vec<PlacedTile> = Vec::new();
        let mut missing: Vec<TileSlot> = Vec::new();
        let ghost names = crate::text::texts(paths@);
        let ghost start = cache@;
        let mut i: usize = 0;
        assert(placed_views(placed@) =~= Seq::<PlacedModel>::empty());
        assert(slot_views(missing@) =~= Seq::<SlotModel>::empty());
        while i < paths.len() && grid_holds(grid, i)
            invariant
                i <= paths@.len(),
                i <= tile_count(paths@.len(), grid),
                cell.0 > 0,
                cell.1 > 0,
                names == crate::text::texts(paths@),
                tag == filter_tag(filter),
                cache.capacity() == old(cache).capacity(),
                (placed_views(placed@), slot_views(missing@), cache@) == planned(
                    names,
                    grid,
                    canvas,
                    cell,
                    tag,
                    start,
                    i as nat,
                ),
            decreases paths@.len() - i,
        {
            let (tile_x, tile_y, inner_w, inner_h) = tile_geometry(grid, i, canvas, cell);
            if inner_w != 0 && inner_h != 0 {
                let key = ThumbnailKey {
                    path: paths[i].clone(),
                    width: inner_w,
                    height: inner_h,
                    filter: tag,
                };
                match cache.get(&key) {
                    Some(thumb) => {
                        let ghost before = placed_views(placed@);
                        let x = centre(tile_x, cell.0, inner_w, thumb.width);
                        let y = centre(tile_y, cell.1, inner_h, thumb.height);
                        placed.push(PlacedTile { x, y, image: thumb });
                        assert(placed_views(placed@) =~= before.push((x, y, thumb)));
                    },
                    None => {
                        let ghost before = slot_views(missing@);
                        missing.push(
                            TileSlot { path: paths[i].clone(), tile_x, tile_y, inner_w, inner_h },
                        );
                        assert(slot_views(missing@) =~= before.push(
                            (paths@[i as int]@, tile_x, tile_y, inner_w, inner_h),
                        ));
                    },
                }
            }
            i = i + 1;
        }
        TilePlan { placed, missing }
    }

    /// Make the thumbnail for a tile from its decoded image: shrink the
    /// image into the tile's room, bring it to four bytes per pixel, and
    /// centre it. `None` when the machine cannot hold the resampler's
    /// buffers.
    pub fn make_thumbnail(
        decoded: &Pixels,
        slot: &TileSlot,
        cell: (u16, u16),
        filter: FilterType,
    ) -> (r: Option<PlacedTile>)
        requires
            decoded.wf(),
            slot.in_range(cell),
        ensures
            ({
                let orig = (decoded.width, decoded.height);
                let size = thumbnail_size(orig, (slot.inner_w, slot.inner_h));
                &&& r is Some <==> (needs_resize(orig, size) ==> resize_fits(
                    decoded.width,
                    size.0 as u32,
                    size.1 as u32,
                ))
                &&& r matches Some(tile) ==> {
                    &&& tile.x == centred(
                        slot.tile_x as int,
                        cell.0 as int,
                        slot.inner_w as int,
                        size.0,
                    )
                    &&& tile.y == centred(
                        slot.tile_y as int,
                        cell.1 as int,
                        slot.inner_h as int,
                        size.1,
                    )
                    &&& tile.image.wf()
                    &&& tile.image.format == PixelFormat::Rgba8
                    &&& if needs_resize(orig, size) {
                        (tile.image.width, tile.image.height) == resized_dimensions(
                            decoded.width,
                            decoded.height,
                            size.0 as u32,
                            size.1 as u32,
                        )
                    } else {
                        (tile.image.width, tile.image.height, tile.image.data@) == (
                            decoded.width,
                            decoded.height,
                            rgba_bytes(decoded.data@, decoded.format),
                        )
                    }
                }
            }),
    {
        let orig = (decoded.width, decoded.height);
        let fitted = compute_target(orig, (slot.inner_w, slot.inner_h), FitMode::Normal);
        let scaled_w: u32 = if fitted.0 < 1 { 1 } else { fitted.0 };
        let scaled_h: u32 = if fitted.1 < 1 { 1 } else { fitted.1 };
        let x = centre(slot.tile_x, cell.0, slot.inner_w, scaled_w);
        let y = centre(slot.tile_y, cell.1, slot.inner_h, scaled_h);
        if scaled_w == orig.0 && scaled_h == orig.1 {
            return Some(PlacedTile { x, y, image: Arc::new(to_rgba(decoded)) });
        }
        if !fits(decoded.width, scaled_w, scaled_h) {
            return None;
        }
        let small = resize_image(decoded, scaled_w, scaled_h, filter);
        Some(PlacedTile { x, y, image: Arc::new(to_rgba(&small)) })
    }

    /// Keep a fresh thumbnail for later pages and add it to the tiles to
    /// draw.
    pub fn keep_thumbnail(
        cache: &mut ThumbnailCache,
        placed: &mut Vec<PlacedTile>,
        slot: TileSlot,
        filter: FilterType,
        tile: PlacedTile,
    )
        ensures
            final(cache)@ == inserted(
                old(cache)@,
                old(cache).capacity(),
                (slot.path@, slot.inner_w, slot.inner_h, filter_tag(filter)),
                tile.image,
            ),
            final(cache).capacity() == old(cache).capacity(),
            placed_views(final(placed)@) == placed_views(old(placed)@).push(
                (tile.x, tile.y, tile.image),
            ),
    {
        let key = ThumbnailKey {
            path: slot.path,
            width: slot.inner_w,
            height: slot.inner_h,
            filter: crate::pixels::filter_cache_id(filter),
        };
        cache.insert(key, tile.image.clone());
        let ghost before = placed_views(placed@);
        let ghost view = (tile.x, tile.y, tile.image);
        placed.push(tile);
        assert(placed_views(placed@) =~= before.push(view));
    }

    /// Whether a canvas of this size can be held in memory.
    pub open spec fn canvas_fits(canvas: (u32, u32)) -> bool {
        canvas.0 * canvas.1 * 4 <= isize::MAX
    }

    /// Compose a page: a transparent canvas with the thumbnails copied
    /// onto it in order. A thumbnail that would reach beyond the canvas is
    /// left out. `None` when the canvas is too large for this machine.
    pub fn composite(canvas: (u32, u32), tiles: &Vec<PlacedTile>) -> (r: Option<Pixels>)
        ensures
            r is Some <==> Self::canvas_fits(canvas),
            r matches Some(img) ==> {
                &&& img.wf()
                &&& img.width == canvas.0
                &&& img.height == canvas.1
                &&& img.format == PixelFormat::Rgba8
                &&& img.data@ == composited(
                    Seq::new((canvas.0 * canvas.1 * 4) as nat, |k: int| 0u8),
                    canvas.0,
                    canvas.1,
                    placed_views(tiles@),
                )
            },
    {
        assert(0 <= canvas.0 * canvas.1 * 4 <= 0xFFFF_FFFF * 0xFFFF_FFFF * 4) by (nonlinear_arith)
            requires
                0 <= canvas.0 <= 0xFFFF_FFFF,
                0 <= canvas.1 <= 0xFFFF_FFFF,
        ;
        let bytes: u128 = (canvas.0 as u128) * (canvas.1 as u128) * 4;
        if bytes > isize::MAX as u128 {
            return None;
        }
        let mut data: Vec<u8> = Vec::new();
        data.resize(bytes as usize, 0);
        let ghost blank = Seq::new((canvas.0 * canvas.1 * 4) as nat, |k: int| 0u8);
        assert(data@ =~= blank);
        let mut i: usize = 0;
        assert(placed_views(tiles@).subrange(0, 0) =~= Seq::<PlacedModel>::empty());
        while i < tiles.len()
            invariant
                i <= tiles@.len(),
                data@.len() == canvas.0 * canvas.1 * 4,
                data@ == composited(
                    blank,
                    canvas.0,
                    canvas.1,
                    placed_views(tiles@).subrange(0, i as int),
                ),
            decreases tiles@.len() - i,
        {
            let tile = &tiles[i];
            let ghost upto = placed_views(tiles@).subrange(0, i as int + 1);
            proof {
                assert(upto.drop_last() =~= placed_views(tiles@).subrange(0, i as int));
                assert(upto.last() == (tile.x, tile.y, tile.image));
            }
            let is_rgba: bool = match tile.image.format {
                PixelFormat::Rgba8 => true,
                PixelFormat::Rgb8 => false,
            };
            proof {
                assert(0 <= tile.image.width * tile.image.height <= 0xFFFF_FFFF * 0xFFFF_FFFF)
                    by (nonlinear_arith)
                    requires
                        0 <= tile.image.width <= 0xFFFF_FFFF,
                        0 <= tile.image.height <= 0xFFFF_FFFF,
                ;
            }
            let holds: bool = tile.image.data.len() as u128 == (tile.image.width as u128) * (
            tile.image.height as u128) * 4;
            if is_rgba && holds && tile.x as u64 + tile.image.width as u64 <= canvas.0 as u64
                && tile.y as u64 + tile.image.height as u64 <= canvas.1 as u64 {
                blit(&mut data, canvas.0, canvas.1, tile);
            }
            i = i + 1;
        }
        assert(placed_views(tiles@).subrange(0, i as int) =~= placed_views(tiles@));
        Some(Pixels { width: canvas.0, height: canvas.1, format: PixelFormat::Rgba8, data })
    }

    /// Encode a composed page and describe it for the render cache. A page
    /// has no original apart from itself, so both sizes are the canvas's.
    pub fn finish_page(req: &ImageRequest, page: &Pixels) -> (res: ImageResult)
        requires
            req.compress_level matches Some(level) ==> level <= 9,
        ensures
            res.path@ == req.path@,
            res.target == req.target,
            res.fit_mode == req.fit_mode,
            res.original_size == (page.width, page.height),
            res.actual_size == (page.width, page.height),
            is_transmission(
                res.encoded_chunks@,
                transmit_payload(page, req.compress_level),
                page.format.spec_bits() as u32,
                page.width,
                page.height,
                req.kgp_id,
                req.is_tmux,
            ),
    {
        Self::finish(
            req.path.clone(),
            req.target,
            req.fit_mode,
            (page.width, page.height),
            page,
            req.kgp_id,
            req.is_tmux,
            req.compress_level,
        )
    }
}

/// The composite and the cursor overlay bound tiles alike: on a canvas
/// that is a whole number of cells wide and high, a tile of the composite
/// begins, in pixels, where the overlay's tile begins, in cells, and leaves
/// the room of the overlay's tile less one cell of padding on each side.
pub proof fn lemma_composite_matches_overlay(
    grid: (usize, usize),
    index: int,
    width: u16,
    height: u16,
    cell: (u16, u16),
)
    requires
        in_grid(grid, index),
        cell.0 > 0,
        cell.1 > 0,
    ensures
        ({
            let canvas = ((width * cell.0) as u32, (height * cell.1) as u32);
            let (x0, y0, x1, y1) = tile_cells(grid, index, width as int, height as int);
            let (tile_x, tile_y, inner_w, inner_h) = slot_geometry(grid, index, canvas, cell);
            &&& tile_x == x0 * cell.0
            &&& tile_y == y0 * cell.1
            &&& inner_w == (if x1 - x0 >= 2 { (x1 - x0 - 2) * cell.0 } else { 0 })
            &&& inner_h == (if y1 - y0 >= 2 { (y1 - y0 - 2) * cell.1 } else { 0 })
        }),
{
    let cw = cell.0 as int;
    let chh = cell.1 as int;
    assert(0 <= width * cell.0 <= 0xFFFF * 0xFFFF && 0 <= height * cell.1 <= 0xFFFF * 0xFFFF)
        by (nonlinear_arith)
        requires
            0 <= width <= 0xFFFF,
            0 <= height <= 0xFFFF,
            0 <= cell.0 <= 0xFFFF,
            0 <= cell.1 <= 0xFFFF,
    ;
    vstd::arithmetic::div_mod::lemma_div_multiples_vanish(width as int, cw);
    vstd::arithmetic::div_mod::lemma_div_multiples_vanish(height as int, chh);
    assert(width * cell.0 == cw * width) by (nonlinear_arith)
        requires
            cw == cell.0,
    ;
    assert(height * cell.1 == chh * height) by (nonlinear_arith)
        requires
            chh == cell.1,
    ;
    let (x0, y0, x1, y1) = tile_cells(grid, index, width as int, height as int);
    crate::tiles::lemma_grid_position(grid, index);
    crate::tiles::lemma_tile_boundary_ordered(
        index % (grid.0 as int),
        width as int,
        grid.0 as int,
    );
    crate::tiles::lemma_tile_boundary_ordered(
        index / (grid.0 as int),
        height as int,
        grid.1 as int,
    );
    assert((x1 - x0) * cw - 2 * cw == (x1 - x0 - 2) * cw) by (nonlinear_arith);
    assert((y1 - y0) * chh - 2 * chh == (y1 - y0 - 2) * chh) by (nonlinear_arith);
    if x1 - x0 < 2 {
        assert((x1 - x0 - 2) * cw < 0) by (nonlinear_arith)
            requires
                x1 - x0 - 2 < 0,
                cw > 0,
        ;
    } else {
        assert((x1 - x0 - 2) * cw >= 0) by (nonlinear_arith)
            requires
                x1 - x0 - 2 >= 0,
                cw > 0,
        ;
    }
    if y1 - y0 < 2 {
        assert((y1 - y0 - 2) * chh < 0) by (nonlinear_arith)
            requires
                y1 - y0 - 2 < 0,
                chh > 0,
        ;
    } else {
        assert((y1 - y0 - 2) * chh >= 0) by (nonlinear_arith)
            requires
                y1 - y0 - 2 >= 0,
                chh > 0,
        ;
    }
}

} // verus!
