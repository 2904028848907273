use std::sync::Arc;

use svt::fit::{FitMode, ViewMode};
use svt::kgp::encode_chunks;
use svt::pixels::{filter_cache_id, FilterType, PixelFormat, Pixels};
use svt::prefetch::{PrefetchRequest, PrefetchWorker};
use svt::sizing::{apply_budget, compute_target};
use svt::tiles::{grid_holds, tile_edge, tile_span};
use svt::worker::{
    tile_geometry, to_rgba, ImageRequest, ImageWorker, PlacedTile, ThumbnailCache, ThumbnailKey,
    TileSlot,
};

fn create_test_image(w: u32, h: u32) -> Arc<Pixels> {
    let mut data = Vec::new();
    for _ in 0..(w * h) {
        data.extend_from_slice(&[255, 0, 0, 255]);
    }
    Arc::new(Pixels { width: w, height: h, format: PixelFormat::Rgba8, data })
}

fn key(path: &str, w: u32, h: u32, filter: u8) -> ThumbnailKey {
    ThumbnailKey { path: path.to_string(), width: w, height: h, filter }
}

fn gradient(w: u32, h: u32, format: PixelFormat) -> Pixels {
    let channels = match format {
        PixelFormat::Rgb8 => 3,
        PixelFormat::Rgba8 => 4,
    };
    let mut data = Vec::new();
    for y in 0..h {
        for x in 0..w {
            for c in 0..channels {
                data.push(((x * 7 + y * 13 + c * 29) % 256) as u8);
            }
        }
    }
    Pixels { width: w, height: h, format, data }
}

#[test]
fn test_thumbnail_cache_basic_operations() {
    let mut cache = ThumbnailCache::new(3);
    let key1 = key("a.png", 100, 100, 0);
    let key2 = key("b.png", 100, 100, 0);

    let img1 = create_test_image(100, 100);
    let img2 = create_test_image(100, 100);

    cache.insert(key1.clone(), Arc::clone(&img1));
    assert!(cache.get(&key1).is_some());
    assert!(cache.get(&key2).is_none());

    cache.insert(key2.clone(), Arc::clone(&img2));
    assert!(cache.get(&key1).is_some());
    assert!(cache.get(&key2).is_some());
}

#[test]
fn test_thumbnail_cache_lru_eviction() {
    let mut cache = ThumbnailCache::new(2);
    let key1 = key("a.png", 100, 100, 0);
    let key2 = key("b.png", 100, 100, 0);
    let key3 = key("c.png", 100, 100, 0);

    let img = create_test_image(100, 100);

    cache.insert(key1.clone(), Arc::clone(&img));
    cache.insert(key2.clone(), Arc::clone(&img));
    cache.insert(key3.clone(), Arc::clone(&img));

    assert!(cache.get(&key1).is_none());
    assert!(cache.get(&key2).is_some());
    assert!(cache.get(&key3).is_some());
}

#[test]
fn test_thumbnail_cache_lru_access_order() {
    let mut cache = ThumbnailCache::new(2);
    let key1 = key("a.png", 100, 100, 0);
    let key2 = key("b.png", 100, 100, 0);
    let key3 = key("c.png", 100, 100, 0);

    let img = create_test_image(100, 100);

    cache.insert(key1.clone(), Arc::clone(&img));
    cache.insert(key2.clone(), Arc::clone(&img));

    let _ = cache.get(&key1);

    cache.insert(key3.clone(), Arc::clone(&img));

    assert!(cache.get(&key1).is_some());
    assert!(cache.get(&key2).is_none());
    assert!(cache.get(&key3).is_some());
}

#[test]
fn test_thumbnail_cache_update_existing() {
    let mut cache = ThumbnailCache::new(2);
    let key1 = key("a.png", 100, 100, 0);

    let img1 = create_test_image(100, 100);
    let img2 = create_test_image(50, 50);

    cache.insert(key1.clone(), Arc::clone(&img1));
    cache.insert(key1.clone(), Arc::clone(&img2));

    assert_eq!(cache.len(), 1);

    let retrieved = cache.get(&key1).unwrap();
    assert_eq!(retrieved.width, 50);
}

#[test]
fn test_filter_cache_id() {
    assert_eq!(filter_cache_id(FilterType::Nearest), 0);
    assert_eq!(filter_cache_id(FilterType::Triangle), 1);
    assert_eq!(filter_cache_id(FilterType::CatmullRom), 2);
    assert_eq!(filter_cache_id(FilterType::Gaussian), 3);
    assert_eq!(filter_cache_id(FilterType::Lanczos3), 4);
}

#[test]
fn test_compute_target_normal_shrink() {
    let result = ImageWorker::compute_target((2000, 1000), (800, 600), FitMode::Normal);
    assert!(result.0 <= 800);
    assert!(result.1 <= 600);
    let orig_ratio = 2000.0 / 1000.0;
    let result_ratio = result.0 as f64 / result.1 as f64;
    assert!((orig_ratio - result_ratio).abs() < 0.01);
}

#[test]
fn test_compute_target_normal_no_enlarge() {
    let result = ImageWorker::compute_target((100, 50), (800, 600), FitMode::Normal);
    assert_eq!(result, (100, 50));
}

#[test]
fn test_compute_target_fit_enlarge() {
    let result = ImageWorker::compute_target((100, 50), (800, 600), FitMode::Fit);
    assert!(result.0 > 100);
    assert!(result.1 > 50);
    assert!(result.0 <= 800);
    assert!(result.1 <= 600);
}

#[test]
fn compute_target_exact_values() {
    assert_eq!(compute_target((2000, 1000), (800, 600), FitMode::Normal), (800, 400));
    assert_eq!(compute_target((100, 50), (800, 600), FitMode::Fit), (800, 400));
    assert_eq!(compute_target((1000, 2000), (800, 600), FitMode::Fit), (300, 600));
    assert_eq!(compute_target((147, 10), (3, 100), FitMode::Normal), (3, 1));
    assert_eq!(compute_target((1000, 1), (10, 10), FitMode::Normal), (10, 1));
    assert_eq!(compute_target((800, 600), (800, 600), FitMode::Normal), (800, 600));
    assert_eq!(compute_target((801, 600), (800, 600), FitMode::Normal), (800, 599));
    assert_eq!(compute_target((4, 4), (0, 5), FitMode::Fit), (1, 1));
    assert_eq!(compute_target((0, 0), (10, 10), FitMode::Normal), (0, 0));
    assert_eq!(compute_target((0, 0), (10, 10), FitMode::Fit), (1, 1));
    assert_eq!(compute_target((0, 5), (10, 10), FitMode::Fit), (1, 10));
    assert_eq!(
        compute_target((u32::MAX, u32::MAX), (u32::MAX, 1), FitMode::Normal),
        (1, 1)
    );
    assert_eq!(
        compute_target((1, 1), (u32::MAX, u32::MAX), FitMode::Fit),
        (u32::MAX, u32::MAX)
    );
}

#[test]
fn fit_saturates_one_side() {
    for orig in [(1u32, 1u32), (3, 7), (640, 480), (1000, 1), (1, 1000), (4000, 3000)] {
        for max in [(1u32, 1u32), (80, 24), (800, 600), (600, 800), (5, 5000)] {
            let (w, h) = compute_target(orig, max, FitMode::Fit);
            assert!(w <= max.0 && h <= max.1);
            assert!(w == max.0 || h == max.1);
            let (nw, nh) = compute_target(orig, max, FitMode::Normal);
            assert!(nw <= max.0.max(1) && nh <= max.1.max(1));
            if orig.0 <= max.0 && orig.1 <= max.1 {
                assert_eq!((nw, nh), orig);
            } else {
                assert_eq!((nw, nh), (w, h));
            }
        }
    }
}

#[test]
fn budget_scales_both_sides_by_square_root() {
    assert_eq!(apply_budget((800, 400), 1_500_000), (800, 400));
    assert_eq!(apply_budget((2000, 1000), 2_000_000), (2000, 1000));
    // sqrt(500000 / 2000000) is one half.
    assert_eq!(apply_budget((2000, 1000), 500_000), (1000, 500));
    // sqrt(1500000 / 12000000) is 0.35355...
    assert_eq!(apply_budget((4000, 3000), 1_500_000), (1414, 1060));
    assert_eq!(apply_budget((10, 10), 0), (1, 1));
    assert_eq!(apply_budget((1000, 1), 10), (100, 1));
    assert_eq!(apply_budget((u32::MAX, u32::MAX), 1), (1, 1));
    assert_eq!(apply_budget((0, 10), 0), (0, 10));
    let (w, h) = apply_budget((u32::MAX, u32::MAX), u64::MAX);
    assert_eq!((w, h), (u32::MAX, u32::MAX));
}

#[test]
fn process_image_without_resize_shares_pixels() {
    let decoded = Arc::new(gradient(4, 2, PixelFormat::Rgb8));
    let result = ImageWorker::process_image(
        &decoded,
        "a.png".to_string(),
        (100, 100),
        FitMode::Normal,
        9,
        false,
        None,
        1_500_000,
        FilterType::Triangle,
    )
    .unwrap();
    assert_eq!(result.path, "a.png");
    assert_eq!(result.target, (100, 100));
    assert_eq!(result.fit_mode, FitMode::Normal);
    assert_eq!(result.original_size, (4, 2));
    assert_eq!(result.actual_size, (4, 2));
    assert_eq!(*result.encoded_chunks, encode_chunks(&decoded, 9, false, None));
    let rendered =
        ImageWorker::render(&decoded, (100, 100), FitMode::Normal, 1_500_000, FilterType::Nearest)
            .unwrap();
    assert!(Arc::ptr_eq(&rendered, &decoded));
}

#[test]
fn process_image_resizes_with_image_crate() {
    let source = gradient(8, 4, PixelFormat::Rgba8);
    let decoded = Arc::new(Pixels {
        width: source.width,
        height: source.height,
        format: source.format,
        data: source.data.clone(),
    });
    let result = ImageWorker::process_image(
        &decoded,
        "a.png".to_string(),
        (4, 4),
        FitMode::Normal,
        9,
        true,
        Some(6),
        1_500_000,
        FilterType::Triangle,
    )
    .unwrap();
    assert_eq!(result.original_size, (8, 4));
    assert_eq!(result.actual_size, (4, 2));

    let reference = image::DynamicImage::ImageRgba8(
        image::RgbaImage::from_raw(8, 4, source.data.clone()).unwrap(),
    )
    .resize(4, 2, image::imageops::FilterType::Triangle);
    let expected = Pixels {
        width: reference.width(),
        height: reference.height(),
        format: PixelFormat::Rgba8,
        data: reference.into_bytes(),
    };
    assert_ne!(expected.data, source.data);
    assert_eq!(*result.encoded_chunks, encode_chunks(&expected, 9, true, Some(6)));

    let fit = ImageWorker::render(&decoded, (16, 16), FitMode::Fit, 4, FilterType::Nearest).unwrap();
    assert_eq!((fit.width, fit.height), (16, 8));
    assert_eq!(fit.data.len(), 16 * 8 * 4);
    let budget =
        ImageWorker::render(&decoded, (8, 4), FitMode::Normal, 8, FilterType::Nearest).unwrap();
    assert_eq!((budget.width, budget.height), (4, 2));
}

#[test]
fn drain_to_latest_keeps_newest() {
    let request = |path: &str| ImageRequest {
        path: path.to_string(),
        target: (1, 1),
        fit_mode: FitMode::Normal,
        kgp_id: 1,
        is_tmux: false,
        compress_level: None,
        tmux_kitty_max_pixels: 1,
        trace_worker: false,
        resize_filter: FilterType::Triangle,
        view_mode: ViewMode::Single,
        tile_paths: None,
        tile_grid: None,
        cell_size: None,
        tile_filter: FilterType::Nearest,
    };
    assert_eq!(ImageWorker::drain_to_latest(request("a"), Vec::new()).path, "a");
    assert_eq!(
        ImageWorker::drain_to_latest(request("a"), vec![request("b"), request("c")]).path,
        "c"
    );
}

#[test]
fn worker_remembers_last_decode() {
    let mut worker = ImageWorker::new();
    assert!(worker.cached_decode(&"a.png".to_string()).is_none());
    let img = create_test_image(2, 2);
    worker.remember_decode("a.png".to_string(), Arc::clone(&img));
    assert!(Arc::ptr_eq(&worker.cached_decode(&"a.png".to_string()).unwrap(), &img));
    assert!(worker.cached_decode(&"b.png".to_string()).is_none());
    worker.remember_decode("b.png".to_string(), create_test_image(1, 1));
    assert!(worker.cached_decode(&"a.png".to_string()).is_none());
    assert_eq!(worker.thumbnails.len(), 0);
}

#[test]
fn tile_boundaries_are_cell_aligned() {
    assert_eq!(tile_edge(0, 10, 3), 0);
    assert_eq!(tile_edge(1, 10, 3), 3);
    assert_eq!(tile_edge(2, 10, 3), 6);
    assert_eq!(tile_edge(3, 10, 3), 10);
    assert_eq!(tile_edge(6, u32::MAX, 6), u32::MAX);
    assert_eq!(tile_span((3, 2), 4, 10, 6), (3, 3, 6, 6));
    assert!(grid_holds((3, 2), 5));
    assert!(!grid_holds((3, 2), 6));
    assert!(!grid_holds((0, 2), 0));
    assert!(grid_holds((usize::MAX, usize::MAX), usize::MAX));
    // Canvas of 10 x 6 cells of 8 x 16 pixels: tile 4 begins at cell (3, 3).
    assert_eq!(tile_geometry((3, 2), 4, (80, 96), (8, 16)), (24, 48, 8, 16));
    assert_eq!(tile_geometry((3, 2), 0, (80, 96), (8, 16)), (0, 0, 8, 16));
    // Spare pixels beyond whole cells do not move the boundaries.
    assert_eq!(tile_geometry((3, 2), 4, (87, 111), (8, 16)), (24, 48, 8, 16));
    // A tile of two cells or fewer leaves no room inside its padding.
    assert_eq!(tile_geometry((5, 1), 1, (80, 16), (8, 16)), (16, 0, 0, 0));
}

#[test]
fn composite_tiles_begin_where_overlay_tiles_begin() {
    for (grid, cells, cell) in [((3usize, 2usize), (10u16, 6u16), (8u16, 16u16)), ((5, 2), (80, 23), (9, 18)), ((6, 6), (7, 200), (1, 3))] {
        let canvas = (u32::from(cells.0) * u32::from(cell.0), u32::from(cells.1) * u32::from(cell.1));
        for index in 0..grid.0 * grid.1 {
            let (x0, y0, x1, y1) = tile_span(grid, index, u32::from(cells.0), u32::from(cells.1));
            let (tile_x, tile_y, inner_w, inner_h) = tile_geometry(grid, index, canvas, cell);
            assert_eq!(tile_x, x0 * u32::from(cell.0));
            assert_eq!(tile_y, y0 * u32::from(cell.1));
            assert_eq!(inner_w, (x1 - x0).saturating_sub(2) * u32::from(cell.0));
            assert_eq!(inner_h, (y1 - y0).saturating_sub(2) * u32::from(cell.1));
        }
    }
}

#[test]
fn plan_tiles_separates_hits_from_misses() {
    let mut cache = ThumbnailCache::new(10);
    let paths: Vec<String> = (0..8).map(|i| format!("{}.png", i)).collect();
    let thumb = create_test_image(4, 4);
    cache.insert(key("1.png", 8, 16, 0), Arc::clone(&thumb));
    cache.insert(key("2.png", 8, 16, 1), Arc::clone(&thumb));
    let plan = ImageWorker::plan_tiles(&paths, (3, 2), (80, 96), (8, 16), FilterType::Nearest, &mut cache);
    assert_eq!(plan.placed.len(), 1);
    // Tile 1 begins at cell (3, 0); the thumbnail is centred in 8 x 16 pixels
    // behind one cell of padding.
    assert_eq!((plan.placed[0].x, plan.placed[0].y), (24 + 8 + 2, 0 + 16 + 6));
    assert!(Arc::ptr_eq(&plan.placed[0].image, &thumb));
    let missing: Vec<&str> = plan.missing.iter().map(|s| s.path.as_str()).collect();
    assert_eq!(missing, vec!["0.png", "2.png", "3.png", "4.png", "5.png"]);
    assert_eq!(
        (plan.missing[3].tile_x, plan.missing[3].tile_y, plan.missing[3].inner_w, plan.missing[3].inner_h),
        (24, 48, 8, 16)
    );
    let none = ImageWorker::plan_tiles(&paths, (0, 2), (80, 96), (8, 16), FilterType::Nearest, &mut cache);
    assert!(none.placed.is_empty() && none.missing.is_empty());
}

#[test]
fn thumbnails_shrink_but_never_enlarge() {
    let slot = TileSlot { path: "a.png".to_string(), tile_x: 24, tile_y: 48, inner_w: 8, inner_h: 16 };
    let small = gradient(4, 2, PixelFormat::Rgb8);
    let tile = ImageWorker::make_thumbnail(&small, &slot, (8, 16), FilterType::Nearest).unwrap();
    assert_eq!((tile.image.width, tile.image.height), (4, 2));
    assert_eq!(tile.image.format, PixelFormat::Rgba8);
    assert_eq!(tile.image.data, to_rgba(&small).data);
    assert_eq!((tile.x, tile.y), (24 + 8 + 2, 48 + 16 + 7));

    let large = gradient(32, 16, PixelFormat::Rgba8);
    let tile = ImageWorker::make_thumbnail(&large, &slot, (8, 16), FilterType::Nearest).unwrap();
    assert_eq!((tile.image.width, tile.image.height), (8, 4));
    assert_eq!(tile.image.data.len(), 8 * 4 * 4);
    assert_eq!((tile.x, tile.y), (24 + 8, 48 + 16 + 6));
    let reference = image::DynamicImage::ImageRgba8(
        image::RgbaImage::from_raw(32, 16, large.data.clone()).unwrap(),
    )
    .resize(8, 4, image::imageops::FilterType::Nearest);
    assert_eq!(tile.image.data, reference.into_bytes());
}

#[test]
fn well_formedness_checks() {
    assert!(gradient(3, 2, PixelFormat::Rgb8).is_wf());
    let short = Pixels { width: 3, height: 2, format: PixelFormat::Rgba8, data: vec![0; 18] };
    assert!(!short.is_wf());
    assert!(Pixels { width: u32::MAX, height: u32::MAX, format: PixelFormat::Rgba8, data: Vec::new() }
        .is_wf()
        == false);
    assert!(Pixels { width: 0, height: 9, format: PixelFormat::Rgb8, data: Vec::new() }.is_wf());
    let slot = TileSlot { path: "a".to_string(), tile_x: u32::MAX - 20, tile_y: 0, inner_w: 4, inner_h: 4 };
    assert!(slot.is_in_range((8, 16)));
    assert!(!slot.is_in_range((9, 16)));
    assert!(svt::kgp::compression_in_range(None));
    assert!(svt::kgp::compression_in_range(Some(9)));
    assert!(!svt::kgp::compression_in_range(Some(10)));
}

#[test]
fn to_rgba_adds_opaque_alpha() {
    let rgb = Pixels { width: 2, height: 1, format: PixelFormat::Rgb8, data: vec![1, 2, 3, 4, 5, 6] };
    let rgba = to_rgba(&rgb);
    assert_eq!(rgba.data, vec![1, 2, 3, 255, 4, 5, 6, 255]);
    assert_eq!(rgba.format, PixelFormat::Rgba8);
    assert_eq!(to_rgba(&rgba).data, rgba.data);
}

#[test]
fn composite_copies_tiles_onto_transparent_canvas() {
    let tile = Arc::new(Pixels {
        width: 2,
        height: 2,
        format: PixelFormat::Rgba8,
        data: vec![1, 1, 1, 1, 2, 2, 2, 2, 3, 3, 3, 3, 4, 4, 4, 4],
    });
    let tiles = vec![
        PlacedTile { x: 1, y: 0, image: Arc::clone(&tile) },
        PlacedTile { x: 3, y: 1, image: Arc::clone(&tile) },
        PlacedTile { x: 2, y: 1, image: Arc::clone(&tile) },
    ];
    let page = ImageWorker::composite((4, 3), &tiles).unwrap();
    assert_eq!((page.width, page.height, page.format), (4, 3, PixelFormat::Rgba8));
    let px = |v: u8| [v, v, v, v];
    let mut expected: Vec<u8> = Vec::new();
    for row in [[0, 1, 2, 0], [0, 3, 1, 2], [0, 0, 3, 4]] {
        for v in row {
            expected.extend_from_slice(&px(v));
        }
    }
    assert_eq!(page.data, expected);
    let blank = ImageWorker::composite((2, 2), &Vec::new()).unwrap();
    assert_eq!(blank.data, vec![0; 16]);
    assert_eq!(ImageWorker::composite((0, 5), &tiles).unwrap().data.len(), 0);
}

#[test]
fn keep_thumbnail_caches_and_places() {
    let mut cache = ThumbnailCache::new(1);
    let mut placed: Vec<PlacedTile> = Vec::new();
    let image = create_test_image(1, 1);
    let slot = TileSlot { path: "a.png".to_string(), tile_x: 0, tile_y: 0, inner_w: 8, inner_h: 16 };
    ImageWorker::keep_thumbnail(
        &mut cache,
        &mut placed,
        slot,
        FilterType::Gaussian,
        PlacedTile { x: 9, y: 17, image: Arc::clone(&image) },
    );
    assert_eq!(placed.len(), 1);
    assert_eq!((placed[0].x, placed[0].y), (9, 17));
    assert!(cache.get(&key("a.png", 8, 16, 3)).is_some());
    assert!(cache.get(&key("a.png", 8, 16, 0)).is_none());
}

#[test]
fn finish_page_reports_canvas_size() {
    let page = gradient(4, 2, PixelFormat::Rgba8);
    let req = ImageRequest {
        path: "__tile_page_0".to_string(),
        target: (4, 2),
        fit_mode: FitMode::Fit,
        kgp_id: 3,
        is_tmux: false,
        compress_level: None,
        tmux_kitty_max_pixels: 1,
        trace_worker: false,
        resize_filter: FilterType::Triangle,
        view_mode: ViewMode::Tile,
        tile_paths: Some(Vec::new()),
        tile_grid: Some((2, 2)),
        cell_size: Some((8, 16)),
        tile_filter: FilterType::Nearest,
    };
    let result = ImageWorker::finish_page(&req, &page);
    assert_eq!(result.path, "__tile_page_0");
    assert_eq!(result.original_size, (4, 2));
    assert_eq!(result.actual_size, (4, 2));
    assert_eq!(result.fit_mode, FitMode::Fit);
    assert_eq!(*result.encoded_chunks, encode_chunks(&page, 3, false, None));
}

#[test]
fn prefetch_epoch_rule() {
    let mut worker = PrefetchWorker::new();
    assert_eq!(worker.current_epoch(), 0);
    worker.cancel();
    worker.cancel();
    assert_eq!(worker.current_epoch(), 2);
    assert!(PrefetchWorker::accepts_batch(2, 2));
    assert!(PrefetchWorker::accepts_batch(3, 2));
    assert!(!PrefetchWorker::accepts_batch(1, 2));
    let req = PrefetchRequest {
        paths: vec!["a.png".to_string()],
        target: (100, 100),
        fit_mode: FitMode::Normal,
        epoch: 2,
        kgp_id: 1,
        is_tmux: false,
        compress_level: None,
        tmux_kitty_max_pixels: 1_000,
        resize_filter: FilterType::Triangle,
    };
    assert!(PrefetchWorker::wants_item(&req, 2));
    assert!(!PrefetchWorker::wants_item(&req, 3));
    let decoded = create_test_image(2, 2);
    let result = PrefetchWorker::prefetch_item(&req, "a.png".to_string(), &decoded).unwrap();
    assert_eq!(result.actual_size, (2, 2));
    assert!(worker.try_recv(1, PrefetchWorker::prefetch_item(&req, "a.png".to_string(), &decoded).unwrap()).is_none());
    assert_eq!(worker.try_recv(2, result).map(|r| r.path), Some("a.png".to_string()));
    let mut last = PrefetchWorker { epoch: u64::MAX };
    last.cancel();
    assert_eq!(last.current_epoch(), 0);
}
