use svt::config::{parse_filter_type, parse_number, Config, EnvOverrides};
use svt::pixels::FilterType;

fn no_overrides() -> EnvOverrides {
    EnvOverrides {
        nav_latch_ms: None,
        force_alt_screen: false,
        no_alt_screen: false,
        render_cache_size: None,
        prefetch_count: None,
        debug: false,
        kgp_no_compress: false,
        compress_level: None,
        tmux_kitty_max_pixels: None,
        trace_worker: false,
        cell_aspect_ratio: None,
        resize_filter: None,
        tile_filter: None,
        prefetch_threads: None,
        tile_threads: None,
    }
}

#[test]
fn test_default_values() {
    let config = Config::default();
    assert_eq!(config.nav_latch_ms, 150);
    assert_eq!(config.render_cache_size, 100);
    assert_eq!(config.prefetch_count, 5);
    assert_eq!(config.compress_level, 6);
    assert_eq!(config.tmux_kitty_max_pixels, 1_500_000);
    assert!(!config.force_alt_screen);
    assert!(!config.debug);
    assert_eq!(config.cell_aspect_ratio, 2_000);
}

#[test]
fn test_clamp_values() {
    let mut config =
        Config { nav_latch_ms: 10_000, render_cache_size: 1000, compress_level: 20, ..Default::default() };
    config.clamp_values();
    assert_eq!(config.nav_latch_ms, 5_000);
    assert_eq!(config.render_cache_size, 500);
    assert_eq!(config.compress_level, 9);
}

#[test]
fn test_compression_level() {
    let config = Config::default();
    assert_eq!(config.compression_level(), Some(6));

    let config = Config { kgp_no_compress: true, ..Default::default() };
    assert_eq!(config.compression_level(), None);
}

#[test]
fn default_filters_and_threads() {
    let config = Config::default();
    assert_eq!(config.resize_filter, FilterType::Triangle);
    assert_eq!(config.tile_filter, FilterType::Nearest);
    assert_eq!(config.prefetch_threads, 2);
    assert_eq!(config.tile_threads, 4);
    assert!(!config.kgp_no_compress);
    assert!(!config.trace_worker);
}

#[test]
fn clamp_lower_bounds() {
    let mut config = Config {
        render_cache_size: 0,
        cell_aspect_ratio: 10,
        prefetch_threads: 0,
        tile_threads: 99,
        ..Default::default()
    };
    config.clamp_values();
    assert_eq!(config.render_cache_size, 1);
    assert_eq!(config.cell_aspect_ratio, 1_000);
    assert_eq!(config.prefetch_threads, 1);
    assert_eq!(config.tile_threads, 8);
    let mut wide = Config { cell_aspect_ratio: 9_000, ..Default::default() };
    wide.clamp_values();
    assert_eq!(wide.cell_aspect_ratio, 4_000);
}

#[test]
fn parse_filter_names() {
    assert_eq!(parse_filter_type("nearest"), FilterType::Nearest);
    assert_eq!(parse_filter_type("  Triangle\n"), FilterType::Triangle);
    assert_eq!(parse_filter_type("CatmullRom"), FilterType::CatmullRom);
    assert_eq!(parse_filter_type("catmull-rom"), FilterType::CatmullRom);
    assert_eq!(parse_filter_type("GAUSSIAN"), FilterType::Gaussian);
    assert_eq!(parse_filter_type("lanczos3"), FilterType::Lanczos3);
    assert_eq!(parse_filter_type("\u{3000}lanczos\u{a0}"), FilterType::Lanczos3);
    assert_eq!(parse_filter_type("bicubic"), FilterType::Triangle);
    assert_eq!(parse_filter_type(""), FilterType::Triangle);
    assert_eq!(parse_filter_type("near est"), FilterType::Triangle);
}

#[test]
fn parse_number_follows_integer_syntax() {
    assert_eq!(parse_number("0", 10), Some(0));
    assert_eq!(parse_number("+7", 10), Some(7));
    assert_eq!(parse_number("007", 10), Some(7));
    assert_eq!(parse_number("10", 10), Some(10));
    assert_eq!(parse_number("11", 10), None);
    assert_eq!(parse_number("", 10), None);
    assert_eq!(parse_number("+", 10), None);
    assert_eq!(parse_number("-1", 10), None);
    assert_eq!(parse_number("1 ", 10), None);
    assert_eq!(parse_number("1x", 10), None);
    assert_eq!(parse_number("18446744073709551615", u64::MAX), Some(u64::MAX));
    assert_eq!(parse_number("18446744073709551616", u64::MAX), None);
    assert_eq!(parse_number("99999999999999999999999", u64::MAX), None);
}

#[test]
fn load_prefers_environment_over_file_and_clamps() {
    let file = Config { nav_latch_ms: 300, prefetch_count: 9, ..Default::default() };
    let mut env = no_overrides();
    env.nav_latch_ms = Some("9000".to_string());
    env.render_cache_size = Some("not a number".to_string());
    env.debug = true;
    env.compress_level = Some("3".to_string());
    env.cell_aspect_ratio = Some(2_500);
    env.tile_filter = Some("gaussian".to_string());
    env.tile_threads = Some("0".to_string());
    let config = Config::load(Some(file), &env);
    assert_eq!(config.nav_latch_ms, 5_000);
    assert_eq!(config.render_cache_size, 100);
    assert_eq!(config.prefetch_count, 9);
    assert!(config.debug);
    assert_eq!(config.compress_level, 3);
    assert_eq!(config.cell_aspect_ratio, 2_500);
    assert_eq!(config.tile_filter, FilterType::Gaussian);
    assert_eq!(config.tile_threads, 1);
    assert_eq!(Config::load(None, &no_overrides()), Config::default());
}

#[test]
fn alt_screen_rule() {
    let config = Config::default();
    assert!(config.use_alt_screen(false));
    assert!(!config.use_alt_screen(true));
    let forced = Config { force_alt_screen: true, no_alt_screen: true, ..Default::default() };
    assert!(forced.use_alt_screen(true));
    let disabled = Config { no_alt_screen: true, ..Default::default() };
    assert!(!disabled.use_alt_screen(false));
}
