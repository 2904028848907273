//! Settings of the viewer, their defaults and their bounds.

use vstd::prelude::*;
use vstd::string::*;
use crate::files::{matches_word, span_matches};
use crate::pixels::FilterType;
use crate::text::to_chars;

verus! {

pub const MAX_NAV_LATCH_MS: u64 = 5_000;

pub const MAX_RENDER_CACHE_SIZE: usize = 500;

pub const MAX_COMPRESS_LEVEL: u32 = 9;

pub const MAX_THREADS: usize = 8;

/// Bounds of the cell aspect ratio, in thousandths.
pub const MIN_CELL_ASPECT: u32 = 1_000;

pub const MAX_CELL_ASPECT: u32 = 4_000;

/// A validated configuration. The cell aspect ratio (cell height over cell
/// width) is held in thousandths; the filters are held by kind.
#[derive(Clone, Copy, Debug, PartialEq, Eq, Structural)]
pub struct Config {
    pub nav_latch_ms: u64,
    pub force_alt_screen: bool,
    pub no_alt_screen: bool,
    pub render_cache_size: usize,
    pub prefetch_count: usize,
    pub debug: bool,
    pub kgp_no_compress: bool,
    pub compress_level: u32,
    pub tmux_kitty_max_pixels: u64,
    pub trace_worker: bool,
    pub cell_aspect_ratio: u32,
    pub resize_filter: FilterType,
    pub tile_filter: FilterType,
    pub prefetch_threads: usize,
    pub tile_threads: usize,
}

/// `v` brought into `lo ..= hi`.
pub open spec fn clamped(v: int, lo: int, hi: int) -> int {
    if v < lo {
        lo
    } else if v > hi {
        hi
    } else {
        v
    }
}

/// Bring `v` into `lo ..= hi`.
pub fn clamp(v: u64, lo: u64, hi: u64) -> (r: u64)
    requires
        lo <= hi,
    ensures
        r == clamped(v as int, lo as int, hi as int),
        lo <= r <= hi,
{
    if v < lo {
        lo
    } else if v > hi {
        hi
    } else {
        v
    }
}

impl Config {
    /// The settings used where nothing else is said.
    pub open spec fn spec_default() -> Config {
        Config {
            nav_latch_ms: 150,
            force_alt_screen: false,
            no_alt_screen: false,
            render_cache_size: 100,
            prefetch_count: 5,
            debug: false,
            kgp_no_compress: false,
            compress_level: 6,
            tmux_kitty_max_pixels: 1_500_000,
            trace_worker: false,
            cell_aspect_ratio: 2_000,
            resize_filter: FilterType::Triangle,
            tile_filter: FilterType::Nearest,
            prefetch_threads: 2,
            tile_threads: 4,
        }
    }

    /// Every bounded setting lies within its bounds.
    pub open spec fn wf(self) -> bool {
        &&& self.nav_latch_ms <= MAX_NAV_LATCH_MS
        &&& 1 <= self.render_cache_size <= MAX_RENDER_CACHE_SIZE
        &&& self.compress_level <= MAX_COMPRESS_LEVEL
        &&& MIN_CELL_ASPECT <= self.cell_aspect_ratio <= MAX_CELL_ASPECT
        &&& 1 <= self.prefetch_threads <= MAX_THREADS
        &&& 1 <= self.tile_threads <= MAX_THREADS
    }

    /// The settings with every bounded one brought into its bounds.
    pub open spec fn clamp_spec(self) -> Config {
        Config {
            nav_latch_ms: clamped(self.nav_latch_ms as int, 0, MAX_NAV_LATCH_MS as int) as u64,
            render_cache_size: clamped(
                self.render_cache_size as int,
                1,
                MAX_RENDER_CACHE_SIZE as int,
            ) as usize,
            compress_level: clamped(self.compress_level as int, 0, MAX_COMPRESS_LEVEL as int) as u32,
            cell_aspect_ratio: clamped(
                self.cell_aspect_ratio as int,
                MIN_CELL_ASPECT as int,
                MAX_CELL_ASPECT as int,
            ) as u32,
            prefetch_threads: clamped(self.prefetch_threads as int, 1, MAX_THREADS as int) as usize,
            tile_threads: clamped(self.tile_threads as int, 1, MAX_THREADS as int) as usize,
            ..self
        }
    }

    /// Bring every bounded setting into its bounds.
    pub fn clamp_values(&mut self)
        ensures
            *final(self) == old(self).clamp_spec(),
            final(self).wf(),
    {
        let clamped_config = Config {
            nav_latch_ms: clamp(self.nav_latch_ms, 0, MAX_NAV_LATCH_MS),
            force_alt_screen: self.force_alt_screen,
            no_alt_screen: self.no_alt_screen,
            render_cache_size: clamp(
                self.render_cache_size as u64,
                1,
                MAX_RENDER_CACHE_SIZE as u64,
            ) as usize,
            prefetch_count: self.prefetch_count,
            debug: self.debug,
            kgp_no_compress: self.kgp_no_compress,
            compress_level: clamp(self.compress_level as u64, 0, MAX_COMPRESS_LEVEL as u64) as u32,
            tmux_kitty_max_pixels: self.tmux_kitty_max_pixels,
            trace_worker: self.trace_worker,
            cell_aspect_ratio: clamp(
                self.cell_aspect_ratio as u64,
                MIN_CELL_ASPECT as u64,
                MAX_CELL_ASPECT as u64,
            ) as u32,
            resize_filter: self.resize_filter,
            tile_filter: self.tile_filter,
            prefetch_threads: clamp(self.prefetch_threads as u64, 1, MAX_THREADS as u64) as usize,
            tile_threads: clamp(self.tile_threads as u64, 1, MAX_THREADS as u64) as usize,
        };
        *self = clamped_config;
    }

    /// The compression level to encode with; none when compression is
    /// suppressed.
    pub open spec fn compression(self) -> Option<u32> {
        if self.kgp_no_compress {
            None
        } else {
            Some(self.compress_level)
        }
    }

    /// The compression level to encode with.
    pub fn compression_level(&self) -> (r: Option<u32>)
        ensures
            r == self.compression(),
    {
        if self.kgp_no_compress {
            None
        } else {
            Some(self.compress_level)
        }
    }

    /// Whether the alternate screen is used: when forced, or when neither
    /// disabled nor inside a multiplexer.
    pub fn use_alt_screen(&self, is_tmux: bool) -> (r: bool)
        ensures
            r == (self.force_alt_screen || (!self.no_alt_screen && !is_tmux)),
    {
        self.force_alt_screen || (!self.no_alt_screen && !is_tmux)
    }
}

/// Whether a character is white space: one of the characters with the
/// Unicode property `White_Space`.
pub open spec fn is_space(c: char) -> bool {
    let v = c as u32;
    ||| 0x09 <= v <= 0x0D
    ||| v == 0x20
    ||| v == 0x85
    ||| v == 0xA0
    ||| v == 0x1680
    ||| 0x2000 <= v <= 0x200A
    ||| v == 0x2028
    ||| v == 0x2029
    ||| v == 0x202F
    ||| v == 0x205F
    ||| v == 0x3000
}

/// A text without the white space at its ends.
pub open spec fn trimmed(text: Seq<char>) -> Seq<char>
    decreases text.len(),
{
    if text.len() == 0 {
        text
    } else if is_space(text.first()) {
        trimmed(text.drop_first())
    } else if is_space(text.last()) {
        trimmed(text.drop_last())
    } else {
        text
    }
}

/// The filter a name stands for, in any case and with white space around
/// it; a name that stands for none gives the triangle filter.
pub open spec fn filter_named(name: Seq<char>) -> FilterType {
    let word = trimmed(name);
    if matches_word(word, "nearest"@) {
        FilterType::Nearest
    } else if matches_word(word, "triangle"@) {
        FilterType::Triangle
    } else if matches_word(word, "catmullrom"@) || matches_word(word, "catmull-rom"@) {
        FilterType::CatmullRom
    } else if matches_word(word, "gaussian"@) {
        FilterType::Gaussian
    } else if matches_word(word, "lanczos3"@) || matches_word(word, "lanczos"@) {
        FilterType::Lanczos3
    } else {
        FilterType::Triangle
    }
}

fn space(c: char) -> (b: bool)
    ensures
        b == is_space(c),
{
    let v: u32 = c as u32;
    (0x09 <= v && v <= 0x0D) || v == 0x20 || v == 0x85 || v == 0xA0 || v == 0x1680 || (0x2000 <= v
        && v <= 0x200A) || v == 0x2028 || v == 0x2029 || v == 0x202F || v == 0x205F || v == 0x3000
}

/// Parse the name of a resize filter.
pub fn parse_filter_type(name: &str) -> (filter: FilterType)
    ensures
        filter == filter_named(name@),
{
    let chars = to_chars(name);
    let mut start: usize = 0;
    let mut end: usize = chars.len();
    assert(chars@.subrange(0, end as int) =~= chars@);
    while start < end && space(chars[start])
        invariant
            start <= end == chars@.len(),
            trimmed(chars@) == trimmed(chars@.subrange(start as int, end as int)),
        decreases end - start,
    {
        assert(chars@.subrange(start as int, end as int).drop_first() =~= chars@.subrange(
            start as int + 1,
            end as int,
        ));
        start = start + 1;
    }
    while start < end && space(chars[end - 1])
        invariant
            start <= end <= chars@.len(),
            start < end ==> !is_space(chars@[start as int]),
            trimmed(chars@) == trimmed(chars@.subrange(start as int, end as int)),
        decreases end - start,
    {
        assert(chars@.subrange(start as int, end as int).drop_last() =~= chars@.subrange(
            start as int,
            end as int - 1,
        ));
        assert(chars@.subrange(start as int, end as int).first() == chars@[start as int]);
        end = end - 1;
    }
    proof {
        let word = chars@.subrange(start as int, end as int);
        if start < end {
            assert(word.first() == chars@[start as int]);
            assert(word.last() == chars@[end as int - 1]);
        }
        assert(trimmed(word) == word);
    }
    if span_matches(&chars, start, end, "nearest") {
        FilterType::Nearest
    } else if span_matches(&chars, start, end, "triangle") {
        FilterType::Triangle
    } else if span_matches(&chars, start, end, "catmullrom") || span_matches(
        &chars,
        start,
        end,
        "catmull-rom",
    ) {
        FilterType::CatmullRom
    } else if span_matches(&chars, start, end, "gaussian") {
        FilterType::Gaussian
    } else if span_matches(&chars, start, end, "lanczos3") || span_matches(
        &chars,
        start,
        end,
        "lanczos",
    ) {
        FilterType::Lanczos3
    } else {
        FilterType::Triangle
    }
}

/// The number that a run of decimal digits stands for; none for an empty
/// run or one that holds anything but digits.
pub open spec fn digits_value(digits: Seq<char>) -> Option<nat>
    decreases digits.len(),
{
    if digits.len() == 0 || !('0' <= digits.last() <= '9') {
        None
    } else {
        let d = (digits.last() as u32 - '0' as u32) as nat;
        if digits.len() == 1 {
            Some(d)
        } else {
            match digits_value(digits.drop_last()) {
                Some(v) => Some(v * 10 + d),
                None => None,
            }
        }
    }
}

/// The number a text stands for: decimal digits, with or without a `+` in
/// front; none for anything else, and none for a number above `max`.
pub open spec fn number_in(text: Seq<char>, max: nat) -> Option<nat> {
    let digits = if text.len() > 0 && text[0] == '+' { text.drop_first() } else { text };
    match digits_value(digits) {
        Some(v) => if v <= max { Some(v) } else { None },
        None => None,
    }
}

/// More digits never make a number smaller.
proof fn lemma_digits_grow(digits: Seq<char>, upto: int)
    requires
        1 <= upto <= digits.len(),
    ensures
        digits_value(digits) matches Some(v) ==> (digits_value(digits.subrange(0, upto)) matches Some(
            head,
        ) && head <= v),
    decreases digits.len() - upto,
{
    if upto == digits.len() {
        assert(digits.subrange(0, upto) =~= digits);
    } else {
        assert(digits.drop_last().subrange(0, upto) =~= digits.subrange(0, upto));
        lemma_digits_grow(digits.drop_last(), upto);
    }
}

/// Parse a number no larger than `max`.
pub fn parse_number(text: &str, max: u64) -> (r: Option<u64>)
    ensures
        r matches Some(v) ==> number_in(text@, max as nat) == Some(v as nat),
        r is None ==> number_in(text@, max as nat) is None,
{
    let chars = to_chars(text);
    let start: usize = if chars.len() > 0 && chars[0] == '+' { 1 } else { 0 };
    let ghost digits = chars@.subrange(start as int, chars@.len() as int);
    assert(start == 1 ==> digits =~= chars@.drop_first());
    assert(start == 0 ==> digits =~= chars@);
    if chars.len() == start {
        return None;
    }
    let mut value: u64 = 0;
    let mut i: usize = start;
    let ghost whole = match digits_value(digits) {
        Some(v) => if v <= max { Some(v) } else { None },
        None => None,
    };
    assert(number_in(text@, max as nat) == whole);
    while i < chars.len()
        invariant
            start <= i <= chars@.len(),
            start < chars@.len(),
            digits == chars@.subrange(start as int, chars@.len() as int),
            number_in(text@, max as nat) == whole,
            whole == (match digits_value(digits) {
                Some(v) => if v <= max { Some(v) } else { None },
                None => None,
            }),
            i > start ==> digits_value(digits.subrange(0, i - start)) == Some(value as nat),
            i == start ==> value == 0,
            value <= max,
        decreases chars@.len() - i,
    {
        let c: char = chars[i];
        let ghost upto = digits.subrange(0, i - start + 1);
        proof {
            assert(upto.last() == c);
            assert(upto.drop_last() =~= digits.subrange(0, i - start));
            lemma_digits_grow(digits, i - start + 1);
        }
        if !('0' <= c && c <= '9') {
            return None;
        }
        let d: u64 = (c as u32 - '0' as u32) as u64;
        proof {
            assert(digits_value(upto) == Some((value * 10 + d) as nat)) by {
                if i == start {
                    assert(upto.len() == 1);
                }
            }
        }
        if d > max {
            return None;
        }
        if value > (max - d) / 10 {
            return None;
        }
        value = value * 10 + d;
        i = i + 1;
    }
    assert(digits.subrange(0, i - start) =~= digits);
    Some(value)
}

/// What the environment says about the settings. A switch is on when its
/// variable is set; a value is the text of its variable. The cell aspect
/// ratio comes in thousandths.
pub struct EnvOverrides {
    pub nav_latch_ms: Option<String>,
    pub force_alt_screen: bool,
    pub no_alt_screen: bool,
    pub render_cache_size: Option<String>,
    pub prefetch_count: Option<String>,
    pub debug: bool,
    pub kgp_no_compress: bool,
    pub compress_level: Option<String>,
    pub tmux_kitty_max_pixels: Option<String>,
    pub trace_worker: bool,
    pub cell_aspect_ratio: Option<u32>,
    pub resize_filter: Option<String>,
    pub tile_filter: Option<String>,
    pub prefetch_threads: Option<String>,
    pub tile_threads: Option<String>,
}

/// A setting after its override: the number the text stands for, or the
/// setting as it was when there is no text or the text is no number up to
/// `max`.
pub open spec fn overridden(current: nat, text: Option<String>, max: nat) -> nat {
    match text {
        Some(t) => match number_in(t@, max) {
            Some(v) => v,
            None => current,
        },
        None => current,
    }
}

/// A filter after its override.
pub open spec fn filter_overridden(current: FilterType, text: Option<String>) -> FilterType {
    match text {
        Some(t) => filter_named(t@),
        None => current,
    }
}

fn override_number(current: u64, text: &Option<String>, max: u64) -> (r: u64)
    requires
        current <= max,
    ensures
        r == overridden(current as nat, *text, max as nat),
        r <= max,
{
    match text {
        Some(t) => match parse_number(t.as_str(), max) {
            Some(v) => v,
            None => current,
        },
        None => current,
    }
}

fn override_filter(current: FilterType, text: &Option<String>) -> (r: FilterType)
    ensures
        r == filter_overridden(current, *text),
{
    match text {
        Some(t) => parse_filter_type(t.as_str()),
        None => current,
    }
}

impl Config {
    /// The settings with the overrides of the environment applied.
    pub open spec fn with_env(self, env: &EnvOverrides) -> Config {
        Config {
            nav_latch_ms: overridden(self.nav_latch_ms as nat, env.nav_latch_ms, u64::MAX as nat) as u64,
            force_alt_screen: self.force_alt_screen || env.force_alt_screen,
            no_alt_screen: self.no_alt_screen || env.no_alt_screen,
            render_cache_size: overridden(
                self.render_cache_size as nat,
                env.render_cache_size,
                usize::MAX as nat,
            ) as usize,
            prefetch_count: overridden(
                self.prefetch_count as nat,
                env.prefetch_count,
                usize::MAX as nat,
            ) as usize,
            debug: self.debug || env.debug,
            kgp_no_compress: self.kgp_no_compress || env.kgp_no_compress,
            compress_level: overridden(
                self.compress_level as nat,
                env.compress_level,
                u32::MAX as nat,
            ) as u32,
            tmux_kitty_max_pixels: overridden(
                self.tmux_kitty_max_pixels as nat,
                env.tmux_kitty_max_pixels,
                u64::MAX as nat,
            ) as u64,
            trace_worker: self.trace_worker || env.trace_worker,
            cell_aspect_ratio: match env.cell_aspect_ratio {
                Some(v) => v,
                None => self.cell_aspect_ratio,
            },
            resize_filter: filter_overridden(self.resize_filter, env.resize_filter),
            tile_filter: filter_overridden(self.tile_filter, env.tile_filter),
            prefetch_threads: overridden(
                self.prefetch_threads as nat,
                env.prefetch_threads,
                usize::MAX as nat,
            ) as usize,
            tile_threads: overridden(
                self.tile_threads as nat,
                env.tile_threads,
                usize::MAX as nat,
            ) as usize,
        }
    }

    /// Apply the overrides of the environment.
    pub fn apply_env_overrides(&mut self, env: &EnvOverrides)
        ensures
            *final(self) == old(self).with_env(env),
    {
        let updated = Config {
            nav_latch_ms: override_number(self.nav_latch_ms, &env.nav_latch_ms, u64::MAX),
            force_alt_screen: self.force_alt_screen || env.force_alt_screen,
            no_alt_screen: self.no_alt_screen || env.no_alt_screen,
            render_cache_size: override_number(
                self.render_cache_size as u64,
                &env.render_cache_size,
                usize::MAX as u64,
            ) as usize,
            prefetch_count: override_number(
                self.prefetch_count as u64,
                &env.prefetch_count,
                usize::MAX as u64,
            ) as usize,
            debug: self.debug || env.debug,
            kgp_no_compress: self.kgp_no_compress || env.kgp_no_compress,
            compress_level: override_number(
                self.compress_level as u64,
                &env.compress_level,
                u32::MAX as u64,
            ) as u32,
            tmux_kitty_max_pixels: override_number(
                self.tmux_kitty_max_pixels,
                &env.tmux_kitty_max_pixels,
                u64::MAX,
            ),
            trace_worker: self.trace_worker || env.trace_worker,
            cell_aspect_ratio: match env.cell_aspect_ratio {
                Some(v) => v,
                None => self.cell_aspect_ratio,
            },
            resize_filter: override_filter(self.resize_filter, &env.resize_filter),
            tile_filter: override_filter(self.tile_filter, &env.tile_filter),
            prefetch_threads: override_number(
                self.prefetch_threads as u64,
                &env.prefetch_threads,
                usize::MAX as u64,
            ) as usize,
            tile_threads: override_number(
                self.tile_threads as u64,
                &env.tile_threads,
                usize::MAX as u64,
            ) as usize,
        };
        *self = updated;
    }

    /// The settings in effect: those of the configuration file, or the
    /// defaults without one; over them the overrides of the environment;
    /// all of it brought into bounds.
    pub fn load(file: Option<Config>, env: &EnvOverrides) -> (config: Config)
        ensures
            config == (match file {
                Some(c) => c,
                None => Config::spec_default(),
            }).with_env(env).clamp_spec(),
            config.wf(),
    {
        let mut config = match file {
            Some(c) => c,
            None => Config::default(),
        };
        config.apply_env_overrides(env);
        config.clamp_values();
        config
    }
}

impl Default for Config {
    fn default() -> (config: Config)
        ensures
            config == Config::spec_default(),
            config.wf(),
    {
        Config {
            nav_latch_ms: 150,
            force_alt_screen: false,
            no_alt_screen: false,
            render_cache_size: 100,
            prefetch_count: 5,
            debug: false,
            kgp_no_compress: false,
            compress_level: 6,
            tmux_kitty_max_pixels: 1_500_000,
            trace_worker: false,
            cell_aspect_ratio: 2_000,
            resize_filter: FilterType::Triangle,
            tile_filter: FilterType::Nearest,
            prefetch_threads: 2,
            tile_threads: 4,
        }
    }
}

} // verus!
