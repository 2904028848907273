//! Screen layout: the image area above the status row, and the tile grid
//! that fits into it.

use vstd::prelude::*;
use crate::config::clamped;
use crate::geometry::Rect;

verus! {

/// The part that the layout solver gives to the image when a screen of
/// `width` by `height` cells is split into an image part of at least one
/// row and a status row: `x`, `y`, `width`, `height`.
pub uninterp spec fn layout_rows(width: u16, height: u16) -> (u16, u16, u16, u16);

/// Calls `ratatui::layout::Layout::split` on a vertical layout of
/// `Constraint::Min(1)` above `Constraint::Length(1)` over the whole screen
/// and returns the first part. Trusted: the part depends on the screen
/// size alone.
#[verifier::external_body]
fn split_rows(width: u16, height: u16) -> (part: (u16, u16, u16, u16))
    ensures
        part == layout_rows(width, height),
{
    let full = ratatui::layout::Rect::new(0, 0, width, height);
    let constraints = [ratatui::layout::Constraint::Min(1), ratatui::layout::Constraint::Length(1)];
    let top = ratatui::layout::Layout::vertical(constraints).split(full)[0];
    (top.x, top.y, top.width, top.height)
}

/// The image area of a terminal: the part of the screen that the layout
/// leaves to the image above the status row, its extent cut back where it
/// would leave the coordinate range.
pub open spec fn image_area_of(terminal_size: Rect) -> Rect {
    let part = layout_rows(terminal_size.width, terminal_size.height);
    Rect::spec_new(part.0, part.1, part.2, part.3)
}

/// Compute the image area of a terminal.
pub fn image_area(terminal_size: Rect) -> (area: Rect)
    ensures
        area == image_area_of(terminal_size),
        area.wf(),
{
    let part = split_rows(terminal_size.width, terminal_size.height);
    Rect::new(part.0, part.1, part.2, part.3)
}

/// Fewest cells a tile is wide.
pub const MIN_TILE_WIDTH: u16 = 16;

/// Fewest cells a tile is high.
pub const MIN_TILE_HEIGHT: u16 = 4;

/// Fewest and most columns and rows of a grid.
pub const MIN_TILES: u64 = 2;

pub const MAX_TILES: u64 = 6;

/// Rows of cells a tile needs to look square: the least tile width, sixteen
/// cells, over the cell aspect ratio (given in thousandths), rounded to the
/// nearest whole, but no fewer than four. A ratio of zero asks for more
/// rows than any screen has.
pub open spec fn tile_rows_needed(cell_aspect_ratio: u32) -> int {
    if cell_aspect_ratio == 0 {
        u16::MAX as int
    } else {
        let rounded = (32_000 + cell_aspect_ratio) / (2 * cell_aspect_ratio);
        if rounded < MIN_TILE_HEIGHT { MIN_TILE_HEIGHT as int } else { rounded }
    }
}

/// The grid for an image area: as many columns and rows as fit, both
/// between two and six.
pub open spec fn grid_for(image_area: Rect, cell_aspect_ratio: u32) -> (usize, usize) {
    (
        clamped(
            image_area.width as int / MIN_TILE_WIDTH as int,
            MIN_TILES as int,
            MAX_TILES as int,
        ) as usize,
        clamped(
            image_area.height as int / tile_rows_needed(cell_aspect_ratio),
            MIN_TILES as int,
            MAX_TILES as int,
        ) as usize,
    )
}

/// Compute the tile grid for an image area.
pub fn tile_grid_for(image_area: Rect, cell_aspect_ratio: u32) -> (grid: (usize, usize))
    ensures
        grid == grid_for(image_area, cell_aspect_ratio),
        2 <= grid.0 <= 6,
        2 <= grid.1 <= 6,
{
    let needed: u64 = if cell_aspect_ratio == 0 {
        u16::MAX as u64
    } else {
        let rounded: u64 = (32_000 + cell_aspect_ratio as u64) / (2 * cell_aspect_ratio as u64);
        if rounded < MIN_TILE_HEIGHT as u64 {
            MIN_TILE_HEIGHT as u64
        } else {
            rounded
        }
    };
    let cols: u64 = image_area.width as u64 / MIN_TILE_WIDTH as u64;
    let rows: u64 = image_area.height as u64 / needed;
    (
        crate::config::clamp(cols, MIN_TILES, MAX_TILES) as usize,
        crate::config::clamp(rows, MIN_TILES, MAX_TILES) as usize,
    )
}

/// Compute the tile grid for a terminal.
pub fn calculate_tile_grid(terminal_size: Rect, cell_aspect_ratio: u32) -> (grid: (usize, usize))
    ensures
        grid == grid_for(image_area_of(terminal_size), cell_aspect_ratio),
        2 <= grid.0 <= 6,
        2 <= grid.1 <= 6,
{
    tile_grid_for(image_area(terminal_size), cell_aspect_ratio)
}

} // verus!
