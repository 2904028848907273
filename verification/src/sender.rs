//! The terminal writer: the one place that produces bytes for the terminal.
//! It turns requests into byte blocks, keeps at most one streaming task and
//! remembers which cells still hold stale image output.

use std::collections::VecDeque;
use std::sync::Arc;
use vstd::prelude::*;
use vstd::string::*;
use vstd::utf8::*;
use crate::encoding::{
    base64, base64_decoded, decimal, lemma_base64_round_trip, push_base64, push_decimal, push_text,
};
use crate::geometry::{diff_strips, rect_diff, union_of, union_rect, Rect};
use crate::kgp::{
    cursor_to, delete_all, delete_all_bytes, delete_by_id, delete_by_id_bytes, erase_row,
    erase_rows, place_row, place_rows, push_cursor_to, row_count,
};
use crate::tiles::{grid_holds, in_grid, tile_cells, tile_span};

verus! {

/// What the status bar says about the image under the cursor.
#[derive(Clone, Copy, Debug, PartialEq, Eq, Structural)]
pub enum StatusIndicator {
    Busy,
    Ready,
    Fit,
    Tile,
}

/// Whether `n` is the length of the longest prefix of `bytes` that ends on
/// a character boundary and has at most `max` bytes.
pub open spec fn is_clip_len(bytes: Seq<u8>, max: int, n: int) -> bool {
    &&& 0 <= n <= bytes.len()
    &&& n <= max
    &&& is_char_boundary(bytes, n)
    &&& forall|m: int| n < m <= max && m <= bytes.len() ==> !is_char_boundary(bytes, m)
}

/// Length of the longest prefix of `bytes` that ends on a character
/// boundary and has at most `max` bytes.
pub open spec fn clip_len(bytes: Seq<u8>, max: int) -> int {
    choose|n: int| is_clip_len(bytes, max, n)
}

/// There is only one such length.
pub proof fn lemma_clip_len_unique(bytes: Seq<u8>, max: int, n: int)
    requires
        is_clip_len(bytes, max, n),
    ensures
        clip_len(bytes, max) == n,
{
    let c = clip_len(bytes, max);
    assert(is_clip_len(bytes, max, c));
}

/// Clip a string to at most `max_bytes` bytes without splitting a
/// character: the longest such prefix.
pub fn clip_utf8(s: &str, max_bytes: usize) -> (r: &str)
    ensures
        is_clip_len(s.spec_bytes(), max_bytes as int, r.spec_bytes().len() as int),
        r.spec_bytes().len() == clip_len(s.spec_bytes(), max_bytes as int),
        r.spec_bytes() == s.spec_bytes().subrange(0, r.spec_bytes().len() as int),
        r@ == s@.subrange(0, r@.len() as int),
        r@.len() <= s@.len(),
{
    broadcast use encode_utf8_valid_utf8, encode_utf8_decode_utf8;

    let ghost bytes = s.spec_bytes();
    proof {
        encode_utf8_valid_utf8(s@);
        is_char_boundary_start_end_of_seq(bytes);
    }
    if s.as_bytes().len() <= max_bytes {
        proof {
            assert(bytes.subrange(0, bytes.len() as int) =~= bytes);
            assert(s@.subrange(0, s@.len() as int) =~= s@);
            lemma_clip_len_unique(bytes, max_bytes as int, bytes.len() as int);
        }
        return s;
    }
    let mut end: usize = max_bytes;
    while !s.is_char_boundary(end)
        invariant
            bytes == s.spec_bytes(),
            valid_utf8(bytes),
            end <= max_bytes < bytes.len(),
            is_char_boundary(bytes, 0),
            forall|m: int| end < m <= max_bytes ==> !is_char_boundary(bytes, m),
        decreases end,
    {
        end = end - 1;
    }
    let (head, _tail) = s.split_at(end);
    proof {
        let first = bytes.subrange(0, end as int);
        let second = bytes.subrange(end as int, bytes.len() as int);
        decode_utf8_split(bytes, end as int);
        assert(decode_utf8(bytes) == s@);
        assert(head.spec_bytes() == first);
        assert(decode_utf8(first) == head@);
        assert(s@ =~= head@ + decode_utf8(second));
        assert(head@ =~= s@.subrange(0, head@.len() as int));
        lemma_clip_len_unique(bytes, max_bytes as int, end as int);
    }
    head
}

/// The clipboard sequence for `data`: `ESC ] 52 ; c ;`, the base64 of the
/// data, `BEL`; inside a multiplexer wrapped in the pass-through envelope.
pub open spec fn osc52_bytes(data: Seq<u8>, is_tmux: bool) -> Seq<u8> {
    if is_tmux {
        "\x1bPtmux;\x1b\x1b]52;c;".spec_bytes() + base64(data) + "\x07\x1b\\".spec_bytes()
    } else {
        "\x1b]52;c;".spec_bytes() + base64(data) + "\x07".spec_bytes()
    }
}

/// Build the OSC 52 sequence that copies `data` to the clipboard.
pub fn build_osc52_clipboard(data: &[u8], is_tmux: bool) -> (out: Vec<u8>)
    ensures
        out@ == osc52_bytes(data@, is_tmux),
{
    let mut buf: Vec<u8> = Vec::new();
    if is_tmux {
        push_text(&mut buf, "\x1bPtmux;\x1b\x1b]52;c;");
        push_base64(&mut buf, data);
        push_text(&mut buf, "\x07\x1b\\");
    } else {
        push_text(&mut buf, "\x1b]52;c;");
        push_base64(&mut buf, data);
        push_text(&mut buf, "\x07");
    }
    assert(buf@ =~= osc52_bytes(data@, is_tmux));
    buf
}

/// Columns the indicator segment takes: space, glyph, space, separator.
pub const STATUS_OVERHEAD: u16 = 4;

/// The glyph of an indicator.
pub open spec fn indicator_icon(indicator: StatusIndicator) -> Seq<u8> {
    match indicator {
        StatusIndicator::Ready => "\u{f012c}".spec_bytes(),
        StatusIndicator::Busy => "\u{f110}".spec_bytes(),
        StatusIndicator::Fit => "\u{f004c}".spec_bytes(),
        StatusIndicator::Tile => "\u{f11d9}".spec_bytes(),
    }
}

/// The background colour code of an indicator: green, yellow, magenta,
/// cyan. The matching foreground code is ten less.
pub open spec fn indicator_background(indicator: StatusIndicator) -> nat {
    match indicator {
        StatusIndicator::Ready => 42,
        StatusIndicator::Busy => 43,
        StatusIndicator::Fit => 45,
        StatusIndicator::Tile => 46,
    }
}

/// The status row for a clipped body: clear the last row on the main
/// background, draw the indicator segment, the separator, then the body.
pub open spec fn status_bytes(body: Seq<u8>, size: (u16, u16), indicator: StatusIndicator) -> Seq<
    u8,
> {
    let bg = indicator_background(indicator);
    cursor_to(size.1 as nat, 1) + "\x1b[40m\x1b[".spec_bytes() + decimal(size.0 as nat)
        + "X".spec_bytes() + cursor_to(size.1 as nat, 1) + "\x1b[30;".spec_bytes() + decimal(bg)
        + "m ".spec_bytes() + indicator_icon(indicator) + " ".spec_bytes() + "\x1b[".spec_bytes()
        + decimal((bg - 10) as nat) + ";40m\u{e0b0}".spec_bytes() + "\x1b[97;40m ".spec_bytes()
        + body + "\x1b[0m".spec_bytes()
}

/// Number of bytes left for the status text on a terminal `width` columns
/// wide.
pub open spec fn status_room(width: u16) -> int {
    if width < STATUS_OVERHEAD { 0 } else { width - STATUS_OVERHEAD }
}

/// Render the status row. Nothing is drawn on a terminal without columns
/// or rows; otherwise the text is clipped to the room beside the indicator.
pub fn render_status(status_text: &str, size: (u16, u16), indicator: StatusIndicator) -> (out: Vec<
    u8,
>)
    ensures
        size.0 == 0 || size.1 == 0 ==> out@.len() == 0,
        size.0 != 0 && size.1 != 0 ==> out@ == status_bytes(
            status_text.spec_bytes().subrange(
                0,
                clip_len(status_text.spec_bytes(), status_room(size.0)),
            ),
            size,
            indicator,
        ),
{
    let (w, h) = size;
    let mut buf: Vec<u8> = Vec::new();
    if w == 0 || h == 0 {
        return buf;
    }
    let available: u16 = if w < STATUS_OVERHEAD { 0 } else { w - STATUS_OVERHEAD };
    let clipped = clip_utf8(status_text, available as usize);
    let bg: u32 = match indicator {
        StatusIndicator::Ready => 42,
        StatusIndicator::Busy => 43,
        StatusIndicator::Fit => 45,
        StatusIndicator::Tile => 46,
    };
    push_cursor_to(&mut buf, h as u32, 1);
    push_text(&mut buf, "\x1b[40m\x1b[");
    push_decimal(&mut buf, w as u32);
    push_text(&mut buf, "X");
    push_cursor_to(&mut buf, h as u32, 1);
    push_text(&mut buf, "\x1b[30;");
    push_decimal(&mut buf, bg);
    push_text(&mut buf, "m ");
    match indicator {
        StatusIndicator::Ready => push_text(&mut buf, "\u{f012c}"),
        StatusIndicator::Busy => push_text(&mut buf, "\u{f110}"),
        StatusIndicator::Fit => push_text(&mut buf, "\u{f004c}"),
        StatusIndicator::Tile => push_text(&mut buf, "\u{f11d9}"),
    }
    push_text(&mut buf, " ");
    push_text(&mut buf, "\x1b[");
    push_decimal(&mut buf, bg - 10);
    push_text(&mut buf, ";40m\u{e0b0}");
    push_text(&mut buf, "\x1b[97;40m ");
    push_text(&mut buf, clipped);
    push_text(&mut buf, "\x1b[0m");
    proof {
        let n = clipped.spec_bytes().len() as int;
        assert(buf@ =~= status_bytes(status_text.spec_bytes().subrange(0, n), size, indicator));
    }
    buf
}

/// One glyph drawn at a cell.
pub open spec fn glyph_at(row: nat, col: nat, glyph: Seq<u8>) -> Seq<u8> {
    cursor_to(row, col) + glyph
}

/// The glyph drawn at each column from `from` up to but not including
/// `to`, on one row.
pub open spec fn glyph_run(row: nat, from: int, to: int, glyph: Seq<u8>) -> Seq<u8>
    decreases to - from,
{
    if from >= to || to <= 0 {
        Seq::<u8>::empty()
    } else {
        glyph_run(row, from, to - 1, glyph) + glyph_at(row, (to - 1) as nat, glyph)
    }
}

/// The glyph drawn at the left and the right column of each row from
/// `from` up to but not including `to`.
pub open spec fn side_run(from: int, to: int, left: nat, right: nat, glyph: Seq<u8>) -> Seq<u8>
    decreases to - from,
{
    if from >= to || to <= 0 {
        Seq::<u8>::empty()
    } else {
        side_run(from, to - 1, left, right, glyph) + glyph_at((to - 1) as nat, left, glyph)
            + glyph_at((to - 1) as nat, right, glyph)
    }
}

/// The box-drawing glyphs of the tile cursor; erasing draws spaces along
/// the same path.
pub open spec fn cursor_glyphs(draw: bool) -> (
    Seq<u8>,
    Seq<u8>,
    Seq<u8>,
    Seq<u8>,
    Seq<u8>,
    Seq<u8>,
) {
    if draw {
        (
            "\u{256d}".spec_bytes(),
            "\u{256e}".spec_bytes(),
            "\u{2570}".spec_bytes(),
            "\u{256f}".spec_bytes(),
            "\u{2500}".spec_bytes(),
            "\u{2502}".spec_bytes(),
        )
    } else {
        (
            " ".spec_bytes(),
            " ".spec_bytes(),
            " ".spec_bytes(),
            " ".spec_bytes(),
            " ".spec_bytes(),
            " ".spec_bytes(),
        )
    }
}

/// The overlay for the tile under the cursor: a frame along the border
/// cells of the tile, in cyan, or spaces along the same path to erase it.
pub open spec fn tile_cursor_bytes(
    grid: (usize, usize),
    cursor_idx: int,
    image_area: Rect,
    draw: bool,
) -> Seq<u8> {
    let (x0, y0, x1, y1) = tile_cells(
        grid,
        cursor_idx,
        image_area.width as int,
        image_area.height as int,
    );
    let top = (image_area.y + y0 + 1) as nat;
    let left = (image_area.x + x0 + 1) as nat;
    let right = (image_area.x + x1) as nat;
    let bottom = (image_area.y + y1) as nat;
    let (top_left, top_right, bottom_left, bottom_right, horizontal, vertical) = cursor_glyphs(
        draw,
    );
    (if draw { "\x1b[36m".spec_bytes() } else { "\x1b[0m".spec_bytes() }) + glyph_at(
        top,
        left,
        top_left,
    ) + glyph_run(top, left as int + 1, right as int, horizontal) + glyph_at(top, right, top_right)
        + glyph_at(bottom, left, bottom_left) + glyph_run(
        bottom,
        left as int + 1,
        right as int,
        horizontal,
    ) + glyph_at(bottom, right, bottom_right) + side_run(
        top as int + 1,
        bottom as int,
        left,
        right,
        vertical,
    ) + "\x1b[0m".spec_bytes()
}

fn push_glyph_at(buf: &mut Vec<u8>, row: u32, col: u32, glyph: &str)
    ensures
        final(buf)@ == old(buf)@ + glyph_at(row as nat, col as nat, glyph.spec_bytes()),
{
    push_cursor_to(buf, row, col);
    push_text(buf, glyph);
    assert(buf@ =~= old(buf)@ + glyph_at(row as nat, col as nat, glyph.spec_bytes()));
}

fn push_glyph_run(buf: &mut Vec<u8>, row: u32, from: u32, to: u32, glyph: &str)
    ensures
        final(buf)@ == old(buf)@ + glyph_run(row as nat, from as int, to as int, glyph.spec_bytes()),
{
    let mut col: u32 = from;
    assert(buf@ =~= old(buf)@ + glyph_run(row as nat, from as int, from as int, glyph.spec_bytes()));
    if from >= to {
        return ;
    }
    while col < to
        invariant
            from <= col <= to,
            buf@ == old(buf)@ + glyph_run(row as nat, from as int, col as int, glyph.spec_bytes()),
        decreases to - col,
    {
        push_glyph_at(buf, row, col, glyph);
        col = col + 1;
        assert(buf@ =~= old(buf)@ + glyph_run(
            row as nat,
            from as int,
            col as int,
            glyph.spec_bytes(),
        ));
    }
}

fn push_side_run(buf: &mut Vec<u8>, from: u32, to: u32, left: u32, right: u32, glyph: &str)
    ensures
        final(buf)@ == old(buf)@ + side_run(
            from as int,
            to as int,
            left as nat,
            right as nat,
            glyph.spec_bytes(),
        ),
{
    let mut row: u32 = from;
    assert(buf@ =~= old(buf)@ + side_run(
        from as int,
        from as int,
        left as nat,
        right as nat,
        glyph.spec_bytes(),
    ));
    if from >= to {
        return ;
    }
    while row < to
        invariant
            from <= row <= to,
            buf@ == old(buf)@ + side_run(
                from as int,
                row as int,
                left as nat,
                right as nat,
                glyph.spec_bytes(),
            ),
        decreases to - row,
    {
        push_glyph_at(buf, row, left, glyph);
        push_glyph_at(buf, row, right, glyph);
        row = row + 1;
        assert(buf@ =~= old(buf)@ + side_run(
            from as int,
            row as int,
            left as nat,
            right as nat,
            glyph.spec_bytes(),
        ));
    }
}

/// Build the overlay that draws (`draw`) or erases the cursor frame around
/// tile `cursor_idx`. Nothing is produced for a tile outside the grid or a
/// cell size of zero.
pub fn build_tile_cursor_escape(
    grid: (usize, usize),
    cursor_idx: usize,
    image_area: Rect,
    cell_size: (u16, u16),
    draw: bool,
) -> (out: Vec<u8>)
    ensures
        out@ == if in_grid(grid, cursor_idx as int) && cell_size.0 != 0 && cell_size.1 != 0 {
            tile_cursor_bytes(grid, cursor_idx as int, image_area, draw)
        } else {
            Seq::<u8>::empty()
        },
{
    let mut buf: Vec<u8> = Vec::new();
    if !grid_holds(grid, cursor_idx) || cell_size.0 == 0 || cell_size.1 == 0 {
        return buf;
    }
    let (x0, y0, x1, y1) = tile_span(
        grid,
        cursor_idx,
        image_area.width as u32,
        image_area.height as u32,
    );
    let top: u32 = image_area.y as u32 + y0 + 1;
    let left: u32 = image_area.x as u32 + x0 + 1;
    let right: u32 = image_area.x as u32 + x1;
    let bottom: u32 = image_area.y as u32 + y1;
    if draw {
        push_text(&mut buf, "\x1b[36m");
        push_glyph_at(&mut buf, top, left, "\u{256d}");
        push_glyph_run(&mut buf, top, left + 1, right, "\u{2500}");
        push_glyph_at(&mut buf, top, right, "\u{256e}");
        push_glyph_at(&mut buf, bottom, left, "\u{2570}");
        push_glyph_run(&mut buf, bottom, left + 1, right, "\u{2500}");
        push_glyph_at(&mut buf, bottom, right, "\u{256f}");
        push_side_run(&mut buf, top + 1, bottom, left, right, "\u{2502}");
    } else {
        push_text(&mut buf, "\x1b[0m");
        push_glyph_at(&mut buf, top, left, " ");
        push_glyph_run(&mut buf, top, left + 1, right, " ");
        push_glyph_at(&mut buf, top, right, " ");
        push_glyph_at(&mut buf, bottom, left, " ");
        push_glyph_run(&mut buf, bottom, left + 1, right, " ");
        push_glyph_at(&mut buf, bottom, right, " ");
        push_side_run(&mut buf, top + 1, bottom, left, right, " ");
    }
    push_text(&mut buf, "\x1b[0m");
    assert(buf@ =~= tile_cursor_bytes(grid, cursor_idx as int, image_area, draw));
    buf
}

/// The bytes of each block.
pub open spec fn byte_blocks(blocks: Seq<Vec<u8>>) -> Seq<Seq<u8>> {
    Seq::new(blocks.len(), |i: int| blocks[i]@)
}

/// All blocks joined in order.
pub open spec fn joined(blocks: Seq<Seq<u8>>) -> Seq<u8>
    decreases blocks.len(),
{
    if blocks.len() == 0 {
        Seq::<u8>::empty()
    } else {
        joined(blocks.drop_last()) + blocks.last()
    }
}

/// The erase rows of an area.
pub open spec fn erase_blocks(area: Rect) -> Seq<Seq<u8>> {
    Seq::new(row_count(area), |y: int| erase_row(area, y))
}

/// The placement rows of an area.
pub open spec fn place_blocks(area: Rect, id: u32) -> Seq<Seq<u8>> {
    Seq::new(row_count(area), |y: int| place_row(area, id, y))
}

/// The erase rows of each rectangle in turn.
pub open spec fn erase_all_blocks(rects: Seq<Rect>) -> Seq<Seq<u8>>
    decreases rects.len(),
{
    if rects.len() == 0 {
        Seq::<Seq<u8>>::empty()
    } else {
        erase_all_blocks(rects.drop_last()) + erase_blocks(rects.last())
    }
}

/// The rectangles to clean before an image is placed at `area`: what the
/// dirty area covers beyond it.
pub open spec fn cleanup_strips(area: Rect, dirty_area: Option<Rect>) -> Seq<Rect> {
    match dirty_area {
        Some(dirty) => diff_strips(dirty, area),
        None => Seq::<Rect>::empty(),
    }
}

/// The blocks of an image transmission, in the order they are written:
/// erase the old placement, erase what is dirty outside the new area,
/// delete the image by identifier, transmit, place.
pub open spec fn transmit_blocks(
    chunks: Seq<Seq<u8>>,
    area: Rect,
    kgp_id: u32,
    old_area: Option<Rect>,
    dirty_area: Option<Rect>,
    is_tmux: bool,
) -> Seq<Seq<u8>> {
    (match old_area {
        Some(old_rect) => erase_blocks(old_rect),
        None => Seq::<Seq<u8>>::empty(),
    }) + erase_all_blocks(cleanup_strips(area, dirty_area)) + seq![
        delete_by_id_bytes(kgp_id, is_tmux),
    ] + chunks + place_blocks(area, kgp_id)
}

/// What a finished task reports.
#[derive(Clone, Copy, Debug, PartialEq, Eq, Structural)]
pub enum WriterResultKind {
    TransmitDone { kgp_id: u32 },
}

/// A completion event, tagged with the epoch of the task it reports.
#[derive(Clone, Copy, Debug, PartialEq, Eq, Structural)]
pub struct WriterResult {
    pub kind: WriterResultKind,
    pub epoch: u64,
}

/// A request to the writer.
#[allow(inconsistent_fields)]
pub enum WriterRequest {
    /// Update the status row.
    Status { text: String, size: (u16, u16), indicator: StatusIndicator },
    /// Transmit an image and place it at `area`.
    ImageTransmit {
        encoded_chunks: Arc<Vec<Vec<u8>>>,
        area: Rect,
        kgp_id: u32,
        old_area: Option<Rect>,
        epoch: u64,
        is_tmux: bool,
    },
    /// Remove all graphics, erasing `area` first.
    ClearAll { area: Option<Rect>, is_tmux: bool },
    /// Drop the task in progress; `area` may hold partial output.
    CancelImage { area: Option<Rect>, epoch: u64 },
    /// Copy bytes to the clipboard.
    CopyToClipboard { data: Vec<u8>, is_tmux: bool },
    /// Draw the tile cursor, erasing the previous one.
    TileCursor {
        grid: (usize, usize),
        cursor_idx: usize,
        image_area: Rect,
        prev_cursor_idx: Option<usize>,
        cell_size: (u16, u16),
    },
    Shutdown,
}

/// A request as a mathematical value.
#[allow(inconsistent_fields)]
pub enum RequestModel {
    Status { text: Seq<char>, size: (u16, u16), indicator: StatusIndicator },
    ImageTransmit {
        chunks: Seq<Seq<u8>>,
        area: Rect,
        kgp_id: u32,
        old_area: Option<Rect>,
        epoch: u64,
        is_tmux: bool,
    },
    ClearAll { area: Option<Rect>, is_tmux: bool },
    CancelImage { area: Option<Rect>, epoch: u64 },
    CopyToClipboard { data: Seq<u8>, is_tmux: bool },
    TileCursor {
        grid: (usize, usize),
        cursor_idx: usize,
        image_area: Rect,
        prev_cursor_idx: Option<usize>,
        cell_size: (u16, u16),
    },
    Shutdown,
}

impl View for WriterRequest {
    type V = RequestModel;

    open spec fn view(&self) -> RequestModel {
        match *self {
            WriterRequest::Status { text, size, indicator } => RequestModel::Status {
                text: text@,
                size,
                indicator,
            },
            WriterRequest::ImageTransmit {
                encoded_chunks,
                area,
                kgp_id,
                old_area,
                epoch,
                is_tmux,
            } => RequestModel::ImageTransmit {
                chunks: byte_blocks(encoded_chunks@),
                area,
                kgp_id,
                old_area,
                epoch,
                is_tmux,
            },
            WriterRequest::ClearAll { area, is_tmux } => RequestModel::ClearAll { area, is_tmux },
            WriterRequest::CancelImage { area, epoch } => RequestModel::CancelImage { area, epoch },
            WriterRequest::CopyToClipboard { data, is_tmux } => RequestModel::CopyToClipboard {
                data: data@,
                is_tmux,
            },
            WriterRequest::TileCursor {
                grid,
                cursor_idx,
                image_area,
                prev_cursor_idx,
                cell_size,
            } => RequestModel::TileCursor { grid, cursor_idx, image_area, prev_cursor_idx, cell_size },
            WriterRequest::Shutdown => RequestModel::Shutdown,
        }
    }
}

impl RequestModel {
    /// Every rectangle the request carries is well formed.
    pub open spec fn wf(self) -> bool {
        match self {
            RequestModel::ImageTransmit { area, old_area, .. } => area.wf() && (
            old_area matches Some(r) ==> r.wf()),
            RequestModel::ClearAll { area, .. } => area matches Some(r) ==> r.wf(),
            RequestModel::CancelImage { area, .. } => area matches Some(r) ==> r.wf(),
            _ => true,
        }
    }
}

/// A unit of streaming output: byte blocks written one at a time, and what
/// to report once the last one is out.
pub struct Task {
    pub chunks: VecDeque<Vec<u8>>,
    pub complete: Option<WriterResultKind>,
    pub epoch: u64,
    pub clears_dirty: bool,
}

/// A task as a mathematical value.
pub struct TaskModel {
    pub chunks: Seq<Seq<u8>>,
    pub complete: Option<WriterResultKind>,
    pub epoch: u64,
    pub clears_dirty: bool,
}

impl View for Task {
    type V = TaskModel;

    open spec fn view(&self) -> TaskModel {
        TaskModel {
            chunks: byte_blocks(self.chunks@),
            complete: self.complete,
            epoch: self.epoch,
            clears_dirty: self.clears_dirty,
        }
    }
}

/// The task that transmits an image.
pub open spec fn transmit_task(
    chunks: Seq<Seq<u8>>,
    area: Rect,
    kgp_id: u32,
    old_area: Option<Rect>,
    dirty_area: Option<Rect>,
    epoch: u64,
    is_tmux: bool,
) -> TaskModel {
    TaskModel {
        chunks: transmit_blocks(chunks, area, kgp_id, old_area, dirty_area, is_tmux),
        complete: Some(WriterResultKind::TransmitDone { kgp_id }),
        epoch,
        clears_dirty: dirty_area is Some,
    }
}

fn append_blocks(queue: &mut VecDeque<Vec<u8>>, blocks: Vec<Vec<u8>>)
    ensures
        byte_blocks(final(queue)@) == byte_blocks(old(queue)@) + byte_blocks(blocks@),
{
    let mut blocks = blocks;
    let ghost all = blocks@;
    let ghost start = queue@;
    // The blocks are moved, not copied: they are stacked in reverse and then
    // popped into the queue, which restores their order.
    let mut reversed: Vec<Vec<u8>> = Vec::new();
    while blocks.len() > 0
        invariant
            blocks@.len() + reversed@.len() == all.len(),
            forall|i: int| 0 <= i < blocks@.len() ==> blocks@[i] == all[i],
            forall|i: int|
                0 <= i < reversed@.len() ==> reversed@[i] == all[all.len() - 1 - i],
        decreases blocks@.len(),
    {
        match blocks.pop() {
            Some(block) => reversed.push(block),
            None => {},
        }
    }
    while reversed.len() > 0
        invariant
            reversed@.len() <= all.len(),
            forall|i: int|
                0 <= i < reversed@.len() ==> reversed@[i] == all[all.len() - 1 - i],
            queue@ == start + all.subrange(0, all.len() - reversed@.len()),
        decreases reversed@.len(),
    {
        let ghost done = all.len() - reversed@.len();
        match reversed.pop() {
            Some(block) => {
                queue.push_back(block);
                assert(queue@ =~= start + all.subrange(0, done + 1));
            },
            None => {},
        }
    }
    assert(all.subrange(0, all.len() as int) =~= all);
    assert(byte_blocks(queue@) =~= byte_blocks(start) + byte_blocks(all));
}

/// The rectangles to clean before an image is placed at `area`.
pub fn cleanup_rects(area: Rect, dirty_area: Option<Rect>) -> (out: Vec<Rect>)
    requires
        area.wf(),
        dirty_area matches Some(r) ==> r.wf(),
    ensures
        out@ == cleanup_strips(area, dirty_area),
{
    match dirty_area {
        Some(dirty) => rect_diff(dirty, area),
        None => Vec::new(),
    }
}

fn erase_rows_blocks(area: Rect) -> (rows: Vec<Vec<u8>>)
    ensures
        byte_blocks(rows@) == erase_blocks(area),
{
    let rows = erase_rows(area);
    assert(byte_blocks(rows@) =~= erase_blocks(area));
    rows
}

/// Build the task that transmits an image: the blocks of
/// `transmit_blocks`, a completion that names the identifier, and whether
/// the dirty area is clean once the task is through.
pub fn task_transmit(
    encoded_chunks: &Vec<Vec<u8>>,
    area: Rect,
    kgp_id: u32,
    old_area: Option<Rect>,
    dirty_area: Option<Rect>,
    epoch: u64,
    is_tmux: bool,
) -> (task: Task)
    requires
        area.wf(),
        dirty_area matches Some(r) ==> r.wf(),
    ensures
        task@ == transmit_task(
            byte_blocks(encoded_chunks@),
            area,
            kgp_id,
            old_area,
            dirty_area,
            epoch,
            is_tmux,
        ),
{
    let mut chunks: VecDeque<Vec<u8>> = VecDeque::new();
    assert(byte_blocks(chunks@) =~= Seq::<Seq<u8>>::empty());
    match old_area {
        Some(old_rect) => append_blocks(&mut chunks, erase_rows_blocks(old_rect)),
        None => {},
    }
    let ghost erased = byte_blocks(chunks@);
    let strips = cleanup_rects(area, dirty_area);
    let mut k: usize = 0;
    assert(strips@.subrange(0, 0) =~= Seq::<Rect>::empty());
    while k < strips.len()
        invariant
            k <= strips@.len(),
            byte_blocks(chunks@) == erased + erase_all_blocks(strips@.subrange(0, k as int)),
        decreases strips@.len() - k,
    {
        append_blocks(&mut chunks, erase_rows_blocks(strips[k]));
        proof {
            let upto = strips@.subrange(0, k as int + 1);
            assert(upto.drop_last() =~= strips@.subrange(0, k as int));
            assert(upto.last() == strips@[k as int]);
            assert(byte_blocks(chunks@) =~= erased + erase_all_blocks(upto));
        }
        k = k + 1;
    }
    assert(strips@.subrange(0, strips@.len() as int) =~= strips@);
    let ghost cleaned = byte_blocks(chunks@);
    chunks.push_back(delete_by_id(kgp_id, is_tmux));
    assert(byte_blocks(chunks@) =~= cleaned + seq![delete_by_id_bytes(kgp_id, is_tmux)]);
    let ghost deleted = byte_blocks(chunks@);
    let mut i: usize = 0;
    while i < encoded_chunks.len()
        invariant
            i <= encoded_chunks@.len(),
            byte_blocks(chunks@) == deleted + byte_blocks(encoded_chunks@).subrange(0, i as int),
        decreases encoded_chunks@.len() - i,
    {
        let mut copy: Vec<u8> = Vec::new();
        copy.extend_from_slice(encoded_chunks[i].as_slice());
        assert(copy@ =~= encoded_chunks@[i as int]@);
        let ghost before = byte_blocks(chunks@);
        let ghost block = copy@;
        chunks.push_back(copy);
        assert(byte_blocks(chunks@) =~= before.push(block));
        assert(byte_blocks(encoded_chunks@).subrange(0, i as int + 1) =~= byte_blocks(
            encoded_chunks@,
        ).subrange(0, i as int).push(block));
        i = i + 1;
    }
    assert(byte_blocks(encoded_chunks@).subrange(0, i as int) =~= byte_blocks(encoded_chunks@));
    let rows = place_rows(area, kgp_id);
    assert(byte_blocks(rows@) =~= place_blocks(area, kgp_id));
    append_blocks(&mut chunks, rows);
    let task = Task {
        chunks,
        complete: Some(WriterResultKind::TransmitDone { kgp_id }),
        epoch,
        clears_dirty: dirty_area.is_some(),
    };
    assert(task@.chunks =~= transmit_blocks(
        byte_blocks(encoded_chunks@),
        area,
        kgp_id,
        old_area,
        dirty_area,
        is_tmux,
    ));
    task
}

/// The bytes that remove all graphics: the erase rows of `area`, the
/// delete-all stream, an attribute reset.
pub open spec fn clear_all_bytes(area: Option<Rect>, is_tmux: bool) -> Seq<u8> {
    (match area {
        Some(r) => joined(erase_blocks(r)),
        None => Seq::<u8>::empty(),
    }) + delete_all_bytes(is_tmux) + "\x1b[0m".spec_bytes()
}

/// Build the bytes that remove all graphics.
pub fn clear_all(area: Option<Rect>, is_tmux: bool) -> (out: Vec<u8>)
    ensures
        out@ == clear_all_bytes(area, is_tmux),
{
    let mut buf: Vec<u8> = Vec::new();
    match area {
        Some(r) => {
            let rows = erase_rows_blocks(r);
            let mut y: usize = 0;
            assert(byte_blocks(rows@).subrange(0, 0) =~= Seq::<Seq<u8>>::empty());
            while y < rows.len()
                invariant
                    y <= rows@.len(),
                    buf@ == joined(byte_blocks(rows@).subrange(0, y as int)),
                decreases rows@.len() - y,
            {
                buf.extend_from_slice(rows[y].as_slice());
                proof {
                    let upto = byte_blocks(rows@).subrange(0, y as int + 1);
                    assert(upto.drop_last() =~= byte_blocks(rows@).subrange(0, y as int));
                    assert(upto.last() == rows@[y as int]@);
                    assert(buf@ =~= joined(upto));
                }
                y = y + 1;
            }
            assert(byte_blocks(rows@).subrange(0, y as int) =~= byte_blocks(rows@));
        },
        None => {},
    }
    let ghost erased = buf@;
    let deletes = delete_all(is_tmux);
    buf.extend_from_slice(deletes.as_slice());
    push_text(&mut buf, "\x1b[0m");
    assert(buf@ =~= erased + delete_all_bytes(is_tmux) + "\x1b[0m".spec_bytes());
    buf
}

/// The writer's state between requests.
pub struct WriterState {
    pub should_quit: bool,
    pub last_status: Option<(String, (u16, u16), StatusIndicator)>,
    pub status_dirty: bool,
    pub current_task: Option<Task>,
    pub current_epoch: u64,
    pub dirty_area: Option<Rect>,
    /// Bytes written since the last flush.
    pub unflushed: usize,
}

/// The writer's state as a mathematical value.
pub struct WriterModel {
    pub should_quit: bool,
    pub last_status: Option<(Seq<char>, (u16, u16), StatusIndicator)>,
    pub status_dirty: bool,
    pub current_task: Option<TaskModel>,
    pub current_epoch: u64,
    pub dirty_area: Option<Rect>,
    pub unflushed: usize,
}

impl View for WriterState {
    type V = WriterModel;

    open spec fn view(&self) -> WriterModel {
        WriterModel {
            should_quit: self.should_quit,
            last_status: match self.last_status {
                Some((text, size, indicator)) => Some((text@, size, indicator)),
                None => None,
            },
            status_dirty: self.status_dirty,
            current_task: match self.current_task {
                Some(task) => Some(task@),
                None => None,
            },
            current_epoch: self.current_epoch,
            dirty_area: self.dirty_area,
            unflushed: self.unflushed,
        }
    }
}

impl WriterModel {
    /// The dirty area is a well-formed rectangle.
    pub open spec fn wf(self) -> bool {
        self.dirty_area matches Some(r) ==> r.wf()
    }
}

/// The dirty area after a cancelled task left `area` in doubt.
pub open spec fn dirty_after_cancel(dirty_area: Option<Rect>, area: Option<Rect>) -> Option<Rect> {
    match area {
        Some(cancelled) => match dirty_area {
            Some(prev) => Some(union_of(prev, cancelled)),
            None => Some(cancelled),
        },
        None => dirty_area,
    }
}

/// The bytes of a tile cursor request: the previous cursor erased when it
/// sat on another tile, then the new cursor drawn.
pub open spec fn tile_cursor_request_bytes(
    grid: (usize, usize),
    cursor_idx: usize,
    image_area: Rect,
    prev_cursor_idx: Option<usize>,
    cell_size: (u16, u16),
) -> Seq<u8> {
    let usable = cell_size.0 != 0 && cell_size.1 != 0;
    (match prev_cursor_idx {
        Some(prev) => if prev != cursor_idx && usable && in_grid(grid, prev as int) {
            tile_cursor_bytes(grid, prev as int, image_area, false)
        } else {
            Seq::<u8>::empty()
        },
        None => Seq::<u8>::empty(),
    }) + (if usable && in_grid(grid, cursor_idx as int) {
        tile_cursor_bytes(grid, cursor_idx as int, image_area, true)
    } else {
        Seq::<u8>::empty()
    })
}

/// The state after a request and the bytes to write and flush at once.
/// Without a terminal nothing is written; the state changes all the same.
pub open spec fn applied(state: WriterModel, req: RequestModel, is_tty: bool) -> (
    WriterModel,
    Seq<u8>,
) {
    let nothing = Seq::<u8>::empty();
    match req {
        RequestModel::Shutdown => (WriterModel { should_quit: true, ..state }, nothing),
        RequestModel::Status { text, size, indicator } => (
            WriterModel { last_status: Some((text, size, indicator)), status_dirty: true, ..state },
            nothing,
        ),
        RequestModel::ClearAll { area, is_tmux } => (
            WriterModel { current_task: None, dirty_area: None, ..state },
            if is_tty { clear_all_bytes(area, is_tmux) } else { nothing },
        ),
        RequestModel::CancelImage { area, epoch } => (
            WriterModel {
                current_epoch: if epoch >= state.current_epoch { epoch } else { state.current_epoch },
                current_task: if epoch >= state.current_epoch { None } else { state.current_task },
                dirty_area: dirty_after_cancel(state.dirty_area, area),
                ..state
            },
            if is_tty { "\x1b[0m".spec_bytes() } else { nothing },
        ),
        RequestModel::ImageTransmit { chunks, area, kgp_id, old_area, epoch, is_tmux } => (
            if epoch < state.current_epoch {
                state
            } else {
                WriterModel {
                    current_epoch: epoch,
                    current_task: Some(
                        transmit_task(
                            chunks,
                            area,
                            kgp_id,
                            old_area,
                            state.dirty_area,
                            epoch,
                            is_tmux,
                        ),
                    ),
                    ..state
                }
            },
            nothing,
        ),
        RequestModel::CopyToClipboard { data, is_tmux } => (
            state,
            if is_tty { osc52_bytes(data, is_tmux) } else { nothing },
        ),
        RequestModel::TileCursor { grid, cursor_idx, image_area, prev_cursor_idx, cell_size } => (
            state,
            if is_tty {
                tile_cursor_request_bytes(grid, cursor_idx, image_area, prev_cursor_idx, cell_size)
            } else {
                nothing
            },
        ),
    }
}

/// Bytes that may pile up before the writer flushes.
pub const FLUSH_THRESHOLD: usize = 65536;

/// What one step of the active task asks of the terminal.
pub struct StepOutput {
    /// Bytes to write.
    pub bytes: Vec<u8>,
    /// Whether to flush after writing.
    pub flush: bool,
    /// The completion to send back, if the task came to its end.
    pub completed: Option<WriterResult>,
}

/// A step's output as a mathematical value.
pub struct StepModel {
    pub bytes: Seq<u8>,
    pub flush: bool,
    pub completed: Option<WriterResult>,
}

impl View for StepOutput {
    type V = StepModel;

    open spec fn view(&self) -> StepModel {
        StepModel { bytes: self.bytes@, flush: self.flush, completed: self.completed }
    }
}

/// The completion event of a task.
pub open spec fn completion_of(task: TaskModel) -> Option<WriterResult> {
    match task.complete {
        Some(kind) => Some(WriterResult { kind, epoch: task.epoch }),
        None => None,
    }
}

/// The state after a task came to its end: no task, and the dirty area
/// clean if the task took care of it.
pub open spec fn finished(state: WriterModel, task: TaskModel) -> WriterModel {
    WriterModel {
        current_task: None,
        dirty_area: if task.clears_dirty { None } else { state.dirty_area },
        ..state
    }
}

/// One step of the active task. A task from another epoch is dropped
/// without a word. Without a terminal a task completes at once, nothing
/// written. Otherwise the next block is written, with a flush once the
/// threshold is crossed; when no block is left the task completes with a
/// flush.
pub open spec fn stepped(state: WriterModel, is_tty: bool) -> (WriterModel, StepModel) {
    let quiet = StepModel { bytes: Seq::<u8>::empty(), flush: false, completed: None };
    match state.current_task {
        None => (state, quiet),
        Some(task) => {
            if task.epoch != state.current_epoch {
                (WriterModel { current_task: None, ..state }, quiet)
            } else if !is_tty {
                (finished(state, task), StepModel { completed: completion_of(task), ..quiet })
            } else if task.chunks.len() > 0 {
                let block = task.chunks[0];
                let rest = TaskModel { chunks: task.chunks.drop_first(), ..task };
                let total = if state.unflushed + block.len() > usize::MAX {
                    usize::MAX
                } else {
                    (state.unflushed + block.len()) as usize
                };
                let flush = block.len() > 0 && total >= FLUSH_THRESHOLD;
                (
                    WriterModel {
                        current_task: Some(rest),
                        unflushed: if block.len() == 0 {
                            state.unflushed
                        } else if flush {
                            0
                        } else {
                            total
                        },
                        ..state
                    },
                    StepModel { bytes: block, flush, completed: None },
                )
            } else {
                (
                    WriterModel { unflushed: 0, ..finished(state, task) },
                    StepModel { flush: true, completed: completion_of(task), ..quiet },
                )
            }
        },
    }
}

/// The state after the latched status was rendered, and the bytes to write
/// and flush. A status is rendered once per latch, and only on a terminal.
pub open spec fn status_flushed(state: WriterModel, is_tty: bool) -> (WriterModel, Seq<u8>) {
    if !state.status_dirty {
        (state, Seq::<u8>::empty())
    } else {
        match state.last_status {
            Some((text, size, indicator)) => (
                WriterModel { status_dirty: false, unflushed: 0, ..state },
                if is_tty && size.0 != 0 && size.1 != 0 {
                    status_bytes(
                        encode_utf8(text).subrange(0, clip_len(encode_utf8(text), status_room(size.0))),
                        size,
                        indicator,
                    )
                } else {
                    Seq::<u8>::empty()
                },
            ),
            None => (WriterModel { status_dirty: false, ..state }, Seq::<u8>::empty()),
        }
    }
}

impl WriterState {
    /// The state the writer starts in.
    pub fn new() -> (state: WriterState)
        ensures
            state@ == (WriterModel {
                should_quit: false,
                last_status: None,
                status_dirty: false,
                current_task: None,
                current_epoch: 0,
                dirty_area: None,
                unflushed: 0,
            }),
            state@.wf(),
    {
        WriterState {
            should_quit: false,
            last_status: None,
            status_dirty: false,
            current_task: None,
            current_epoch: 0,
            dirty_area: None,
            unflushed: 0,
        }
    }

    /// Whether the writer has nothing to do until a request arrives: no
    /// task is active and no status waits to be drawn.
    pub fn is_idle(&self) -> (idle: bool)
        ensures
            idle == (self@.current_task is None && !self@.status_dirty),
    {
        self.current_task.is_none() && !self.status_dirty
    }

    /// Render the latched status, if one waits.
    pub fn flush_status(&mut self, is_tty: bool) -> (out: Vec<u8>)
        ensures
            (final(self)@, out@) == status_flushed(old(self)@, is_tty),
    {
        let mut out: Vec<u8> = Vec::new();
        if !self.status_dirty {
            return out;
        }
        match &self.last_status {
            Some((text, size, indicator)) => {
                if is_tty {
                    out = render_status(text.as_str(), *size, *indicator);
                }
                self.unflushed = 0;
            },
            None => {},
        }
        self.status_dirty = false;
        out
    }

    /// Take one step of the active task.
    pub fn step(&mut self, is_tty: bool) -> (out: StepOutput)
        ensures
            (final(self)@, out@) == stepped(old(self)@, is_tty),
    {
        let mut out = StepOutput { bytes: Vec::new(), flush: false, completed: None };
        let mut task = match self.current_task.take() {
            None => {
                return out;
            },
            Some(task) => task,
        };
        if task.epoch != self.current_epoch {
            return out;
        }
        if is_tty {
            match task.chunks.pop_front() {
                Some(block) => {
                    if block.len() > 0 {
                        let total: usize = self.unflushed.saturating_add(block.len());
                        if total >= FLUSH_THRESHOLD {
                            out.flush = true;
                            self.unflushed = 0;
                        } else {
                            self.unflushed = total;
                        }
                    }
                    out.bytes = block;
                    proof {
                        assert(byte_blocks(task.chunks@) =~= byte_blocks(
                            old(self).current_task->0.chunks@,
                        ).drop_first());
                    }
                    self.current_task = Some(task);
                    return out;
                },
                None => {
                    out.flush = true;
                    self.unflushed = 0;
                },
            }
        }
        match task.complete {
            Some(kind) => {
                out.completed = Some(WriterResult { kind, epoch: task.epoch });
            },
            None => {},
        }
        if task.clears_dirty {
            self.dirty_area = None;
        }
        out
    }
}

/// Apply one request to the writer's state. Returns the bytes to write and
/// flush at once; byte streams of tasks are handed out by `step`.
pub fn apply_msg(msg: WriterRequest, state: &mut WriterState, is_tty: bool) -> (out: Vec<u8>)
    requires
        msg@.wf(),
        old(state)@.wf(),
    ensures
        (final(state)@, out@) == applied(old(state)@, msg@, is_tty),
        final(state)@.wf(),
{
    let mut out: Vec<u8> = Vec::new();
    match msg {
        WriterRequest::Shutdown => {
            state.should_quit = true;
        },
        WriterRequest::Status { text, size, indicator } => {
            state.last_status = Some((text, size, indicator));
            state.status_dirty = true;
        },
        WriterRequest::ClearAll { area, is_tmux } => {
            state.current_task = None;
            state.dirty_area = None;
            if is_tty {
                out = clear_all(area, is_tmux);
            }
        },
        WriterRequest::CancelImage { area, epoch } => {
            if epoch >= state.current_epoch {
                state.current_epoch = epoch;
                state.current_task = None;
            }
            match area {
                Some(cancelled) => {
                    let next = match state.dirty_area {
                        Some(prev) => union_rect(prev, cancelled),
                        None => cancelled,
                    };
                    state.dirty_area = Some(next);
                },
                None => {},
            }
            if is_tty {
                push_text(&mut out, "\x1b[0m");
                assert(out@ =~= "\x1b[0m".spec_bytes());
            }
        },
        WriterRequest::ImageTransmit { encoded_chunks, area, kgp_id, old_area, epoch, is_tmux } => {
            if epoch < state.current_epoch {
                return out;
            }
            state.current_epoch = epoch;
            let task = task_transmit(
                &encoded_chunks,
                area,
                kgp_id,
                old_area,
                state.dirty_area,
                epoch,
                is_tmux,
            );
            state.current_task = Some(task);
        },
        WriterRequest::CopyToClipboard { data, is_tmux } => {
            if is_tty {
                out = build_osc52_clipboard(data.as_slice(), is_tmux);
            }
        },
        WriterRequest::TileCursor { grid, cursor_idx, image_area, prev_cursor_idx, cell_size } => {
            if is_tty {
                match prev_cursor_idx {
                    Some(prev) => {
                        if prev != cursor_idx {
                            out = build_tile_cursor_escape(grid, prev, image_area, cell_size, false);
                        }
                    },
                    None => {},
                }
                let drawn = build_tile_cursor_escape(grid, cursor_idx, image_area, cell_size, true);
                out.extend_from_slice(drawn.as_slice());
                assert(out@ =~= tile_cursor_request_bytes(
                    grid,
                    cursor_idx,
                    image_area,
                    prev_cursor_idx,
                    cell_size,
                ));
            }
        },
    }
    out
}

/// The clipboard sequence begins with `ESC ] 52 ; c ;` and ends with
/// `BEL`, and what stands between decodes to the data.
pub proof fn lemma_osc52_shape(data: Seq<u8>)
    ensures
        ({
            let out = osc52_bytes(data, false);
            &&& out.len() >= 8
            &&& out.subrange(0, 7) == seq![0x1bu8, 0x5du8, 0x35u8, 0x32u8, 0x3bu8, 0x63u8, 0x3bu8]
            &&& out.last() == 0x07u8
            &&& base64_decoded(out.subrange(7, out.len() - 1)) == data
        }),
{
    reveal_strlit("\x1b]52;c;");
    reveal_strlit("\x07");
    let prefix = "\x1b]52;c;".spec_bytes();
    let bell = "\x07".spec_bytes();
    is_ascii_chars_encode_utf8("\x1b]52;c;"@);
    is_ascii_chars_encode_utf8("\x07"@);
    assert(prefix =~= seq![0x1bu8, 0x5du8, 0x35u8, 0x32u8, 0x3bu8, 0x63u8, 0x3bu8]);
    assert(bell =~= seq![0x07u8]);
    let out = osc52_bytes(data, false);
    assert(out.subrange(0, 7) =~= prefix);
    assert(out.subrange(7, out.len() - 1) =~= base64(data));
    lemma_base64_round_trip(data);
}

/// Inside a multiplexer the clipboard sequence is the plain sequence with
/// the pass-through introducer and a doubled escape in front and the
/// string terminator behind.
pub proof fn lemma_osc52_wrapped(data: Seq<u8>)
    ensures
        osc52_bytes(data, true) == "\x1bPtmux;\x1b".spec_bytes() + osc52_bytes(data, false)
            + "\x1b\\".spec_bytes(),
{
    reveal_strlit("\x1bPtmux;\x1b\x1b]52;c;");
    reveal_strlit("\x1bPtmux;\x1b");
    reveal_strlit("\x1b]52;c;");
    reveal_strlit("\x07\x1b\\");
    reveal_strlit("\x07");
    reveal_strlit("\x1b\\");
    is_ascii_chars_encode_utf8("\x1bPtmux;\x1b\x1b]52;c;"@);
    is_ascii_chars_encode_utf8("\x1bPtmux;\x1b"@);
    is_ascii_chars_encode_utf8("\x1b]52;c;"@);
    is_ascii_chars_encode_utf8("\x07\x1b\\"@);
    is_ascii_chars_encode_utf8("\x07"@);
    is_ascii_chars_encode_utf8("\x1b\\"@);
    assert("\x1bPtmux;\x1b\x1b]52;c;".spec_bytes() =~= "\x1bPtmux;\x1b".spec_bytes()
        + "\x1b]52;c;".spec_bytes());
    assert("\x07\x1b\\".spec_bytes() =~= "\x07".spec_bytes() + "\x1b\\".spec_bytes());
    assert(osc52_bytes(data, true) =~= "\x1bPtmux;\x1b".spec_bytes() + osc52_bytes(data, false)
        + "\x1b\\".spec_bytes());
}

/// A clipped status text never ends inside a character and never exceeds
/// the limit.
pub proof fn lemma_clip_respects_characters(bytes: Seq<u8>, max: int, n: int)
    requires
        is_clip_len(bytes, max, n),
    ensures
        n <= max,
        is_char_boundary(bytes, n),
        n == clip_len(bytes, max),
{
    lemma_clip_len_unique(bytes, max, n);
}

fn area_is_wf(area: Option<Rect>) -> (b: bool)
    ensures
        b == (area matches Some(r) ==> r.wf()),
{
    match area {
        Some(r) => r.is_wf(),
        None => true,
    }
}

impl WriterRequest {
    /// Whether every rectangle the request carries is well formed.
    pub fn is_wf(&self) -> (b: bool)
        ensures
            b == self@.wf(),
    {
        match self {
            WriterRequest::ImageTransmit { area, old_area, .. } => area.is_wf() && area_is_wf(
                *old_area,
            ),
            WriterRequest::ClearAll { area, .. } => area_is_wf(*area),
            WriterRequest::CancelImage { area, .. } => area_is_wf(*area),
            _ => true,
        }
    }
}

impl WriterState {
    /// Apply one request if it can be applied: a request or a state with a
    /// rectangle that is not well formed is turned away, and the state
    /// stays as it is.
    pub fn apply(&mut self, msg: WriterRequest, is_tty: bool) -> (out: Option<Vec<u8>>)
        ensures
            match out {
                Some(bytes) => msg@.wf() && old(self)@.wf() && (final(self)@, bytes@) == applied(
                    old(self)@,
                    msg@,
                    is_tty,
                ) && final(self)@.wf(),
                None => !(msg@.wf() && old(self)@.wf()) && final(self)@ == old(self)@,
            },
    {
        if !msg.is_wf() || !area_is_wf(self.dirty_area) {
            return None;
        }
        Some(apply_msg(msg, self, is_tty))
    }
}

/// The writer's epoch never goes back, and no request brings back a task
/// of an epoch before the current one.
pub proof fn lemma_writer_epoch_grows(state: WriterModel, req: RequestModel, is_tty: bool)
    requires
        state.current_task matches Some(task) ==> task.epoch <= state.current_epoch,
    ensures
        applied(state, req, is_tty).0.current_epoch >= state.current_epoch,
        applied(state, req, is_tty).0.current_task matches Some(task) ==> task.epoch <= applied(
            state,
            req,
            is_tty,
        ).0.current_epoch,
{
}

/// A transmission that follows a cancellation in the same epoch cleans up
/// before it shows anything: its blocks erase the old placement, erase what
/// the cancelled output left outside the new area, delete the image by
/// identifier, transmit, and place, in this order.
pub proof fn lemma_cancel_then_transmit_cleans(
    state: WriterModel,
    cancelled: Option<Rect>,
    chunks: Seq<Seq<u8>>,
    area: Rect,
    kgp_id: u32,
    old_area: Option<Rect>,
    epoch: u64,
    is_tmux: bool,
    is_tty: bool,
)
    requires
        epoch >= state.current_epoch,
    ensures
        ({
            let after_cancel = applied(
                state,
                RequestModel::CancelImage { area: cancelled, epoch },
                is_tty,
            ).0;
            let after = applied(
                after_cancel,
                RequestModel::ImageTransmit { chunks, area, kgp_id, old_area, epoch, is_tmux },
                is_tty,
            ).0;
            &&& after_cancel.current_task is None
            &&& after_cancel.dirty_area == dirty_after_cancel(state.dirty_area, cancelled)
            &&& after.current_task matches Some(task) && task.chunks == (match old_area {
                Some(old_rect) => erase_blocks(old_rect),
                None => Seq::<Seq<u8>>::empty(),
            }) + erase_all_blocks(cleanup_strips(area, after_cancel.dirty_area)) + seq![
                delete_by_id_bytes(kgp_id, is_tmux),
            ] + chunks + place_blocks(area, kgp_id) && task.epoch == epoch && task.clears_dirty
                == (after_cancel.dirty_area is Some)
        }),
{
}

/// A task runs to its end in as many steps as it has blocks, plus one; the
/// bytes it hands out on the way are its blocks in order, and the last step
/// reports its completion.
pub proof fn lemma_task_streams_in_order(state: WriterModel, k: int)
    requires
        state.current_task matches Some(task) && task.epoch == state.current_epoch && 0 <= k
            < task.chunks.len(),
    ensures
        stepped(state, true).1.bytes == state.current_task->0.chunks[0],
        stepped(state, true).1.completed is None,
        stepped(state, true).0.current_task matches Some(rest) && rest.chunks
            == state.current_task->0.chunks.drop_first() && rest.epoch == state.current_epoch,
        stepped(state, true).0.current_epoch == state.current_epoch,
{
}

} // verus!
