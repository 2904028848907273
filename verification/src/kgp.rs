//! Kitty graphics protocol byte streams: delete commands, erase rows,
//! Unicode placement rows and image transmission chunks.

use vstd::prelude::*;
use vstd::string::*;
use vstd::utf8::*;
use crate::encoding::{
    base64, decimal, lemma_base64_concat, lemma_base64_len, push_base64, push_decimal, push_scalar,
    push_text, zlib_compress, zlib_stream, BASE64_BLOCK,
};
use crate::geometry::Rect;
use crate::pixels::Pixels;

verus! {

/// Opening of an escape sequence: a bare escape, or inside a multiplexer the
/// pass-through introducer followed by the doubled escape.
pub open spec fn esc_start(is_tmux: bool) -> Seq<u8> {
    if is_tmux {
        "\x1bPtmux;\x1b\x1b".spec_bytes()
    } else {
        "\x1b".spec_bytes()
    }
}

/// An escape inside a sequence: doubled inside a multiplexer.
pub open spec fn esc_inner(is_tmux: bool) -> Seq<u8> {
    if is_tmux {
        "\x1b\x1b".spec_bytes()
    } else {
        "\x1b".spec_bytes()
    }
}

/// What follows the string terminator: the end of the pass-through
/// envelope inside a multiplexer, otherwise nothing.
pub open spec fn esc_close(is_tmux: bool) -> Seq<u8> {
    if is_tmux {
        "\x1b\\".spec_bytes()
    } else {
        "".spec_bytes()
    }
}

/// The string terminator with its envelope: escape, backslash, close.
pub open spec fn esc_end(is_tmux: bool) -> Seq<u8> {
    esc_inner(is_tmux) + "\\".spec_bytes() + esc_close(is_tmux)
}

/// One graphics command without payload.
pub open spec fn graphics_command(is_tmux: bool, keys: Seq<u8>) -> Seq<u8> {
    esc_start(is_tmux) + keys + esc_end(is_tmux)
}

/// The stream that removes all graphics: images with their data, then
/// placements that stand alone.
pub open spec fn delete_all_bytes(is_tmux: bool) -> Seq<u8> {
    graphics_command(is_tmux, "_Gq=2,a=d,d=a".spec_bytes()) + graphics_command(
        is_tmux,
        "_Gq=2,a=d,d=A".spec_bytes(),
    )
}

/// The command that removes the image with identifier `id`.
pub open spec fn delete_by_id_bytes(id: u32, is_tmux: bool) -> Seq<u8> {
    graphics_command(is_tmux, "_Gq=2,a=d,d=i,i=".spec_bytes() + decimal(id as nat))
}

fn push_start(buf: &mut Vec<u8>, is_tmux: bool)
    ensures
        final(buf)@ == old(buf)@ + esc_start(is_tmux),
{
    if is_tmux {
        push_text(buf, "\x1bPtmux;\x1b\x1b");
    } else {
        push_text(buf, "\x1b");
    }
}

fn push_end(buf: &mut Vec<u8>, is_tmux: bool)
    ensures
        final(buf)@ == old(buf)@ + esc_end(is_tmux),
{
    if is_tmux {
        push_text(buf, "\x1b\x1b");
        push_text(buf, "\\");
        push_text(buf, "\x1b\\");
    } else {
        push_text(buf, "\x1b");
        push_text(buf, "\\");
        push_text(buf, "");
    }
    assert(buf@ =~= old(buf)@ + esc_end(is_tmux));
}

/// Delete every image and placement.
pub fn delete_all(is_tmux: bool) -> (out: Vec<u8>)
    ensures
        out@ == delete_all_bytes(is_tmux),
{
    let mut buf: Vec<u8> = Vec::with_capacity(128);
    push_start(&mut buf, is_tmux);
    push_text(&mut buf, "_Gq=2,a=d,d=a");
    push_end(&mut buf, is_tmux);
    push_start(&mut buf, is_tmux);
    push_text(&mut buf, "_Gq=2,a=d,d=A");
    push_end(&mut buf, is_tmux);
    assert(buf@ =~= delete_all_bytes(is_tmux));
    buf
}

/// Delete the image with the given identifier.
pub fn delete_by_id(id: u32, is_tmux: bool) -> (out: Vec<u8>)
    ensures
        out@ == delete_by_id_bytes(id, is_tmux),
{
    let mut buf: Vec<u8> = Vec::with_capacity(64);
    push_start(&mut buf, is_tmux);
    push_text(&mut buf, "_Gq=2,a=d,d=i,i=");
    push_decimal(&mut buf, id);
    push_end(&mut buf, is_tmux);
    assert(buf@ =~= delete_by_id_bytes(id, is_tmux));
    buf
}

/// What the terminal last confirmed as placed: the cell rectangle and the
/// identifier in effect at the time.
#[derive(Clone, Copy, Debug, PartialEq, Eq, Structural)]
pub struct KgpState {
    pub area: Option<Rect>,
    pub kgp_id: Option<u32>,
}

impl KgpState {
    /// Nothing placed.
    pub fn new() -> (s: KgpState)
        ensures
            s == (KgpState { area: None, kgp_id: None }),
    {
        KgpState { area: None, kgp_id: None }
    }

    pub fn last_area(&self) -> (r: Option<Rect>)
        ensures
            r == self.area,
    {
        self.area
    }

    pub fn last_kgp_id(&self) -> (r: Option<u32>)
        ensures
            r == self.kgp_id,
    {
        self.kgp_id
    }

    pub fn set_last(&mut self, area: Rect, kgp_id: u32)
        ensures
            *final(self) == (KgpState { area: Some(area), kgp_id: Some(kgp_id) }),
    {
        self.area = Some(area);
        self.kgp_id = Some(kgp_id);
    }

    /// Forget the identifier but keep the area, so that the next display
    /// can still erase it.
    pub fn invalidate(&mut self)
        ensures
            *final(self) == (KgpState { area: old(self).area, kgp_id: None }),
    {
        self.kgp_id = None;
    }
}

impl Default for KgpState {
    fn default() -> (s: KgpState)
        ensures
            s == (KgpState { area: None, kgp_id: None }),
    {
        KgpState::new()
    }
}

/// Moves the cursor to a row and column, both counted from one.
pub open spec fn cursor_to(row: nat, col: nat) -> Seq<u8> {
    "\x1b[".spec_bytes() + decimal(row) + ";".spec_bytes() + decimal(col) + "H".spec_bytes()
}

pub(crate) fn push_cursor_to(buf: &mut Vec<u8>, row: u32, col: u32)
    ensures
        final(buf)@ == old(buf)@ + cursor_to(row as nat, col as nat),
{
    push_text(buf, "\x1b[");
    push_decimal(buf, row);
    push_text(buf, ";");
    push_decimal(buf, col);
    push_text(buf, "H");
    assert(buf@ =~= old(buf)@ + cursor_to(row as nat, col as nat));
}

/// One erase row: move to the row's first cell, erase `width` characters.
pub open spec fn erase_row(area: Rect, row: int) -> Seq<u8> {
    cursor_to((area.y + row + 1) as nat, (area.x + 1) as nat) + "\x1b[".spec_bytes() + decimal(
        area.width as nat,
    ) + "X".spec_bytes()
}

/// Number of rows a rectangle gives: none when it covers no cell.
pub open spec fn row_count(area: Rect) -> nat {
    if area.width == 0 || area.height == 0 {
        0
    } else {
        area.height as nat
    }
}

/// One block per row of `area`, each erasing that row's cells.
pub fn erase_rows(area: Rect) -> (rows: Vec<Vec<u8>>)
    ensures
        rows@.len() == row_count(area),
        forall|y: int| 0 <= y < rows@.len() ==> (#[trigger] rows@[y])@ == erase_row(area, y),
{
    let mut rows: Vec<Vec<u8>> = Vec::new();
    if area.width == 0 || area.height == 0 {
        return rows;
    }
    let mut y: u16 = 0;
    while y < area.height
        invariant
            y <= area.height,
            rows@.len() == y,
            forall|k: int| 0 <= k < rows@.len() ==> (#[trigger] rows@[k])@ == erase_row(area, k),
        decreases area.height - y,
    {
        let mut buf: Vec<u8> = Vec::with_capacity(48);
        push_cursor_to(&mut buf, area.y as u32 + y as u32 + 1, area.x as u32 + 1);
        push_text(&mut buf, "\x1b[");
        push_decimal(&mut buf, area.width as u32);
        push_text(&mut buf, "X");
        assert(buf@ =~= erase_row(area, y as int));
        rows.push(buf);
        y = y + 1;
    }
    rows
}

/// Number of entries in the diacritics table.
pub const DIACRITICS_LEN: usize = 297;

/// Combining marks that encode a row, a column or an identifier octet on a
/// placeholder cell.
pub const DIACRITICS: [char; 297] = [
    '\u{305}', '\u{30D}', '\u{30E}', '\u{310}', '\u{312}', '\u{33D}', '\u{33E}', '\u{33F}',
    '\u{346}', '\u{34A}', '\u{34B}', '\u{34C}', '\u{350}', '\u{351}', '\u{352}', '\u{357}',
    '\u{35B}', '\u{363}', '\u{364}', '\u{365}', '\u{366}', '\u{367}', '\u{368}', '\u{369}',
    '\u{36A}', '\u{36B}', '\u{36C}', '\u{36D}', '\u{36E}', '\u{36F}', '\u{483}', '\u{484}',
    '\u{485}', '\u{486}', '\u{487}', '\u{592}', '\u{593}', '\u{594}', '\u{595}', '\u{597}',
    '\u{598}', '\u{599}', '\u{59C}', '\u{59D}', '\u{59E}', '\u{59F}', '\u{5A0}', '\u{5A1}',
    '\u{5A8}', '\u{5A9}', '\u{5AB}', '\u{5AC}', '\u{5AF}', '\u{5C4}', '\u{610}', '\u{611}',
    '\u{612}', '\u{613}', '\u{614}', '\u{615}', '\u{616}', '\u{617}', '\u{657}', '\u{658}',
    '\u{659}', '\u{65A}', '\u{65B}', '\u{65D}', '\u{65E}', '\u{6D6}', '\u{6D7}', '\u{6D8}',
    '\u{6D9}', '\u{6DA}', '\u{6DB}', '\u{6DC}', '\u{6DF}', '\u{6E0}', '\u{6E1}', '\u{6E2}',
    '\u{6E4}', '\u{6E7}', '\u{6E8}', '\u{6EB}', '\u{6EC}', '\u{730}', '\u{732}', '\u{733}',
    '\u{735}', '\u{736}', '\u{73A}', '\u{73D}', '\u{73F}', '\u{740}', '\u{741}', '\u{743}',
    '\u{745}', '\u{747}', '\u{749}', '\u{74A}', '\u{7EB}', '\u{7EC}', '\u{7ED}', '\u{7EE}',
    '\u{7EF}', '\u{7F0}', '\u{7F1}', '\u{7F3}', '\u{816}', '\u{817}', '\u{818}', '\u{819}',
    '\u{81B}', '\u{81C}', '\u{81D}', '\u{81E}', '\u{81F}', '\u{820}', '\u{821}', '\u{822}',
    '\u{823}', '\u{825}', '\u{826}', '\u{827}', '\u{829}', '\u{82A}', '\u{82B}', '\u{82C}',
    '\u{82D}', '\u{951}', '\u{953}', '\u{954}', '\u{F82}', '\u{F83}', '\u{F86}', '\u{F87}',
    '\u{135D}', '\u{135E}', '\u{135F}', '\u{17DD}', '\u{193A}', '\u{1A17}', '\u{1A75}', '\u{1A76}',
    '\u{1A77}', '\u{1A78}', '\u{1A79}', '\u{1A7A}', '\u{1A7B}', '\u{1A7C}', '\u{1B6B}', '\u{1B6D}',
    '\u{1B6E}', '\u{1B6F}', '\u{1B70}', '\u{1B71}', '\u{1B72}', '\u{1B73}', '\u{1CD0}', '\u{1CD1}',
    '\u{1CD2}', '\u{1CDA}', '\u{1CDB}', '\u{1CE0}', '\u{1DC0}', '\u{1DC1}', '\u{1DC3}', '\u{1DC4}',
    '\u{1DC5}', '\u{1DC6}', '\u{1DC7}', '\u{1DC8}', '\u{1DC9}', '\u{1DCB}', '\u{1DCC}', '\u{1DD1}',
    '\u{1DD2}', '\u{1DD3}', '\u{1DD4}', '\u{1DD5}', '\u{1DD6}', '\u{1DD7}', '\u{1DD8}', '\u{1DD9}',
    '\u{1DDA}', '\u{1DDB}', '\u{1DDC}', '\u{1DDD}', '\u{1DDE}', '\u{1DDF}', '\u{1DE0}', '\u{1DE1}',
    '\u{1DE2}', '\u{1DE3}', '\u{1DE4}', '\u{1DE5}', '\u{1DE6}', '\u{1DFE}', '\u{20D0}', '\u{20D1}',
    '\u{20D4}', '\u{20D5}', '\u{20D6}', '\u{20D7}', '\u{20DB}', '\u{20DC}', '\u{20E1}', '\u{20E7}',
    '\u{20E9}', '\u{20F0}', '\u{2CEF}', '\u{2CF0}', '\u{2CF1}', '\u{2DE0}', '\u{2DE1}', '\u{2DE2}',
    '\u{2DE3}', '\u{2DE4}', '\u{2DE5}', '\u{2DE6}', '\u{2DE7}', '\u{2DE8}', '\u{2DE9}', '\u{2DEA}',
    '\u{2DEB}', '\u{2DEC}', '\u{2DED}', '\u{2DEE}', '\u{2DEF}', '\u{2DF0}', '\u{2DF1}', '\u{2DF2}',
    '\u{2DF3}', '\u{2DF4}', '\u{2DF5}', '\u{2DF6}', '\u{2DF7}', '\u{2DF8}', '\u{2DF9}', '\u{2DFA}',
    '\u{2DFB}', '\u{2DFC}', '\u{2DFD}', '\u{2DFE}', '\u{2DFF}', '\u{A66F}', '\u{A67C}', '\u{A67D}',
    '\u{A6F0}', '\u{A6F1}', '\u{A8E0}', '\u{A8E1}', '\u{A8E2}', '\u{A8E3}', '\u{A8E4}', '\u{A8E5}',
    '\u{A8E6}', '\u{A8E7}', '\u{A8E8}', '\u{A8E9}', '\u{A8EA}', '\u{A8EB}', '\u{A8EC}', '\u{A8ED}',
    '\u{A8EE}', '\u{A8EF}', '\u{A8F0}', '\u{A8F1}', '\u{AAB0}', '\u{AAB2}', '\u{AAB3}', '\u{AAB7}',
    '\u{AAB8}', '\u{AABE}', '\u{AABF}', '\u{AAC1}', '\u{FE20}', '\u{FE21}', '\u{FE22}', '\u{FE23}',
    '\u{FE24}', '\u{FE25}', '\u{FE26}', '\u{10A0F}', '\u{10A38}', '\u{1D185}', '\u{1D186}', '\u{1D187}',
    '\u{1D188}', '\u{1D189}', '\u{1D1AA}', '\u{1D1AB}', '\u{1D1AC}', '\u{1D1AD}', '\u{1D242}', '\u{1D243}',
    '\u{1D244}',
];

/// The mark for an index; an index beyond the table falls back to the
/// first mark.
#[verifier::opaque]
pub open spec fn diacritic(i: int) -> char {
    if 0 <= i < 297 {
        DIACRITICS[i]
    } else {
        DIACRITICS[0]
    }
}

fn diacritic_at(i: usize) -> (c: char)
    ensures
        c == diacritic(i as int),
{
    reveal(diacritic);
    if i < DIACRITICS_LEN {
        DIACRITICS[i]
    } else {
        DIACRITICS[0]
    }
}

fn push_mark(buf: &mut Vec<u8>, i: usize)
    ensures
        final(buf)@ == old(buf)@ + encode_scalar(diacritic(i as int) as u32),
{
    broadcast use char_is_scalar;

    let mark: char = diacritic_at(i);
    push_scalar(buf, mark as u32);
}

/// The code point of the placeholder character.
pub const PLACEHOLDER: u32 = 0x10EEEE;

/// Selects the foreground colour whose red, green and blue channels carry
/// the identifier's octets two, one and zero.
pub open spec fn sgr_foreground(id: u32) -> Seq<u8> {
    "\x1b[38;2;".spec_bytes() + decimal(((id / 0x10000) % 0x100) as nat) + ";".spec_bytes()
        + decimal(((id / 0x100) % 0x100) as nat) + ";".spec_bytes() + decimal((id % 0x100) as nat)
        + "m".spec_bytes()
}

/// One placeholder cell: the placeholder and three marks for the row, the
/// column and the identifier's highest octet.
pub open spec fn place_cell(row: int, col: int, id: u32) -> Seq<u8> {
    encode_scalar(PLACEHOLDER) + encode_scalar(diacritic(row) as u32) + encode_scalar(
        diacritic(col) as u32,
    ) + encode_scalar(diacritic((id / 0x100_0000) as int) as u32)
}

/// The first `n` placeholder cells of a row.
pub open spec fn place_cells(n: nat, row: int, id: u32) -> Seq<u8>
    decreases n,
{
    if n == 0 {
        Seq::<u8>::empty()
    } else {
        place_cells((n - 1) as nat, row, id) + place_cell(row, n - 1, id)
    }
}

/// One placement row: colour, cursor position, a placeholder cell per
/// column, attribute reset.
pub open spec fn place_row(area: Rect, id: u32, row: int) -> Seq<u8> {
    sgr_foreground(id) + cursor_to((area.y + row + 1) as nat, (area.x + 1) as nat) + place_cells(
        area.width as nat,
        row,
        id,
    ) + "\x1b[0m".spec_bytes()
}

fn push_sgr_foreground(buf: &mut Vec<u8>, id: u32)
    ensures
        final(buf)@ == old(buf)@ + sgr_foreground(id),
{
    push_text(buf, "\x1b[38;2;");
    push_decimal(buf, (id / 0x10000) % 0x100);
    push_text(buf, ";");
    push_decimal(buf, (id / 0x100) % 0x100);
    push_text(buf, ";");
    push_decimal(buf, id % 0x100);
    push_text(buf, "m");
    assert(buf@ =~= old(buf)@ + sgr_foreground(id));
}

fn push_place_cell(buf: &mut Vec<u8>, row: u16, col: u16, id: u32)
    ensures
        final(buf)@ == old(buf)@ + place_cell(row as int, col as int, id),
{
    push_scalar(buf, PLACEHOLDER);
    push_mark(buf, row as usize);
    push_mark(buf, col as usize);
    push_mark(buf, (id / 0x100_0000) as usize);
    assert(buf@ =~= old(buf)@ + place_cell(row as int, col as int, id));
}

/// One block per row of `area`, each drawing that row's placeholder cells
/// for the image `id`.
pub fn place_rows(area: Rect, id: u32) -> (rows: Vec<Vec<u8>>)
    ensures
        rows@.len() == row_count(area),
        forall|y: int| 0 <= y < rows@.len() ==> (#[trigger] rows@[y])@ == place_row(area, id, y),
{
    let mut rows: Vec<Vec<u8>> = Vec::new();
    if area.width == 0 || area.height == 0 {
        return rows;
    }
    let mut y: u16 = 0;
    while y < area.height
        invariant
            y <= area.height,
            rows@.len() == y,
            forall|k: int| 0 <= k < rows@.len() ==> (#[trigger] rows@[k])@ == place_row(area, id, k),
        decreases area.height - y,
    {
        let mut buf: Vec<u8> = Vec::new();
        push_sgr_foreground(&mut buf, id);
        push_cursor_to(&mut buf, area.y as u32 + y as u32 + 1, area.x as u32 + 1);
        let ghost head = buf@;
        let mut x: u16 = 0;
        assert(buf@ =~= head + place_cells(0, y as int, id));
        while x < area.width
            invariant
                x <= area.width,
                buf@ == head + place_cells(x as nat, y as int, id),
            decreases area.width - x,
        {
            push_place_cell(&mut buf, y, x, id);
            x = x + 1;
            assert(buf@ =~= head + place_cells(x as nat, y as int, id));
        }
        push_text(&mut buf, "\x1b[0m");
        assert(buf@ =~= place_row(area, id, y as int));
        rows.push(buf);
        y = y + 1;
    }
    rows
}

/// Number of transmission chunks for a payload of `len` bytes: one per
/// started run of 4096 base64 characters, that is per 3072 payload bytes.
pub open spec fn chunk_count(len: nat) -> nat {
    (len + 3071) / 3072
}

/// The base64 characters that chunk `i` carries: the `i`-th run of at most
/// 4096 characters of the payload's base64.
pub open spec fn chunk_body(payload: Seq<u8>, i: int) -> Seq<u8> {
    let text = base64(payload);
    let end = if 4096 * (i + 1) < text.len() { 4096 * (i + 1) } else { text.len() as int };
    text.subrange(4096 * i, end)
}

/// The control keys of chunk `i`. The first chunk declares the
/// transmission; later chunks only say whether more follow.
pub open spec fn chunk_keys(bits: u32, width: u32, height: u32, id: u32, i: int, more: bool) -> Seq<
    u8,
> {
    let flag = decimal(if more { 1 } else { 0 });
    if i == 0 {
        "_Gq=2,a=T,C=1,U=1,f=".spec_bytes() + decimal(bits as nat) + ",s=".spec_bytes() + decimal(
            width as nat,
        ) + ",v=".spec_bytes() + decimal(height as nat) + ",i=".spec_bytes() + decimal(id as nat)
            + ",m=".spec_bytes() + flag + ";".spec_bytes()
    } else {
        "_Gm=".spec_bytes() + flag + ";".spec_bytes()
    }
}

/// Chunk `i` of the transmission of `payload`.
pub open spec fn transmit_chunk(
    payload: Seq<u8>,
    bits: u32,
    width: u32,
    height: u32,
    id: u32,
    is_tmux: bool,
    i: int,
) -> Seq<u8> {
    esc_start(is_tmux) + chunk_keys(
        bits,
        width,
        height,
        id,
        i,
        i + 1 < chunk_count(payload.len()),
    ) + chunk_body(payload, i) + esc_end(is_tmux)
}

/// Whether `chunks` is the transmission of `payload`.
pub open spec fn is_transmission(
    chunks: Seq<Vec<u8>>,
    payload: Seq<u8>,
    bits: u32,
    width: u32,
    height: u32,
    id: u32,
    is_tmux: bool,
) -> bool {
    &&& chunks.len() == chunk_count(payload.len())
    &&& forall|i: int|
        0 <= i < chunks.len() ==> (#[trigger] chunks[i])@ == transmit_chunk(
            payload,
            bits,
            width,
            height,
            id,
            is_tmux,
            i,
        )
}

/// The base64 of the `i`-th run of 3072 payload bytes is the `i`-th run of
/// 4096 characters of the whole payload's base64.
pub proof fn lemma_chunk_body(payload: Seq<u8>, i: int)
    requires
        0 <= i,
        3072 * i < payload.len(),
    ensures
        chunk_body(payload, i) == base64(
            payload.subrange(
                3072 * i,
                if 3072 * (i + 1) < payload.len() { 3072 * (i + 1) } else { payload.len() as int },
            ),
        ),
{
    let n = payload.len() as int;
    let start = 3072 * i;
    let end = if 3072 * (i + 1) < n { 3072 * (i + 1) } else { n };
    let head = payload.subrange(0, start);
    let piece = payload.subrange(start, end);
    let tail = payload.subrange(end, n);
    assert(payload =~= head + (piece + tail));
    lemma_base64_concat(head, piece + tail);
    lemma_base64_len(head);
    lemma_base64_len(piece);
    lemma_base64_len(payload);
    if end < n {
        lemma_base64_concat(piece, tail);
        lemma_base64_len(tail);
        assert(base64(payload) =~= base64(head) + (base64(piece) + base64(tail)));
        assert(chunk_body(payload, i) =~= base64(piece));
    } else {
        assert(tail =~= Seq::<u8>::empty());
        assert(piece + tail =~= piece);
        assert(chunk_body(payload, i) =~= base64(piece));
    }
}

/// Build one chunk around the base64 of `piece`.
fn build_chunk(
    piece: &[u8],
    first: bool,
    more: bool,
    bits: u32,
    width: u32,
    height: u32,
    id: u32,
    is_tmux: bool,
) -> (buf: Vec<u8>)
    ensures
        buf@ == esc_start(is_tmux) + chunk_keys(
            bits,
            width,
            height,
            id,
            if first { 0 } else { 1 },
            more,
        ) + base64(piece@) + esc_end(is_tmux),
{
    let mut buf: Vec<u8> = Vec::new();
    push_start(&mut buf, is_tmux);
    let ghost head = buf@;
    if first {
        push_text(&mut buf, "_Gq=2,a=T,C=1,U=1,f=");
        push_decimal(&mut buf, bits);
        push_text(&mut buf, ",s=");
        push_decimal(&mut buf, width);
        push_text(&mut buf, ",v=");
        push_decimal(&mut buf, height);
        push_text(&mut buf, ",i=");
        push_decimal(&mut buf, id);
        push_text(&mut buf, ",m=");
    } else {
        push_text(&mut buf, "_Gm=");
    }
    push_decimal(&mut buf, if more { 1 } else { 0 });
    push_text(&mut buf, ";");
    assert(buf@ =~= head + chunk_keys(bits, width, height, id, if first { 0 } else { 1 }, more));
    push_base64(&mut buf, piece);
    push_end(&mut buf, is_tmux);
    buf
}

/// Encode a payload into transmission chunks.
pub fn encode_payload(
    payload: &[u8],
    bits: u32,
    width: u32,
    height: u32,
    id: u32,
    is_tmux: bool,
) -> (chunks: Vec<Vec<u8>>)
    ensures
        is_transmission(chunks@, payload@, bits, width, height, id, is_tmux),
{
    let mut chunks: Vec<Vec<u8>> = Vec::new();
    let mut start: usize = 0;
    while start < payload.len()
        invariant
            start <= payload@.len(),
            start == 3072 * chunks@.len() || start == payload@.len(),
            chunks@.len() == chunk_count(start as nat),
            forall|i: int|
                0 <= i < chunks@.len() ==> (#[trigger] chunks@[i])@ == transmit_chunk(
                    payload@,
                    bits,
                    width,
                    height,
                    id,
                    is_tmux,
                    i,
                ),
        decreases payload@.len() - start,
    {
        let ghost i = chunks@.len() as int;
        let more: bool = payload.len() - start > BASE64_BLOCK;
        let end: usize = if more { start + BASE64_BLOCK } else { payload.len() };
        let buf = build_chunk(
            &payload[start..end],
            start == 0,
            more,
            bits,
            width,
            height,
            id,
            is_tmux,
        );
        proof {
            lemma_chunk_body(payload@, i);
            assert(more == (i + 1 < chunk_count(payload@.len())));
            assert(chunk_keys(bits, width, height, id, if start == 0 { 0 } else { 1 }, more)
                == chunk_keys(bits, width, height, id, i, more));
        }
        chunks.push(buf);
        start = end;
    }
    chunks
}

/// The bytes that are transmitted for an image: its pixel data, or the
/// zlib stream of it when a compression level is given.
pub open spec fn transmit_payload(img: &Pixels, compress_level: Option<u32>) -> Seq<u8> {
    match compress_level {
        Some(level) => zlib_stream(img.data@, level),
        None => img.data@,
    }
}

/// Highest compression level the encoder takes.
pub const MAX_COMPRESSION: u32 = 9;

/// Whether a compression level is one the encoder takes.
pub fn compression_in_range(compress_level: Option<u32>) -> (b: bool)
    ensures
        b == (compress_level matches Some(level) ==> level <= 9),
{
    match compress_level {
        Some(level) => level <= MAX_COMPRESSION,
        None => true,
    }
}

/// Encode an image into transmission chunks.
pub fn encode_chunks(img: &Pixels, id: u32, is_tmux: bool, compress_level: Option<u32>) -> (chunks:
    Vec<Vec<u8>>)
    requires
        compress_level matches Some(level) ==> level <= 9,
    ensures
        is_transmission(
            chunks@,
            transmit_payload(img, compress_level),
            img.format.spec_bits() as u32,
            img.width,
            img.height,
            id,
            is_tmux,
        ),
{
    match compress_level {
        Some(level) => {
            let packed = zlib_compress(img.data.as_slice(), level);
            encode_payload(packed.as_slice(), img.format.bits(), img.width, img.height, id, is_tmux)
        },
        None => encode_payload(
            img.data.as_slice(),
            img.format.bits(),
            img.width,
            img.height,
            id,
            is_tmux,
        ),
    }
}

} // verus!
