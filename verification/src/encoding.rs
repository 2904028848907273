//! Byte-level building blocks of the terminal streams: text, decimal
//! numbers, UTF-8 scalars and base64.

use vstd::prelude::*;
use vstd::string::*;
use vstd::utf8::*;

verus! {

/// Decimal digits of `n`, most significant first, without padding.
pub open spec fn decimal(n: nat) -> Seq<u8>
    decreases n,
{
    if n < 10 {
        seq![(48 + n) as u8]
    } else {
        decimal(n / 10) + seq![(48 + n % 10) as u8]
    }
}

/// Append the bytes of `text`.
pub fn push_text(buf: &mut Vec<u8>, text: &str)
    ensures
        final(buf)@ == old(buf)@ + text.spec_bytes(),
{
    buf.extend_from_slice(text.as_bytes());
}

/// Append `n` in decimal.
pub fn push_decimal(buf: &mut Vec<u8>, n: u32)
    ensures
        final(buf)@ == old(buf)@ + decimal(n as nat),
    decreases n,
{
    if n >= 10 {
        push_decimal(buf, n / 10);
    }
    buf.push(48 + (n % 10) as u8);
    assert(buf@ =~= old(buf)@ + decimal(n as nat));
}

/// Append the UTF-8 encoding of one Unicode scalar value.
pub fn push_scalar(buf: &mut Vec<u8>, scalar: u32)
    requires
        is_scalar(scalar),
    ensures
        final(buf)@ == old(buf)@ + encode_scalar(scalar),
{
    if scalar <= 0x7F {
        assert(scalar & 0x7F <= 0x7F) by (bit_vector);
        buf.push((scalar & 0x7F) as u8);
    } else if scalar <= 0x7FF {
        assert((scalar >> 6) & 0x1F <= 0x1F) by (bit_vector);
        assert(scalar & 0x3F <= 0x3F) by (bit_vector);
        buf.push(0xC0 | ((scalar >> 6) & 0x1F) as u8);
        buf.push(0x80 | (scalar & 0x3F) as u8);
    } else if scalar <= 0xFFFF {
        assert((scalar >> 12) & 0x0F <= 0x0F) by (bit_vector);
        assert((scalar >> 6) & 0x3F <= 0x3F) by (bit_vector);
        assert(scalar & 0x3F <= 0x3F) by (bit_vector);
        buf.push(0xE0 | ((scalar >> 12) & 0x0F) as u8);
        buf.push(0x80 | ((scalar >> 6) & 0x3F) as u8);
        buf.push(0x80 | (scalar & 0x3F) as u8);
    } else {
        assert((scalar >> 18) & 0x7 <= 0x7) by (bit_vector);
        assert((scalar >> 12) & 0x3F <= 0x3F) by (bit_vector);
        assert((scalar >> 6) & 0x3F <= 0x3F) by (bit_vector);
        assert(scalar & 0x3F <= 0x3F) by (bit_vector);
        buf.push(0xF0 | ((scalar >> 18) & 0x7) as u8);
        buf.push(0x80 | ((scalar >> 12) & 0x3F) as u8);
        buf.push(0x80 | ((scalar >> 6) & 0x3F) as u8);
        buf.push(0x80 | (scalar & 0x3F) as u8);
    }
    assert(buf@ =~= old(buf)@ + encode_scalar(scalar));
}

/// The character of the standard base64 alphabet that stands for the
/// six-bit value `v`: `A`-`Z`, `a`-`z`, `0`-`9`, `+`, `/`.
pub open spec fn base64_symbol(v: int) -> u8 {
    if v < 26 {
        (65 + v) as u8
    } else if v < 52 {
        (71 + v) as u8
    } else if v < 62 {
        (v - 4) as u8
    } else if v == 62 {
        43
    } else {
        47
    }
}

/// The six-bit value a character of the standard alphabet stands for.
pub open spec fn base64_value(c: u8) -> int {
    if 65 <= c <= 90 {
        c - 65
    } else if 97 <= c <= 122 {
        c - 71
    } else if 48 <= c <= 57 {
        c + 4
    } else if c == 43 {
        62
    } else {
        63
    }
}

/// Standard base64 with `=` padding: each group of three bytes gives four
/// characters, and a last group of one or two bytes is padded to four.
pub open spec fn base64(data: Seq<u8>) -> Seq<u8>
    decreases data.len(),
{
    if data.len() == 0 {
        Seq::<u8>::empty()
    } else if data.len() == 1 {
        let b0 = data[0] as int;
        seq![base64_symbol(b0 / 4), base64_symbol((b0 % 4) * 16), 61u8, 61u8]
    } else if data.len() == 2 {
        let b0 = data[0] as int;
        let b1 = data[1] as int;
        seq![
            base64_symbol(b0 / 4),
            base64_symbol((b0 % 4) * 16 + b1 / 16),
            base64_symbol((b1 % 16) * 4),
            61u8,
        ]
    } else {
        let b0 = data[0] as int;
        let b1 = data[1] as int;
        let b2 = data[2] as int;
        seq![
            base64_symbol(b0 / 4),
            base64_symbol((b0 % 4) * 16 + b1 / 16),
            base64_symbol((b1 % 16) * 4 + b2 / 64),
            base64_symbol(b2 % 64),
        ] + base64(data.skip(3))
    }
}

/// The bytes that a padded base64 text stands for, read four characters at
/// a time.
pub open spec fn base64_decoded(text: Seq<u8>) -> Seq<u8>
    decreases text.len(),
{
    if text.len() < 4 {
        Seq::<u8>::empty()
    } else {
        let v0 = base64_value(text[0]);
        let v1 = base64_value(text[1]);
        let v2 = base64_value(text[2]);
        let v3 = base64_value(text[3]);
        let head = if text[2] == 61 {
            seq![(v0 * 4 + v1 / 16) as u8]
        } else if text[3] == 61 {
            seq![(v0 * 4 + v1 / 16) as u8, ((v1 % 16) * 16 + v2 / 4) as u8]
        } else {
            seq![
                (v0 * 4 + v1 / 16) as u8,
                ((v1 % 16) * 16 + v2 / 4) as u8,
                ((v2 % 4) * 64 + v3) as u8,
            ]
        };
        head + base64_decoded(text.skip(4))
    }
}

/// A symbol of the alphabet is never the padding character, and stands for
/// the value it was chosen for.
pub proof fn lemma_base64_symbol_value(v: int)
    requires
        0 <= v < 64,
    ensures
        base64_symbol(v) != 61,
        base64_value(base64_symbol(v)) == v,
{
}

/// Decoding the base64 of any bytes gives the bytes back.
pub proof fn lemma_base64_round_trip(data: Seq<u8>)
    ensures
        base64_decoded(base64(data)) == data,
    decreases data.len(),
{
    let text = base64(data);
    if data.len() == 0 {
        assert(base64_decoded(text) =~= data);
    } else if data.len() == 1 {
        lemma_base64_symbol_value(data[0] as int / 4);
        lemma_base64_symbol_value((data[0] as int % 4) * 16);
        assert(text.skip(4) =~= Seq::<u8>::empty());
        assert(base64_decoded(text.skip(4)) =~= Seq::<u8>::empty());
        assert(base64_decoded(text) =~= data);
    } else if data.len() == 2 {
        lemma_base64_symbol_value(data[0] as int / 4);
        lemma_base64_symbol_value((data[0] as int % 4) * 16 + data[1] as int / 16);
        lemma_base64_symbol_value((data[1] as int % 16) * 4);
        assert(text.skip(4) =~= Seq::<u8>::empty());
        assert(base64_decoded(text.skip(4)) =~= Seq::<u8>::empty());
        assert(base64_decoded(text) =~= data);
    } else {
        lemma_base64_symbol_value(data[0] as int / 4);
        lemma_base64_symbol_value((data[0] as int % 4) * 16 + data[1] as int / 16);
        lemma_base64_symbol_value((data[1] as int % 16) * 4 + data[2] as int / 64);
        lemma_base64_symbol_value(data[2] as int % 64);
        lemma_base64_round_trip(data.skip(3));
        assert(text.skip(4) =~= base64(data.skip(3)));
        assert(base64_decoded(text) =~= data);
    }
}

/// The base64 of `n` bytes has four characters for every started group of
/// three.
pub proof fn lemma_base64_len(data: Seq<u8>)
    ensures
        base64(data).len() == ((data.len() + 2) / 3) * 4,
    decreases data.len(),
{
    if data.len() >= 3 {
        lemma_base64_len(data.skip(3));
    }
}

/// Base64 distributes over concatenation when the first part is a whole
/// number of three-byte groups.
pub proof fn lemma_base64_concat(a: Seq<u8>, b: Seq<u8>)
    requires
        a.len() % 3 == 0,
    ensures
        base64(a + b) == base64(a) + base64(b),
    decreases a.len(),
{
    if a.len() == 0 {
        assert(a + b =~= b);
        assert(base64(a) + base64(b) =~= base64(b));
    } else {
        assert(a.len() >= 3);
        assert((a + b).skip(3) =~= a.skip(3) + b);
        lemma_base64_concat(a.skip(3), b);
        assert(base64(a + b) =~= base64(a) + base64(b));
    }
}

/// Largest number of bytes handed to the encoder at once; a whole number of
/// three-byte groups, encoded as 4096 characters.
pub const BASE64_BLOCK: usize = 3072;

/// Calls `base64_simd::STANDARD.encode_to_string` and returns the text as
/// bytes. Trusted: the result is the standard padded base64 of `data`.
#[verifier::external_body]
fn base64_block(data: &[u8]) -> (out: Vec<u8>)
    requires
        data@.len() <= BASE64_BLOCK,
    ensures
        out@ == base64(data@),
{
    base64_simd::STANDARD.encode_to_string(data).into_bytes()
}

/// Append the base64 of `data`, encoding it block by block.
pub fn push_base64(buf: &mut Vec<u8>, data: &[u8])
    ensures
        final(buf)@ == old(buf)@ + base64(data@),
{
    let mut start: usize = 0;
    assert(data@.subrange(0, 0) =~= Seq::<u8>::empty());
    while start < data.len()
        invariant
            start <= data@.len(),
            start % 3 == 0,
            buf@ == old(buf)@ + base64(data@.subrange(0, start as int)),
        decreases data@.len() - start,
    {
        let end: usize = if data.len() - start > BASE64_BLOCK {
            start + BASE64_BLOCK
        } else {
            data.len()
        };
        let block = base64_block(&data[start..end]);
        buf.extend_from_slice(block.as_slice());
        proof {
            let head = data@.subrange(0, start as int);
            let piece = data@.subrange(start as int, end as int);
            assert(data@.subrange(0, end as int) =~= head + piece);
            lemma_base64_concat(head, piece);
            assert(buf@ =~= old(buf)@ + base64(data@.subrange(0, end as int)));
        }
        if end == data.len() {
            assert(data@.subrange(0, end as int) =~= data@);
            return ;
        }
        start = end;
    }
    assert(data@.subrange(0, start as int) =~= data@);
}

/// The zlib stream that the compressor produces for `data` at `level`.
pub uninterp spec fn zlib_stream(data: Seq<u8>, level: u32) -> Seq<u8>;

/// Runs `flate2::write::ZlibEncoder` over `data` at the given level and
/// returns what `finish` hands back. Trusted: the output depends on the
/// data and the level alone.
#[verifier::external_body]
pub(crate) fn zlib_compress(data: &[u8], level: u32) -> (out: Vec<u8>)
    requires
        level <= 9,
    ensures
        out@ == zlib_stream(data@, level),
{
    let mut encoder = flate2::write::ZlibEncoder::new(Vec::new(), flate2::Compression::new(level));
    let _ = std::io::Write::write_all(&mut encoder, data);
    encoder.finish().unwrap_or_default()
}

} // verus!
