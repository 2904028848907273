use svt::geometry::Rect;
use svt::kgp::{
    delete_all, delete_by_id, encode_chunks, encode_payload, erase_rows, place_rows, KgpState,
    DIACRITICS,
};
use svt::pixels::{PixelFormat, Pixels};

fn decode_base64(text: &[u8]) -> Vec<u8> {
    base64_simd::STANDARD.decode_to_vec(text).unwrap()
}

#[test]
fn erase_generates_cursor_moves() {
    let area = Rect::new(2, 3, 4, 2);
    let rows = erase_rows(area);
    let bytes = rows.concat();
    let s = String::from_utf8_lossy(&bytes);
    assert!(s.contains("\x1b[4;3H"));
    assert!(s.contains("\x1b[5;3H"));
}

#[test]
fn erase_rows_exact_bytes() {
    let rows = erase_rows(Rect::new(2, 3, 4, 2));
    assert_eq!(rows, vec![b"\x1b[4;3H\x1b[4X".to_vec(), b"\x1b[5;3H\x1b[4X".to_vec()]);
    assert!(erase_rows(Rect::new(2, 3, 0, 2)).is_empty());
    assert!(erase_rows(Rect::new(2, 3, 4, 0)).is_empty());
}

#[test]
fn delete_all_exact_bytes() {
    assert_eq!(delete_all(false), b"\x1b_Gq=2,a=d,d=a\x1b\\\x1b_Gq=2,a=d,d=A\x1b\\".to_vec());
    assert_eq!(
        delete_all(true),
        b"\x1bPtmux;\x1b\x1b_Gq=2,a=d,d=a\x1b\x1b\\\x1b\\\x1bPtmux;\x1b\x1b_Gq=2,a=d,d=A\x1b\x1b\\\x1b\\"
            .to_vec()
    );
}

#[test]
fn delete_by_id_exact_bytes() {
    assert_eq!(delete_by_id(0, false), b"\x1b_Gq=2,a=d,d=i,i=0\x1b\\".to_vec());
    assert_eq!(
        delete_by_id(4294967295, true),
        b"\x1bPtmux;\x1b\x1b_Gq=2,a=d,d=i,i=4294967295\x1b\x1b\\\x1b\\".to_vec()
    );
}

#[test]
fn kgp_state_keeps_area_on_invalidate() {
    let mut state = KgpState::new();
    assert_eq!(state.last_area(), None);
    assert_eq!(state.last_kgp_id(), None);
    state.set_last(Rect::new(1, 2, 3, 4), 9);
    assert_eq!(state.last_area(), Some(Rect::new(1, 2, 3, 4)));
    assert_eq!(state.last_kgp_id(), Some(9));
    state.invalidate();
    assert_eq!(state.last_area(), Some(Rect::new(1, 2, 3, 4)));
    assert_eq!(state.last_kgp_id(), None);
}

#[test]
fn place_rows_exact_bytes() {
    let id: u32 = 0x0102_0304;
    let rows = place_rows(Rect::new(5, 7, 2, 2), id);
    assert_eq!(rows.len(), 2);
    for (y, row) in rows.iter().enumerate() {
        let mut expected = format!("\x1b[38;2;2;3;4m\x1b[{};6H", 7 + y + 1);
        for x in 0..2 {
            expected.push('\u{10EEEE}');
            expected.push(DIACRITICS[y]);
            expected.push(DIACRITICS[x]);
            expected.push(DIACRITICS[1]);
        }
        expected.push_str("\x1b[0m");
        assert_eq!(String::from_utf8(row.clone()).unwrap(), expected);
    }
    assert!(place_rows(Rect::new(5, 7, 0, 2), id).is_empty());
}

#[test]
fn place_rows_clamp_to_first_diacritic() {
    let rows = place_rows(Rect::new(0, 0, 298, 298), 0xFF00_0000);
    assert_eq!(rows.len(), 298);
    let marks = |row: usize, col: usize| {
        let text = String::from_utf8(rows[row].clone()).unwrap();
        let chars: Vec<char> = text.chars().collect();
        let cells_at = chars.iter().position(|c| *c == '\u{10EEEE}').unwrap();
        let at = cells_at + 4 * col;
        assert_eq!(chars[at], '\u{10EEEE}');
        (chars[at + 1], chars[at + 2], chars[at + 3])
    };
    assert_eq!(marks(0, 0), (DIACRITICS[0], DIACRITICS[0], DIACRITICS[255]));
    assert_eq!(marks(296, 296), (DIACRITICS[296], DIACRITICS[296], DIACRITICS[255]));
    // Row and column 297 are beyond the table and fall back to the first mark.
    assert_eq!(marks(297, 296), (DIACRITICS[0], DIACRITICS[296], DIACRITICS[255]));
    assert_eq!(marks(296, 297), (DIACRITICS[296], DIACRITICS[0], DIACRITICS[255]));
}

#[test]
fn encode_payload_single_chunk() {
    let chunks = encode_payload(b"test", 24, 2, 3, 42, false);
    assert_eq!(chunks, vec![b"\x1b_Gq=2,a=T,C=1,U=1,f=24,s=2,v=3,i=42,m=0;dGVzdA==\x1b\\".to_vec()]);
    let wrapped = encode_payload(b"test", 32, 2, 3, 42, true);
    assert_eq!(
        wrapped,
        vec![b"\x1bPtmux;\x1b\x1b_Gq=2,a=T,C=1,U=1,f=32,s=2,v=3,i=42,m=0;dGVzdA==\x1b\x1b\\\x1b\\".to_vec()]
    );
    assert!(encode_payload(b"", 24, 0, 0, 1, false).is_empty());
}

#[test]
fn encode_payload_chunks_at_4096_characters() {
    let payload: Vec<u8> = (0..7000u32).map(|i| (i * 7 % 251) as u8).collect();
    let chunks = encode_payload(&payload, 24, 10, 10, 5, false);
    assert_eq!(chunks.len(), 3);
    let whole = base64_simd::STANDARD.encode_to_string(&payload).into_bytes();
    let mut joined: Vec<u8> = Vec::new();
    for (i, chunk) in chunks.iter().enumerate() {
        let text = String::from_utf8(chunk.clone()).unwrap();
        let more = if i + 1 < chunks.len() { 1 } else { 0 };
        let header = if i == 0 {
            format!("\x1b_Gq=2,a=T,C=1,U=1,f=24,s=10,v=10,i=5,m={};", more)
        } else {
            format!("\x1b_Gm={};", more)
        };
        assert!(text.starts_with(&header));
        assert!(text.ends_with("\x1b\\"));
        let body = &chunk[header.len()..chunk.len() - 2];
        if i + 1 < chunks.len() {
            assert_eq!(body.len(), 4096);
        }
        joined.extend_from_slice(body);
    }
    assert_eq!(joined, whole);
    assert_eq!(decode_base64(&joined), payload);
    let exact: Vec<u8> = vec![7; 3072];
    assert_eq!(encode_payload(&exact, 24, 1, 1, 1, false).len(), 1);
    let one_more: Vec<u8> = vec![7; 3073];
    assert_eq!(encode_payload(&one_more, 24, 1, 1, 1, false).len(), 2);
}

#[test]
fn encode_chunks_uncompressed_carries_pixels() {
    let img = Pixels { width: 2, height: 1, format: PixelFormat::Rgba8, data: vec![1, 2, 3, 4, 5, 6, 7, 8] };
    let chunks = encode_chunks(&img, 77, false, None);
    assert_eq!(chunks.len(), 1);
    let text = String::from_utf8(chunks[0].clone()).unwrap();
    let header = "\x1b_Gq=2,a=T,C=1,U=1,f=32,s=2,v=1,i=77,m=0;";
    assert!(text.starts_with(header));
    let body = &chunks[0][header.len()..chunks[0].len() - 2];
    assert_eq!(decode_base64(body), img.data);
}

#[test]
fn encode_chunks_compressed_inflates_to_pixels() {
    let data: Vec<u8> = (0..3000u32).map(|i| (i % 7) as u8).collect();
    let img = Pixels { width: 100, height: 10, format: PixelFormat::Rgb8, data };
    let plain = encode_chunks(&img, 1, false, None);
    let packed = encode_chunks(&img, 1, false, Some(6));
    assert_eq!(packed.len(), 1);
    assert!(packed[0].len() < plain[0].len());
    let header = "\x1b_Gq=2,a=T,C=1,U=1,f=24,s=100,v=10,i=1,m=0;";
    assert!(packed[0].starts_with(header.as_bytes()));
    let body = &packed[0][header.len()..packed[0].len() - 2];
    let stream = decode_base64(body);
    assert_ne!(stream, img.data);
    let mut inflated = Vec::new();
    let mut decoder = flate2::read::ZlibDecoder::new(&stream[..]);
    std::io::Read::read_to_end(&mut decoder, &mut inflated).unwrap();
    assert_eq!(inflated, img.data);
    assert_eq!(encode_chunks(&img, 1, false, Some(6)), packed);
    assert_eq!(inflate(&encode_chunks(&img, 1, false, Some(0))[0], header), img.data);
}

fn inflate(chunk: &[u8], header: &str) -> Vec<u8> {
    let stream = decode_base64(&chunk[header.len()..chunk.len() - 2]);
    let mut out = Vec::new();
    let mut decoder = flate2::read::ZlibDecoder::new(&stream[..]);
    std::io::Read::read_to_end(&mut decoder, &mut out).unwrap();
    out
}
