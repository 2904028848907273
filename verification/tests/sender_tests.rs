use std::sync::Arc;

use svt::geometry::{rect_diff, rect_intersection, union_rect, Rect};
use svt::kgp::{delete_by_id, erase_rows, place_rows};
use svt::sender::{
    apply_msg, build_osc52_clipboard, build_tile_cursor_escape, clear_all, cleanup_rects,
    clip_utf8, render_status, task_transmit, StatusIndicator, WriterRequest, WriterResult,
    WriterResultKind, WriterState,
};

#[test]
fn test_rect_intersection_no_overlap() {
    let a = Rect::new(0, 0, 10, 10);
    let b = Rect::new(20, 20, 10, 10);
    assert!(rect_intersection(a, b).is_none());
}

#[test]
fn test_rect_intersection_partial() {
    let a = Rect::new(0, 0, 10, 10);
    let b = Rect::new(5, 5, 10, 10);
    let inter = rect_intersection(a, b).unwrap();
    assert_eq!(inter, Rect::new(5, 5, 5, 5));
}

#[test]
fn test_rect_intersection_contained() {
    let a = Rect::new(0, 0, 20, 20);
    let b = Rect::new(5, 5, 5, 5);
    let inter = rect_intersection(a, b).unwrap();
    assert_eq!(inter, Rect::new(5, 5, 5, 5));
}

#[test]
fn test_rect_intersection_same() {
    let a = Rect::new(5, 5, 10, 10);
    let inter = rect_intersection(a, a).unwrap();
    assert_eq!(inter, a);
}

#[test]
fn test_rect_intersection_edge_touch() {
    let a = Rect::new(0, 0, 10, 10);
    let b = Rect::new(10, 0, 10, 10);
    assert!(rect_intersection(a, b).is_none());
}

#[test]
fn test_rect_diff_no_overlap() {
    let old = Rect::new(0, 0, 10, 10);
    let new = Rect::new(20, 20, 10, 10);
    let diff = rect_diff(old, new);
    assert_eq!(diff.len(), 1);
    assert_eq!(diff[0], old);
}

#[test]
fn test_rect_diff_same_rect() {
    let r = Rect::new(5, 5, 10, 10);
    let diff = rect_diff(r, r);
    assert!(diff.is_empty());
}

#[test]
fn test_rect_diff_partial_overlap() {
    let old = Rect::new(0, 0, 10, 10);
    let new = Rect::new(5, 5, 10, 10);
    let diff = rect_diff(old, new);
    assert!(!diff.is_empty());
    let diff_area: u32 = diff.iter().map(|r| u32::from(r.width) * u32::from(r.height)).sum();
    let old_area = 10 * 10;
    let inter_area = 5 * 5;
    assert_eq!(diff_area, old_area - inter_area);
}

#[test]
fn test_rect_diff_new_inside_old() {
    let old = Rect::new(0, 0, 20, 20);
    let new = Rect::new(5, 5, 10, 10);
    let diff = rect_diff(old, new);
    assert_eq!(diff.len(), 4);
}

#[test]
fn test_union_rect_disjoint() {
    let a = Rect::new(0, 0, 5, 5);
    let b = Rect::new(10, 10, 5, 5);
    let u = union_rect(a, b);
    assert_eq!(u, Rect::new(0, 0, 15, 15));
}

#[test]
fn test_union_rect_overlapping() {
    let a = Rect::new(0, 0, 10, 10);
    let b = Rect::new(5, 5, 10, 10);
    let u = union_rect(a, b);
    assert_eq!(u, Rect::new(0, 0, 15, 15));
}

#[test]
fn test_union_rect_same() {
    let r = Rect::new(5, 5, 10, 10);
    let u = union_rect(r, r);
    assert_eq!(u, r);
}

#[test]
fn test_union_rect_contained() {
    let outer = Rect::new(0, 0, 20, 20);
    let inner = Rect::new(5, 5, 5, 5);
    let u = union_rect(outer, inner);
    assert_eq!(u, outer);
}

#[test]
fn test_clip_utf8_no_truncation() {
    let s = "hello";
    assert_eq!(clip_utf8(s, 10), "hello");
}

#[test]
fn test_clip_utf8_exact_fit() {
    let s = "hello";
    assert_eq!(clip_utf8(s, 5), "hello");
}

#[test]
fn test_clip_utf8_truncation() {
    let s = "hello world";
    assert_eq!(clip_utf8(s, 5), "hello");
}

#[test]
fn test_clip_utf8_multibyte() {
    let s = "日本語テスト";
    let clipped = clip_utf8(s, 6);
    assert_eq!(clipped, "日本");
}

#[test]
fn test_clip_utf8_multibyte_boundary() {
    let s = "日本語";
    let clipped = clip_utf8(s, 7);
    assert_eq!(clipped, "日本");
}

#[test]
fn test_build_osc52_clipboard() {
    let data = b"test";
    let result = build_osc52_clipboard(data, false);
    let s = String::from_utf8_lossy(&result);
    assert!(s.starts_with("\x1b]52;c;"));
    assert!(s.ends_with("\x07"));
    assert!(s.contains("dGVzdA=="));
}

#[test]
fn test_build_osc52_clipboard_tmux() {
    let data = b"test";
    let result = build_osc52_clipboard(data, true);
    let s = String::from_utf8_lossy(&result);
    assert!(s.starts_with("\x1bPtmux;"));
    assert!(s.ends_with("\x1b\\"));
}

#[test]
fn rect_new_clamps_extent() {
    let r = Rect::new(65_530, 10, 100, 65_535);
    assert_eq!((r.x, r.y, r.width, r.height), (65_530, 10, 5, 65_525));
    let full = Rect::new(0, 0, 65_535, 65_535);
    assert_eq!((full.width, full.height), (65_535, 65_535));
}

#[test]
fn rect_diff_strips_are_disjoint_and_cover() {
    let cases = [
        (Rect::new(0, 0, 10, 10), Rect::new(5, 5, 10, 10)),
        (Rect::new(0, 0, 20, 20), Rect::new(5, 5, 10, 10)),
        (Rect::new(3, 4, 7, 9), Rect::new(0, 0, 5, 30)),
        (Rect::new(3, 4, 7, 9), Rect::new(3, 4, 7, 9)),
        (Rect::new(3, 4, 7, 9), Rect::new(50, 50, 1, 1)),
        (Rect::new(3, 4, 0, 9), Rect::new(0, 0, 50, 50)),
        (Rect::new(10, 10, 4, 4), Rect::new(11, 0, 2, 40)),
    ];
    for (old, new) in cases {
        let strips = rect_diff(old, new);
        assert!(strips.len() <= 4);
        for py in 0..40u16 {
            for px in 0..40u16 {
                let inside = |r: &Rect| {
                    r.x <= px && px < r.x + r.width && r.y <= py && py < r.y + r.height
                };
                let covering = strips.iter().filter(|r| inside(r)).count();
                let expected = if inside(&old) && !inside(&new) { 1 } else { 0 };
                assert_eq!(covering, expected);
            }
        }
    }
    let strips = rect_diff(Rect::new(0, 0, 10, 10), Rect::new(5, 5, 10, 10));
    assert_eq!(strips, vec![Rect::new(0, 0, 10, 5), Rect::new(0, 5, 5, 5)]);
    let total: u32 = strips.iter().map(|r| u32::from(r.width) * u32::from(r.height)).sum();
    assert_eq!(total, 75);
    assert_eq!(
        rect_diff(Rect::new(0, 0, 20, 20), Rect::new(5, 5, 10, 10)),
        vec![
            Rect::new(0, 0, 20, 5),
            Rect::new(0, 15, 20, 5),
            Rect::new(0, 5, 5, 10),
            Rect::new(15, 5, 5, 10)
        ]
    );
}

#[test]
fn union_with_empty_rectangle_spans_corners() {
    assert_eq!(union_rect(Rect::new(0, 0, 0, 0), Rect::new(5, 5, 1, 1)), Rect::new(0, 0, 6, 6));
    assert_eq!(
        union_rect(Rect::new(65_535, 65_535, 0, 0), Rect::new(0, 0, 1, 1)),
        Rect::new(0, 0, 65_535, 65_535)
    );
}

#[test]
fn clip_utf8_edges() {
    assert_eq!(clip_utf8("", 0), "");
    assert_eq!(clip_utf8("abc", 0), "");
    assert_eq!(clip_utf8("é", 1), "");
    assert_eq!(clip_utf8("aé", 2), "a");
    assert_eq!(clip_utf8("aé", 3), "aé");
    assert_eq!(clip_utf8("a\u{10EEEE}b", 4), "a");
    assert_eq!(clip_utf8("a\u{10EEEE}b", 5), "a\u{10EEEE}");
    assert_eq!(clip_utf8("日本語テスト", 6).len(), 6);
    assert_eq!(clip_utf8("日本語テスト", 6).chars().count(), 2);
    for limit in 0..20 {
        let clipped = clip_utf8("日本語テスト", limit);
        assert!(clipped.len() <= limit);
        assert!("日本語テスト".starts_with(clipped));
        assert!(clipped.len() + 3 > limit.min(18));
    }
}

#[test]
fn osc52_exact_bytes_and_round_trip() {
    assert_eq!(build_osc52_clipboard(b"test", false), b"\x1b]52;c;dGVzdA==\x07".to_vec());
    assert_eq!(
        build_osc52_clipboard(b"test", true),
        b"\x1bPtmux;\x1b\x1b]52;c;dGVzdA==\x07\x1b\\".to_vec()
    );
    assert_eq!(build_osc52_clipboard(b"", false), b"\x1b]52;c;\x07".to_vec());
    for len in [1usize, 2, 3, 4, 5, 3071, 3072, 3073, 6145, 10_000] {
        let data: Vec<u8> = (0..len).map(|i| (i * 31 % 256) as u8).collect();
        let out = build_osc52_clipboard(&data, false);
        assert!(out.starts_with(b"\x1b]52;c;"));
        assert_eq!(out.last(), Some(&7u8));
        let body = &out[7..out.len() - 1];
        assert_eq!(body, base64_simd::STANDARD.encode_to_string(&data).as_bytes());
        assert_eq!(base64_simd::STANDARD.decode_to_vec(body).unwrap(), data);
    }
}

#[test]
fn render_status_exact_bytes() {
    let out = render_status("1/3 name", (20, 24), StatusIndicator::Ready);
    assert_eq!(
        String::from_utf8(out).unwrap(),
        "\x1b[24;1H\x1b[40m\x1b[20X\x1b[24;1H\x1b[30;42m \u{f012c} \x1b[32;40m\u{e0b0}\x1b[97;40m 1/3 name\x1b[0m"
    );
    let busy = String::from_utf8(render_status("日本語テスト", (10, 5), StatusIndicator::Busy)).unwrap();
    assert_eq!(
        busy,
        "\x1b[5;1H\x1b[40m\x1b[10X\x1b[5;1H\x1b[30;43m \u{f110} \x1b[33;40m\u{e0b0}\x1b[97;40m 日本\x1b[0m"
    );
    let fit = String::from_utf8(render_status("x", (3, 5), StatusIndicator::Fit)).unwrap();
    assert!(fit.contains("\x1b[30;45m \u{f004c} \x1b[35;40m"));
    assert!(fit.ends_with("\x1b[97;40m \x1b[0m"));
    let tile = String::from_utf8(render_status("x", (30, 5), StatusIndicator::Tile)).unwrap();
    assert!(tile.contains("\x1b[30;46m \u{f11d9} \x1b[36;40m"));
    assert!(render_status("x", (0, 5), StatusIndicator::Ready).is_empty());
    assert!(render_status("x", (5, 0), StatusIndicator::Ready).is_empty());
}

#[test]
fn tile_cursor_draws_frame_on_cell_boundaries() {
    let area = Rect::new(0, 0, 10, 6);
    let out = String::from_utf8(build_tile_cursor_escape((2, 2), 3, area, (8, 16), true)).unwrap();
    // Tile 3 of a 2 x 2 grid covers columns 5..10 and rows 3..6.
    let mut expected = String::from("\x1b[36m");
    expected.push_str("\x1b[4;6H╭");
    for c in 7..10 {
        expected.push_str(&format!("\x1b[4;{}H─", c));
    }
    expected.push_str("\x1b[4;10H╮");
    expected.push_str("\x1b[6;6H╰");
    for c in 7..10 {
        expected.push_str(&format!("\x1b[6;{}H─", c));
    }
    expected.push_str("\x1b[6;10H╯");
    expected.push_str("\x1b[5;6H│\x1b[5;10H│");
    expected.push_str("\x1b[0m");
    assert_eq!(out, expected);

    let erased = String::from_utf8(build_tile_cursor_escape((2, 2), 3, area, (8, 16), false)).unwrap();
    assert!(erased.starts_with("\x1b[0m\x1b[4;6H "));
    assert_eq!(erased.matches(' ').count(), 12);
    assert!(!erased.contains('╭'));

    assert!(build_tile_cursor_escape((2, 2), 4, area, (8, 16), true).is_empty());
    assert!(build_tile_cursor_escape((0, 2), 0, area, (8, 16), true).is_empty());
    assert!(build_tile_cursor_escape((2, 2), 0, area, (0, 16), true).is_empty());
    assert!(build_tile_cursor_escape((usize::MAX, usize::MAX), 0, area, (8, 16), true).len() > 0);
}

#[test]
fn task_transmit_orders_blocks() {
    let chunks = vec![b"one".to_vec(), b"two".to_vec()];
    let area = Rect::new(5, 5, 10, 10);
    let old_area = Rect::new(0, 0, 2, 2);
    let dirty = Rect::new(0, 0, 10, 10);
    let task = task_transmit(&chunks, area, 9, Some(old_area), Some(dirty), 3, false);
    let mut expected: Vec<Vec<u8>> = Vec::new();
    expected.extend(erase_rows(old_area));
    expected.extend(erase_rows(Rect::new(0, 0, 10, 5)));
    expected.extend(erase_rows(Rect::new(0, 5, 5, 5)));
    expected.push(delete_by_id(9, false));
    expected.extend(chunks.clone());
    expected.extend(place_rows(area, 9));
    assert_eq!(task.chunks.iter().cloned().collect::<Vec<_>>(), expected);
    assert_eq!(task.complete, Some(WriterResultKind::TransmitDone { kgp_id: 9 }));
    assert_eq!(task.epoch, 3);
    assert!(task.clears_dirty);

    let plain = task_transmit(&chunks, area, 9, None, None, 0, true);
    assert!(!plain.clears_dirty);
    assert_eq!(plain.chunks.len(), 1 + 2 + 10);
    assert_eq!(plain.chunks[0], delete_by_id(9, true));
    assert!(cleanup_rects(area, None).is_empty());
    assert_eq!(cleanup_rects(area, Some(area)), Vec::new());
}

#[test]
fn clear_all_exact_bytes() {
    assert_eq!(
        clear_all(None, false),
        b"\x1b_Gq=2,a=d,d=a\x1b\\\x1b_Gq=2,a=d,d=A\x1b\\\x1b[0m".to_vec()
    );
    let with_area = clear_all(Some(Rect::new(0, 0, 3, 2)), false);
    assert!(with_area.starts_with(b"\x1b[1;1H\x1b[3X\x1b[2;1H\x1b[3X\x1b_Gq=2,a=d,d=a"));
}

fn transmit(epoch: u64, area: Rect) -> WriterRequest {
    WriterRequest::ImageTransmit {
        encoded_chunks: Arc::new(vec![vec![b'x'; 40_000], vec![b'y'; 40_000], Vec::new()]),
        area,
        kgp_id: 5,
        old_area: None,
        epoch,
        is_tmux: false,
    }
}

#[test]
fn writer_streams_task_and_reports_completion() {
    let mut state = WriterState::new();
    assert!(state.is_idle());
    let area = Rect::new(0, 0, 2, 1);
    assert!(apply_msg(transmit(0, area), &mut state, true).is_empty());
    assert!(!state.is_idle());

    let first = state.step(true);
    assert_eq!(first.bytes, delete_by_id(5, false));
    assert!(!first.flush);
    assert_eq!(first.completed, None);

    let second = state.step(true);
    assert_eq!(second.bytes.len(), 40_000);
    assert!(!second.flush);
    let third = state.step(true);
    assert_eq!(third.bytes.len(), 40_000);
    assert!(third.flush);
    assert_eq!(state.unflushed, 0);
    let empty = state.step(true);
    assert!(empty.bytes.is_empty());
    assert!(!empty.flush);
    let row = state.step(true);
    assert_eq!(row.bytes, place_rows(area, 5)[0]);
    let done = state.step(true);
    assert!(done.bytes.is_empty());
    assert!(done.flush);
    assert_eq!(
        done.completed,
        Some(WriterResult { kind: WriterResultKind::TransmitDone { kgp_id: 5 }, epoch: 0 })
    );
    assert!(state.is_idle());
    let idle = state.step(true);
    assert!(idle.bytes.is_empty() && !idle.flush && idle.completed.is_none());
}

#[test]
fn writer_without_terminal_completes_at_once() {
    let mut state = WriterState::new();
    let _ = apply_msg(transmit(2, Rect::new(0, 0, 2, 1)), &mut state, false);
    let out = state.step(false);
    assert!(out.bytes.is_empty());
    assert_eq!(
        out.completed,
        Some(WriterResult { kind: WriterResultKind::TransmitDone { kgp_id: 5 }, epoch: 2 })
    );
    assert!(state.is_idle());
    assert!(apply_msg(WriterRequest::ClearAll { area: None, is_tmux: false }, &mut state, false)
        .is_empty());
    assert!(apply_msg(
        WriterRequest::CopyToClipboard { data: b"x".to_vec(), is_tmux: false },
        &mut state,
        false
    )
    .is_empty());
}

#[test]
fn writer_cancel_drops_task_and_collects_dirty_area() {
    let mut state = WriterState::new();
    let _ = apply_msg(transmit(1, Rect::new(0, 0, 4, 4)), &mut state, true);
    let out = apply_msg(
        WriterRequest::CancelImage { area: Some(Rect::new(0, 0, 4, 4)), epoch: 2 },
        &mut state,
        true,
    );
    assert_eq!(out, b"\x1b[0m".to_vec());
    assert!(state.current_task.is_none());
    assert_eq!(state.current_epoch, 2);
    assert_eq!(state.dirty_area, Some(Rect::new(0, 0, 4, 4)));
    let _ = apply_msg(
        WriterRequest::CancelImage { area: Some(Rect::new(6, 6, 2, 2)), epoch: 1 },
        &mut state,
        true,
    );
    assert_eq!(state.current_epoch, 2);
    assert_eq!(state.dirty_area, Some(Rect::new(0, 0, 8, 8)));

    // A transmit of an older epoch is ignored.
    let _ = apply_msg(transmit(1, Rect::new(0, 0, 4, 4)), &mut state, true);
    assert!(state.current_task.is_none());

    // The next transmit cleans what is dirty outside its area.
    let _ = apply_msg(transmit(2, Rect::new(0, 0, 8, 4)), &mut state, true);
    let task = state.current_task.as_ref().unwrap();
    assert!(task.clears_dirty);
    assert_eq!(task.chunks[0], erase_rows(Rect::new(0, 4, 8, 4))[0]);
    assert_eq!(state.dirty_area, Some(Rect::new(0, 0, 8, 8)));
    while !state.is_idle() {
        let _ = state.step(true);
    }
    assert_eq!(state.dirty_area, None);
}

#[test]
fn writer_turns_away_malformed_rectangles() {
    let mut state = WriterState::new();
    let beyond = Rect { x: 65_535, y: 0, width: 2, height: 1 };
    assert!(!beyond.is_wf());
    assert!(Rect::new(65_535, 0, 2, 1).is_wf());
    let request = WriterRequest::CancelImage { area: Some(beyond), epoch: 7 };
    assert!(!request.is_wf());
    assert!(state.apply(request, true).is_none());
    assert_eq!(state.current_epoch, 0);
    assert_eq!(state.dirty_area, None);
    let good = WriterRequest::CancelImage { area: Some(Rect::new(0, 0, 2, 1)), epoch: 7 };
    assert_eq!(state.apply(good, true), Some(b"\x1b[0m".to_vec()));
    assert_eq!(state.current_epoch, 7);
    state.dirty_area = Some(beyond);
    assert!(state.apply(WriterRequest::Shutdown, true).is_none());
    assert!(!state.should_quit);
}

#[test]
fn writer_drops_task_of_other_epoch() {
    let mut state = WriterState::new();
    let _ = apply_msg(transmit(1, Rect::new(0, 0, 4, 4)), &mut state, true);
    state.current_epoch = 5;
    let out = state.step(true);
    assert!(out.bytes.is_empty() && out.completed.is_none());
    assert!(state.current_task.is_none());
}

#[test]
fn writer_status_is_latched_and_rendered_once() {
    let mut state = WriterState::new();
    assert!(state.flush_status(true).is_empty());
    let _ = apply_msg(
        WriterRequest::Status { text: "a".to_string(), size: (20, 5), indicator: StatusIndicator::Busy },
        &mut state,
        true,
    );
    let _ = apply_msg(
        WriterRequest::Status { text: "b".to_string(), size: (20, 5), indicator: StatusIndicator::Ready },
        &mut state,
        true,
    );
    assert!(!state.is_idle());
    assert_eq!(state.flush_status(true), render_status("b", (20, 5), StatusIndicator::Ready));
    assert!(state.is_idle());
    assert!(state.flush_status(true).is_empty());
    let _ = apply_msg(
        WriterRequest::Status { text: "c".to_string(), size: (20, 5), indicator: StatusIndicator::Busy },
        &mut state,
        false,
    );
    assert!(state.flush_status(false).is_empty());
    assert!(state.is_idle());
    let _ = apply_msg(WriterRequest::Shutdown, &mut state, true);
    assert!(state.should_quit);
}

#[test]
fn writer_tile_cursor_erases_previous() {
    let mut state = WriterState::new();
    let area = Rect::new(0, 0, 10, 6);
    let request = |prev: Option<usize>| WriterRequest::TileCursor {
        grid: (2, 2),
        cursor_idx: 1,
        image_area: area,
        prev_cursor_idx: prev,
        cell_size: (8, 16),
    };
    let draw = build_tile_cursor_escape((2, 2), 1, area, (8, 16), true);
    assert_eq!(apply_msg(request(None), &mut state, true), draw);
    assert_eq!(apply_msg(request(Some(1)), &mut state, true), draw);
    let mut both = build_tile_cursor_escape((2, 2), 0, area, (8, 16), false);
    both.extend_from_slice(&draw);
    assert_eq!(apply_msg(request(Some(0)), &mut state, true), both);
    assert!(apply_msg(request(Some(0)), &mut state, false).is_empty());
}
