//! Cell rectangles and the arithmetic the writer uses to track which part of
//! the screen still holds stale image cells.

use vstd::prelude::*;

verus! {

/// A rectangle of terminal cells: top-left corner and extent.
#[derive(Clone, Copy, Debug, PartialEq, Eq, Structural)]
pub struct Rect {
    pub x: u16,
    pub y: u16,
    pub width: u16,
    pub height: u16,
}

impl Rect {
    /// The right and bottom edges stay within the coordinate range.
    pub open spec fn wf(self) -> bool {
        &&& self.x + self.width <= u16::MAX
        &&& self.y + self.height <= u16::MAX
    }

    /// Whether the right and bottom edges stay within the coordinate range.
    pub fn is_wf(&self) -> (b: bool)
        ensures
            b == self.wf(),
    {
        self.x as u32 + self.width as u32 <= u16::MAX as u32 && self.y as u32 + self.height as u32
            <= u16::MAX as u32
    }

    /// First column to the right of the rectangle.
    pub open spec fn right(self) -> int {
        self.x + self.width
    }

    /// First row below the rectangle.
    pub open spec fn bottom(self) -> int {
        self.y + self.height
    }

    /// Whether the cell at column `px`, row `py` lies inside.
    pub open spec fn contains(self, px: int, py: int) -> bool {
        &&& self.x <= px < self.right()
        &&& self.y <= py < self.bottom()
    }

    /// Number of cells covered.
    pub open spec fn area(self) -> int {
        self.width * self.height
    }

    /// The rectangle `new` builds: the extent is cut back so that the far
    /// edges stay representable.
    pub open spec fn spec_new(x: u16, y: u16, width: u16, height: u16) -> Rect {
        Rect {
            x,
            y,
            width: if x + width > u16::MAX { (u16::MAX - x) as u16 } else { width },
            height: if y + height > u16::MAX { (u16::MAX - y) as u16 } else { height },
        }
    }

    /// Build a rectangle, clamping width and height so that `x + width` and
    /// `y + height` do not exceed `u16::MAX`.
    pub fn new(x: u16, y: u16, width: u16, height: u16) -> (r: Rect)
        ensures
            r == Rect::spec_new(x, y, width, height),
            r.wf(),
    {
        let max_width: u16 = u16::MAX - x;
        let max_height: u16 = u16::MAX - y;
        Rect {
            x,
            y,
            width: if width > max_width { max_width } else { width },
            height: if height > max_height { max_height } else { height },
        }
    }
}

pub open spec fn spec_max(a: int, b: int) -> int {
    if a >= b { a } else { b }
}

pub open spec fn spec_min(a: int, b: int) -> int {
    if a <= b { a } else { b }
}

/// The overlap of two rectangles, `None` when they share no cell (touching
/// edges share none).
pub open spec fn intersection_of(a: Rect, b: Rect) -> Option<Rect> {
    let x0 = spec_max(a.x as int, b.x as int);
    let y0 = spec_max(a.y as int, b.y as int);
    let x1 = spec_min(a.right(), b.right());
    let y1 = spec_min(a.bottom(), b.bottom());
    if x1 <= x0 || y1 <= y0 {
        None
    } else {
        Some(Rect { x: x0 as u16, y: y0 as u16, width: (x1 - x0) as u16, height: (y1 - y0) as u16 })
    }
}

/// The smallest rectangle whose corner span encloses both arguments.
pub open spec fn union_of(a: Rect, b: Rect) -> Rect {
    let x0 = spec_min(a.x as int, b.x as int);
    let y0 = spec_min(a.y as int, b.y as int);
    let x1 = spec_max(a.right(), b.right());
    let y1 = spec_max(a.bottom(), b.bottom());
    Rect { x: x0 as u16, y: y0 as u16, width: (x1 - x0) as u16, height: (y1 - y0) as u16 }
}

/// The strips of `old` that `new` leaves uncovered, in the order top, bottom,
/// left, right. The top and bottom strips span the full width of `old`; the
/// left and right strips span the rows of the overlap only.
pub open spec fn diff_strips(old_rect: Rect, new_rect: Rect) -> Seq<Rect> {
    match intersection_of(old_rect, new_rect) {
        None => seq![old_rect],
        Some(inter) => {
            let top = if old_rect.y < inter.y {
                seq![
                    Rect {
                        x: old_rect.x,
                        y: old_rect.y,
                        width: old_rect.width,
                        height: (inter.y - old_rect.y) as u16,
                    },
                ]
            } else {
                Seq::<Rect>::empty()
            };
            let bottom = if inter.bottom() < old_rect.bottom() {
                seq![
                    Rect {
                        x: old_rect.x,
                        y: inter.bottom() as u16,
                        width: old_rect.width,
                        height: (old_rect.bottom() - inter.bottom()) as u16,
                    },
                ]
            } else {
                Seq::<Rect>::empty()
            };
            let left = if old_rect.x < inter.x {
                seq![
                    Rect {
                        x: old_rect.x,
                        y: inter.y,
                        width: (inter.x - old_rect.x) as u16,
                        height: inter.height,
                    },
                ]
            } else {
                Seq::<Rect>::empty()
            };
            let right = if inter.right() < old_rect.right() {
                seq![
                    Rect {
                        x: inter.right() as u16,
                        y: inter.y,
                        width: (old_rect.right() - inter.right()) as u16,
                        height: inter.height,
                    },
                ]
            } else {
                Seq::<Rect>::empty()
            };
            top + bottom + left + right
        },
    }
}

/// Sum of the areas of a sequence of rectangles.
pub open spec fn total_area(rects: Seq<Rect>) -> int
    decreases rects.len(),
{
    if rects.len() == 0 {
        0
    } else {
        total_area(rects.drop_last()) + rects.last().area()
    }
}

/// Whether some rectangle of the sequence covers the cell.
pub open spec fn covered_by(rects: Seq<Rect>, px: int, py: int) -> bool {
    exists|i: int| 0 <= i < rects.len() && (#[trigger] rects[i]).contains(px, py)
}

/// Intersection of two rectangles; `None` on zero overlap.
pub fn rect_intersection(a: Rect, b: Rect) -> (r: Option<Rect>)
    requires
        a.wf(),
        b.wf(),
    ensures
        r == intersection_of(a, b),
        r matches Some(i) ==> i.wf() && i.width > 0 && i.height > 0,
{
    let ax0: u32 = a.x as u32;
    let ay0: u32 = a.y as u32;
    let ax1: u32 = ax0 + a.width as u32;
    let ay1: u32 = ay0 + a.height as u32;
    let bx0: u32 = b.x as u32;
    let by0: u32 = b.y as u32;
    let bx1: u32 = bx0 + b.width as u32;
    let by1: u32 = by0 + b.height as u32;

    let x0: u32 = if ax0 >= bx0 { ax0 } else { bx0 };
    let y0: u32 = if ay0 >= by0 { ay0 } else { by0 };
    let x1: u32 = if ax1 <= bx1 { ax1 } else { bx1 };
    let y1: u32 = if ay1 <= by1 { ay1 } else { by1 };

    if x1 <= x0 || y1 <= y0 {
        return None;
    }
    Some(Rect { x: x0 as u16, y: y0 as u16, width: (x1 - x0) as u16, height: (y1 - y0) as u16 })
}

/// Enclosing rectangle of two rectangles.
pub fn union_rect(a: Rect, b: Rect) -> (r: Rect)
    requires
        a.wf(),
        b.wf(),
    ensures
        r == union_of(a, b),
        r.wf(),
{
    let ax0: u32 = a.x as u32;
    let ay0: u32 = a.y as u32;
    let ax1: u32 = ax0 + a.width as u32;
    let ay1: u32 = ay0 + a.height as u32;
    let bx0: u32 = b.x as u32;
    let by0: u32 = b.y as u32;
    let bx1: u32 = bx0 + b.width as u32;
    let by1: u32 = by0 + b.height as u32;

    let x0: u32 = if ax0 <= bx0 { ax0 } else { bx0 };
    let y0: u32 = if ay0 <= by0 { ay0 } else { by0 };
    let x1: u32 = if ax1 >= bx1 { ax1 } else { bx1 };
    let y1: u32 = if ay1 >= by1 { ay1 } else { by1 };

    Rect { x: x0 as u16, y: y0 as u16, width: (x1 - x0) as u16, height: (y1 - y0) as u16 }
}

/// Set difference `old \ new` as zero to four disjoint strips.
pub fn rect_diff(old_rect: Rect, new_rect: Rect) -> (out: Vec<Rect>)
    requires
        old_rect.wf(),
        new_rect.wf(),
    ensures
        out@ == diff_strips(old_rect, new_rect),
        out@.len() <= 4,
        forall|i: int| 0 <= i < out@.len() ==> (#[trigger] out@[i]).wf(),
{
    let mut out: Vec<Rect> = Vec::new();
    let inter = match rect_intersection(old_rect, new_rect) {
        None => {
            out.push(old_rect);
            return out;
        },
        Some(inter) => inter,
    };

    let old_x0: u32 = old_rect.x as u32;
    let old_y0: u32 = old_rect.y as u32;
    let old_x1: u32 = old_x0 + old_rect.width as u32;
    let old_y1: u32 = old_y0 + old_rect.height as u32;
    let inter_x0: u32 = inter.x as u32;
    let inter_y0: u32 = inter.y as u32;
    let inter_x1: u32 = inter_x0 + inter.width as u32;
    let inter_y1: u32 = inter_y0 + inter.height as u32;

    if old_y0 < inter_y0 {
        out.push(
            Rect {
                x: old_rect.x,
                y: old_rect.y,
                width: old_rect.width,
                height: (inter_y0 - old_y0) as u16,
            },
        );
    }
    if inter_y1 < old_y1 {
        out.push(
            Rect {
                x: old_rect.x,
                y: inter_y1 as u16,
                width: old_rect.width,
                height: (old_y1 - inter_y1) as u16,
            },
        );
    }
    if old_x0 < inter_x0 {
        out.push(
            Rect {
                x: old_rect.x,
                y: inter.y,
                width: (inter_x0 - old_x0) as u16,
                height: inter.height,
            },
        );
    }
    if inter_x1 < old_x1 {
        out.push(
            Rect {
                x: inter_x1 as u16,
                y: inter.y,
                width: (old_x1 - inter_x1) as u16,
                height: inter.height,
            },
        );
    }
    assert(out@ =~= diff_strips(old_rect, new_rect));
    out
}

/// A cell lies in the intersection exactly when it lies in both rectangles.
pub proof fn lemma_intersection_cells(a: Rect, b: Rect, px: int, py: int)
    requires
        a.wf(),
        b.wf(),
    ensures
        (a.contains(px, py) && b.contains(px, py)) <==> (intersection_of(a, b) matches Some(i)
            && i.contains(px, py)),
{
}

/// The union encloses both rectangles and is the smallest rectangle to do so:
/// any rectangle whose span holds the corners of both holds the union's.
pub proof fn lemma_union_encloses(a: Rect, b: Rect, c: Rect)
    requires
        a.wf(),
        b.wf(),
    ensures
        forall|px: int, py: int|
            a.contains(px, py) || b.contains(px, py) ==> union_of(a, b).contains(px, py),
        (c.x <= a.x && c.x <= b.x && c.y <= a.y && c.y <= b.y && c.right() >= a.right()
            && c.right() >= b.right() && c.bottom() >= a.bottom() && c.bottom() >= b.bottom())
            ==> (c.x <= union_of(a, b).x && c.y <= union_of(a, b).y && c.right() >= union_of(
            a,
            b,
        ).right() && c.bottom() >= union_of(a, b).bottom()),
{
}

proof fn lemma_total_area_concat(a: Seq<Rect>, b: Seq<Rect>)
    ensures
        total_area(a + b) == total_area(a) + total_area(b),
    decreases b.len(),
{
    if b.len() == 0 {
        assert(a + b =~= a);
    } else {
        assert((a + b).drop_last() =~= a + b.drop_last());
        assert((a + b).last() == b.last());
        lemma_total_area_concat(a, b.drop_last());
    }
}

proof fn lemma_total_area_small(r: Rect)
    ensures
        total_area(seq![r]) == r.area(),
        total_area(Seq::<Rect>::empty()) == 0,
{
    assert(seq![r].drop_last() =~= Seq::<Rect>::empty());
    assert(seq![r].last() == r);
    reveal_with_fuel(total_area, 2);
}

/// The strips of the set difference cover exactly the cells of `old` that
/// `new` does not cover.
pub proof fn lemma_diff_covers(old_rect: Rect, new_rect: Rect, px: int, py: int)
    requires
        old_rect.wf(),
        new_rect.wf(),
    ensures
        covered_by(diff_strips(old_rect, new_rect), px, py) <==> (old_rect.contains(px, py)
            && !new_rect.contains(px, py)),
{
    let strips = diff_strips(old_rect, new_rect);
    if old_rect.contains(px, py) && !new_rect.contains(px, py) {
        match intersection_of(old_rect, new_rect) {
            None => {
                assert(strips[0].contains(px, py));
            },
            Some(inter) => {
                let n_top: int = if old_rect.y < inter.y { 1 } else { 0 };
                let n_bottom: int = if inter.bottom() < old_rect.bottom() { 1 } else { 0 };
                let n_left: int = if old_rect.x < inter.x { 1 } else { 0 };
                if py < inter.y {
                    assert(strips[0].contains(px, py));
                } else if py >= inter.bottom() {
                    assert(strips[n_top].contains(px, py));
                } else if px < inter.x {
                    assert(strips[n_top + n_bottom].contains(px, py));
                } else {
                    assert(strips[n_top + n_bottom + n_left].contains(px, py));
                }
            },
        }
    }
}

/// No cell lies in two strips of the set difference.
pub proof fn lemma_diff_disjoint(old_rect: Rect, new_rect: Rect, i: int, j: int, px: int, py: int)
    requires
        old_rect.wf(),
        new_rect.wf(),
        0 <= i < j < diff_strips(old_rect, new_rect).len(),
    ensures
        !(diff_strips(old_rect, new_rect)[i].contains(px, py) && diff_strips(
            old_rect,
            new_rect,
        )[j].contains(px, py)),
{
}

/// The strips of the set difference add up to the area of `old` less the
/// area of its overlap with `new`.
pub proof fn lemma_diff_area(old_rect: Rect, new_rect: Rect)
    requires
        old_rect.wf(),
        new_rect.wf(),
    ensures
        total_area(diff_strips(old_rect, new_rect)) == old_rect.area() - match intersection_of(
            old_rect,
            new_rect,
        ) {
            Some(inter) => inter.area(),
            None => 0,
        },
{
    match intersection_of(old_rect, new_rect) {
        None => {
            lemma_total_area_small(old_rect);
        },
        Some(inter) => {
            let h_top: int = inter.y - old_rect.y;
            let h_bottom: int = old_rect.bottom() - inter.bottom();
            let w_left: int = inter.x - old_rect.x;
            let w_right: int = old_rect.right() - inter.right();
            let top = if old_rect.y < inter.y {
                seq![
                    Rect {
                        x: old_rect.x,
                        y: old_rect.y,
                        width: old_rect.width,
                        height: (inter.y - old_rect.y) as u16,
                    },
                ]
            } else {
                Seq::<Rect>::empty()
            };
            let bottom = if inter.bottom() < old_rect.bottom() {
                seq![
                    Rect {
                        x: old_rect.x,
                        y: inter.bottom() as u16,
                        width: old_rect.width,
                        height: (old_rect.bottom() - inter.bottom()) as u16,
                    },
                ]
            } else {
                Seq::<Rect>::empty()
            };
            let left = if old_rect.x < inter.x {
                seq![
                    Rect {
                        x: old_rect.x,
                        y: inter.y,
                        width: (inter.x - old_rect.x) as u16,
                        height: inter.height,
                    },
                ]
            } else {
                Seq::<Rect>::empty()
            };
            let right = if inter.right() < old_rect.right() {
                seq![
                    Rect {
                        x: inter.right() as u16,
                        y: inter.y,
                        width: (old_rect.right() - inter.right()) as u16,
                        height: inter.height,
                    },
                ]
            } else {
                Seq::<Rect>::empty()
            };
            assert(diff_strips(old_rect, new_rect) == top + bottom + left + right);
            lemma_total_area_concat(top + bottom + left, right);
            lemma_total_area_concat(top + bottom, left);
            lemma_total_area_concat(top, bottom);
            if old_rect.y < inter.y {
                lemma_total_area_small(top[0]);
            } else {
                lemma_total_area_small(old_rect);
            }
            if inter.bottom() < old_rect.bottom() {
                lemma_total_area_small(bottom[0]);
            } else {
                lemma_total_area_small(old_rect);
            }
            if old_rect.x < inter.x {
                lemma_total_area_small(left[0]);
            } else {
                lemma_total_area_small(old_rect);
            }
            if inter.right() < old_rect.right() {
                lemma_total_area_small(right[0]);
            } else {
                lemma_total_area_small(old_rect);
            }
            assert(total_area(top) == old_rect.width * h_top) by (nonlinear_arith)
                requires
                    total_area(top) == if h_top > 0 { old_rect.width * h_top } else { 0 },
                    h_top >= 0,
            ;
            assert(total_area(bottom) == old_rect.width * h_bottom) by (nonlinear_arith)
                requires
                    total_area(bottom) == if h_bottom > 0 { old_rect.width * h_bottom } else { 0 },
                    h_bottom >= 0,
            ;
            assert(total_area(left) == w_left * inter.height) by (nonlinear_arith)
                requires
                    total_area(left) == if w_left > 0 { w_left * inter.height } else { 0 },
                    w_left >= 0,
            ;
            assert(total_area(right) == w_right * inter.height) by (nonlinear_arith)
                requires
                    total_area(right) == if w_right > 0 { w_right * inter.height } else { 0 },
                    w_right >= 0,
            ;
            assert(old_rect.width * old_rect.height - inter.width * inter.height == old_rect.width
                * h_top + old_rect.width * h_bottom + w_left * inter.height + w_right
                * inter.height) by (nonlinear_arith)
                requires
                    old_rect.height == h_top + inter.height + h_bottom,
                    old_rect.width == w_left + inter.width + w_right,
            ;
        },
    }
}

} // verus!
