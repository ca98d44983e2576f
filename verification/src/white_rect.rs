//! Border-growth rectangle detector.
//!
//! Starting from a window around a seed center, each of the four borders is
//! grown outward by one pixel as long as the one-dimensional scan along it
//! still contains a foreground pixel, or as long as that border has never
//! seen one.  Once the window stabilizes, four diagonal scans from its
//! corners locate one foreground point per corner, and the four points are
//! nudged one pixel outward to approximate the true rectangle corners.
//!
//! Every step of the search is mirrored by a specification function, and
//! `detect` is proved to return exactly what the mirrored search defines;
//! determinism of detection is immediate from that contract.

use vstd::prelude::*;

use crate::bit_matrix::BitMatrix;
use crate::bit_matrix::MAX_DIM;
use crate::geom::Point;
use crate::geom::Quadrilateral;
use crate::geom::RegionNotFound;
use crate::geom::half_trunc;
use crate::geom::round_div;
use crate::geom::spec_distance_round;
use crate::geom::distance_round;
use crate::geom::round_div64;
use crate::geom::lemma_round_div_between;
use crate::region_detector::RegionDetector;

verus! {

/// Whether some pixel of row `y` with `x0 <= x <= x1` is foreground.
pub open spec fn row_has_fg(im: BitMatrix, x0: int, x1: int, y: int) -> bool {
    exists|x: int| x0 <= x <= x1 && im.fg(x, y)
}

/// Whether some pixel of column `x` with `y0 <= y <= y1` is foreground.
pub open spec fn col_has_fg(im: BitMatrix, y0: int, y1: int, x: int) -> bool {
    exists|y: int| y0 <= y <= y1 && im.fg(x, y)
}

/// One border-growth sweep of the right bound: keep moving right while the
/// scanned column contains foreground, or while this border has never seen
/// foreground at all.  Returns the new bound, the new has-seen flag, and
/// the accumulated did-any-border-move flag.
pub open spec fn grow_right(
    im: BitMatrix,
    up: int,
    down: int,
    right: int,
    seen: bool,
    moved: bool,
) -> (int, bool, bool)
    decreases im.spec_width() - right,
{
    if right >= im.spec_width() {
        (right, seen, moved)
    } else if col_has_fg(im, up, down, right) {
        grow_right(im, up, down, right + 1, true, true)
    } else if !seen {
        grow_right(im, up, down, right + 1, seen, moved)
    } else {
        (right, seen, moved)
    }
}

/// One border-growth sweep of the bottom bound.
pub open spec fn grow_down(
    im: BitMatrix,
    left: int,
    right: int,
    down: int,
    seen: bool,
    moved: bool,
) -> (int, bool, bool)
    decreases im.spec_height() - down,
{
    if down >= im.spec_height() {
        (down, seen, moved)
    } else if row_has_fg(im, left, right, down) {
        grow_down(im, left, right, down + 1, true, true)
    } else if !seen {
        grow_down(im, left, right, down + 1, seen, moved)
    } else {
        (down, seen, moved)
    }
}

/// One border-growth sweep of the left bound.
pub open spec fn grow_left(
    im: BitMatrix,
    up: int,
    down: int,
    left: int,
    seen: bool,
    moved: bool,
) -> (int, bool, bool)
    decreases left + 1,
{
    if left < 0 {
        (left, seen, moved)
    } else if col_has_fg(im, up, down, left) {
        grow_left(im, up, down, left - 1, true, true)
    } else if !seen {
        grow_left(im, up, down, left - 1, seen, moved)
    } else {
        (left, seen, moved)
    }
}

/// One border-growth sweep of the top bound.
pub open spec fn grow_top(
    im: BitMatrix,
    left: int,
    right: int,
    up: int,
    seen: bool,
    moved: bool,
) -> (int, bool, bool)
    decreases up + 1,
{
    if up < 0 {
        (up, seen, moved)
    } else if row_has_fg(im, left, right, up) {
        grow_top(im, left, right, up - 1, true, true)
    } else if !seen {
        grow_top(im, left, right, up - 1, seen, moved)
    } else {
        (up, seen, moved)
    }
}

/// The four window bounds together with the per-border has-seen-foreground
/// flags carried across growth passes.
pub struct GrowState {
    pub left: int,
    pub right: int,
    pub up: int,
    pub down: int,
    pub seen_left: bool,
    pub seen_right: bool,
    pub seen_up: bool,
    pub seen_down: bool,
}

pub proof fn lemma_grow_right_bounds(
    im: BitMatrix,
    up: int,
    down: int,
    right: int,
    seen: bool,
    moved: bool,
)
    requires
        right <= im.spec_width(),
    ensures
        ({
            let (r2, s2, m2) = grow_right(im, up, down, right, seen, moved);
            right <= r2 <= im.spec_width() && (m2 ==> moved || r2 > right) && (r2
                < im.spec_width() ==> s2)
        }),
    decreases im.spec_width() - right,
{
    if right < im.spec_width() {
        if col_has_fg(im, up, down, right) {
            lemma_grow_right_bounds(im, up, down, right + 1, true, true);
        } else if !seen {
            lemma_grow_right_bounds(im, up, down, right + 1, seen, moved);
        }
    }
}

pub proof fn lemma_grow_down_bounds(
    im: BitMatrix,
    left: int,
    right: int,
    down: int,
    seen: bool,
    moved: bool,
)
    requires
        down <= im.spec_height(),
    ensures
        ({
            let (d2, s2, m2) = grow_down(im, left, right, down, seen, moved);
            down <= d2 <= im.spec_height() && (m2 ==> moved || d2 > down) && (d2
                < im.spec_height() ==> s2)
        }),
    decreases im.spec_height() - down,
{
    if down < im.spec_height() {
        if row_has_fg(im, left, right, down) {
            lemma_grow_down_bounds(im, left, right, down + 1, true, true);
        } else if !seen {
            lemma_grow_down_bounds(im, left, right, down + 1, seen, moved);
        }
    }
}

pub proof fn lemma_grow_left_bounds(
    im: BitMatrix,
    up: int,
    down: int,
    left: int,
    seen: bool,
    moved: bool,
)
    requires
        left >= -1,
    ensures
        ({
            let (l2, s2, m2) = grow_left(im, up, down, left, seen, moved);
            -1 <= l2 <= left && (m2 ==> moved || l2 < left) && (l2 >= 0 ==> s2)
        }),
    decreases left + 1,
{
    if left >= 0 {
        if col_has_fg(im, up, down, left) {
            lemma_grow_left_bounds(im, up, down, left - 1, true, true);
        } else if !seen {
            lemma_grow_left_bounds(im, up, down, left - 1, seen, moved);
        }
    }
}

pub proof fn lemma_grow_top_bounds(
    im: BitMatrix,
    left: int,
    right: int,
    up: int,
    seen: bool,
    moved: bool,
)
    requires
        up >= -1,
    ensures
        ({
            let (u2, s2, m2) = grow_top(im, left, right, up, seen, moved);
            -1 <= u2 <= up && (m2 ==> moved || u2 < up) && (u2 >= 0 ==> s2)
        }),
    decreases up + 1,
{
    if up >= 0 {
        if row_has_fg(im, left, right, up) {
            lemma_grow_top_bounds(im, left, right, up - 1, true, true);
        } else if !seen {
            lemma_grow_top_bounds(im, left, right, up - 1, seen, moved);
        }
    }
}

/// Repeated growth passes over the four borders, in the fixed order right,
/// bottom, left, top, until a pass moves no border (`Some` of the stable
/// window) or a border runs past the image edge (`None`).
pub open spec fn grow_all(im: BitMatrix, s: GrowState) -> Option<GrowState>
    decreases (im.spec_width() - s.right) + (im.spec_height() - s.down) + s.left + s.up + 2,
        when s.right <= im.spec_width() && s.down <= im.spec_height() && s.left >= -1 && s.up >= -1
        via grow_all_decreases
{
    let (r1, sr, m1) = grow_right(im, s.up, s.down, s.right, s.seen_right, false);
    if r1 >= im.spec_width() {
        None
    } else {
        let (d1, sd, m2) = grow_down(im, s.left, r1, s.down, s.seen_down, m1);
        if d1 >= im.spec_height() {
            None
        } else {
            let (l1, sl, m3) = grow_left(im, s.up, d1, s.left, s.seen_left, m2);
            if l1 < 0 {
                None
            } else {
                let (u1, su, m4) = grow_top(im, l1, r1, s.up, s.seen_up, m3);
                if u1 < 0 {
                    None
                } else {
                    let s1 = GrowState {
                        left: l1,
                        right: r1,
                        up: u1,
                        down: d1,
                        seen_left: sl,
                        seen_right: sr,
                        seen_up: su,
                        seen_down: sd,
                    };
                    if m4 {
                        grow_all(im, s1)
                    } else {
                        Some(s1)
                    }
                }
            }
        }
    }
}

#[via_fn]
proof fn grow_all_decreases(im: BitMatrix, s: GrowState) {
    if s.right <= im.spec_width() && s.down <= im.spec_height() && s.left >= -1 && s.up >= -1 {
        lemma_grow_right_bounds(im, s.up, s.down, s.right, s.seen_right, false);
        let (r1, sr, m1) = grow_right(im, s.up, s.down, s.right, s.seen_right, false);
        if r1 < im.spec_width() {
            lemma_grow_down_bounds(im, s.left, r1, s.down, s.seen_down, m1);
            let (d1, sd, m2) = grow_down(im, s.left, r1, s.down, s.seen_down, m1);
            if d1 < im.spec_height() {
                lemma_grow_left_bounds(im, s.up, d1, s.left, s.seen_left, m2);
                let (l1, sl, m3) = grow_left(im, s.up, d1, s.left, s.seen_left, m2);
                if l1 >= 0 {
                    lemma_grow_top_bounds(im, l1, r1, s.up, s.seen_up, m3);
                }
            }
        }
    }
}

/// The interpolated coordinate of step `i` on a segment running from `a`
/// to `b` in `dist` unit steps, rounded to the nearest pixel.
pub open spec fn seg_coord(a: int, b: int, dist: int, i: int) -> int
    recommends
        dist > 0,
{
    round_div(a * dist + i * (b - a), dist)
}

/// The first foreground pixel met on the rasterized segment, looking from
/// step `i` onward.
pub open spec fn seg_first_fg(
    im: BitMatrix,
    ax: int,
    ay: int,
    bx: int,
    by: int,
    dist: int,
    i: int,
) -> Option<Point>
    decreases dist - i,
{
    if i < 0 || i >= dist {
        None
    } else {
        let x = seg_coord(ax, bx, dist, i);
        let y = seg_coord(ay, by, dist, i);
        if im.fg(x, y) {
            Some(Point { x: x as i32, y: y as i32 })
        } else {
            seg_first_fg(im, ax, ay, bx, by, dist, i + 1)
        }
    }
}

/// The first foreground pixel on the segment from `(ax, ay)` to
/// `(bx, by)`, rasterized in unit steps along the rounded Euclidean
/// distance; `None` when every probed pixel is background.
pub open spec fn black_point_on_segment(
    im: BitMatrix,
    ax: int,
    ay: int,
    bx: int,
    by: int,
) -> Option<Point> {
    let dist = spec_distance_round(ax, ay, bx, by);
    if dist <= 0 {
        None
    } else {
        seg_first_fg(im, ax, ay, bx, by, dist, 0)
    }
}

/// Diagonal corner search: for growing `i`, scan the segment from
/// `(cx, cy + sy*i)` to `(cx + sx*i, cy)` until one scan meets foreground.
pub open spec fn corner_scan(
    im: BitMatrix,
    cx: int,
    cy: int,
    sx: int,
    sy: int,
    max_size: int,
    i: int,
) -> Option<Point>
    decreases max_size - i,
{
    if i >= max_size {
        None
    } else {
        match black_point_on_segment(im, cx, cy + sy * i, cx + sx * i, cy) {
            Some(p) => Some(p),
            None => corner_scan(im, cx, cy, sx, sy, max_size, i + 1),
        }
    }
}

/// Nudges the four scan hits one pixel outward along both axes.  Which of
/// the two mirrored sign tables applies is decided by comparing the
/// bottom-most scan point's x-coordinate against the image's horizontal
/// midline.
pub open spec fn spec_center_edges(
    width: int,
    y: Point,
    z: Point,
    x: Point,
    t: Point,
) -> Quadrilateral {
    if 2 * y.x < width {
        Quadrilateral {
            top: Point { x: (t.x - 1) as i32, y: (t.y + 1) as i32 },
            left: Point { x: (z.x + 1) as i32, y: (z.y + 1) as i32 },
            right: Point { x: (x.x - 1) as i32, y: (x.y - 1) as i32 },
            bottom: Point { x: (y.x + 1) as i32, y: (y.y - 1) as i32 },
        }
    } else {
        Quadrilateral {
            top: Point { x: (t.x + 1) as i32, y: (t.y + 1) as i32 },
            left: Point { x: (z.x + 1) as i32, y: (z.y - 1) as i32 },
            right: Point { x: (x.x - 1) as i32, y: (x.y + 1) as i32 },
            bottom: Point { x: (y.x - 1) as i32, y: (y.y - 1) as i32 },
        }
    }
}

/// The whole border-growth detection, as a function of the image and the
/// initial window: growth passes, then the four diagonal corner scans (in
/// the order bottom-left, top-left, top-right, bottom-right), then corner
/// re-centering.
pub open spec fn white_detect_spec(
    im: BitMatrix,
    left0: int,
    right0: int,
    up0: int,
    down0: int,
) -> Result<Quadrilateral, RegionNotFound> {
    let init = GrowState {
        left: left0,
        right: right0,
        up: up0,
        down: down0,
        seen_left: false,
        seen_right: false,
        seen_up: false,
        seen_down: false,
    };
    match grow_all(im, init) {
        None => Err(RegionNotFound),
        Some(s) => {
            let max_size = s.right - s.left;
            match corner_scan(im, s.left, s.down, 1, -1, max_size, 1) {
                None => Err(RegionNotFound),
                Some(z) => match corner_scan(im, s.left, s.up, 1, 1, max_size, 1) {
                    None => Err(RegionNotFound),
                    Some(t) => match corner_scan(im, s.right, s.up, -1, 1, max_size, 1) {
                        None => Err(RegionNotFound),
                        Some(x) => match corner_scan(im, s.right, s.down, -1, -1, max_size, 1) {
                            None => Err(RegionNotFound),
                            Some(y) => Ok(spec_center_edges(im.spec_width(), y, z, x, t)),
                        },
                    },
                },
            }
        },
    }
}

/// Detects a candidate barcode-like rectangular region by growing a window
/// around a seed center until its borders go white, then locating the
/// corners with diagonal scans.
pub struct WhiteRectangleDetector<'a> {
    image: &'a BitMatrix,
    height: i32,
    width: i32,
    leftInit: i32,
    rightInit: i32,
    downInit: i32,
    upInit: i32,
}

/// Initial full window size of the auto-centered constructor.
pub const INIT_SIZE: i32 = 10;

impl<'a> WhiteRectangleDetector<'a> {
    pub closed spec fn img(&self) -> BitMatrix {
        *self.image
    }

    pub closed spec fn spec_left_init(&self) -> int {
        self.leftInit as int
    }

    pub closed spec fn spec_right_init(&self) -> int {
        self.rightInit as int
    }

    pub closed spec fn spec_up_init(&self) -> int {
        self.upInit as int
    }

    pub closed spec fn spec_down_init(&self) -> int {
        self.downInit as int
    }

    /// Whether a requested window around `(x, y)` with full size
    /// `init_size` sticks out of the image; such a request is refused at
    /// construction time.
    pub open spec fn init_window_outside(
        image: &BitMatrix,
        init_size: int,
        x: int,
        y: int,
    ) -> bool {
        let hs = half_trunc(init_size);
        y - hs < 0 || x - hs < 0 || y + hs >= image.spec_height() || x + hs
            >= image.spec_width()
    }

    /// Auto-centered construction with the fixed initial window size.
    pub fn new_from_image(image: &'a BitMatrix) -> (r: Result<
        WhiteRectangleDetector<'a>,
        RegionNotFound,
    >)
        requires
            image.wf(),
        ensures
            r is Err <==> Self::init_window_outside(
                image,
                INIT_SIZE as int,
                image.spec_width() / 2,
                image.spec_height() / 2,
            ),
            r is Ok ==> {
                let d = r->Ok_0;
                &&& d.wf()
                &&& d.img() == *image
                &&& d.spec_left_init() == image.spec_width() / 2 - half_trunc(INIT_SIZE as int)
                &&& d.spec_right_init() == image.spec_width() / 2 + half_trunc(INIT_SIZE as int)
                &&& d.spec_up_init() == image.spec_height() / 2 - half_trunc(INIT_SIZE as int)
                &&& d.spec_down_init() == image.spec_height() / 2 + half_trunc(INIT_SIZE as int)
            },
    {
        let x = ((image.getWidth() as u32) / 2) as i32;
        let y = ((image.getHeight() as u32) / 2) as i32;
        Self::new(image, INIT_SIZE, x, y)
    }

    /// Explicit construction: window of full size `initSize` around
    /// `(x, y)`.  Fails with `RegionNotFound` exactly when that window does
    /// not fit inside the image.
    pub fn new(image: &'a BitMatrix, initSize: i32, x: i32, y: i32) -> (r: Result<
        WhiteRectangleDetector<'a>,
        RegionNotFound,
    >)
        requires
            image.wf(),
            i32::MIN <= x - half_trunc(initSize as int) <= i32::MAX,
            i32::MIN <= x + half_trunc(initSize as int) <= i32::MAX,
            i32::MIN <= y - half_trunc(initSize as int) <= i32::MAX,
            i32::MIN <= y + half_trunc(initSize as int) <= i32::MAX,
        ensures
            r is Err <==> Self::init_window_outside(image, initSize as int, x as int, y as int),
            r is Ok ==> {
                let d = r->Ok_0;
                &&& d.wf()
                &&& d.img() == *image
                &&& d.spec_left_init() == x - half_trunc(initSize as int)
                &&& d.spec_right_init() == x + half_trunc(initSize as int)
                &&& d.spec_up_init() == y - half_trunc(initSize as int)
                &&& d.spec_down_init() == y + half_trunc(initSize as int)
            },
    {
        let halfsize: i64 = if initSize >= 0 {
            (((initSize as i64) as u64) / 2) as i64
        } else {
            -((((-(initSize as i64)) as u64) / 2) as i64)
        };
        let x64 = x as i64;
        let y64 = y as i64;
        let left_init = x64 - halfsize;
        let right_init = x64 + halfsize;
        let up_init = y64 - halfsize;
        let down_init = y64 + halfsize;
        if up_init < 0 || left_init < 0 || down_init >= (image.getHeight() as i64) || right_init
            >= (image.getWidth() as i64) {
            Err(RegionNotFound)
        } else {
            Ok(WhiteRectangleDetector {
                image,
                height: image.getHeight(),
                width: image.getWidth(),
                leftInit: left_init as i32,
                rightInit: right_init as i32,
                downInit: down_init as i32,
                upInit: up_init as i32,
            })
        }
    }

    /// Whether the scanned horizontal or vertical segment contains a
    /// foreground point.
    fn containsBlackPoint(&self, a: i32, b: i32, fixed: i32, horizontal: bool) -> (r: bool)
        requires
            self.wf(),
            -(MAX_DIM as int) <= a,
            b <= MAX_DIM,
        ensures
            horizontal ==> r == row_has_fg(self.img(), a as int, b as int, fixed as int),
            !horizontal ==> r == col_has_fg(self.img(), a as int, b as int, fixed as int),
    {
        let mut cur = a;
        let mut found = false;
        while !found && cur <= b
            invariant
                self.wf(),
                a <= cur,
                cur <= b + 1 || cur == a,
                -(MAX_DIM as int) <= a,
                b <= MAX_DIM,
                !found ==> (horizontal ==> !row_has_fg(self.img(), a as int, cur - 1, fixed as int)),
                !found ==> (!horizontal ==> !col_has_fg(
                    self.img(),
                    a as int,
                    cur - 1,
                    fixed as int,
                )),
                found ==> (horizontal ==> row_has_fg(self.img(), a as int, b as int, fixed as int)),
                found ==> (!horizontal ==> col_has_fg(self.img(), a as int, b as int, fixed as int)),
            decreases b - cur + (if found { 0int } else { 1int }),
        {
            let hit = if horizontal {
                self.image.probe(cur, fixed)
            } else {
                self.image.probe(fixed, cur)
            };
            if hit {
                found = true;
            } else {
                proof {
                    assert forall|p: int| a <= p <= cur as int implies !(if horizontal {
                        self.img().fg(p, fixed as int)
                    } else {
                        self.img().fg(fixed as int, p)
                    }) by {
                        if p <= cur - 1 {
                            if horizontal {
                                assert(!row_has_fg(self.img(), a as int, cur - 1, fixed as int));
                            } else {
                                assert(!col_has_fg(self.img(), a as int, cur - 1, fixed as int));
                            }
                        }
                    }
                }
                cur = cur + 1;
            }
        }
        found
    }

    /// Walks the rasterized segment from `(aX, aY)` to `(bX, bY)` and
    /// returns the first foreground pixel met, if any.
    fn getBlackPointOnSegment(&self, aX: i32, aY: i32, bX: i32, bY: i32) -> (r: Option<Point>)
        requires
            self.wf(),
            -0x2_0000 <= aX <= 0x2_0000,
            -0x2_0000 <= aY <= 0x2_0000,
            -0x2_0000 <= bX <= 0x2_0000,
            -0x2_0000 <= bY <= 0x2_0000,
        ensures
            r == black_point_on_segment(self.img(), aX as int, aY as int, bX as int, bY as int),
    {
        let dist = distance_round(aX, aY, bX, bY);
        if dist <= 0 {
            return None;
        }
        let ax64 = aX as i64;
        let ay64 = aY as i64;
        let bx64 = bX as i64;
        let by64 = bY as i64;
        let mut i: i64 = 0;
        let mut res: Option<Point> = None;
        while res.is_none() && i < dist
            invariant
                self.wf(),
                ax64 == aX as int && ay64 == aY as int && bx64 == bX as int && by64 == bY as int,
                -0x2_0000 <= ax64 <= 0x2_0000,
                -0x2_0000 <= ay64 <= 0x2_0000,
                -0x2_0000 <= bx64 <= 0x2_0000,
                -0x2_0000 <= by64 <= 0x2_0000,
                dist == spec_distance_round(aX as int, aY as int, bX as int, bY as int),
                0 < dist <= 0x8_0000,
                0 <= i <= dist,
                res is None ==> seg_first_fg(
                    self.img(),
                    aX as int,
                    aY as int,
                    bX as int,
                    bY as int,
                    dist as int,
                    i as int,
                ) == seg_first_fg(
                    self.img(),
                    aX as int,
                    aY as int,
                    bX as int,
                    bY as int,
                    dist as int,
                    0,
                ),
                res is Some ==> res == seg_first_fg(
                    self.img(),
                    aX as int,
                    aY as int,
                    bX as int,
                    bY as int,
                    dist as int,
                    0,
                ),
            decreases dist - i + (if res is None {
                1int
            } else {
                0int
            }),
        {
            proof {
                assert(-0x10_0000_0000 <= ax64 * dist <= 0x10_0000_0000 && -0x10_0000_0000 <= ay64
                    * dist <= 0x10_0000_0000) by (nonlinear_arith)
                    requires
                        -0x2_0000 <= ax64 <= 0x2_0000,
                        -0x2_0000 <= ay64 <= 0x2_0000,
                        0 <= dist <= 0x8_0000,
                ;
                assert(-0x20_0000_0000 <= i * (bx64 - ax64) <= 0x20_0000_0000 && -0x20_0000_0000
                    <= i * (by64 - ay64) <= 0x20_0000_0000) by (nonlinear_arith)
                    requires
                        0 <= i <= 0x8_0000,
                        -0x4_0000 <= bx64 - ax64 <= 0x4_0000,
                        -0x4_0000 <= by64 - ay64 <= 0x4_0000,
                ;
            }
            let px: i64 = ax64 * dist + i * (bx64 - ax64);
            let py: i64 = ay64 * dist + i * (by64 - ay64);
            let x64 = round_div64(px, dist);
            let y64 = round_div64(py, dist);
            proof {
                assert((ax64 <= bx64 ==> ax64 * dist <= px <= bx64 * dist) && (bx64 <= ax64
                    ==> bx64 * dist <= px <= ax64 * dist)) by (nonlinear_arith)
                    requires
                        px == ax64 * dist + i * (bx64 - ax64),
                        0 <= i <= dist,
                ;
                assert((ay64 <= by64 ==> ay64 * dist <= py <= by64 * dist) && (by64 <= ay64
                    ==> by64 * dist <= py <= ay64 * dist)) by (nonlinear_arith)
                    requires
                        py == ay64 * dist + i * (by64 - ay64),
                        0 <= i <= dist,
                ;
                if ax64 <= bx64 {
                    lemma_round_div_between(px as int, dist as int, ax64 as int, bx64 as int);
                } else {
                    lemma_round_div_between(px as int, dist as int, bx64 as int, ax64 as int);
                }
                if ay64 <= by64 {
                    lemma_round_div_between(py as int, dist as int, ay64 as int, by64 as int);
                } else {
                    lemma_round_div_between(py as int, dist as int, by64 as int, ay64 as int);
                }
            }
            let x = x64 as i32;
            let y = y64 as i32;
            if self.image.probe(x, y) {
                res = Some(Point { x, y });
            } else {
                i = i + 1;
            }
        }
        res
    }

    /// Re-centers the four scan hits one pixel outward to approximate the
    /// true rectangle corners, and orders them top, left, right, bottom.
    fn centerEdges(&self, y: Point, z: Point, x: Point, t: Point) -> (r: Quadrilateral)
        requires
            self.wf(),
            -0x2_0000 <= y.x <= 0x2_0000 && -0x2_0000 <= y.y <= 0x2_0000,
            -0x2_0000 <= z.x <= 0x2_0000 && -0x2_0000 <= z.y <= 0x2_0000,
            -0x2_0000 <= x.x <= 0x2_0000 && -0x2_0000 <= x.y <= 0x2_0000,
            -0x2_0000 <= t.x <= 0x2_0000 && -0x2_0000 <= t.y <= 0x2_0000,
        ensures
            r == spec_center_edges(self.img().spec_width(), y, z, x, t),
    {
        if 2 * y.x < self.width {
            Quadrilateral {
                top: Point { x: t.x - 1, y: t.y + 1 },
                left: Point { x: z.x + 1, y: z.y + 1 },
                right: Point { x: x.x - 1, y: x.y - 1 },
                bottom: Point { x: y.x + 1, y: y.y - 1 },
            }
        } else {
            Quadrilateral {
                top: Point { x: t.x + 1, y: t.y + 1 },
                left: Point { x: z.x + 1, y: z.y - 1 },
                right: Point { x: x.x - 1, y: x.y + 1 },
                bottom: Point { x: y.x - 1, y: y.y - 1 },
            }
        }
    }

    /// One exec sweep of the right border, mirrored by `grow_right`.
    fn grow_right_exec(&self, up: i32, down: i32, right0: i32, seen0: bool, moved0: bool) -> (res: (
        i32,
        bool,
        bool,
    ))
        requires
            self.wf(),
            -(MAX_DIM as int) <= up,
            down <= MAX_DIM,
            right0 <= self.img().spec_width(),
        ensures
            (res.0 as int, res.1, res.2) == grow_right(
                self.img(),
                up as int,
                down as int,
                right0 as int,
                seen0,
                moved0,
            ),
            right0 <= res.0 <= self.img().spec_width(),
            !seen0 && res.1 ==> 1 <= res.0,
    {
        let mut right = right0;
        let mut seen = seen0;
        let mut moved = moved0;
        let mut not_white = true;
        while (not_white || !seen) && right < self.width
            invariant
                self.wf(),
                -(MAX_DIM as int) <= up,
                down <= MAX_DIM,
                right0 <= right <= self.img().spec_width(),
                !seen0 && seen ==> 1 <= right,
                (not_white || !seen) ==> grow_right(
                    self.img(),
                    up as int,
                    down as int,
                    right as int,
                    seen,
                    moved,
                ) == grow_right(
                    self.img(),
                    up as int,
                    down as int,
                    right0 as int,
                    seen0,
                    moved0,
                ),
                !(not_white || !seen) ==> (right as int, seen, moved) == grow_right(
                    self.img(),
                    up as int,
                    down as int,
                    right0 as int,
                    seen0,
                    moved0,
                ),
            decreases self.img().spec_width() - right + (if not_white || !seen {
                1int
            } else {
                0int
            }),
        {
            not_white = self.containsBlackPoint(up, down, right, false);
            if not_white {
                proof {
                    let yw = choose|yy: int|
                        up <= yy <= down && self.img().fg(right as int, yy);
                    assert(self.img().fg(right as int, yw));
                }
                right = right + 1;
                seen = true;
                moved = true;
            } else if !seen {
                right = right + 1;
            }
        }
        (right, seen, moved)
    }

    /// One exec sweep of the bottom border, mirrored by `grow_down`.
    fn grow_down_exec(&self, left: i32, right: i32, down0: i32, seen0: bool, moved0: bool) -> (res: (
        i32,
        bool,
        bool,
    ))
        requires
            self.wf(),
            -(MAX_DIM as int) <= left,
            right <= MAX_DIM,
            down0 <= self.img().spec_height(),
        ensures
            (res.0 as int, res.1, res.2) == grow_down(
                self.img(),
                left as int,
                right as int,
                down0 as int,
                seen0,
                moved0,
            ),
            down0 <= res.0 <= self.img().spec_height(),
            !seen0 && res.1 ==> 1 <= res.0,
    {
        let mut down = down0;
        let mut seen = seen0;
        let mut moved = moved0;
        let mut not_white = true;
        while (not_white || !seen) && down < self.height
            invariant
                self.wf(),
                -(MAX_DIM as int) <= left,
                right <= MAX_DIM,
                down0 <= down <= self.img().spec_height(),
                !seen0 && seen ==> 1 <= down,
                (not_white || !seen) ==> grow_down(
                    self.img(),
                    left as int,
                    right as int,
                    down as int,
                    seen,
                    moved,
                ) == grow_down(
                    self.img(),
                    left as int,
                    right as int,
                    down0 as int,
                    seen0,
                    moved0,
                ),
                !(not_white || !seen) ==> (down as int, seen, moved) == grow_down(
                    self.img(),
                    left as int,
                    right as int,
                    down0 as int,
                    seen0,
                    moved0,
                ),
            decreases self.img().spec_height() - down + (if not_white || !seen {
                1int
            } else {
                0int
            }),
        {
            not_white = self.containsBlackPoint(left, right, down, true);
            if not_white {
                proof {
                    let xw = choose|xx: int|
                        left <= xx <= right && self.img().fg(xx, down as int);
                    assert(self.img().fg(xw, down as int));
                }
                down = down + 1;
                seen = true;
                moved = true;
            } else if !seen {
                down = down + 1;
            }
        }
        (down, seen, moved)
    }

    /// One exec sweep of the left border, mirrored by `grow_left`.
    fn grow_left_exec(&self, up: i32, down: i32, left0: i32, seen0: bool, moved0: bool) -> (res: (
        i32,
        bool,
        bool,
    ))
        requires
            self.wf(),
            -(MAX_DIM as int) <= up,
            down <= MAX_DIM,
            left0 >= -1,
        ensures
            (res.0 as int, res.1, res.2) == grow_left(
                self.img(),
                up as int,
                down as int,
                left0 as int,
                seen0,
                moved0,
            ),
            -1 <= res.0 <= left0,
            !seen0 && res.1 ==> res.0 < self.img().spec_width(),
    {
        let mut left = left0;
        let mut seen = seen0;
        let mut moved = moved0;
        let mut not_white = true;
        while (not_white || !seen) && left >= 0
            invariant
                self.wf(),
                -(MAX_DIM as int) <= up,
                down <= MAX_DIM,
                -1 <= left <= left0,
                !seen0 && seen ==> left < self.img().spec_width(),
                (not_white || !seen) ==> grow_left(
                    self.img(),
                    up as int,
                    down as int,
                    left as int,
                    seen,
                    moved,
                ) == grow_left(
                    self.img(),
                    up as int,
                    down as int,
                    left0 as int,
                    seen0,
                    moved0,
                ),
                !(not_white || !seen) ==> (left as int, seen, moved) == grow_left(
                    self.img(),
                    up as int,
                    down as int,
                    left0 as int,
                    seen0,
                    moved0,
                ),
            decreases left + 1 + (if not_white || !seen {
                1int
            } else {
                0int
            }),
        {
            not_white = self.containsBlackPoint(up, down, left, false);
            if not_white {
                proof {
                    let yw = choose|yy: int| up <= yy <= down && self.img().fg(left as int, yy);
                    assert(self.img().fg(left as int, yw));
                }
                left = left - 1;
                seen = true;
                moved = true;
            } else if !seen {
                left = left - 1;
            }
        }
        (left, seen, moved)
    }

    /// One exec sweep of the top border, mirrored by `grow_top`.
    fn grow_top_exec(&self, left: i32, right: i32, up0: i32, seen0: bool, moved0: bool) -> (res: (
        i32,
        bool,
        bool,
    ))
        requires
            self.wf(),
            -(MAX_DIM as int) <= left,
            right <= MAX_DIM,
            up0 >= -1,
        ensures
            (res.0 as int, res.1, res.2) == grow_top(
                self.img(),
                left as int,
                right as int,
                up0 as int,
                seen0,
                moved0,
            ),
            -1 <= res.0 <= up0,
            !seen0 && res.1 ==> res.0 < self.img().spec_height(),
    {
        let mut up = up0;
        let mut seen = seen0;
        let mut moved = moved0;
        let mut not_white = true;
        while (not_white || !seen) && up >= 0
            invariant
                self.wf(),
                -(MAX_DIM as int) <= left,
                right <= MAX_DIM,
                -1 <= up <= up0,
                !seen0 && seen ==> up < self.img().spec_height(),
                (not_white || !seen) ==> grow_top(
                    self.img(),
                    left as int,
                    right as int,
                    up as int,
                    seen,
                    moved,
                ) == grow_top(
                    self.img(),
                    left as int,
                    right as int,
                    up0 as int,
                    seen0,
                    moved0,
                ),
                !(not_white || !seen) ==> (up as int, seen, moved) == grow_top(
                    self.img(),
                    left as int,
                    right as int,
                    up0 as int,
                    seen0,
                    moved0,
                ),
            decreases up + 1 + (if not_white || !seen {
                1int
            } else {
                0int
            }),
        {
            not_white = self.containsBlackPoint(left, right, up, true);
            if not_white {
                proof {
                    let xw = choose|xx: int| left <= xx <= right && self.img().fg(xx, up as int);
                    assert(self.img().fg(xw, up as int));
                }
                up = up - 1;
                seen = true;
                moved = true;
            } else if !seen {
                up = up - 1;
            }
        }
        (up, seen, moved)
    }
    /// Law: on an image without a single foreground pixel this detector's
    /// `detect` fails with `RegionNotFound`.
    pub proof fn lemma_detect_all_background(&self)
        requires
            self.wf(),
            forall|x: int, y: int| !self.img().fg(x, y),
        ensures
            self.spec_detect() == Err::<Quadrilateral, RegionNotFound>(RegionNotFound),
    {
        lemma_all_background_detect_fails(
            self.img(),
            self.spec_left_init(),
            self.spec_right_init(),
            self.spec_up_init(),
            self.spec_down_init(),
        );
    }

    /// Law: detection is deterministic.  `detect` is proved to return
    /// `spec_detect()`, a function of the detector alone, so any two calls
    /// on the same detector and unchanged image return the same value.
    pub proof fn lemma_detect_deterministic(
        &self,
        r1: Result<Quadrilateral, RegionNotFound>,
        r2: Result<Quadrilateral, RegionNotFound>,
    )
        requires
            r1 == self.spec_detect(),
            r2 == self.spec_detect(),
        ensures
            r1 == r2,
    {
    }
}

impl<'a> RegionDetector for WhiteRectangleDetector<'a> {
    /// A detector is well formed when its image is and its initial window
    /// lies inside the image.
    closed spec fn wf(&self) -> bool {
        &&& self.image.wf()
        &&& self.width == self.image.spec_width()
        &&& self.height == self.image.spec_height()
        &&& 0 <= self.leftInit
        &&& 0 <= self.upInit
        &&& self.rightInit < self.width
        &&& self.downInit < self.height
    }

    /// What this detector's `detect` returns.
    open spec fn spec_detect(&self) -> Result<Quadrilateral, RegionNotFound> {
        white_detect_spec(
            self.img(),
            self.spec_left_init(),
            self.spec_right_init(),
            self.spec_up_init(),
            self.spec_down_init(),
        )
    }

    /// Detects a candidate barcode-like rectangular region: grows the
    /// window until its borders go white, then locates the four corners
    /// with diagonal scans and re-centers them.  Returns exactly what the
    /// mirrored specification search defines, so two calls on the same
    /// detector always agree.
    fn detect(&self) -> (r: Result<Quadrilateral, RegionNotFound>) {
        proof {
            self.image.lemma_wf_dims();
        }
        let ghost im = self.img();
        let ghost init = GrowState {
            left: self.spec_left_init(),
            right: self.spec_right_init(),
            up: self.spec_up_init(),
            down: self.spec_down_init(),
            seen_left: false,
            seen_right: false,
            seen_up: false,
            seen_down: false,
        };
        let mut left = self.leftInit;
        let mut right = self.rightInit;
        let mut up = self.upInit;
        let mut down = self.downInit;
        let mut sizeExceeded = false;
        let mut aBlackPointFoundOnBorder = true;
        let mut atLeastOneBlackPointFoundOnRight = false;
        let mut atLeastOneBlackPointFoundOnBottom = false;
        let mut atLeastOneBlackPointFoundOnLeft = false;
        let mut atLeastOneBlackPointFoundOnTop = false;

        while aBlackPointFoundOnBorder && !sizeExceeded
            invariant
                self.wf(),
                im == self.img(),
                0 <= im.spec_width() <= MAX_DIM,
                0 <= im.spec_height() <= MAX_DIM,
                init == (GrowState {
                    left: self.spec_left_init(),
                    right: self.spec_right_init(),
                    up: self.spec_up_init(),
                    down: self.spec_down_init(),
                    seen_left: false,
                    seen_right: false,
                    seen_up: false,
                    seen_down: false,
                }),
                !sizeExceeded ==> {
                    &&& 0 <= left
                    &&& 0 <= up
                    &&& (right as int) < im.spec_width()
                    &&& (down as int) < im.spec_height()
                    &&& (atLeastOneBlackPointFoundOnRight ==> 0 <= right)
                    &&& (atLeastOneBlackPointFoundOnBottom ==> 0 <= down)
                    &&& (atLeastOneBlackPointFoundOnLeft ==> (left as int) < im.spec_width())
                    &&& (atLeastOneBlackPointFoundOnTop ==> (up as int) < im.spec_height())
                    &&& (aBlackPointFoundOnBorder ==> grow_all(
                        im,
                        GrowState {
                            left: left as int,
                            right: right as int,
                            up: up as int,
                            down: down as int,
                            seen_left: atLeastOneBlackPointFoundOnLeft,
                            seen_right: atLeastOneBlackPointFoundOnRight,
                            seen_up: atLeastOneBlackPointFoundOnTop,
                            seen_down: atLeastOneBlackPointFoundOnBottom,
                        },
                    ) == grow_all(im, init))
                    &&& (!aBlackPointFoundOnBorder ==> {
                        &&& atLeastOneBlackPointFoundOnRight
                        &&& atLeastOneBlackPointFoundOnBottom
                        &&& atLeastOneBlackPointFoundOnLeft
                        &&& atLeastOneBlackPointFoundOnTop
                        &&& grow_all(im, init) == Some(
                            GrowState {
                                left: left as int,
                                right: right as int,
                                up: up as int,
                                down: down as int,
                                seen_left: atLeastOneBlackPointFoundOnLeft,
                                seen_right: atLeastOneBlackPointFoundOnRight,
                                seen_up: atLeastOneBlackPointFoundOnTop,
                                seen_down: atLeastOneBlackPointFoundOnBottom,
                            },
                        )
                    })
                },
                sizeExceeded ==> grow_all(im, init) == None::<GrowState>,
            decreases (im.spec_width() - right) + (im.spec_height() - down) + left + up + 4 + (
            if aBlackPointFoundOnBorder && !sizeExceeded {
                1int
            } else {
                0int
            }),
        {
            let ghost pre = GrowState {
                left: left as int,
                right: right as int,
                up: up as int,
                down: down as int,
                seen_left: atLeastOneBlackPointFoundOnLeft,
                seen_right: atLeastOneBlackPointFoundOnRight,
                seen_up: atLeastOneBlackPointFoundOnTop,
                seen_down: atLeastOneBlackPointFoundOnBottom,
            };
            aBlackPointFoundOnBorder = false;

            let res_r = self.grow_right_exec(
                up,
                down,
                right,
                atLeastOneBlackPointFoundOnRight,
                aBlackPointFoundOnBorder,
            );
            right = res_r.0;
            atLeastOneBlackPointFoundOnRight = res_r.1;
            aBlackPointFoundOnBorder = res_r.2;
            proof {
                lemma_grow_right_bounds(im, pre.up, pre.down, pre.right, pre.seen_right, false);
            }
            if right >= self.width {
                sizeExceeded = true;
                proof {
                    assert(grow_all(im, pre) == None::<GrowState>);
                }
            } else {
                let res_d = self.grow_down_exec(
                    left,
                    right,
                    down,
                    atLeastOneBlackPointFoundOnBottom,
                    aBlackPointFoundOnBorder,
                );
                proof {
                    lemma_grow_down_bounds(
                        im,
                        pre.left,
                        right as int,
                        pre.down,
                        pre.seen_down,
                        res_r.2,
                    );
                }
                down = res_d.0;
                atLeastOneBlackPointFoundOnBottom = res_d.1;
                aBlackPointFoundOnBorder = res_d.2;
                if down >= self.height {
                    sizeExceeded = true;
                    proof {
                        assert(grow_all(im, pre) == None::<GrowState>);
                    }
                } else {
                    let res_l = self.grow_left_exec(
                        up,
                        down,
                        left,
                        atLeastOneBlackPointFoundOnLeft,
                        aBlackPointFoundOnBorder,
                    );
                    proof {
                        lemma_grow_left_bounds(
                            im,
                            pre.up,
                            down as int,
                            pre.left,
                            pre.seen_left,
                            res_d.2,
                        );
                    }
                    left = res_l.0;
                    atLeastOneBlackPointFoundOnLeft = res_l.1;
                    aBlackPointFoundOnBorder = res_l.2;
                    if left < 0 {
                        sizeExceeded = true;
                        proof {
                            assert(grow_all(im, pre) == None::<GrowState>);
                        }
                    } else {
                        let res_u = self.grow_top_exec(
                            left,
                            right,
                            up,
                            atLeastOneBlackPointFoundOnTop,
                            aBlackPointFoundOnBorder,
                        );
                        proof {
                            lemma_grow_top_bounds(
                                im,
                                left as int,
                                right as int,
                                pre.up,
                                pre.seen_up,
                                res_l.2,
                            );
                        }
                        up = res_u.0;
                        atLeastOneBlackPointFoundOnTop = res_u.1;
                        aBlackPointFoundOnBorder = res_u.2;
                        if up < 0 {
                            sizeExceeded = true;
                            proof {
                                assert(grow_all(im, pre) == None::<GrowState>);
                            }
                        } else {
                            proof {
                                let s1 = GrowState {
                                    left: left as int,
                                    right: right as int,
                                    up: up as int,
                                    down: down as int,
                                    seen_left: atLeastOneBlackPointFoundOnLeft,
                                    seen_right: atLeastOneBlackPointFoundOnRight,
                                    seen_up: atLeastOneBlackPointFoundOnTop,
                                    seen_down: atLeastOneBlackPointFoundOnBottom,
                                };
                                assert(grow_all(im, pre) == if res_u.2 {
                                    grow_all(im, s1)
                                } else {
                                    Some(s1)
                                });
                            }
                        }
                    }
                }
            }
        }

        if !sizeExceeded {
            let ghost stable = GrowState {
                left: left as int,
                right: right as int,
                up: up as int,
                down: down as int,
                seen_left: atLeastOneBlackPointFoundOnLeft,
                seen_right: atLeastOneBlackPointFoundOnRight,
                seen_up: atLeastOneBlackPointFoundOnTop,
                seen_down: atLeastOneBlackPointFoundOnBottom,
            };
            let maxSize = right - left;

            let mut z_opt: Option<Point> = None;
            let mut i: i32 = 1;
            while z_opt.is_none() && i < maxSize
                invariant
                    self.wf(),
                    im == self.img(),
                    0 <= im.spec_width() <= MAX_DIM,
                    0 <= im.spec_height() <= MAX_DIM,
                    0 <= left,
                    (right as int) < im.spec_width(),
                    0 <= down,
                    (down as int) < im.spec_height(),
                    maxSize == right - left,
                    1 <= i,
                    i <= maxSize || i == 1,
                    z_opt is None ==> corner_scan(
                        im,
                        left as int,
                        down as int,
                        1,
                        -1,
                        maxSize as int,
                        i as int,
                    ) == corner_scan(im, left as int, down as int, 1, -1, maxSize as int, 1),
                    z_opt is Some ==> z_opt == corner_scan(
                        im,
                        left as int,
                        down as int,
                        1,
                        -1,
                        maxSize as int,
                        1,
                    ),
                decreases maxSize - i + (if z_opt is None {
                    1int
                } else {
                    0int
                }),
            {
                z_opt = self.getBlackPointOnSegment(left, down - i, left + i, down);
                i = i + 1;
            }
            let z = if let Some(p) = z_opt {
                p
            } else {
                return Err(RegionNotFound);
            };

            let mut t_opt: Option<Point> = None;
            let mut i: i32 = 1;
            while t_opt.is_none() && i < maxSize
                invariant
                    self.wf(),
                    im == self.img(),
                    0 <= im.spec_width() <= MAX_DIM,
                    0 <= im.spec_height() <= MAX_DIM,
                    0 <= left,
                    (right as int) < im.spec_width(),
                    0 <= up,
                    (up as int) < im.spec_height(),
                    maxSize == right - left,
                    1 <= i,
                    i <= maxSize || i == 1,
                    t_opt is None ==> corner_scan(
                        im,
                        left as int,
                        up as int,
                        1,
                        1,
                        maxSize as int,
                        i as int,
                    ) == corner_scan(im, left as int, up as int, 1, 1, maxSize as int, 1),
                    t_opt is Some ==> t_opt == corner_scan(
                        im,
                        left as int,
                        up as int,
                        1,
                        1,
                        maxSize as int,
                        1,
                    ),
                decreases maxSize - i + (if t_opt is None {
                    1int
                } else {
                    0int
                }),
            {
                t_opt = self.getBlackPointOnSegment(left, up + i, left + i, up);
                i = i + 1;
            }
            let t = if let Some(p) = t_opt {
                p
            } else {
                return Err(RegionNotFound);
            };

            let mut x_opt: Option<Point> = None;
            let mut i: i32 = 1;
            while x_opt.is_none() && i < maxSize
                invariant
                    self.wf(),
                    im == self.img(),
                    0 <= im.spec_width() <= MAX_DIM,
                    0 <= im.spec_height() <= MAX_DIM,
                    0 <= left,
                    (right as int) < im.spec_width(),
                    0 <= up,
                    (up as int) < im.spec_height(),
                    maxSize == right - left,
                    1 <= i,
                    i <= maxSize || i == 1,
                    x_opt is None ==> corner_scan(
                        im,
                        right as int,
                        up as int,
                        -1,
                        1,
                        maxSize as int,
                        i as int,
                    ) == corner_scan(im, right as int, up as int, -1, 1, maxSize as int, 1),
                    x_opt is Some ==> x_opt == corner_scan(
                        im,
                        right as int,
                        up as int,
                        -1,
                        1,
                        maxSize as int,
                        1,
                    ),
                decreases maxSize - i + (if x_opt is None {
                    1int
                } else {
                    0int
                }),
            {
                x_opt = self.getBlackPointOnSegment(right, up + i, right - i, up);
                i = i + 1;
            }
            let x = if let Some(p) = x_opt {
                p
            } else {
                return Err(RegionNotFound);
            };

            let mut y_opt: Option<Point> = None;
            let mut i: i32 = 1;
            while y_opt.is_none() && i < maxSize
                invariant
                    self.wf(),
                    im == self.img(),
                    0 <= im.spec_width() <= MAX_DIM,
                    0 <= im.spec_height() <= MAX_DIM,
                    0 <= left,
                    (right as int) < im.spec_width(),
                    0 <= down,
                    (down as int) < im.spec_height(),
                    maxSize == right - left,
                    1 <= i,
                    i <= maxSize || i == 1,
                    y_opt is None ==> corner_scan(
                        im,
                        right as int,
                        down as int,
                        -1,
                        -1,
                        maxSize as int,
                        i as int,
                    ) == corner_scan(im, right as int, down as int, -1, -1, maxSize as int, 1),
                    y_opt is Some ==> y_opt == corner_scan(
                        im,
                        right as int,
                        down as int,
                        -1,
                        -1,
                        maxSize as int,
                        1,
                    ),
                decreases maxSize - i + (if y_opt is None {
                    1int
                } else {
                    0int
                }),
            {
                y_opt = self.getBlackPointOnSegment(right, down - i, right - i, down);
                i = i + 1;
            }
            let y = if let Some(p) = y_opt {
                p
            } else {
                return Err(RegionNotFound);
            };

            proof {
                lemma_corner_scan_fg(im, left as int, down as int, 1, -1, maxSize as int, 1);
                lemma_corner_scan_fg(im, left as int, up as int, 1, 1, maxSize as int, 1);
                lemma_corner_scan_fg(im, right as int, up as int, -1, 1, maxSize as int, 1);
                lemma_corner_scan_fg(im, right as int, down as int, -1, -1, maxSize as int, 1);
            }
            Ok(self.centerEdges(y, z, x, t))
        } else {
            Err(RegionNotFound)
        }
    }
}

/// On an all-background image a never-fed border keeps growing: the right
/// border runs to the image edge.
proof fn lemma_grow_right_all_background(im: BitMatrix, up: int, down: int, right: int, moved: bool)
    requires
        right <= im.spec_width(),
        forall|x: int, y: int| !im.fg(x, y),
    ensures
        grow_right(im, up, down, right, false, moved) == (im.spec_width(), false, moved),
    decreases im.spec_width() - right,
{
    if right < im.spec_width() {
        assert(!col_has_fg(im, up, down, right));
        lemma_grow_right_all_background(im, up, down, right + 1, moved);
    }
}

/// Law: on an image without a single foreground pixel, border-growth
/// detection always fails with `RegionNotFound`.
pub proof fn lemma_all_background_detect_fails(
    im: BitMatrix,
    left0: int,
    right0: int,
    up0: int,
    down0: int,
)
    requires
        im.wf(),
        left0 >= -1,
        up0 >= -1,
        right0 <= im.spec_width(),
        down0 <= im.spec_height(),
        forall|x: int, y: int| !im.fg(x, y),
    ensures
        white_detect_spec(im, left0, right0, up0, down0) == Err::<
            Quadrilateral,
            RegionNotFound,
        >(RegionNotFound),
{
    lemma_grow_right_all_background(im, up0, down0, right0, false);
}

/// A `seg_first_fg` hit is a foreground pixel of the image.
pub proof fn lemma_seg_first_fg_fg(
    im: BitMatrix,
    ax: int,
    ay: int,
    bx: int,
    by: int,
    dist: int,
    i: int,
)
    requires
        im.wf(),
    ensures
        seg_first_fg(im, ax, ay, bx, by, dist, i) matches Some(p) ==> im.fg(
            p.x as int,
            p.y as int,
        ),
    decreases dist - i,
{
    im.lemma_wf_dims();
    if 0 <= i < dist {
        let x = seg_coord(ax, bx, dist, i);
        let y = seg_coord(ay, by, dist, i);
        if !im.fg(x, y) {
            lemma_seg_first_fg_fg(im, ax, ay, bx, by, dist, i + 1);
        }
    }
}

/// A corner-scan hit is a foreground pixel of the image.
pub proof fn lemma_corner_scan_fg(
    im: BitMatrix,
    cx: int,
    cy: int,
    sx: int,
    sy: int,
    max_size: int,
    i: int,
)
    requires
        im.wf(),
    ensures
        corner_scan(im, cx, cy, sx, sy, max_size, i) matches Some(p) ==> im.fg(
            p.x as int,
            p.y as int,
        ),
    decreases max_size - i,
{
    if i < max_size {
        match black_point_on_segment(im, cx, cy + sy * i, cx + sx * i, cy) {
            Some(p) => {
                lemma_seg_first_fg_fg(
                    im,
                    cx,
                    cy + sy * i,
                    cx + sx * i,
                    cy,
                    spec_distance_round(cx, cy + sy * i, cx + sx * i, cy),
                    0,
                );
            },
            None => {
                lemma_corner_scan_fg(im, cx, cy, sx, sy, max_size, i + 1);
            },
        }
    }
}

} // verus!
