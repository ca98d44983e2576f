//! Legacy center-outward rectangle detector.
//!
//! Five ordered corner searches step scan lines outward from the image
//! center.  At every step the scan line is searched for a contiguous
//! foreground run (tolerating embedded background runs up to a
//! configurable length); when no valid run remains, the corner is
//! interpolated from the last valid run.  As in the border-growth module,
//! every loop is mirrored by a specification function and `detect` returns
//! exactly what the mirrored search defines.

use vstd::prelude::*;

use crate::bit_matrix::BitMatrix;
use crate::geom::Point;
use crate::geom::Quadrilateral;
use crate::geom::RegionNotFound;
use crate::geom::half_trunc;
use crate::geom::half_trunc32;
use crate::region_detector::RegionDetector;

verus! {

/// Number of modules assumed across a dimension; the scan step size is
/// derived from it.
pub const MAX_MODULES: i32 = 32;

/// One probed position of a scan line: pixel `(pos, fixed)` of a
/// horizontal scan, `(fixed, pos)` of a vertical one.
pub open spec fn scan_fg(im: BitMatrix, fixed: int, pos: int, horizontal: bool) -> bool {
    if horizontal {
        im.fg(pos, fixed)
    } else {
        im.fg(fixed, pos)
    }
}

/// Walks downward from `pos` over background pixels; returns the first
/// position at or below `pos` that is foreground, or `minDim - 1` when
/// the background run reaches the lower limit.
pub open spec fn white_end_low(
    im: BitMatrix,
    fixed: int,
    minDim: int,
    pos: int,
    horizontal: bool,
) -> int
    decreases pos - minDim + 1,
{
    if pos < minDim || scan_fg(im, fixed, pos, horizontal) {
        pos
    } else {
        white_end_low(im, fixed, minDim, pos - 1, horizontal)
    }
}

/// Walks upward from `pos` over background pixels; returns the first
/// position at or above `pos` that is foreground, or `maxDim` when the
/// background run reaches the upper limit.
pub open spec fn white_end_high(
    im: BitMatrix,
    fixed: int,
    maxDim: int,
    pos: int,
    horizontal: bool,
) -> int
    decreases maxDim - pos,
{
    if pos >= maxDim || scan_fg(im, fixed, pos, horizontal) {
        pos
    } else {
        white_end_high(im, fixed, maxDim, pos + 1, horizontal)
    }
}

pub proof fn lemma_white_end_low_range(
    im: BitMatrix,
    fixed: int,
    minDim: int,
    pos: int,
    horizontal: bool,
)
    requires
        pos >= minDim - 1,
    ensures
        minDim - 1 <= white_end_low(im, fixed, minDim, pos, horizontal) <= pos,
    decreases pos - minDim + 1,
{
    if pos >= minDim && !scan_fg(im, fixed, pos, horizontal) {
        lemma_white_end_low_range(im, fixed, minDim, pos - 1, horizontal);
    }
}

pub proof fn lemma_white_end_high_range(
    im: BitMatrix,
    fixed: int,
    maxDim: int,
    pos: int,
    horizontal: bool,
)
    requires
        pos <= maxDim,
    ensures
        pos <= white_end_high(im, fixed, maxDim, pos, horizontal) <= maxDim,
    decreases maxDim - pos,
{
    if pos < maxDim && !scan_fg(im, fixed, pos, horizontal) {
        lemma_white_end_high_range(im, fixed, maxDim, pos + 1, horizontal);
    }
}

/// Lower half of a scan-line search: walk down from `start` through
/// foreground, tolerating embedded background runs of at most `maxWhite`
/// pixels, and return the last position still considered inside the run.
pub open spec fn bw_low(
    im: BitMatrix,
    fixed: int,
    maxWhite: int,
    minDim: int,
    start: int,
    horizontal: bool,
) -> int
    decreases start - minDim + 1,
        when start >= minDim - 1
        via bw_low_decreases
{
    if start < minDim {
        start
    } else if scan_fg(im, fixed, start, horizontal) {
        bw_low(im, fixed, maxWhite, minDim, start - 1, horizontal)
    } else {
        let w = white_end_low(im, fixed, minDim, start - 1, horizontal);
        if w < minDim || start - w > maxWhite {
            start
        } else {
            bw_low(im, fixed, maxWhite, minDim, w, horizontal)
        }
    }
}

#[via_fn]
proof fn bw_low_decreases(
    im: BitMatrix,
    fixed: int,
    maxWhite: int,
    minDim: int,
    start: int,
    horizontal: bool,
) {
    if start >= minDim && !scan_fg(im, fixed, start, horizontal) {
        lemma_white_end_low_range(im, fixed, minDim, start - 1, horizontal);
    }
}

/// Upper half of a scan-line search, walking up from `end`.
pub open spec fn bw_high(
    im: BitMatrix,
    fixed: int,
    maxWhite: int,
    maxDim: int,
    end: int,
    horizontal: bool,
) -> int
    decreases maxDim - end,
        when end <= maxDim
        via bw_high_decreases
{
    if end >= maxDim {
        end
    } else if scan_fg(im, fixed, end, horizontal) {
        bw_high(im, fixed, maxWhite, maxDim, end + 1, horizontal)
    } else {
        let w = white_end_high(im, fixed, maxDim, end + 1, horizontal);
        if w >= maxDim || w - end > maxWhite {
            end
        } else {
            bw_high(im, fixed, maxWhite, maxDim, w, horizontal)
        }
    }
}

#[via_fn]
proof fn bw_high_decreases(
    im: BitMatrix,
    fixed: int,
    maxWhite: int,
    maxDim: int,
    end: int,
    horizontal: bool,
) {
    if end < maxDim && !scan_fg(im, fixed, end, horizontal) {
        lemma_white_end_high_range(im, fixed, maxDim, end + 1, horizontal);
    }
}

/// A scan-line search around the center of `[minDim, maxDim)`: the start
/// and end of a foreground run that could be part of a barcode, or `None`
/// when only background was found.
pub open spec fn bw_range(
    im: BitMatrix,
    fixed: int,
    maxWhite: int,
    minDim: int,
    maxDim: int,
    horizontal: bool,
) -> Option<(int, int)>
    recommends
        minDim <= maxDim,
{
    let center = half_trunc(minDim + maxDim);
    let s = bw_low(im, fixed, maxWhite, minDim, center, horizontal) + 1;
    let e = bw_high(im, fixed, maxWhite, maxDim, center, horizontal) - 1;
    if e > s {
        Some((s, e))
    } else {
        None
    }
}

/// The corner interpolated from the last valid run: if the run straddles
/// the center line, the edge in the direction of travel is taken,
/// otherwise whichever edge lies away from the center.
pub open spec fn corner_from_last(
    centerX: int,
    centerY: int,
    deltaX: int,
    deltaY: int,
    x: int,
    y: int,
    lr: (int, int),
) -> Point {
    if deltaX == 0 {
        let lastY = y - deltaY;
        if lr.0 < centerX {
            if lr.1 > centerX {
                Point {
                    x: (if deltaY > 0 {
                        lr.0
                    } else {
                        lr.1
                    }) as i32,
                    y: lastY as i32,
                }
            } else {
                Point { x: lr.0 as i32, y: lastY as i32 }
            }
        } else {
            Point { x: lr.1 as i32, y: lastY as i32 }
        }
    } else {
        let lastX = x - deltaX;
        if lr.0 < centerY {
            if lr.1 > centerY {
                Point {
                    x: lastX as i32,
                    y: (if deltaX < 0 {
                        lr.0
                    } else {
                        lr.1
                    }) as i32,
                }
            } else {
                Point { x: lastX as i32, y: lr.0 as i32 }
            }
        } else {
            Point { x: lastX as i32, y: lr.1 as i32 }
        }
    }
}

/// Remaining travel of a corner scan, in the direction of its nonzero
/// step.
pub open spec fn scan_measure(
    deltaX: int,
    deltaY: int,
    left: int,
    right: int,
    top: int,
    bottom: int,
    x: int,
    y: int,
) -> int {
    let m = if deltaY < 0 {
        y - top + 1
    } else if deltaY > 0 {
        bottom - y
    } else if deltaX < 0 {
        x - left + 1
    } else {
        right - x
    };
    if m < 0 {
        0
    } else {
        m
    }
}

/// One corner search: scan lines step outward from `(x, y)` by
/// `(deltaX, deltaY)`; when no valid run remains, the corner is
/// interpolated against the last valid run, and the search fails when no
/// valid run was ever seen before leaving the bounds.
pub open spec fn find_corner(
    im: BitMatrix,
    centerX: int,
    deltaX: int,
    left: int,
    right: int,
    centerY: int,
    deltaY: int,
    top: int,
    bottom: int,
    maxWhiteRun: int,
    x: int,
    y: int,
    lastRange: Option<(int, int)>,
) -> Result<Point, RegionNotFound>
    decreases scan_measure(deltaX, deltaY, left, right, top, bottom, x, y),
        when deltaX != 0 || deltaY != 0
{
    if !(y < bottom && y >= top && x < right && x >= left) {
        Err(RegionNotFound)
    } else {
        let range = if deltaX == 0 {
            bw_range(im, y, maxWhiteRun, left, right, true)
        } else {
            bw_range(im, x, maxWhiteRun, top, bottom, false)
        };
        match range {
            None => match lastRange {
                None => Err(RegionNotFound),
                Some(lr) => Ok(corner_from_last(centerX, centerY, deltaX, deltaY, x, y, lr)),
            },
            Some(lr) => find_corner(
                im,
                centerX,
                deltaX,
                left,
                right,
                centerY,
                deltaY,
                top,
                bottom,
                maxWhiteRun,
                x + deltaX,
                y + deltaY,
                Some(lr),
            ),
        }
    }
}

/// The whole legacy detection: five ordered corner searches from the
/// image center, each bounded by the corners already found.  The search
/// is staged: each stage consumes the corners found so far.
pub open spec fn mono_detect_spec(im: BitMatrix) -> Result<Quadrilateral, RegionNotFound> {
    let height = im.spec_height();
    let width = im.spec_width();
    let deltaY = if height / ((MAX_MODULES as int) * 8) < 1 {
        1int
    } else {
        height / ((MAX_MODULES as int) * 8)
    };
    match find_corner(
        im,
        width / 2,
        0,
        0,
        width,
        height / 2,
        -deltaY,
        0,
        height,
        (width / 2) / 2,
        width / 2,
        height / 2,
        None,
    ) {
        Err(e) => Err(e),
        Ok(pointA) => mono_after_a(im, pointA),
    }
}

/// Stages two to five of the legacy detection, after the first top
/// corner estimate `pointA` has been found.
pub open spec fn mono_after_a(im: BitMatrix, pointA: Point) -> Result<
    Quadrilateral,
    RegionNotFound,
> {
    let height = im.spec_height();
    let width = im.spec_width();
    let deltaX = if width / ((MAX_MODULES as int) * 8) < 1 {
        1int
    } else {
        width / ((MAX_MODULES as int) * 8)
    };
    match find_corner(
        im,
        width / 2,
        -deltaX,
        0,
        width,
        height / 2,
        0,
        pointA.y - 1,
        height,
        (height / 2) / 2,
        width / 2,
        height / 2,
        None,
    ) {
        Err(e) => Err(e),
        Ok(pointB) => mono_after_b(im, pointA, pointB),
    }
}

/// Stages three to five, after the left corner `pointB` has been found.
pub open spec fn mono_after_b(im: BitMatrix, pointA: Point, pointB: Point) -> Result<
    Quadrilateral,
    RegionNotFound,
> {
    let height = im.spec_height();
    let width = im.spec_width();
    let deltaX = if width / ((MAX_MODULES as int) * 8) < 1 {
        1int
    } else {
        width / ((MAX_MODULES as int) * 8)
    };
    match find_corner(
        im,
        width / 2,
        deltaX,
        pointB.x - 1,
        width,
        height / 2,
        0,
        pointA.y - 1,
        height,
        (height / 2) / 2,
        width / 2,
        height / 2,
        None,
    ) {
        Err(e) => Err(e),
        Ok(pointC) => mono_after_c(im, pointA, pointB, pointC),
    }
}

/// Stages four and five, after the right corner `pointC` has been found.
pub open spec fn mono_after_c(im: BitMatrix, pointA: Point, pointB: Point, pointC: Point) -> Result<
    Quadrilateral,
    RegionNotFound,
> {
    let height = im.spec_height();
    let width = im.spec_width();
    let deltaY = if height / ((MAX_MODULES as int) * 8) < 1 {
        1int
    } else {
        height / ((MAX_MODULES as int) * 8)
    };
    match find_corner(
        im,
        width / 2,
        0,
        pointB.x - 1,
        pointC.x + 1,
        height / 2,
        deltaY,
        pointA.y - 1,
        height,
        (width / 2) / 2,
        width / 2,
        height / 2,
        None,
    ) {
        Err(e) => Err(e),
        Ok(pointD) => mono_after_d(im, pointA, pointB, pointC, pointD),
    }
}

/// The final stage: the top corner is re-searched with a tighter
/// tolerance inside the refined bounds.
pub open spec fn mono_after_d(
    im: BitMatrix,
    pointA: Point,
    pointB: Point,
    pointC: Point,
    pointD: Point,
) -> Result<Quadrilateral, RegionNotFound> {
    let height = im.spec_height();
    let width = im.spec_width();
    let deltaY = if height / ((MAX_MODULES as int) * 8) < 1 {
        1int
    } else {
        height / ((MAX_MODULES as int) * 8)
    };
    match find_corner(
        im,
        width / 2,
        0,
        pointB.x - 1,
        pointC.x + 1,
        height / 2,
        -deltaY,
        pointA.y - 1,
        pointD.y + 1,
        (width / 2) / 4,
        width / 2,
        height / 2,
        None,
    ) {
        Err(e) => Err(e),
        Ok(pointA2) => Ok(
            Quadrilateral { top: pointA2, left: pointB, right: pointC, bottom: pointD },
        ),
    }
}

/// Looks for a barcode-like rectangular region of mostly foreground by
/// scanning outward from the image center.
pub struct MonochromeRectangleDetector<'a> {
    image: &'a BitMatrix,
}

impl<'a> MonochromeRectangleDetector<'a> {
    pub closed spec fn img(&self) -> BitMatrix {
        *self.image
    }

    pub fn new(image: &'a BitMatrix) -> (r: MonochromeRectangleDetector<'a>)
        ensures
            r.img() == *image,
    {
        MonochromeRectangleDetector { image }
    }

    /// One probe of a scan line.
    fn probe_line(&self, fixed: i32, pos: i32, horizontal: bool) -> (r: bool)
        requires
            self.wf(),
        ensures
            r == scan_fg(self.img(), fixed as int, pos as int, horizontal),
    {
        if horizontal {
            self.image.probe(pos, fixed)
        } else {
            self.image.probe(fixed, pos)
        }
    }

    /// Computes the start and end of a foreground region on one scan
    /// line, or `None` when only background was found there.
    fn blackWhiteRange(
        &self,
        fixedDimension: i32,
        maxWhiteRun: i32,
        minDim: i32,
        maxDim: i32,
        horizontal: bool,
    ) -> (r: Option<(i32, i32)>)
        requires
            self.wf(),
            -0x2_0000 <= minDim <= 0x2_0000,
            -0x2_0000 <= maxDim <= 0x2_0000,
            minDim <= maxDim,
        ensures
            r is Some <==> bw_range(
                self.img(),
                fixedDimension as int,
                maxWhiteRun as int,
                minDim as int,
                maxDim as int,
                horizontal,
            ) is Some,
            r matches Some(p) ==> bw_range(
                self.img(),
                fixedDimension as int,
                maxWhiteRun as int,
                minDim as int,
                maxDim as int,
                horizontal,
            ) == Some((p.0 as int, p.1 as int)),
            r matches Some(p) ==> minDim <= p.0 < p.1 <= maxDim - 1,
    {
        let ghost im = self.img();
        let center = half_trunc32(minDim + maxDim);
        proof {
            assert(minDim <= center <= maxDim);
        }

        let mut start = center;
        let mut done = false;
        while !done && start >= minDim
            invariant
                self.wf(),
                im == self.img(),
                -0x2_0000 <= minDim <= 0x2_0000,
                -0x2_0000 <= maxDim <= 0x2_0000,
                minDim - 1 <= start <= center <= maxDim,
                !done ==> bw_low(
                    im,
                    fixedDimension as int,
                    maxWhiteRun as int,
                    minDim as int,
                    start as int,
                    horizontal,
                ) == bw_low(
                    im,
                    fixedDimension as int,
                    maxWhiteRun as int,
                    minDim as int,
                    center as int,
                    horizontal,
                ),
                done ==> start == bw_low(
                    im,
                    fixedDimension as int,
                    maxWhiteRun as int,
                    minDim as int,
                    center as int,
                    horizontal,
                ),
            decreases start - minDim + 1 + (if done {
                0int
            } else {
                1int
            }),
        {
            if self.probe_line(fixedDimension, start, horizontal) {
                start = start - 1;
            } else {
                let whiteRunStart = start;
                start = start - 1;
                while start >= minDim && !self.probe_line(fixedDimension, start, horizontal)
                    invariant
                        self.wf(),
                        im == self.img(),
                        -0x2_0000 <= minDim <= 0x2_0000,
                        minDim - 1 <= start <= whiteRunStart - 1,
                        white_end_low(
                            im,
                            fixedDimension as int,
                            minDim as int,
                            start as int,
                            horizontal,
                        ) == white_end_low(
                            im,
                            fixedDimension as int,
                            minDim as int,
                            whiteRunStart - 1,
                            horizontal,
                        ),
                    decreases start - minDim + 1,
                {
                    start = start - 1;
                }
                let whiteRunSize = whiteRunStart - start;
                if start < minDim || whiteRunSize > maxWhiteRun {
                    start = whiteRunStart;
                    done = true;
                }
            }
        }
        let start = start + 1;

        let mut end = center;
        let mut done_high = false;
        while !done_high && end < maxDim
            invariant
                self.wf(),
                im == self.img(),
                -0x2_0000 <= minDim <= 0x2_0000,
                -0x2_0000 <= maxDim <= 0x2_0000,
                minDim <= center <= end <= maxDim,
                !done_high ==> bw_high(
                    im,
                    fixedDimension as int,
                    maxWhiteRun as int,
                    maxDim as int,
                    end as int,
                    horizontal,
                ) == bw_high(
                    im,
                    fixedDimension as int,
                    maxWhiteRun as int,
                    maxDim as int,
                    center as int,
                    horizontal,
                ),
                done_high ==> end == bw_high(
                    im,
                    fixedDimension as int,
                    maxWhiteRun as int,
                    maxDim as int,
                    center as int,
                    horizontal,
                ),
            decreases maxDim - end + (if done_high {
                0int
            } else {
                1int
            }),
        {
            if self.probe_line(fixedDimension, end, horizontal) {
                end = end + 1;
            } else {
                let whiteRunStart = end;
                end = end + 1;
                while end < maxDim && !self.probe_line(fixedDimension, end, horizontal)
                    invariant
                        self.wf(),
                        im == self.img(),
                        -0x2_0000 <= maxDim <= 0x2_0000,
                        whiteRunStart + 1 <= end <= maxDim,
                        white_end_high(
                            im,
                            fixedDimension as int,
                            maxDim as int,
                            end as int,
                            horizontal,
                        ) == white_end_high(
                            im,
                            fixedDimension as int,
                            maxDim as int,
                            whiteRunStart + 1,
                            horizontal,
                        ),
                    decreases maxDim - end,
                {
                    end = end + 1;
                }
                let whiteRunSize = end - whiteRunStart;
                if end >= maxDim || whiteRunSize > maxWhiteRun {
                    end = whiteRunStart;
                    done_high = true;
                }
            }
        }
        let end = end - 1;

        if end > start {
            Some((start, end))
        } else {
            None
        }
    }

    /// Attempts to locate one corner by stepping scan lines outward from
    /// `(centerX, centerY)` by `(deltaX, deltaY)`.
    fn findCornerFromCenter(
        &self,
        centerX: i32,
        deltaX: i32,
        left: i32,
        right: i32,
        centerY: i32,
        deltaY: i32,
        top: i32,
        bottom: i32,
        maxWhiteRun: i32,
    ) -> (r: Result<Point, RegionNotFound>)
        requires
            self.wf(),
            -0x1_0000 <= left <= 0x1_0000,
            -0x1_0000 <= right <= 0x1_0000,
            -0x1_0000 <= top <= 0x1_0000,
            -0x1_0000 <= bottom <= 0x1_0000,
            -0x1_0000 <= centerX <= 0x1_0000,
            -0x1_0000 <= centerY <= 0x1_0000,
            -0x8000 <= deltaX <= 0x8000,
            -0x8000 <= deltaY <= 0x8000,
            deltaX != 0 || deltaY != 0,
        ensures
            r == find_corner(
                self.img(),
                centerX as int,
                deltaX as int,
                left as int,
                right as int,
                centerY as int,
                deltaY as int,
                top as int,
                bottom as int,
                maxWhiteRun as int,
                centerX as int,
                centerY as int,
                None,
            ),
            r matches Ok(p) ==> ({
                let bb = imax(
                    imax(iabs(left as int), iabs(right as int)),
                    imax(iabs(top as int), iabs(bottom as int)),
                ) + iabs(deltaX as int) + iabs(deltaY as int);
                -bb <= p.x <= bb && -bb <= p.y <= bb
            }),
    {
        let ghost im = self.img();
        let mut lastRange: Option<(i32, i32)> = None;
        let mut x = centerX;
        let mut y = centerY;
        while y < bottom && y >= top && x < right && x >= left
            invariant
                self.wf(),
                im == self.img(),
                -0x1_0000 <= left <= 0x1_0000,
                -0x1_0000 <= right <= 0x1_0000,
                -0x1_0000 <= top <= 0x1_0000,
                -0x1_0000 <= bottom <= 0x1_0000,
                -0x1_0000 <= centerX <= 0x1_0000,
                -0x1_0000 <= centerY <= 0x1_0000,
                -0x8000 <= deltaX <= 0x8000,
                -0x8000 <= deltaY <= 0x8000,
                deltaX != 0 || deltaY != 0,
                -0x1_8000 <= x <= 0x1_8000,
                -0x1_8000 <= y <= 0x1_8000,
                lastRange matches Some(lr) ==> (if deltaX == 0 {
                    left <= lr.0 && lr.0 < lr.1 && lr.1 <= right - 1
                } else {
                    top <= lr.0 && lr.0 < lr.1 && lr.1 <= bottom - 1
                }),
                find_corner(
                    im,
                    centerX as int,
                    deltaX as int,
                    left as int,
                    right as int,
                    centerY as int,
                    deltaY as int,
                    top as int,
                    bottom as int,
                    maxWhiteRun as int,
                    x as int,
                    y as int,
                    range_view(lastRange),
                ) == find_corner(
                    im,
                    centerX as int,
                    deltaX as int,
                    left as int,
                    right as int,
                    centerY as int,
                    deltaY as int,
                    top as int,
                    bottom as int,
                    maxWhiteRun as int,
                    centerX as int,
                    centerY as int,
                    None,
                ),
            decreases scan_measure(
                deltaX as int,
                deltaY as int,
                left as int,
                right as int,
                top as int,
                bottom as int,
                x as int,
                y as int,
            ),
        {
            let range = if deltaX == 0 {
                self.blackWhiteRange(y, maxWhiteRun, left, right, true)
            } else {
                self.blackWhiteRange(x, maxWhiteRun, top, bottom, false)
            };
            if let Some(rg) = range {
                lastRange = Some(rg);
            } else {
                if let Some(lr) = lastRange {
                    if deltaX == 0 {
                        let lastY = y - deltaY;
                        if lr.0 < centerX {
                            if lr.1 > centerX {
                                return Ok(
                                    Point {
                                        x: if deltaY > 0 {
                                            lr.0
                                        } else {
                                            lr.1
                                        },
                                        y: lastY,
                                    },
                                );
                            }
                            return Ok(Point { x: lr.0, y: lastY });
                        } else {
                            return Ok(Point { x: lr.1, y: lastY });
                        }
                    } else {
                        let lastX = x - deltaX;
                        if lr.0 < centerY {
                            if lr.1 > centerY {
                                return Ok(
                                    Point {
                                        x: lastX,
                                        y: if deltaX < 0 {
                                            lr.0
                                        } else {
                                            lr.1
                                        },
                                    },
                                );
                            }
                            return Ok(Point { x: lastX, y: lr.0 });
                        } else {
                            return Ok(Point { x: lastX, y: lr.1 });
                        }
                    }
                } else {
                    return Err(RegionNotFound);
                }
            }
            y = y + deltaY;
            x = x + deltaX;
        }
        Err(RegionNotFound)
    }

    /// Law: on an image without a single foreground pixel this detector's
    /// `detect` fails with `RegionNotFound`.
    pub proof fn lemma_detect_all_background(&self)
        requires
            self.wf(),
            forall|x: int, y: int| !self.img().fg(x, y),
        ensures
            self.spec_detect() == Err::<Quadrilateral, RegionNotFound>(RegionNotFound),
    {
        lemma_all_background_mono_detect_fails(self.img());
    }

    /// Law: detection is deterministic.  `detect` is proved to return
    /// `spec_detect()`, a function of the detector alone, so any two calls
    /// on the same detector and unchanged image return the same value.
    pub proof fn lemma_detect_deterministic(
        &self,
        r1: Result<Quadrilateral, RegionNotFound>,
        r2: Result<Quadrilateral, RegionNotFound>,
    )
        requires
            r1 == self.spec_detect(),
            r2 == self.spec_detect(),
        ensures
            r1 == r2,
    {
    }
}

impl<'a> RegionDetector for MonochromeRectangleDetector<'a> {
    /// A detector is well formed when its image is.
    open spec fn wf(&self) -> bool {
        self.img().wf()
    }

    /// What this detector's `detect` returns.
    open spec fn spec_detect(&self) -> Result<Quadrilateral, RegionNotFound> {
        mono_detect_spec(self.img())
    }

    /// Detects a rectangular region of mostly foreground around the image
    /// center.  Returns exactly what the mirrored specification search
    /// defines, so two calls on the same detector always agree.
    #[verifier::rlimit(100)]
    fn detect(&self) -> (r: Result<Quadrilateral, RegionNotFound>) {
        proof {
            self.image.lemma_wf_dims();
        }
        let height = self.image.getHeight();
        let width = self.image.getWidth();
        let halfHeight = ((height as u32) / 2) as i32;
        let halfWidth = ((width as u32) / 2) as i32;
        let dy0 = ((height as u32) / ((MAX_MODULES * 8) as u32)) as i32;
        let deltaY = if dy0 < 1 {
            1
        } else {
            dy0
        };
        let dx0 = ((width as u32) / ((MAX_MODULES * 8) as u32)) as i32;
        let deltaX = if dx0 < 1 {
            1
        } else {
            dx0
        };

        let ghost im = self.img();
        let ghost g_w = im.spec_width();
        let ghost g_h = im.spec_height();
        let ghost g_dy = (if g_h / ((MAX_MODULES as int) * 8) < 1 {
            1int
        } else {
            g_h / ((MAX_MODULES as int) * 8)
        });
        let ghost g_dx = (if g_w / ((MAX_MODULES as int) * 8) < 1 {
            1int
        } else {
            g_w / ((MAX_MODULES as int) * 8)
        });
        proof {
            assert(halfHeight as int == g_h / 2);
            assert(halfWidth as int == g_w / 2);
            assert(deltaY as int == g_dy);
            assert(deltaX as int == g_dx);
        }

        let mut top: i32 = 0;
        let bottom: i32 = height;
        let mut left: i32 = 0;
        let mut right: i32 = width;

        let pointA = match self.findCornerFromCenter(
            halfWidth,
            0,
            left,
            right,
            halfHeight,
            -deltaY,
            top,
            bottom,
            ((halfWidth as u32) / 2) as i32,
        ) {
            Ok(p) => p,
            Err(e) => {
                return Err(e);
            },
        };
        proof {
            assert(self.spec_detect() == mono_after_a(im, pointA));
        }
        top = pointA.y - 1;
        let pointB = match self.findCornerFromCenter(
            halfWidth,
            -deltaX,
            left,
            right,
            halfHeight,
            0,
            top,
            bottom,
            ((halfHeight as u32) / 2) as i32,
        ) {
            Ok(p) => p,
            Err(e) => {
                return Err(e);
            },
        };
        proof {
            assert(mono_after_a(im, pointA) == mono_after_b(im, pointA, pointB));
        }
        left = pointB.x - 1;
        let pointC = match self.findCornerFromCenter(
            halfWidth,
            deltaX,
            left,
            right,
            halfHeight,
            0,
            top,
            bottom,
            ((halfHeight as u32) / 2) as i32,
        ) {
            Ok(p) => p,
            Err(e) => {
                return Err(e);
            },
        };
        proof {
            assert(mono_after_b(im, pointA, pointB) == mono_after_c(im, pointA, pointB, pointC));
        }
        right = pointC.x + 1;
        let pointD = match self.findCornerFromCenter(
            halfWidth,
            0,
            left,
            right,
            halfHeight,
            deltaY,
            top,
            bottom,
            ((halfWidth as u32) / 2) as i32,
        ) {
            Ok(p) => p,
            Err(e) => {
                return Err(e);
            },
        };
        proof {
            assert(mono_after_c(im, pointA, pointB, pointC) == mono_after_d(
                im,
                pointA,
                pointB,
                pointC,
                pointD,
            ));
        }
        let bottom2 = pointD.y + 1;

        // Re-search upward with tighter tolerance using the refined
        // bounds, replacing the first estimate of the top corner.
        let pointA2 = match self.findCornerFromCenter(
            halfWidth,
            0,
            left,
            right,
            halfHeight,
            -deltaY,
            top,
            bottom2,
            ((halfWidth as u32) / 4) as i32,
        ) {
            Ok(p) => p,
            Err(e) => {
                return Err(e);
            },
        };
        Ok(Quadrilateral { top: pointA2, left: pointB, right: pointC, bottom: pointD })
    }
}

/// Absolute value, for stating coordinate bounds.
pub open spec fn iabs(n: int) -> int {
    if n >= 0 {
        n
    } else {
        -n
    }
}

/// The larger of two integers, for stating coordinate bounds.
pub open spec fn imax(a: int, b: int) -> int {
    if a >= b {
        a
    } else {
        b
    }
}

/// The spec view of an executable scan-line range.
pub open spec fn range_view(o: Option<(i32, i32)>) -> Option<(int, int)> {
    match o {
        None => None,
        Some(p) => Some((p.0 as int, p.1 as int)),
    }
}

proof fn lemma_white_end_low_all_background(
    im: BitMatrix,
    fixed: int,
    minDim: int,
    pos: int,
    horizontal: bool,
)
    requires
        pos >= minDim - 1,
        forall|x: int, y: int| !im.fg(x, y),
    ensures
        white_end_low(im, fixed, minDim, pos, horizontal) == minDim - 1,
    decreases pos - minDim + 1,
{
    if pos >= minDim {
        lemma_white_end_low_all_background(im, fixed, minDim, pos - 1, horizontal);
    }
}

proof fn lemma_white_end_high_all_background(
    im: BitMatrix,
    fixed: int,
    maxDim: int,
    pos: int,
    horizontal: bool,
)
    requires
        pos <= maxDim,
        forall|x: int, y: int| !im.fg(x, y),
    ensures
        white_end_high(im, fixed, maxDim, pos, horizontal) == maxDim,
    decreases maxDim - pos,
{
    if pos < maxDim {
        lemma_white_end_high_all_background(im, fixed, maxDim, pos + 1, horizontal);
    }
}

/// On an all-background scan line no foreground run exists.
pub proof fn lemma_bw_range_all_background(
    im: BitMatrix,
    fixed: int,
    maxWhite: int,
    minDim: int,
    maxDim: int,
    horizontal: bool,
)
    requires
        0 <= minDim <= maxDim,
        forall|x: int, y: int| !im.fg(x, y),
    ensures
        bw_range(im, fixed, maxWhite, minDim, maxDim, horizontal) is None,
{
    let center = half_trunc(minDim + maxDim);
    assert(minDim <= center <= maxDim);
    lemma_white_end_low_all_background(im, fixed, minDim, center - 1, horizontal);
    if center < maxDim {
        lemma_white_end_high_all_background(im, fixed, maxDim, center + 1, horizontal);
    }
    assert(bw_low(im, fixed, maxWhite, minDim, center, horizontal) == center);
    assert(bw_high(im, fixed, maxWhite, maxDim, center, horizontal) == center);
}

/// Law: on an image without a single foreground pixel, the legacy
/// detection always fails with `RegionNotFound`.
pub proof fn lemma_all_background_mono_detect_fails(im: BitMatrix)
    requires
        im.wf(),
        forall|x: int, y: int| !im.fg(x, y),
    ensures
        mono_detect_spec(im) == Err::<Quadrilateral, RegionNotFound>(RegionNotFound),
{
    im.lemma_wf_dims();
    let height = im.spec_height();
    let width = im.spec_width();
    let halfHeight = height / 2;
    let halfWidth = width / 2;
    let deltaY = if height / ((MAX_MODULES as int) * 8) < 1 {
        1int
    } else {
        height / ((MAX_MODULES as int) * 8)
    };
    if 0 <= halfHeight < height && 0 <= halfWidth < width {
        lemma_bw_range_all_background(im, halfHeight, halfWidth / 2, 0, width, true);
        assert(find_corner(
            im,
            halfWidth,
            0,
            0,
            width,
            halfHeight,
            -deltaY,
            0,
            height,
            halfWidth / 2,
            halfWidth,
            halfHeight,
            None,
        ) == Err::<Point, RegionNotFound>(RegionNotFound));
    }
}

} // verus!
