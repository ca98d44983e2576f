use rxing::bit_matrix::BitMatrix;
use rxing::geom::Point;
use rxing::monochrome::MonochromeRectangleDetector;
use rxing::region_detector::RegionDetector;
use rxing::white_rect::WhiteRectangleDetector;

fn image_with_rect(w: i32, h: i32, x0: i32, x1: i32, y0: i32, y1: i32) -> BitMatrix {
    let mut im = BitMatrix::new(w, h);
    for y in y0..=y1 {
        for x in x0..=x1 {
            im.set(x, y, true);
        }
    }
    im
}

#[test]
fn all_background_white_rect_fails() {
    let im = BitMatrix::new(20, 20);
    let d = WhiteRectangleDetector::new_from_image(&im).unwrap();
    assert!(d.detect().is_err());
}

#[test]
fn all_background_monochrome_fails() {
    let im = BitMatrix::new(20, 20);
    let d = MonochromeRectangleDetector::new(&im);
    assert!(d.detect().is_err());
}

#[test]
fn empty_image_both_fail() {
    let im = BitMatrix::new(0, 0);
    assert!(WhiteRectangleDetector::new_from_image(&im).is_err());
    let d = MonochromeRectangleDetector::new(&im);
    assert!(d.detect().is_err());
}

#[test]
fn white_rect_margin_rectangle_bbox_within_two() {
    // One axis-aligned foreground rectangle with background margin on
    // all sides, crossing the default initial window.
    let im = image_with_rect(30, 30, 8, 21, 9, 20);
    let d = WhiteRectangleDetector::new_from_image(&im).unwrap();
    let q = d.detect().unwrap();
    let xs = [q.top.x, q.left.x, q.right.x, q.bottom.x];
    let ys = [q.top.y, q.left.y, q.right.y, q.bottom.y];
    let minx = *xs.iter().min().unwrap();
    let maxx = *xs.iter().max().unwrap();
    let miny = *ys.iter().min().unwrap();
    let maxy = *ys.iter().max().unwrap();
    assert!((minx - 8).abs() <= 2, "minx {minx}");
    assert!((maxx - 21).abs() <= 2, "maxx {maxx}");
    assert!((miny - 9).abs() <= 2, "miny {miny}");
    assert!((maxy - 20).abs() <= 2, "maxy {maxy}");
}

#[test]
fn white_rect_margin_rectangle_exact_corners() {
    let im = image_with_rect(30, 30, 8, 21, 9, 20);
    let d = WhiteRectangleDetector::new_from_image(&im).unwrap();
    let q = d.detect().unwrap();
    assert_eq!(q.top, Point { x: 9, y: 10 });
    assert_eq!(q.left, Point { x: 9, y: 19 });
    assert_eq!(q.right, Point { x: 20, y: 10 });
    assert_eq!(q.bottom, Point { x: 20, y: 19 });
}

#[test]
fn quadrilateral_point_order() {
    // top has the smallest y, bottom the largest, left the smaller x of
    // the middle pair, on a non-degenerate input.
    let im = image_with_rect(30, 30, 8, 21, 9, 20);
    let d = WhiteRectangleDetector::new_from_image(&im).unwrap();
    let q = d.detect().unwrap();
    assert!(q.top.y <= q.left.y && q.top.y <= q.right.y);
    assert!(q.left.y <= q.bottom.y && q.right.y <= q.bottom.y);
    assert!(q.left.x <= q.right.x);

    let im2 = image_with_rect(20, 20, 5, 14, 5, 14);
    let d2 = MonochromeRectangleDetector::new(&im2);
    let q2 = d2.detect().unwrap();
    assert!(q2.top.y <= q2.left.y && q2.top.y <= q2.right.y);
    assert!(q2.left.y <= q2.bottom.y && q2.right.y <= q2.bottom.y);
    assert!(q2.left.x <= q2.right.x);
}

#[test]
fn detect_is_deterministic() {
    let im = image_with_rect(30, 30, 8, 21, 9, 20);
    let d = WhiteRectangleDetector::new_from_image(&im).unwrap();
    assert_eq!(d.detect(), d.detect());

    let im2 = image_with_rect(20, 20, 5, 14, 5, 14);
    let d2 = MonochromeRectangleDetector::new(&im2);
    assert_eq!(d2.detect(), d2.detect());

    let blank = BitMatrix::new(16, 16);
    let d3 = WhiteRectangleDetector::new_from_image(&blank).unwrap();
    assert_eq!(d3.detect(), d3.detect());
}

#[test]
fn out_of_image_window_fails_at_construction() {
    let im = BitMatrix::new(10, 10);
    // Window sticks out on the left and top.
    assert!(WhiteRectangleDetector::new(&im, 10, 2, 2).is_err());
    // Window sticks out on the right.
    assert!(WhiteRectangleDetector::new(&im, 10, 8, 5).is_err());
    // Window sticks out on the bottom.
    assert!(WhiteRectangleDetector::new(&im, 10, 5, 8).is_err());
    // Image too small for the auto-centered window.
    let tiny = BitMatrix::new(5, 5);
    assert!(WhiteRectangleDetector::new_from_image(&tiny).is_err());
    // A window that fits is accepted, and can only fail later inside
    // detect(), never because of its bounds.
    let d = WhiteRectangleDetector::new(&im, 6, 5, 5);
    assert!(d.is_ok());
}

#[test]
fn centered_square_monochrome_detects_near_square() {
    // 20x20 background with a 10x10 foreground square on rows and
    // columns 5 through 14.
    let im = image_with_rect(20, 20, 5, 14, 5, 14);
    let d = MonochromeRectangleDetector::new(&im);
    let q = d.detect().unwrap();
    for p in [q.top, q.left, q.right, q.bottom] {
        assert!(4 <= p.x && p.x <= 16, "x {}", p.x);
        assert!(4 <= p.y && p.y <= 16, "y {}", p.y);
    }
    assert_eq!(q.top, Point { x: 14, y: 5 });
    assert_eq!(q.left, Point { x: 5, y: 5 });
    assert_eq!(q.right, Point { x: 14, y: 14 });
    assert_eq!(q.bottom, Point { x: 5, y: 14 });
    // The border-growth detector cannot handle this image: the square
    // ends exactly where its initial window borders start, so the right
    // border only ever sees background and runs off the edge.
    let dw = WhiteRectangleDetector::new_from_image(&im).unwrap();
    assert!(dw.detect().is_err());
}

#[test]
fn one_pixel_wide_region_fails_border_growth() {
    // A single-pixel-wide vertical line inside the initial window: the
    // right border starts past the line, never sees foreground, and
    // growth runs off the image edge.
    let mut im = BitMatrix::new(20, 20);
    for y in 0..20 {
        im.set(10, y, true);
    }
    let d = WhiteRectangleDetector::new_from_image(&im).unwrap();
    assert!(d.detect().is_err());
}

#[test]
fn bit_matrix_set_and_probe() {
    let mut im = BitMatrix::new(4, 3);
    assert_eq!(im.getWidth(), 4);
    assert_eq!(im.getHeight(), 3);
    assert!(!im.get(2, 1));
    im.set(2, 1, true);
    assert!(im.get(2, 1));
    assert!(im.probe(2, 1));
    im.set(2, 1, false);
    assert!(!im.get(2, 1));
    // Probes outside the image report background.
    assert!(!im.probe(-1, 0));
    assert!(!im.probe(0, -1));
    assert!(!im.probe(4, 0));
    assert!(!im.probe(0, 3));
}

#[test]
fn monochrome_bridges_small_background_gap() {
    // Two bars separated by a one-pixel background gap: the gap is
    // within the white-run tolerance, so the scan-line search bridges
    // it and the region spans both bars.
    let mut im = BitMatrix::new(20, 20);
    for y in 5..=14 {
        for x in 5..=8 {
            im.set(x, y, true);
        }
        for x in 10..=14 {
            im.set(x, y, true);
        }
    }
    let d = MonochromeRectangleDetector::new(&im);
    let q = d.detect().unwrap();
    assert_eq!(q.top, Point { x: 14, y: 5 });
    assert_eq!(q.left, Point { x: 10, y: 5 });
    assert_eq!(q.right, Point { x: 14, y: 14 });
    assert_eq!(q.bottom, Point { x: 14, y: 14 });
}

#[test]
fn negative_window_size_is_accepted_then_fails_detection() {
    // A negative initial size gives a window with crossed bounds; the
    // bounds still lie inside the image, so construction succeeds, and
    // the degenerate window then fails detection.
    let mut im = BitMatrix::new(10, 10);
    im.set(5, 5, true);
    let d = WhiteRectangleDetector::new(&im, -4, 5, 5).unwrap();
    assert!(d.detect().is_err());
}
