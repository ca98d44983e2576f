//! The result handed back by a QR code detector: the sampled bit grid and
//! the significant points found while detecting.

use vstd::prelude::*;

use crate::bit_matrix::BitMatrix;
use crate::geom::Point;

verus! {

/// A detector result: a grid of sampled module bits together with the
/// points (finder patterns, corners) that located it.
pub struct QRCodeDetectorResult {
    bit_source: BitMatrix,
    result_points: Vec<Point>,
}

impl QRCodeDetectorResult {
    pub closed spec fn spec_bits(&self) -> BitMatrix {
        self.bit_source
    }

    pub closed spec fn spec_points(&self) -> Seq<Point> {
        self.result_points@
    }

    pub fn new(bit_source: BitMatrix, result_points: Vec<Point>) -> (r: QRCodeDetectorResult)
        ensures
            r.spec_bits() == bit_source,
            r.spec_points() == result_points@,
    {
        QRCodeDetectorResult { bit_source, result_points }
    }

    pub fn getBits(&self) -> (r: &BitMatrix)
        ensures
            *r == self.spec_bits(),
    {
        &self.bit_source
    }

    pub fn getPoints(&self) -> (r: &Vec<Point>)
        ensures
            r@ == self.spec_points(),
    {
        &self.result_points
    }
}

} // verus!
