//! The one capability the two rectangle detectors share: locate the
//! bounding quadrilateral of a barcode-like region, or fail with
//! `RegionNotFound`.  Callers pick a strategy and use it through this
//! interface.

use vstd::prelude::*;

use crate::geom::Quadrilateral;
use crate::geom::RegionNotFound;

verus! {

/// A single-shot, stateless region detection strategy bound to one
/// immutable image.
pub trait RegionDetector {
    /// Validity of the detector: its image is well formed and its
    /// search parameters lie inside the image.
    spec fn wf(&self) -> bool;

    /// The exact result `detect` returns, as a function of the
    /// detector alone; two calls on the same detector agree.
    spec fn spec_detect(&self) -> Result<Quadrilateral, RegionNotFound>;

    /// Finds the four-corner approximation of a candidate region.
    fn detect(&self) -> (r: Result<Quadrilateral, RegionNotFound>)
        requires
            self.wf(),
        ensures
            r == self.spec_detect(),
    ;
}

} // verus!
