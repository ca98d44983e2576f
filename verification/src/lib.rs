//! Locating barcode-like rectangular regions in binarized raster images.
//!
//! The heart of the crate is a pair of scan-based region detectors that turn
//! a boolean pixel grid into a four-corner quadrilateral bounding a candidate
//! symbol: a legacy center-outward corner scanner and a border-growth
//! detector with diagonal corner scans.  A few small companion components
//! used by the surrounding decoding pipeline live alongside them.
#![allow(non_snake_case)]
#![allow(non_camel_case_types)]

pub mod bit_matrix;
pub mod client_result;
pub mod geom;
pub mod monochrome;
pub mod oned;
pub mod pdf417;
pub mod qr_result;
pub mod region_detector;
pub mod white_rect;

pub use bit_matrix::BitMatrix;
pub use geom::Point;
pub use geom::Quadrilateral;
pub use geom::RegionNotFound;
pub use monochrome::MonochromeRectangleDetector;
pub use region_detector::RegionDetector;
