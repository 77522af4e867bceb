//! Extraction of rectangle regions drawn in PDF page content streams.
//!
//! The crate interprets the drawing-operator sequence of a page, tracks the
//! graphics state and the current transformation matrix, recognizes
//! rectangle-drawing operators, classifies how each rectangle is painted,
//! filters rectangles by target colors, and aggregates the kept rectangles
//! over the pages of a document.  An alternate path reads declared signature
//! form fields instead of drawing operators.
//!
//! All coordinates, widths, color operands and transform entries are
//! fixed-point integers in thousandths of a PDF user-space unit, with
//! products scaled back by a rounded division, so fractional scales carry
//! through.  Loading a document, decompressing and tokenizing its
//! content streams, and serializing results are left to the caller, which
//! hands this crate plain operator lists.

pub mod bytes;
pub mod color;
pub mod geometry;
pub mod histogram;
pub mod interp;
pub mod latex;
pub mod laws;
pub mod ops;
pub mod records;
pub mod state;
pub mod transform;
pub mod typst;
