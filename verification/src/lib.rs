//! A verified line transformer in the style of the classic `cat` utility.
//!
//! The library turns a sequence of input lines into a sequence of output
//! lines under a small set of formatting options: line numbering, non-blank
//! line numbering, end-of-line markers, blank-line squeezing, tab
//! visualization, and a per-source line limit. The transform itself is pure
//! and fully specified; reading sources and writing output is left to the
//! surrounding program.

pub mod config;
pub mod text;
pub mod laws;
pub mod transform;
