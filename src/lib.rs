//! Byte-frequency histograms of a file's contents, and the state of a viewer
//! that shows them.

pub mod histogram;
pub mod viewer;
