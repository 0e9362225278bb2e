//! Error of the whole decoding pipeline.

use vstd::prelude::*;

use crate::parse;
use crate::parse::raw;

verus! {

/// The first error met along `bytes -> raw class file -> class`: either
/// the raw decoder or the resolution stage failed.
#[derive(Debug, Clone, Copy, PartialEq, Eq, Structural)]
pub enum Error {
    /// The raw decoder failed.
    ParseRaw(raw::Error),
    /// The resolution stage failed.
    Parse(parse::error::Error),
}

} // verus!
