//! Error of the class assembly stage.

use vstd::prelude::*;

use crate::parse::constant_pool;

verus! {

/// Assembling a class can only fail in the resolution of its constant
/// pool; the resolver's error is carried through unchanged.
#[derive(Debug, Clone, Copy, PartialEq, Eq, Structural)]
pub enum Error {
    /// The constant pool failed to resolve.
    ConstantPool(constant_pool::Error),
}

} // verus!
