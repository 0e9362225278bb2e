//! From raw records to a resolved class: the raw decoder ([`raw`]), the
//! constant-pool resolver ([`constant_pool`]), and the assembled result
//! ([`Class`]).

use vstd::prelude::*;

use crate::parse::constant_pool::ConstantPool;
use crate::parse::constant_pool::ConstantPoolView;
use crate::parse::constant_pool::spec_resolve;
use crate::parse::raw::ClassFile;
use crate::parse::raw::ClassFileView;

pub mod constant_pool;
pub mod error;
pub mod raw;

verus! {

/// The fixed 4-byte value identifying the file format.
#[derive(Debug, Clone, Copy, PartialEq, Eq, Structural)]
pub struct Magic(pub u32);

/// The format version: major, then minor.
#[derive(Debug, Clone, Copy, PartialEq, Eq, Structural)]
pub struct Version(pub u16, pub u16);

/// The assembled public result: magic number, version, and the resolved
/// constant pool. Owns all decoded data and outlives the input buffer.
#[derive(Debug, Clone, PartialEq)]
pub struct Class {
    /// The magic number.
    pub magic: Magic,
    /// The format version.
    pub version: Version,
    /// The resolved constant pool.
    pub constant_pool: ConstantPool,
}

/// The mathematical shape of a resolved class.
pub struct ClassView {
    /// Mirror of [`Class::magic`].
    pub magic: u32,
    /// Major format version.
    pub major: u16,
    /// Minor format version.
    pub minor: u16,
    /// Mirror of [`Class::constant_pool`].
    pub constant_pool: ConstantPoolView,
}

impl View for Class {
    type V = ClassView;

    open spec fn view(&self) -> ClassView {
        ClassView {
            magic: self.magic.0,
            major: self.version.0,
            minor: self.version.1,
            constant_pool: self.constant_pool@,
        }
    }
}

/// Assembling a class from a decoded raw file: header fields are wrapped
/// unchanged and the pool is resolved by
/// [`spec_resolve`](crate::parse::constant_pool::spec_resolve).
pub open spec fn spec_parse_class(raw_file: ClassFileView) -> Result<ClassView, error::Error> {
    match spec_resolve(raw_file.constant_pool, raw_file.constant_pool_count as int) {
        Ok(pool) => Ok(
            ClassView {
                magic: raw_file.magic,
                major: raw_file.major,
                minor: raw_file.minor,
                constant_pool: pool,
            },
        ),
        Err(e) => Err(error::Error::ConstantPool(e)),
    }
}

impl Class {
    /// Wraps the header fields and resolves the pool; purely a composition
    /// step, with no validation logic of its own.
    pub fn parse_class_file(class_file: ClassFile) -> (r: Result<Class, error::Error>)
        ensures
            match r {
                Ok(class) => spec_parse_class(class_file@) == Ok::<_, error::Error>(class@),
                Err(e) => spec_parse_class(class_file@) == Err::<ClassView, _>(e),
            },
    {
        let magic = Magic(class_file.magic);
        let version = Version(class_file.major, class_file.minor);

        let pool_slice = class_file.constant_pool.as_slice();
        proof {
            assert(pool_slice.deep_view() =~= class_file@.constant_pool);
        }
        let constant_pool = match ConstantPool::new(
            pool_slice,
            class_file.constant_pool_count as usize,
        ) {
            Ok(resolved) => resolved,
            Err(e) => return Err(error::Error::ConstantPool(e)),
        };

        Ok(Class { magic, version, constant_pool })
    }
}

} // verus!
