//! Decoder for the constant pool of a Java class file.
//!
//! The pipeline is a single forward pass over the input bytes: a
//! bounds-checked [`cursor::Cursor`] feeds a tag-dispatching raw decoder
//! ([`parse::raw::ClassFile`]), whose ordered sequence of tagged records is
//! then validated and re-indexed into kind-homogeneous dense arrays
//! ([`parse::constant_pool::ConstantPool`]). Malformed input always yields a
//! typed error; no input panics.

use vstd::prelude::*;

pub mod cursor;
pub mod error;
pub mod parse;

verus! {

/// The whole decoding as one function of the input bytes: raw decoding,
/// then resolution, with fail-fast propagation of the first error met.
pub open spec fn spec_parse(source: Seq<u8>) -> Result<parse::ClassView, error::Error> {
    match parse::raw::spec_parse_class_file(source) {
        Err(e) => Err(error::Error::ParseRaw(e)),
        Ok(raw_file) => match parse::spec_parse_class(raw_file) {
            Err(e) => Err(error::Error::Parse(e)),
            Ok(class) => Ok(class),
        },
    }
}

/// Law: decoding is deterministic. The outcome — success or the exact
/// error — is a function of the input bytes alone, so decoding the same
/// byte sequence twice yields structurally identical results; [`parse`]
/// returns exactly [`spec_parse`] of its input.
pub proof fn lemma_parse_deterministic(first: Seq<u8>, second: Seq<u8>)
    requires
        first == second,
    ensures
        spec_parse(first) == spec_parse(second),
{
}

/// Decodes the raw, unresolved class file from `source`.
pub fn parse_raw_class_file(source: &[u8]) -> (r: Result<parse::raw::ClassFile, parse::raw::Error>)
    ensures
        match r {
            Ok(class_file) => parse::raw::spec_parse_class_file(source@) == Ok::<
                _,
                parse::raw::Error,
            >(class_file@),
            Err(e) => parse::raw::spec_parse_class_file(source@) == Err::<
                parse::raw::ClassFileView,
                _,
            >(e),
        },
{
    parse::raw::ClassFile::parse_bytes(source)
}

/// Resolves a decoded raw class file into a class.
pub fn parse_class(class_file: parse::raw::ClassFile) -> (r: Result<
    parse::Class,
    parse::error::Error,
>)
    ensures
        match r {
            Ok(class) => parse::spec_parse_class(class_file@) == Ok::<_, parse::error::Error>(
                class@,
            ),
            Err(e) => parse::spec_parse_class(class_file@) == Err::<parse::ClassView, _>(e),
        },
{
    parse::Class::parse_class_file(class_file)
}

/// Decodes and resolves a class from `source`, returning exactly what
/// [`spec_parse`] describes.
pub fn parse(source: &[u8]) -> (r: Result<parse::Class, error::Error>)
    ensures
        match r {
            Ok(class) => spec_parse(source@) == Ok::<_, error::Error>(class@),
            Err(e) => spec_parse(source@) == Err::<parse::ClassView, _>(e),
        },
{
    let class_file = match parse_raw_class_file(source) {
        Ok(v) => v,
        Err(e) => return Err(error::Error::ParseRaw(e)),
    };
    let class = match parse_class(class_file) {
        Ok(v) => v,
        Err(e) => return Err(error::Error::Parse(e)),
    };
    Ok(class)
}

} // verus!
