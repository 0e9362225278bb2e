//! The raw decoder: a single forward pass that turns the byte stream into
//! an ordered sequence of tagged constant records, preserving original slot
//! positions and resolving no cross-references.
//!
//! The whole decoding is mirrored at the specification level by
//! [`spec_parse_class_file`]; [`ClassFile::parse_bytes`] returns exactly
//! what that function describes, for every input.

use vstd::prelude::*;

use crate::cursor;
use crate::cursor::Cursor;
use crate::cursor::Integer;

verus! {

/// A decoded-but-unresolved class file: fixed header fields plus the
/// ordered raw constant pool.
///
/// The pool holds `constant_pool_count - 1` records when the count is at
/// least one: raw slot 0 is reserved by convention and never materialized,
/// so the record at (0-based) position `s` conceptually occupies raw slot
/// `s + 1`.
#[derive(Debug, Clone, PartialEq)]
pub struct ClassFile {
    /// The 4-byte magic number identifying the format.
    pub magic: u32,
    /// Minor format version.
    pub minor: u16,
    /// Major format version.
    pub major: u16,
    /// The count field as read from the header; one more than the number of
    /// materialized pool entries.
    pub constant_pool_count: u16,
    /// The raw constant pool, in original order.
    pub constant_pool: Vec<Constant>,
}

/// One tagged record of the raw constant pool. Index fields are raw 1-based
/// pool indices, not yet validated or resolved.
#[derive(Debug, Clone, PartialEq)]
pub enum Constant {
    /// Tag 7: a class reference; `name_index` must name a `Utf8` slot.
    Class { name_index: u16 },
    /// Tag 9: a field reference into a `Class` and a `NameAndType` slot.
    FieldRef { class_index: u16, name_and_type_index: u16 },
    /// Tag 10: a method reference into a `Class` and a `NameAndType` slot.
    MethodRef { class_index: u16, name_and_type_index: u16 },
    /// Tag 8: a string constant; `string_index` must name a `Utf8` slot.
    String { string_index: u16 },
    /// Tag 12: a name and a descriptor, both `Utf8` slots.
    NameAndType { name_index: u16, descriptor_index: u16 },
    /// Tag 1: a length-prefixed payload of UTF-8 text bytes.
    Utf8 { length: u16, bytes: Vec<u8> },
}

/// The mathematical shape of a raw constant: identical to [`Constant`],
/// with the `Utf8` payload as a byte sequence.
pub enum SpecConstant {
    /// Mirror of [`Constant::Class`].
    Class { name_index: u16 },
    /// Mirror of [`Constant::FieldRef`].
    FieldRef { class_index: u16, name_and_type_index: u16 },
    /// Mirror of [`Constant::MethodRef`].
    MethodRef { class_index: u16, name_and_type_index: u16 },
    /// Mirror of [`Constant::String`].
    String { string_index: u16 },
    /// Mirror of [`Constant::NameAndType`].
    NameAndType { name_index: u16, descriptor_index: u16 },
    /// Mirror of [`Constant::Utf8`].
    Utf8 { length: u16, bytes: Seq<u8> },
}

impl View for Constant {
    type V = SpecConstant;

    open spec fn view(&self) -> SpecConstant {
        match self {
            Constant::Class { name_index } => SpecConstant::Class { name_index: *name_index },
            Constant::FieldRef { class_index, name_and_type_index } => SpecConstant::FieldRef {
                class_index: *class_index,
                name_and_type_index: *name_and_type_index,
            },
            Constant::MethodRef { class_index, name_and_type_index } => SpecConstant::MethodRef {
                class_index: *class_index,
                name_and_type_index: *name_and_type_index,
            },
            Constant::String { string_index } => SpecConstant::String {
                string_index: *string_index,
            },
            Constant::NameAndType { name_index, descriptor_index } => SpecConstant::NameAndType {
                name_index: *name_index,
                descriptor_index: *descriptor_index,
            },
            Constant::Utf8 { length, bytes } => SpecConstant::Utf8 {
                length: *length,
                bytes: bytes@,
            },
        }
    }
}

impl DeepView for Constant {
    type V = SpecConstant;

    open spec fn deep_view(&self) -> SpecConstant {
        self.view()
    }
}

/// The mathematical shape of a raw class file, with the pool as a sequence.
pub struct ClassFileView {
    /// Mirror of [`ClassFile::magic`].
    pub magic: u32,
    /// Mirror of [`ClassFile::minor`].
    pub minor: u16,
    /// Mirror of [`ClassFile::major`].
    pub major: u16,
    /// Mirror of [`ClassFile::constant_pool_count`].
    pub constant_pool_count: u16,
    /// Mirror of [`ClassFile::constant_pool`].
    pub constant_pool: Seq<SpecConstant>,
}

impl View for ClassFile {
    type V = ClassFileView;

    open spec fn view(&self) -> ClassFileView {
        ClassFileView {
            magic: self.magic,
            minor: self.minor,
            major: self.major,
            constant_pool_count: self.constant_pool_count,
            constant_pool: self.constant_pool.deep_view(),
        }
    }
}

/// Raw decoding error: either the cursor ran out of bytes, or a tag byte
/// could not be dispatched.
#[derive(Debug, Clone, Copy, PartialEq, Eq, Structural)]
pub enum Error {
    /// A read ran past the end of the input.
    Cursor(cursor::Error),
    /// The tag byte matches no known constant kind.
    UnexpectedConstantTag(u8),
    /// The tag is recognized but its decoding is not implemented; such a
    /// record must fail rather than be silently skipped.
    Unsupported(u8),
}

/// The error for a read of `tried` bytes when only `left` remain.
pub open spec fn spec_read_past_end(tried: int, left: int) -> Error {
    Error::Cursor(cursor::Error::ReadPastEnd { tried: tried as usize, left: left as usize })
}

/// Reading one big-endian byte at `pos`: the value and the next offset.
pub open spec fn spec_parse_u8(bytes: Seq<u8>, pos: int) -> Result<(u8, int), Error> {
    if bytes.len() - pos < 1 {
        Err(spec_read_past_end(1, bytes.len() - pos))
    } else {
        Ok((u8::spec_from_be(bytes.subrange(pos, pos + 1)), pos + 1))
    }
}

/// Reading two big-endian bytes at `pos`: the value and the next offset.
pub open spec fn spec_parse_u16(bytes: Seq<u8>, pos: int) -> Result<(u16, int), Error> {
    if bytes.len() - pos < 2 {
        Err(spec_read_past_end(2, bytes.len() - pos))
    } else {
        Ok((u16::spec_from_be(bytes.subrange(pos, pos + 2)), pos + 2))
    }
}

/// Reading four big-endian bytes at `pos`: the value and the next offset.
pub open spec fn spec_parse_u32(bytes: Seq<u8>, pos: int) -> Result<(u32, int), Error> {
    if bytes.len() - pos < 4 {
        Err(spec_read_past_end(4, bytes.len() - pos))
    } else {
        Ok((u32::spec_from_be(bytes.subrange(pos, pos + 4)), pos + 4))
    }
}

/// One tagged record read at `pos`: a 1-byte tag, then the payload that the
/// tag dictates. Recognized-but-unimplemented tags fail with
/// [`Error::Unsupported`]; unknown tags with [`Error::UnexpectedConstantTag`].
pub open spec fn spec_parse_constant(bytes: Seq<u8>, pos: int) -> Result<
    (SpecConstant, int),
    Error,
> {
    match spec_parse_u8(bytes, pos) {
        Err(e) => Err(e),
        Ok((tag, p)) => {
            if tag == 1 {
                match spec_parse_u16(bytes, p) {
                    Err(e) => Err(e),
                    Ok((length, q)) => {
                        if bytes.len() - q < length {
                            Err(spec_read_past_end(length as int, bytes.len() - q))
                        } else {
                            Ok(
                                (
                                    SpecConstant::Utf8 {
                                        length,
                                        bytes: bytes.subrange(q, q + length),
                                    },
                                    q + length,
                                ),
                            )
                        }
                    },
                }
            } else if tag == 7 {
                match spec_parse_u16(bytes, p) {
                    Err(e) => Err(e),
                    Ok((name_index, q)) => Ok((SpecConstant::Class { name_index }, q)),
                }
            } else if tag == 8 {
                match spec_parse_u16(bytes, p) {
                    Err(e) => Err(e),
                    Ok((string_index, q)) => Ok((SpecConstant::String { string_index }, q)),
                }
            } else if tag == 9 {
                match spec_parse_u16(bytes, p) {
                    Err(e) => Err(e),
                    Ok((class_index, q)) => match spec_parse_u16(bytes, q) {
                        Err(e) => Err(e),
                        Ok((name_and_type_index, q2)) => Ok(
                            (SpecConstant::FieldRef { class_index, name_and_type_index }, q2),
                        ),
                    },
                }
            } else if tag == 10 {
                match spec_parse_u16(bytes, p) {
                    Err(e) => Err(e),
                    Ok((class_index, q)) => match spec_parse_u16(bytes, q) {
                        Err(e) => Err(e),
                        Ok((name_and_type_index, q2)) => Ok(
                            (SpecConstant::MethodRef { class_index, name_and_type_index }, q2),
                        ),
                    },
                }
            } else if tag == 12 {
                match spec_parse_u16(bytes, p) {
                    Err(e) => Err(e),
                    Ok((name_index, q)) => match spec_parse_u16(bytes, q) {
                        Err(e) => Err(e),
                        Ok((descriptor_index, q2)) => Ok(
                            (SpecConstant::NameAndType { name_index, descriptor_index }, q2),
                        ),
                    },
                }
            } else if tag == 3 || tag == 4 || tag == 5 || tag == 6 || tag == 11 || tag == 15
                || tag == 16 || tag == 18 {
                Err(Error::Unsupported(tag))
            } else {
                Err(Error::UnexpectedConstantTag(tag))
            }
        },
    }
}

/// Prepends one record to the result of parsing the records after it.
pub open spec fn spec_cons_constant(
    c: SpecConstant,
    rest: Result<(Seq<SpecConstant>, int), Error>,
) -> Result<(Seq<SpecConstant>, int), Error> {
    match rest {
        Ok((tail, end)) => Ok((seq![c] + tail, end)),
        Err(e) => Err(e),
    }
}

/// `n` consecutive tagged records starting at `pos`: the records in order
/// and the offset after the last one, or the first error met.
pub open spec fn spec_parse_pool(bytes: Seq<u8>, pos: int, n: nat) -> Result<
    (Seq<SpecConstant>, int),
    Error,
>
    decreases n,
{
    if n == 0 {
        Ok((Seq::empty(), pos))
    } else {
        match spec_parse_constant(bytes, pos) {
            Err(e) => Err(e),
            Ok((c, p)) => spec_cons_constant(c, spec_parse_pool(bytes, p, (n - 1) as nat)),
        }
    }
}

/// The whole raw decoding: header fields in fixed order, then the pool.
/// A zero `constant_pool_count` yields an empty pool; otherwise the pool
/// holds `constant_pool_count - 1` records. Trailing bytes are ignored.
pub open spec fn spec_parse_class_file(bytes: Seq<u8>) -> Result<ClassFileView, Error> {
    match spec_parse_u32(bytes, 0) {
        Err(e) => Err(e),
        Ok((magic, p1)) => match spec_parse_u16(bytes, p1) {
            Err(e) => Err(e),
            Ok((minor, p2)) => match spec_parse_u16(bytes, p2) {
                Err(e) => Err(e),
                Ok((major, p3)) => match spec_parse_u16(bytes, p3) {
                    Err(e) => Err(e),
                    Ok((count, p4)) => {
                        let n = if count == 0 {
                            0nat
                        } else {
                            (count - 1) as nat
                        };
                        match spec_parse_pool(bytes, p4, n) {
                            Err(e) => Err(e),
                            Ok((pool, _end)) => Ok(
                                ClassFileView {
                                    magic,
                                    minor,
                                    major,
                                    constant_pool_count: count,
                                    constant_pool: pool,
                                },
                            ),
                        }
                    },
                },
            },
        },
    }
}

/// Reads one tagged record at the cursor's position.
fn parse_constant(cursor: &mut Cursor) -> (r: Result<Constant, Error>)
    requires
        old(cursor).wf(),
    ensures
        final(cursor).wf(),
        final(cursor).data() == old(cursor).data(),
        match r {
            Ok(c) => spec_parse_constant(old(cursor).data(), old(cursor).position())
                == Ok::<_, Error>((c@, final(cursor).position())),
            Err(e) => spec_parse_constant(old(cursor).data(), old(cursor).position())
                == Err::<(SpecConstant, int), _>(e),
        },
{
    let tag = match cursor.read_integer::<u8>() {
        Ok(v) => v,
        Err(e) => return Err(Error::Cursor(e)),
    };
    match tag {
        1 => {
            let length = match cursor.read_integer::<u16>() {
                Ok(v) => v,
                Err(e) => return Err(Error::Cursor(e)),
            };
            let bytes = match cursor.read_bytes(length as usize) {
                Ok(v) => v,
                Err(e) => return Err(Error::Cursor(e)),
            };
            Ok(Constant::Utf8 { length, bytes })
        },
        7 => {
            let name_index = match cursor.read_integer::<u16>() {
                Ok(v) => v,
                Err(e) => return Err(Error::Cursor(e)),
            };
            Ok(Constant::Class { name_index })
        },
        8 => {
            let string_index = match cursor.read_integer::<u16>() {
                Ok(v) => v,
                Err(e) => return Err(Error::Cursor(e)),
            };
            Ok(Constant::String { string_index })
        },
        9 => {
            let class_index = match cursor.read_integer::<u16>() {
                Ok(v) => v,
                Err(e) => return Err(Error::Cursor(e)),
            };
            let name_and_type_index = match cursor.read_integer::<u16>() {
                Ok(v) => v,
                Err(e) => return Err(Error::Cursor(e)),
            };
            Ok(Constant::FieldRef { class_index, name_and_type_index })
        },
        10 => {
            let class_index = match cursor.read_integer::<u16>() {
                Ok(v) => v,
                Err(e) => return Err(Error::Cursor(e)),
            };
            let name_and_type_index = match cursor.read_integer::<u16>() {
                Ok(v) => v,
                Err(e) => return Err(Error::Cursor(e)),
            };
            Ok(Constant::MethodRef { class_index, name_and_type_index })
        },
        12 => {
            let name_index = match cursor.read_integer::<u16>() {
                Ok(v) => v,
                Err(e) => return Err(Error::Cursor(e)),
            };
            let descriptor_index = match cursor.read_integer::<u16>() {
                Ok(v) => v,
                Err(e) => return Err(Error::Cursor(e)),
            };
            Ok(Constant::NameAndType { name_index, descriptor_index })
        },
        3 | 4 | 5 | 6 | 11 | 15 | 16 | 18 => Err(Error::Unsupported(tag)),
        _ => Err(Error::UnexpectedConstantTag(tag)),
    }
}

/// Appending a parsed prefix in front of what the remaining records parse
/// to; [`ClassFile::parse_bytes`] keeps this composition invariant while it
/// walks the pool.
pub open spec fn spec_combine_pool(
    prefix: Seq<SpecConstant>,
    rest: Result<(Seq<SpecConstant>, int), Error>,
) -> Result<(Seq<SpecConstant>, int), Error> {
    match rest {
        Ok((tail, end)) => Ok((prefix + tail, end)),
        Err(e) => Err(e),
    }
}

proof fn lemma_combine_empty(rest: Result<(Seq<SpecConstant>, int), Error>)
    ensures
        spec_combine_pool(Seq::empty(), rest) == rest,
{
    match rest {
        Ok((tail, end)) => {
            assert(Seq::empty() + tail =~= tail);
        },
        Err(_) => {},
    }
}

proof fn lemma_combine_step(
    prefix: Seq<SpecConstant>,
    c: SpecConstant,
    rest: Result<(Seq<SpecConstant>, int), Error>,
)
    ensures
        spec_combine_pool(prefix.push(c), rest) == spec_combine_pool(
            prefix,
            spec_cons_constant(c, rest),
        ),
{
    match rest {
        Ok((tail, end)) => {
            assert(prefix.push(c) + tail =~= prefix + (seq![c] + tail));
        },
        Err(_) => {},
    }
}

impl ClassFile {
    /// Decodes a complete raw class file from `bytes`, returning exactly
    /// what [`spec_parse_class_file`] describes.
    #[verifier::loop_isolation(false)]
    pub fn parse_bytes(bytes: &[u8]) -> (r: Result<ClassFile, Error>)
        ensures
            match r {
                Ok(class_file) => spec_parse_class_file(bytes@) == Ok::<_, Error>(class_file@),
                Err(e) => spec_parse_class_file(bytes@) == Err::<ClassFileView, _>(e),
            },
    {
        let mut cursor = Cursor::new(bytes);

        let magic = match cursor.read_integer::<u32>() {
            Ok(v) => v,
            Err(e) => return Err(Error::Cursor(e)),
        };
        let minor = match cursor.read_integer::<u16>() {
            Ok(v) => v,
            Err(e) => return Err(Error::Cursor(e)),
        };
        let major = match cursor.read_integer::<u16>() {
            Ok(v) => v,
            Err(e) => return Err(Error::Cursor(e)),
        };
        let count = match cursor.read_integer::<u16>() {
            Ok(v) => v,
            Err(e) => return Err(Error::Cursor(e)),
        };

        let n: usize = if count == 0 {
            0
        } else {
            (count - 1) as usize
        };
        let ghost start_pos = cursor.position();

        let mut pool: Vec<Constant> = Vec::new();
        proof {
            lemma_combine_empty(spec_parse_pool(bytes@, start_pos, n as nat));
        }
        let mut i: usize = 0;
        while i < n
            invariant
                cursor.wf(),
                cursor.data() == bytes@,
                i <= n,
                pool@.len() == i,
                spec_combine_pool(
                    pool.deep_view(),
                    spec_parse_pool(bytes@, cursor.position(), (n - i) as nat),
                ) == spec_parse_pool(bytes@, start_pos, n as nat),
            decreases n - i,
        {
            let ghost pool_before = pool.deep_view();
            match parse_constant(&mut cursor) {
                Ok(c) => {
                    proof {
                        lemma_combine_step(
                            pool_before,
                            c@,
                            spec_parse_pool(bytes@, cursor.position(), (n - i - 1) as nat),
                        );
                    }
                    pool.push(c);
                    proof {
                        assert(pool.deep_view() =~= pool_before.push(c@));
                    }
                },
                Err(e) => {
                    return Err(e);
                },
            }
            i = i + 1;
        }
        proof {
            assert(pool.deep_view() + Seq::empty() =~= pool.deep_view());
        }
        Ok(ClassFile { magic, minor, major, constant_pool_count: count, constant_pool: pool })
    }
}

} // verus!
