//! The constant-pool resolver: validates every cross-reference of the raw
//! pool and re-indexes each constant kind into its own dense array.
//!
//! Resolution is two passes over the raw sequence. Pass 1 assigns each
//! record of a reference-target kind the next unused 0-based index of that
//! kind's array, in original order (see [`IndexKeeper`]). Pass 2 checks
//! every raw index — range, then kind of the referenced slot — and rewrites
//! it through the pass-1 table into an index of the target kind's array.
//! The whole computation is mirrored at the specification level by
//! [`spec_resolve`], and [`ConstantPool::new`] returns exactly what that
//! function describes.

use vstd::prelude::*;
use vstd::utf8::decode_utf8;
use vstd::utf8::valid_utf8;

use crate::parse::raw::Constant;
use crate::parse::raw::SpecConstant;

verus! {

/// The kind of a raw constant record, used to state what a reference was
/// expected to name and what it actually named.
#[derive(Debug, Clone, Copy, PartialEq, Eq, Structural)]
pub enum ConstantKind {
    /// A class reference record.
    Class,
    /// A field reference record.
    FieldRef,
    /// A method reference record.
    MethodRef,
    /// A string constant record.
    String,
    /// A name-and-descriptor record.
    NameAndType,
    /// A text record.
    Utf8,
}

/// Resolution error. Failure aborts resolution entirely; no partial pool is
/// ever returned.
#[derive(Debug, Clone, Copy, PartialEq, Eq, Structural)]
pub enum Error {
    /// A reference index falls outside the occupied pool range; carries the
    /// normalised (0-based) slot.
    OutOfRangeIndex(usize),
    /// A reference names a slot of the wrong kind.
    UnexpectedConstantKind {
        /// The kind the reference must name.
        expected: ConstantKind,
        /// The kind the referenced slot actually holds.
        actual: ConstantKind,
    },
    /// A `Utf8` payload is not valid UTF-8 text.
    Utf8DecodeError,
}

/// The kind of a raw record.
pub open spec fn kind_of(c: SpecConstant) -> ConstantKind {
    match c {
        SpecConstant::Class { .. } => ConstantKind::Class,
        SpecConstant::FieldRef { .. } => ConstantKind::FieldRef,
        SpecConstant::MethodRef { .. } => ConstantKind::MethodRef,
        SpecConstant::String { .. } => ConstantKind::String,
        SpecConstant::NameAndType { .. } => ConstantKind::NameAndType,
        SpecConstant::Utf8 { .. } => ConstantKind::Utf8,
    }
}

impl ConstantKind {
    /// The kind of the given raw record.
    pub fn of(constant: &Constant) -> (k: ConstantKind)
        ensures
            k == kind_of(constant@),
    {
        match constant {
            Constant::Class { .. } => ConstantKind::Class,
            Constant::FieldRef { .. } => ConstantKind::FieldRef,
            Constant::MethodRef { .. } => ConstantKind::MethodRef,
            Constant::String { .. } => ConstantKind::String,
            Constant::NameAndType { .. } => ConstantKind::NameAndType,
            Constant::Utf8 { .. } => ConstantKind::Utf8,
        }
    }
}

/// How many records among `pool` are of kind `kind`.
pub open spec fn kind_count(pool: Seq<SpecConstant>, kind: ConstantKind) -> nat
    decreases pool.len(),
{
    if pool.len() == 0 {
        0
    } else {
        kind_count(pool.drop_last(), kind) + (if kind_of(pool.last()) == kind {
            1nat
        } else {
            0nat
        })
    }
}

/// There are never more records of one kind than records.
pub proof fn lemma_kind_count_le(pool: Seq<SpecConstant>, kind: ConstantKind)
    ensures
        kind_count(pool, kind) <= pool.len(),
    decreases pool.len(),
{
    if pool.len() > 0 {
        lemma_kind_count_le(pool.drop_last(), kind);
    }
}

/// Extending a prefix by one record raises its kind count by one exactly
/// when the new record is of that kind.
pub proof fn lemma_kind_count_take_step(pool: Seq<SpecConstant>, kind: ConstantKind, k: int)
    requires
        0 <= k < pool.len(),
    ensures
        kind_count(pool.take(k + 1), kind) == kind_count(pool.take(k), kind) + (if kind_of(
            pool[k],
        ) == kind {
            1int
        } else {
            0int
        }),
{
    assert(pool.take(k + 1).drop_last() =~= pool.take(k));
    assert(pool.take(k + 1).last() == pool[k]);
}

/// The 0-based slot that raw index `raw_index` names; raw indices are
/// 1-based, so this is `raw_index - 1`. Index 0 names no slot and is mapped
/// to `usize::MAX`, which no pool can occupy.
pub open spec fn spec_normalise_index(raw_index: u16) -> usize {
    if raw_index == 0 {
        usize::MAX
    } else {
        (raw_index - 1) as usize
    }
}

/// Converts a raw 1-based pool index to a 0-based offset into the decoded
/// sequence.
fn normalise_index(index: &u16) -> (r: usize)
    requires
        *index >= 1,
    ensures
        r == *index - 1,
{
    (*index as usize) - 1
}

/// Resolving one reference. Raw index `raw_index` is valid when it lies in
/// `1..=max_index` and its slot exists in the decoded sequence; the slot
/// must then hold a record of kind `expected`. On success the reference
/// becomes the slot's 0-based position among the records of that kind,
/// which is exactly the index pass 1 assigned it.
pub open spec fn spec_resolve_ref(
    pool: Seq<SpecConstant>,
    raw_index: u16,
    max_index: int,
    expected: ConstantKind,
) -> Result<usize, Error> {
    if !(1 <= raw_index && raw_index <= max_index && raw_index - 1 < pool.len()) {
        Err(Error::OutOfRangeIndex(spec_normalise_index(raw_index)))
    } else if kind_of(pool[raw_index - 1]) != expected {
        Err(
            Error::UnexpectedConstantKind {
                expected,
                actual: kind_of(pool[raw_index - 1]),
            },
        )
    } else {
        Ok(kind_count(pool.take(raw_index - 1), expected) as usize)
    }
}

/// A resolved class constant: `name_index` points into the resolved `Utf8`
/// array.
#[derive(Debug, Clone, Copy, PartialEq, Eq, Structural)]
pub struct Class {
    /// Index of the class name in the resolved `Utf8` array.
    pub name_index: usize,
}

/// A resolved field reference: indices point into the resolved `Class` and
/// `NameAndType` arrays.
#[derive(Debug, Clone, Copy, PartialEq, Eq, Structural)]
pub struct FieldRef {
    /// Index of the owning class in the resolved `Class` array.
    pub class_index: usize,
    /// Index of the name and descriptor in the resolved `NameAndType` array.
    pub name_and_type_index: usize,
}

/// A resolved method reference: indices point into the resolved `Class` and
/// `NameAndType` arrays.
#[derive(Debug, Clone, Copy, PartialEq, Eq, Structural)]
pub struct MethodRef {
    /// Index of the owning class in the resolved `Class` array.
    pub class_index: usize,
    /// Index of the name and descriptor in the resolved `NameAndType` array.
    pub name_and_type_index: usize,
}

/// A resolved string constant: `string_index` points into the resolved
/// `Utf8` array.
#[derive(Debug, Clone, Copy, PartialEq, Eq, Structural)]
pub struct StringConstant {
    /// Index of the text in the resolved `Utf8` array.
    pub string_index: usize,
}

/// A resolved name-and-descriptor pair: both indices point into the
/// resolved `Utf8` array.
#[derive(Debug, Clone, Copy, PartialEq, Eq, Structural)]
pub struct NameAndType {
    /// Index of the name in the resolved `Utf8` array.
    pub name_index: usize,
    /// Index of the descriptor in the resolved `Utf8` array.
    pub descriptor_index: usize,
}

/// A resolved text constant: the payload decoded as UTF-8 text.
#[derive(Debug, Clone, PartialEq, Eq)]
pub struct Utf8 {
    /// The decoded text.
    pub bytes: String,
}

impl View for Utf8 {
    type V = Seq<char>;

    open spec fn view(&self) -> Seq<char> {
        self.bytes@
    }
}

impl DeepView for Utf8 {
    type V = Seq<char>;

    open spec fn deep_view(&self) -> Seq<char> {
        self.bytes@
    }
}

/// The resolved constant pool: one dense, 0-based array per kind, each in
/// first-seen raw order. Cross-references inside entries are indices into
/// the target kind's array, never into the raw pool.
#[derive(Debug, Clone, PartialEq)]
pub struct ConstantPool {
    /// Resolved class constants.
    pub classes: Vec<Class>,
    /// Resolved field references.
    pub field_refs: Vec<FieldRef>,
    /// Resolved method references.
    pub method_refs: Vec<MethodRef>,
    /// Resolved string constants.
    pub strings: Vec<StringConstant>,
    /// Resolved name-and-descriptor pairs.
    pub name_and_types: Vec<NameAndType>,
    /// Resolved text constants.
    pub utf8s: Vec<Utf8>,
}

/// The mathematical shape of a resolved pool.
pub struct ConstantPoolView {
    /// Mirror of [`ConstantPool::classes`].
    pub classes: Seq<Class>,
    /// Mirror of [`ConstantPool::field_refs`].
    pub field_refs: Seq<FieldRef>,
    /// Mirror of [`ConstantPool::method_refs`].
    pub method_refs: Seq<MethodRef>,
    /// Mirror of [`ConstantPool::strings`].
    pub strings: Seq<StringConstant>,
    /// Mirror of [`ConstantPool::name_and_types`].
    pub name_and_types: Seq<NameAndType>,
    /// Mirror of [`ConstantPool::utf8s`], each text as its characters.
    pub utf8s: Seq<Seq<char>>,
}

impl View for ConstantPool {
    type V = ConstantPoolView;

    open spec fn view(&self) -> ConstantPoolView {
        ConstantPoolView {
            classes: self.classes@,
            field_refs: self.field_refs@,
            method_refs: self.method_refs@,
            strings: self.strings@,
            name_and_types: self.name_and_types@,
            utf8s: self.utf8s.deep_view(),
        }
    }
}

/// The resolved `Utf8` array over the first `k` raw records: each `Utf8`
/// payload decoded, in order, or the first decode failure.
pub open spec fn spec_utf8s(pool: Seq<SpecConstant>, k: int) -> Result<Seq<Seq<char>>, Error>
    decreases k,
{
    if k <= 0 {
        Ok(Seq::empty())
    } else {
        match spec_utf8s(pool, k - 1) {
            Err(e) => Err(e),
            Ok(done) => match pool[k - 1] {
                SpecConstant::Utf8 { bytes, .. } => {
                    if valid_utf8(bytes) {
                        Ok(done.push(decode_utf8(bytes)))
                    } else {
                        Err(Error::Utf8DecodeError)
                    }
                },
                _ => Ok(done),
            },
        }
    }
}

/// The resolved `Class` array over the first `k` raw records: each class
/// name reference checked against the `Utf8` kind and translated, or the
/// first failure.
pub open spec fn spec_classes(pool: Seq<SpecConstant>, count: int, k: int) -> Result<
    Seq<Class>,
    Error,
>
    decreases k,
{
    if k <= 0 {
        Ok(Seq::empty())
    } else {
        match spec_classes(pool, count, k - 1) {
            Err(e) => Err(e),
            Ok(done) => match pool[k - 1] {
                SpecConstant::Class { name_index } => {
                    match spec_resolve_ref(pool, name_index, count - 1, ConstantKind::Utf8) {
                        Err(e) => Err(e),
                        Ok(resolved) => Ok(done.push(Class { name_index: resolved })),
                    }
                },
                _ => Ok(done),
            },
        }
    }
}

/// The resolved string array over the first `k` raw records.
pub open spec fn spec_strings(pool: Seq<SpecConstant>, count: int, k: int) -> Result<
    Seq<StringConstant>,
    Error,
>
    decreases k,
{
    if k <= 0 {
        Ok(Seq::empty())
    } else {
        match spec_strings(pool, count, k - 1) {
            Err(e) => Err(e),
            Ok(done) => match pool[k - 1] {
                SpecConstant::String { string_index } => {
                    match spec_resolve_ref(pool, string_index, count - 1, ConstantKind::Utf8) {
                        Err(e) => Err(e),
                        Ok(resolved) => Ok(done.push(StringConstant { string_index: resolved })),
                    }
                },
                _ => Ok(done),
            },
        }
    }
}

/// The resolved `NameAndType` array over the first `k` raw records. Both
/// indices of such a record must lie at or below `count - 2`: they cannot
/// legally reference the final slot.
pub open spec fn spec_name_and_types(pool: Seq<SpecConstant>, count: int, k: int) -> Result<
    Seq<NameAndType>,
    Error,
>
    decreases k,
{
    if k <= 0 {
        Ok(Seq::empty())
    } else {
        match spec_name_and_types(pool, count, k - 1) {
            Err(e) => Err(e),
            Ok(done) => match pool[k - 1] {
                SpecConstant::NameAndType { name_index, descriptor_index } => {
                    match spec_resolve_ref(pool, name_index, count - 2, ConstantKind::Utf8) {
                        Err(e) => Err(e),
                        Ok(name) => match spec_resolve_ref(
                            pool,
                            descriptor_index,
                            count - 2,
                            ConstantKind::Utf8,
                        ) {
                            Err(e) => Err(e),
                            Ok(descriptor) => Ok(
                                done.push(
                                    NameAndType { name_index: name, descriptor_index: descriptor },
                                ),
                            ),
                        },
                    }
                },
                _ => Ok(done),
            },
        }
    }
}

/// The resolved field-reference array over the first `k` raw records. Both
/// indices are bounded by `count - 2`, as for `NameAndType`.
pub open spec fn spec_field_refs(pool: Seq<SpecConstant>, count: int, k: int) -> Result<
    Seq<FieldRef>,
    Error,
>
    decreases k,
{
    if k <= 0 {
        Ok(Seq::empty())
    } else {
        match spec_field_refs(pool, count, k - 1) {
            Err(e) => Err(e),
            Ok(done) => match pool[k - 1] {
                SpecConstant::FieldRef { class_index, name_and_type_index } => {
                    match spec_resolve_ref(pool, class_index, count - 2, ConstantKind::Class) {
                        Err(e) => Err(e),
                        Ok(class) => match spec_resolve_ref(
                            pool,
                            name_and_type_index,
                            count - 2,
                            ConstantKind::NameAndType,
                        ) {
                            Err(e) => Err(e),
                            Ok(name_and_type) => Ok(
                                done.push(
                                    FieldRef {
                                        class_index: class,
                                        name_and_type_index: name_and_type,
                                    },
                                ),
                            ),
                        },
                    }
                },
                _ => Ok(done),
            },
        }
    }
}

/// The resolved method-reference array over the first `k` raw records. Both
/// indices are bounded by `count - 2`, as for `NameAndType`.
pub open spec fn spec_method_refs(pool: Seq<SpecConstant>, count: int, k: int) -> Result<
    Seq<MethodRef>,
    Error,
>
    decreases k,
{
    if k <= 0 {
        Ok(Seq::empty())
    } else {
        match spec_method_refs(pool, count, k - 1) {
            Err(e) => Err(e),
            Ok(done) => match pool[k - 1] {
                SpecConstant::MethodRef { class_index, name_and_type_index } => {
                    match spec_resolve_ref(pool, class_index, count - 2, ConstantKind::Class) {
                        Err(e) => Err(e),
                        Ok(class) => match spec_resolve_ref(
                            pool,
                            name_and_type_index,
                            count - 2,
                            ConstantKind::NameAndType,
                        ) {
                            Err(e) => Err(e),
                            Ok(name_and_type) => Ok(
                                done.push(
                                    MethodRef {
                                        class_index: class,
                                        name_and_type_index: name_and_type,
                                    },
                                ),
                            ),
                        },
                    }
                },
                _ => Ok(done),
            },
        }
    }
}

/// The whole resolution: the six kinds in the fixed order `Utf8`, `Class`,
/// `String`, `NameAndType`, `FieldRef`, `MethodRef`; the first failing kind
/// aborts resolution with its error.
pub open spec fn spec_resolve(pool: Seq<SpecConstant>, count: int) -> Result<
    ConstantPoolView,
    Error,
> {
    let k = pool.len() as int;
    match spec_utf8s(pool, k) {
        Err(e) => Err(e),
        Ok(utf8s) => match spec_classes(pool, count, k) {
            Err(e) => Err(e),
            Ok(classes) => match spec_strings(pool, count, k) {
                Err(e) => Err(e),
                Ok(strings) => match spec_name_and_types(pool, count, k) {
                    Err(e) => Err(e),
                    Ok(name_and_types) => match spec_field_refs(pool, count, k) {
                        Err(e) => Err(e),
                        Ok(field_refs) => match spec_method_refs(pool, count, k) {
                            Err(e) => Err(e),
                            Ok(method_refs) => Ok(
                                ConstantPoolView {
                                    classes,
                                    field_refs,
                                    method_refs,
                                    strings,
                                    name_and_types,
                                    utf8s,
                                },
                            ),
                        },
                    },
                },
            },
        },
    }
}

/// A successful `Utf8` pass over a prefix of the pool yields one entry per
/// `Utf8` record of the prefix, and each such record's decoding stands at
/// the index that pass 1 assigns it: its 0-based position among the pool's
/// `Utf8` records.
proof fn lemma_utf8s_prefix(pool: Seq<SpecConstant>, j: int)
    requires
        0 <= j <= pool.len(),
        spec_utf8s(pool, j) is Ok,
    ensures
        spec_utf8s(pool, j).unwrap().len() == kind_count(pool.take(j), ConstantKind::Utf8),
        forall|s: int|
            0 <= s < j && #[trigger] pool[s] is Utf8 ==> valid_utf8(pool[s]->Utf8_bytes)
                && spec_utf8s(pool, j).unwrap()[kind_count(pool.take(s), ConstantKind::Utf8) as int]
                == decode_utf8(pool[s]->Utf8_bytes),
    decreases j,
{
    if j > 0 {
        lemma_utf8s_prefix(pool, j - 1);
        lemma_kind_count_take_step(pool, ConstantKind::Utf8, j - 1);
        let prev = spec_utf8s(pool, j - 1).unwrap();
        let cur = spec_utf8s(pool, j).unwrap();
        assert forall|s: int| 0 <= s < j && #[trigger] pool[s] is Utf8 implies valid_utf8(
            pool[s]->Utf8_bytes,
        ) && cur[kind_count(pool.take(s), ConstantKind::Utf8) as int] == decode_utf8(
            pool[s]->Utf8_bytes,
        ) by {
            if s < j - 1 {
                lemma_kind_count_take_step(pool, ConstantKind::Utf8, s);
                lemma_kind_count_take_le(pool, ConstantKind::Utf8, s + 1, j - 1);
            }
        }
    }
}

/// Law: the two passes agree on indices. Let a `Utf8` record sit at
/// 0-based raw slot `slot`, so that references name it with raw index
/// `slot + 1`. Pass 1 assigns the record the resolved index
/// `kind_count(pool.take(slot), Utf8)` — its position among the pool's
/// `Utf8` records — and any in-range reference with that raw index
/// resolves in pass 2 to exactly that index.
pub proof fn lemma_index_law(pool: Seq<SpecConstant>, max_index: int, slot: int)
    requires
        0 <= slot < pool.len(),
        pool[slot] is Utf8,
        slot + 1 <= max_index,
        slot + 1 <= u16::MAX,
    ensures
        spec_resolve_ref(pool, (slot + 1) as u16, max_index, ConstantKind::Utf8) == Ok::<
            usize,
            Error,
        >(kind_count(pool.take(slot), ConstantKind::Utf8) as usize),
{
    lemma_kind_count_le(pool.take(slot), ConstantKind::Utf8);
}

/// Law: when the `Utf8` pass succeeds, the index that pass 1 assigns a
/// `Utf8` record is in range for the resolved `Utf8` array, and the array
/// holds that record's decoding there.
pub proof fn lemma_assigned_index_points_at_decoding(pool: Seq<SpecConstant>, slot: int)
    requires
        0 <= slot < pool.len(),
        pool[slot] is Utf8,
        spec_utf8s(pool, pool.len() as int) is Ok,
    ensures
        ({
            let assigned = kind_count(pool.take(slot), ConstantKind::Utf8);
            let utf8s = spec_utf8s(pool, pool.len() as int).unwrap();
            &&& assigned < utf8s.len()
            &&& utf8s[assigned as int] == decode_utf8(pool[slot]->Utf8_bytes)
        }),
{
    lemma_utf8s_prefix(pool, pool.len() as int);
    lemma_kind_count_take_step(pool, ConstantKind::Utf8, slot);
    assert(kind_count(pool.take(slot + 1), ConstantKind::Utf8) <= kind_count(
        pool.take(pool.len() as int),
        ConstantKind::Utf8,
    )) by {
        lemma_kind_count_take_le(pool, ConstantKind::Utf8, slot + 1, pool.len() as int);
    }
    assert(pool.take(pool.len() as int) =~= pool);
}

/// A longer prefix never has fewer records of a kind.
proof fn lemma_kind_count_take_le(pool: Seq<SpecConstant>, kind: ConstantKind, a: int, b: int)
    requires
        0 <= a <= b <= pool.len(),
    ensures
        kind_count(pool.take(a), kind) <= kind_count(pool.take(b), kind),
    decreases b - a,
{
    if a < b {
        lemma_kind_count_take_le(pool, kind, a, b - 1);
        lemma_kind_count_take_step(pool, kind, b - 1);
    }
}

/// A successfully resolved reference is a 0-based position among the
/// pool's records of the expected kind, so it is below their total number.
proof fn lemma_resolve_ref_in_range(
    pool: Seq<SpecConstant>,
    raw_index: u16,
    max_index: int,
    expected: ConstantKind,
)
    requires
        spec_resolve_ref(pool, raw_index, max_index, expected) is Ok,
    ensures
        spec_resolve_ref(pool, raw_index, max_index, expected).unwrap() < kind_count(
            pool,
            expected,
        ),
{
    let s = raw_index - 1;
    lemma_kind_count_le(pool.take(s), expected);
    lemma_kind_count_take_step(pool, expected, s);
    lemma_kind_count_take_le(pool, expected, s + 1, pool.len() as int);
    assert(pool.take(pool.len() as int) =~= pool);
}

proof fn lemma_classes_wf(pool: Seq<SpecConstant>, count: int, k: int)
    requires
        0 <= k <= pool.len(),
        spec_classes(pool, count, k) is Ok,
    ensures
        spec_classes(pool, count, k).unwrap().len() == kind_count(
            pool.take(k),
            ConstantKind::Class,
        ),
        forall|i: int|
            0 <= i < spec_classes(pool, count, k).unwrap().len() ==> (#[trigger] spec_classes(
                pool,
                count,
                k,
            ).unwrap()[i]).name_index < kind_count(pool, ConstantKind::Utf8),
    decreases k,
{
    if k > 0 {
        lemma_classes_wf(pool, count, k - 1);
        lemma_kind_count_take_step(pool, ConstantKind::Class, k - 1);
        match pool[k - 1] {
            SpecConstant::Class { name_index } => {
                lemma_resolve_ref_in_range(pool, name_index, count - 1, ConstantKind::Utf8);
            },
            _ => {},
        }
    }
}

proof fn lemma_strings_wf(pool: Seq<SpecConstant>, count: int, k: int)
    requires
        0 <= k <= pool.len(),
        spec_strings(pool, count, k) is Ok,
    ensures
        forall|i: int|
            0 <= i < spec_strings(pool, count, k).unwrap().len() ==> (#[trigger] spec_strings(
                pool,
                count,
                k,
            ).unwrap()[i]).string_index < kind_count(pool, ConstantKind::Utf8),
    decreases k,
{
    if k > 0 {
        lemma_strings_wf(pool, count, k - 1);
        match pool[k - 1] {
            SpecConstant::String { string_index } => {
                lemma_resolve_ref_in_range(pool, string_index, count - 1, ConstantKind::Utf8);
            },
            _ => {},
        }
    }
}

proof fn lemma_name_and_types_wf(pool: Seq<SpecConstant>, count: int, k: int)
    requires
        0 <= k <= pool.len(),
        spec_name_and_types(pool, count, k) is Ok,
    ensures
        spec_name_and_types(pool, count, k).unwrap().len() == kind_count(
            pool.take(k),
            ConstantKind::NameAndType,
        ),
        forall|i: int|
            0 <= i < spec_name_and_types(pool, count, k).unwrap().len() ==> {
                let entry = #[trigger] spec_name_and_types(pool, count, k).unwrap()[i];
                entry.name_index < kind_count(pool, ConstantKind::Utf8)
                    && entry.descriptor_index < kind_count(pool, ConstantKind::Utf8)
            },
    decreases k,
{
    if k > 0 {
        lemma_name_and_types_wf(pool, count, k - 1);
        lemma_kind_count_take_step(pool, ConstantKind::NameAndType, k - 1);
        match pool[k - 1] {
            SpecConstant::NameAndType { name_index, descriptor_index } => {
                if spec_resolve_ref(pool, name_index, count - 2, ConstantKind::Utf8) is Ok {
                    lemma_resolve_ref_in_range(pool, name_index, count - 2, ConstantKind::Utf8);
                }
                if spec_resolve_ref(pool, descriptor_index, count - 2, ConstantKind::Utf8) is Ok {
                    lemma_resolve_ref_in_range(
                        pool,
                        descriptor_index,
                        count - 2,
                        ConstantKind::Utf8,
                    );
                }
            },
            _ => {},
        }
    }
}

proof fn lemma_field_refs_wf(pool: Seq<SpecConstant>, count: int, k: int)
    requires
        0 <= k <= pool.len(),
        spec_field_refs(pool, count, k) is Ok,
    ensures
        forall|i: int|
            0 <= i < spec_field_refs(pool, count, k).unwrap().len() ==> {
                let entry = #[trigger] spec_field_refs(pool, count, k).unwrap()[i];
                entry.class_index < kind_count(pool, ConstantKind::Class)
                    && entry.name_and_type_index < kind_count(pool, ConstantKind::NameAndType)
            },
    decreases k,
{
    if k > 0 {
        lemma_field_refs_wf(pool, count, k - 1);
        match pool[k - 1] {
            SpecConstant::FieldRef { class_index, name_and_type_index } => {
                if spec_resolve_ref(pool, class_index, count - 2, ConstantKind::Class) is Ok {
                    lemma_resolve_ref_in_range(pool, class_index, count - 2, ConstantKind::Class);
                }
                if spec_resolve_ref(
                    pool,
                    name_and_type_index,
                    count - 2,
                    ConstantKind::NameAndType,
                ) is Ok {
                    lemma_resolve_ref_in_range(
                        pool,
                        name_and_type_index,
                        count - 2,
                        ConstantKind::NameAndType,
                    );
                }
            },
            _ => {},
        }
    }
}

proof fn lemma_method_refs_wf(pool: Seq<SpecConstant>, count: int, k: int)
    requires
        0 <= k <= pool.len(),
        spec_method_refs(pool, count, k) is Ok,
    ensures
        forall|i: int|
            0 <= i < spec_method_refs(pool, count, k).unwrap().len() ==> {
                let entry = #[trigger] spec_method_refs(pool, count, k).unwrap()[i];
                entry.class_index < kind_count(pool, ConstantKind::Class)
                    && entry.name_and_type_index < kind_count(pool, ConstantKind::NameAndType)
            },
    decreases k,
{
    if k > 0 {
        lemma_method_refs_wf(pool, count, k - 1);
        match pool[k - 1] {
            SpecConstant::MethodRef { class_index, name_and_type_index } => {
                if spec_resolve_ref(pool, class_index, count - 2, ConstantKind::Class) is Ok {
                    lemma_resolve_ref_in_range(pool, class_index, count - 2, ConstantKind::Class);
                }
                if spec_resolve_ref(
                    pool,
                    name_and_type_index,
                    count - 2,
                    ConstantKind::NameAndType,
                ) is Ok {
                    lemma_resolve_ref_in_range(
                        pool,
                        name_and_type_index,
                        count - 2,
                        ConstantKind::NameAndType,
                    );
                }
            },
            _ => {},
        }
    }
}

/// Invariant of every successfully resolved pool: each resolved
/// cross-reference is in range for its target array, so no resolved entry
/// can name a slot outside the arrays it points into.
pub proof fn lemma_resolved_pool_well_formed(pool: Seq<SpecConstant>, count: int)
    requires
        spec_resolve(pool, count) is Ok,
    ensures
        ({
            let resolved = spec_resolve(pool, count).unwrap();
            &&& forall|i: int|
                0 <= i < resolved.classes.len() ==> (#[trigger] resolved.classes[i]).name_index
                    < resolved.utf8s.len()
            &&& forall|i: int|
                0 <= i < resolved.strings.len() ==> (#[trigger] resolved.strings[i]).string_index
                    < resolved.utf8s.len()
            &&& forall|i: int|
                0 <= i < resolved.name_and_types.len() ==> {
                    let entry = #[trigger] resolved.name_and_types[i];
                    entry.name_index < resolved.utf8s.len() && entry.descriptor_index
                        < resolved.utf8s.len()
                }
            &&& forall|i: int|
                0 <= i < resolved.field_refs.len() ==> {
                    let entry = #[trigger] resolved.field_refs[i];
                    entry.class_index < resolved.classes.len() && entry.name_and_type_index
                        < resolved.name_and_types.len()
                }
            &&& forall|i: int|
                0 <= i < resolved.method_refs.len() ==> {
                    let entry = #[trigger] resolved.method_refs[i];
                    entry.class_index < resolved.classes.len() && entry.name_and_type_index
                        < resolved.name_and_types.len()
                }
        }),
{
    let k = pool.len() as int;
    lemma_utf8s_prefix(pool, k);
    lemma_classes_wf(pool, count, k);
    lemma_strings_wf(pool, count, k);
    lemma_name_and_types_wf(pool, count, k);
    lemma_field_refs_wf(pool, count, k);
    lemma_method_refs_wf(pool, count, k);
    assert(pool.take(k) =~= pool);
}

/// Law: a reference whose raw index is in range but whose slot holds a
/// record of the wrong kind fails with `UnexpectedConstantKind`, naming
/// the expected kind and the kind actually found.
pub proof fn lemma_kind_mismatch(
    pool: Seq<SpecConstant>,
    raw_index: u16,
    max_index: int,
    expected: ConstantKind,
)
    requires
        1 <= raw_index <= max_index,
        raw_index - 1 < pool.len(),
        kind_of(pool[raw_index - 1]) != expected,
    ensures
        spec_resolve_ref(pool, raw_index, max_index, expected) == Err::<usize, Error>(
            Error::UnexpectedConstantKind {
                expected,
                actual: kind_of(pool[raw_index - 1]),
            },
        ),
{
}

/// Law: a reference with raw index 0, or with raw index beyond the range
/// bound, or naming a slot that does not exist in the decoded sequence,
/// fails with `OutOfRangeIndex` carrying the normalised slot.
pub proof fn lemma_range_check(
    pool: Seq<SpecConstant>,
    raw_index: u16,
    max_index: int,
    expected: ConstantKind,
)
    requires
        raw_index == 0 || raw_index > max_index || raw_index - 1 >= pool.len(),
    ensures
        spec_resolve_ref(pool, raw_index, max_index, expected) == Err::<usize, Error>(
            Error::OutOfRangeIndex(spec_normalise_index(raw_index)),
        ),
{
}

/// The raw-slot-to-resolved-index table for one constant kind, built during
/// pass 1: walking the raw sequence in order, every record of the kind is
/// assigned the next unused 0-based index of that kind's resolved array.
#[derive(Debug)]
struct IndexKeeper {
    indices: Vec<usize>,
    count: usize,
}

impl IndexKeeper {
    /// A table of `len` unassigned slots.
    fn init(len: usize) -> (r: IndexKeeper)
        ensures
            r.indices@.len() == len,
            r.count == 0,
    {
        let mut indices: Vec<usize> = Vec::new();
        while indices.len() < len
            invariant
                indices@.len() <= len,
            decreases len - indices@.len(),
        {
            indices.push(0);
        }
        IndexKeeper { indices, count: 0 }
    }

    /// Assigns the next unused resolved index to raw slot `original_index`.
    fn keep(&mut self, original_index: usize)
        requires
            original_index < old(self).indices@.len(),
            old(self).count < usize::MAX,
        ensures
            final(self).indices@ == old(self).indices@.update(
                original_index as int,
                old(self).count,
            ),
            final(self).count == old(self).count + 1,
    {
        let next = self.count;
        self.indices[original_index] = next;
        self.count = next + 1;
    }

    /// The resolved index assigned to raw slot `original_index`.
    fn fetch(&self, original_index: usize) -> (r: usize)
        requires
            original_index < self.indices@.len(),
        ensures
            r == self.indices@[original_index as int],
    {
        self.indices[original_index]
    }
}

/// The pass-1 table for `kind` is complete for `pool`: every slot of that
/// kind maps to its 0-based position among the records of the kind.
spec fn keeper_tracks(keeper: IndexKeeper, pool: Seq<SpecConstant>, kind: ConstantKind) -> bool {
    &&& keeper.indices@.len() == pool.len()
    &&& forall|s: int|
        0 <= s < pool.len() && #[trigger] kind_of(pool[s]) == kind ==> keeper.indices@[s]
            == kind_count(pool.take(s), kind)
}

/// Relies on `String::from_utf8`: it succeeds exactly when the bytes are
/// valid UTF-8 text, and the characters of the resulting string are the
/// decoding of those bytes.
#[verifier::external_body]
fn string_from_utf8(bytes: &Vec<u8>) -> (r: Option<String>)
    ensures
        r is Some <==> valid_utf8(bytes@),
        r matches Some(text) ==> text@ == decode_utf8(bytes@),
{
    String::from_utf8(bytes.clone()).ok()
}

proof fn lemma_utf8s_err(pool: Seq<SpecConstant>, k: int, m: int)
    requires
        0 <= k <= m,
        spec_utf8s(pool, k) is Err,
    ensures
        spec_utf8s(pool, m) == spec_utf8s(pool, k),
    decreases m - k,
{
    if m > k {
        lemma_utf8s_err(pool, k, m - 1);
    }
}

proof fn lemma_classes_err(pool: Seq<SpecConstant>, count: int, k: int, m: int)
    requires
        0 <= k <= m,
        spec_classes(pool, count, k) is Err,
    ensures
        spec_classes(pool, count, m) == spec_classes(pool, count, k),
    decreases m - k,
{
    if m > k {
        lemma_classes_err(pool, count, k, m - 1);
    }
}

proof fn lemma_strings_err(pool: Seq<SpecConstant>, count: int, k: int, m: int)
    requires
        0 <= k <= m,
        spec_strings(pool, count, k) is Err,
    ensures
        spec_strings(pool, count, m) == spec_strings(pool, count, k),
    decreases m - k,
{
    if m > k {
        lemma_strings_err(pool, count, k, m - 1);
    }
}

proof fn lemma_name_and_types_err(pool: Seq<SpecConstant>, count: int, k: int, m: int)
    requires
        0 <= k <= m,
        spec_name_and_types(pool, count, k) is Err,
    ensures
        spec_name_and_types(pool, count, m) == spec_name_and_types(pool, count, k),
    decreases m - k,
{
    if m > k {
        lemma_name_and_types_err(pool, count, k, m - 1);
    }
}

proof fn lemma_field_refs_err(pool: Seq<SpecConstant>, count: int, k: int, m: int)
    requires
        0 <= k <= m,
        spec_field_refs(pool, count, k) is Err,
    ensures
        spec_field_refs(pool, count, m) == spec_field_refs(pool, count, k),
    decreases m - k,
{
    if m > k {
        lemma_field_refs_err(pool, count, k, m - 1);
    }
}

proof fn lemma_method_refs_err(pool: Seq<SpecConstant>, count: int, k: int, m: int)
    requires
        0 <= k <= m,
        spec_method_refs(pool, count, k) is Err,
    ensures
        spec_method_refs(pool, count, m) == spec_method_refs(pool, count, k),
    decreases m - k,
{
    if m > k {
        lemma_method_refs_err(pool, count, k, m - 1);
    }
}

/// Pass 2 for one reference: range check, kind check, then translation
/// through the pass-1 table of the expected kind. Dual-index kinds carry a
/// tighter range bound (`count - 2` instead of `count - 1`).
fn resolve_ref(
    constant_pool: &[Constant],
    keeper: &IndexKeeper,
    raw_index: u16,
    constant_pool_count: usize,
    dual: bool,
    expected: ConstantKind,
) -> (r: Result<usize, Error>)
    requires
        keeper_tracks(*keeper, constant_pool.deep_view(), expected),
    ensures
        r == spec_resolve_ref(
            constant_pool.deep_view(),
            raw_index,
            constant_pool_count - (if dual {
                2int
            } else {
                1int
            }),
            expected,
        ),
{
    let ghost pool = constant_pool.deep_view();
    let slack: usize = if dual {
        2
    } else {
        1
    };
    if raw_index == 0 {
        Err(Error::OutOfRangeIndex(usize::MAX))
    } else {
        let slot = normalise_index(&raw_index);
        if raw_index as usize + slack > constant_pool_count || slot >= constant_pool.len() {
            Err(Error::OutOfRangeIndex(slot))
        } else {
            let actual = ConstantKind::of(&constant_pool[slot]);
            if actual == expected {
                proof {
                    lemma_kind_count_le(pool.take(slot as int), expected);
                }
                Ok(keeper.fetch(slot))
            } else {
                Err(Error::UnexpectedConstantKind { expected, actual })
            }
        }
    }
}

/// Pass over the raw records for the `Utf8` kind: fills that kind's pass-1
/// table and decodes each payload.
#[verifier::loop_isolation(false)]
#[verifier::rlimit(60)]
fn collect_utf8s(constant_pool: &[Constant]) -> (r: Result<(Vec<Utf8>, IndexKeeper), Error>)
    ensures
        match r {
            Ok((entries, keeper)) => {
                &&& spec_utf8s(constant_pool.deep_view(), constant_pool.deep_view().len() as int)
                    == Ok::<_, Error>(entries.deep_view())
                &&& keeper_tracks(keeper, constant_pool.deep_view(), ConstantKind::Utf8)
            },
            Err(e) => spec_utf8s(constant_pool.deep_view(), constant_pool.deep_view().len() as int)
                == Err::<Seq<Seq<char>>, _>(e),
        },
{
    let ghost pool = constant_pool.deep_view();
    let mut entries: Vec<Utf8> = Vec::new();
    proof {
        assert(entries.deep_view() =~= Seq::<Seq<char>>::empty());
    }
    let mut keeper = IndexKeeper::init(constant_pool.len());
    let mut k: usize = 0;
    while k < constant_pool.len()
        invariant
            k <= pool.len(),
            keeper.indices@.len() == pool.len(),
            keeper.count == kind_count(pool.take(k as int), ConstantKind::Utf8),
            forall|s: int|
                0 <= s < k && #[trigger] kind_of(pool[s]) == ConstantKind::Utf8
                    ==> keeper.indices@[s] == kind_count(pool.take(s), ConstantKind::Utf8),
            spec_utf8s(pool, k as int) == Ok::<_, Error>(entries.deep_view()),
        decreases pool.len() - k,
    {
        let ghost entries_before = entries.deep_view();
        proof {
            lemma_kind_count_take_step(pool, ConstantKind::Utf8, k as int);
            lemma_kind_count_le(pool.take(k as int), ConstantKind::Utf8);
        }
        match &constant_pool[k] {
            Constant::Utf8 { bytes, .. } => {
                keeper.keep(k);
                match string_from_utf8(bytes) {
                    Some(text) => {
                        entries.push(Utf8 { bytes: text });
                        proof {
                            assert(entries.deep_view() =~= entries_before.push(
                                decode_utf8(pool[k as int]->Utf8_bytes),
                            ));
                        }
                    },
                    None => {
                        proof {
                            lemma_utf8s_err(pool, k as int + 1, pool.len() as int);
                        }
                        return Err(Error::Utf8DecodeError);
                    },
                }
            },
            _ => {},
        }
        k = k + 1;
    }
    Ok((entries, keeper))
}

/// Pass over the raw records for the `Class` kind: fills that kind's
/// pass-1 table and resolves each class-name reference through the `Utf8`
/// table.
#[verifier::loop_isolation(false)]
#[verifier::rlimit(100)]
fn collect_classes(
    constant_pool: &[Constant],
    constant_pool_count: usize,
    utf8_keeper: &IndexKeeper,
) -> (r: Result<(Vec<Class>, IndexKeeper), Error>)
    requires
        keeper_tracks(*utf8_keeper, constant_pool.deep_view(), ConstantKind::Utf8),
    ensures
        match r {
            Ok((entries, keeper)) => {
                &&& spec_classes(
                    constant_pool.deep_view(),
                    constant_pool_count as int,
                    constant_pool.deep_view().len() as int,
                ) == Ok::<_, Error>(entries@)
                &&& keeper_tracks(keeper, constant_pool.deep_view(), ConstantKind::Class)
            },
            Err(e) => spec_classes(
                constant_pool.deep_view(),
                constant_pool_count as int,
                constant_pool.deep_view().len() as int,
            ) == Err::<Seq<Class>, _>(e),
        },
{
    let ghost pool = constant_pool.deep_view();
    let mut entries: Vec<Class> = Vec::new();
    let mut keeper = IndexKeeper::init(constant_pool.len());
    let mut k: usize = 0;
    while k < constant_pool.len()
        invariant
            k <= pool.len(),
            keeper.indices@.len() == pool.len(),
            keeper.count == kind_count(pool.take(k as int), ConstantKind::Class),
            forall|s: int|
                0 <= s < k && #[trigger] kind_of(pool[s]) == ConstantKind::Class
                    ==> keeper.indices@[s] == kind_count(pool.take(s), ConstantKind::Class),
            spec_classes(pool, constant_pool_count as int, k as int) == Ok::<_, Error>(entries@),
        decreases pool.len() - k,
    {
        proof {
            lemma_kind_count_take_step(pool, ConstantKind::Class, k as int);
            lemma_kind_count_le(pool.take(k as int), ConstantKind::Class);
        }
        match &constant_pool[k] {
            Constant::Class { name_index } => {
                keeper.keep(k);
                match resolve_ref(
                    constant_pool,
                    utf8_keeper,
                    *name_index,
                    constant_pool_count,
                    false,
                    ConstantKind::Utf8,
                ) {
                    Ok(resolved) => {
                        entries.push(Class { name_index: resolved });
                    },
                    Err(e) => {
                        proof {
                            lemma_classes_err(
                                pool,
                                constant_pool_count as int,
                                k as int + 1,
                                pool.len() as int,
                            );
                        }
                        return Err(e);
                    },
                }
            },
            _ => {},
        }
        k = k + 1;
    }
    Ok((entries, keeper))
}

/// Pass over the raw records for the `String` kind: resolves each string
/// reference through the `Utf8` table.
#[verifier::loop_isolation(false)]
#[verifier::rlimit(60)]
fn collect_strings(
    constant_pool: &[Constant],
    constant_pool_count: usize,
    utf8_keeper: &IndexKeeper,
) -> (r: Result<Vec<StringConstant>, Error>)
    requires
        keeper_tracks(*utf8_keeper, constant_pool.deep_view(), ConstantKind::Utf8),
    ensures
        match r {
            Ok(entries) => spec_strings(
                constant_pool.deep_view(),
                constant_pool_count as int,
                constant_pool.deep_view().len() as int,
            ) == Ok::<_, Error>(entries@),
            Err(e) => spec_strings(
                constant_pool.deep_view(),
                constant_pool_count as int,
                constant_pool.deep_view().len() as int,
            ) == Err::<Seq<StringConstant>, _>(e),
        },
{
    let ghost pool = constant_pool.deep_view();
    let mut entries: Vec<StringConstant> = Vec::new();
    let mut k: usize = 0;
    while k < constant_pool.len()
        invariant
            k <= pool.len(),
            spec_strings(pool, constant_pool_count as int, k as int) == Ok::<_, Error>(entries@),
        decreases pool.len() - k,
    {
        match &constant_pool[k] {
            Constant::String { string_index } => {
                match resolve_ref(
                    constant_pool,
                    utf8_keeper,
                    *string_index,
                    constant_pool_count,
                    false,
                    ConstantKind::Utf8,
                ) {
                    Ok(resolved) => {
                        entries.push(StringConstant { string_index: resolved });
                    },
                    Err(e) => {
                        proof {
                            lemma_strings_err(
                                pool,
                                constant_pool_count as int,
                                k as int + 1,
                                pool.len() as int,
                            );
                        }
                        return Err(e);
                    },
                }
            },
            _ => {},
        }
        k = k + 1;
    }
    Ok(entries)
}

/// Pass over the raw records for the `NameAndType` kind: fills that kind's
/// pass-1 table and resolves the name and descriptor references through
/// the `Utf8` table.
#[verifier::loop_isolation(false)]
#[verifier::rlimit(60)]
fn collect_name_and_types(
    constant_pool: &[Constant],
    constant_pool_count: usize,
    utf8_keeper: &IndexKeeper,
) -> (r: Result<(Vec<NameAndType>, IndexKeeper), Error>)
    requires
        keeper_tracks(*utf8_keeper, constant_pool.deep_view(), ConstantKind::Utf8),
    ensures
        match r {
            Ok((entries, keeper)) => {
                &&& spec_name_and_types(
                    constant_pool.deep_view(),
                    constant_pool_count as int,
                    constant_pool.deep_view().len() as int,
                ) == Ok::<_, Error>(entries@)
                &&& keeper_tracks(keeper, constant_pool.deep_view(), ConstantKind::NameAndType)
            },
            Err(e) => spec_name_and_types(
                constant_pool.deep_view(),
                constant_pool_count as int,
                constant_pool.deep_view().len() as int,
            ) == Err::<Seq<NameAndType>, _>(e),
        },
{
    let ghost pool = constant_pool.deep_view();
    let mut entries: Vec<NameAndType> = Vec::new();
    let mut keeper = IndexKeeper::init(constant_pool.len());
    let mut k: usize = 0;
    while k < constant_pool.len()
        invariant
            k <= pool.len(),
            keeper.indices@.len() == pool.len(),
            keeper.count == kind_count(pool.take(k as int), ConstantKind::NameAndType),
            forall|s: int|
                0 <= s < k && #[trigger] kind_of(pool[s]) == ConstantKind::NameAndType
                    ==> keeper.indices@[s] == kind_count(pool.take(s), ConstantKind::NameAndType),
            spec_name_and_types(pool, constant_pool_count as int, k as int) == Ok::<_, Error>(
                entries@,
            ),
        decreases pool.len() - k,
    {
        proof {
            lemma_kind_count_take_step(pool, ConstantKind::NameAndType, k as int);
            lemma_kind_count_le(pool.take(k as int), ConstantKind::NameAndType);
        }
        match &constant_pool[k] {
            Constant::NameAndType { name_index, descriptor_index } => {
                keeper.keep(k);
                let name = match resolve_ref(
                    constant_pool,
                    utf8_keeper,
                    *name_index,
                    constant_pool_count,
                    true,
                    ConstantKind::Utf8,
                ) {
                    Ok(resolved) => resolved,
                    Err(e) => {
                        proof {
                            lemma_name_and_types_err(
                                pool,
                                constant_pool_count as int,
                                k as int + 1,
                                pool.len() as int,
                            );
                        }
                        return Err(e);
                    },
                };
                let descriptor = match resolve_ref(
                    constant_pool,
                    utf8_keeper,
                    *descriptor_index,
                    constant_pool_count,
                    true,
                    ConstantKind::Utf8,
                ) {
                    Ok(resolved) => resolved,
                    Err(e) => {
                        proof {
                            lemma_name_and_types_err(
                                pool,
                                constant_pool_count as int,
                                k as int + 1,
                                pool.len() as int,
                            );
                        }
                        return Err(e);
                    },
                };
                entries.push(NameAndType { name_index: name, descriptor_index: descriptor });
            },
            _ => {},
        }
        k = k + 1;
    }
    Ok((entries, keeper))
}

/// Pass over the raw records for the `FieldRef` kind: resolves the class
/// and name-and-type references through their pass-1 tables.
#[verifier::loop_isolation(false)]
#[verifier::rlimit(60)]
fn collect_field_refs(
    constant_pool: &[Constant],
    constant_pool_count: usize,
    class_keeper: &IndexKeeper,
    name_and_type_keeper: &IndexKeeper,
) -> (r: Result<Vec<FieldRef>, Error>)
    requires
        keeper_tracks(*class_keeper, constant_pool.deep_view(), ConstantKind::Class),
        keeper_tracks(*name_and_type_keeper, constant_pool.deep_view(), ConstantKind::NameAndType),
    ensures
        match r {
            Ok(entries) => spec_field_refs(
                constant_pool.deep_view(),
                constant_pool_count as int,
                constant_pool.deep_view().len() as int,
            ) == Ok::<_, Error>(entries@),
            Err(e) => spec_field_refs(
                constant_pool.deep_view(),
                constant_pool_count as int,
                constant_pool.deep_view().len() as int,
            ) == Err::<Seq<FieldRef>, _>(e),
        },
{
    let ghost pool = constant_pool.deep_view();
    let mut entries: Vec<FieldRef> = Vec::new();
    let mut k: usize = 0;
    while k < constant_pool.len()
        invariant
            k <= pool.len(),
            spec_field_refs(pool, constant_pool_count as int, k as int) == Ok::<_, Error>(entries@),
        decreases pool.len() - k,
    {
        match &constant_pool[k] {
            Constant::FieldRef { class_index, name_and_type_index } => {
                let class = match resolve_ref(
                    constant_pool,
                    class_keeper,
                    *class_index,
                    constant_pool_count,
                    true,
                    ConstantKind::Class,
                ) {
                    Ok(resolved) => resolved,
                    Err(e) => {
                        proof {
                            lemma_field_refs_err(
                                pool,
                                constant_pool_count as int,
                                k as int + 1,
                                pool.len() as int,
                            );
                        }
                        return Err(e);
                    },
                };
                let name_and_type = match resolve_ref(
                    constant_pool,
                    name_and_type_keeper,
                    *name_and_type_index,
                    constant_pool_count,
                    true,
                    ConstantKind::NameAndType,
                ) {
                    Ok(resolved) => resolved,
                    Err(e) => {
                        proof {
                            lemma_field_refs_err(
                                pool,
                                constant_pool_count as int,
                                k as int + 1,
                                pool.len() as int,
                            );
                        }
                        return Err(e);
                    },
                };
                entries.push(FieldRef { class_index: class, name_and_type_index: name_and_type });
            },
            _ => {},
        }
        k = k + 1;
    }
    Ok(entries)
}

/// Pass over the raw records for the `MethodRef` kind: resolves the class
/// and name-and-type references through their pass-1 tables.
#[verifier::loop_isolation(false)]
#[verifier::rlimit(60)]
fn collect_method_refs(
    constant_pool: &[Constant],
    constant_pool_count: usize,
    class_keeper: &IndexKeeper,
    name_and_type_keeper: &IndexKeeper,
) -> (r: Result<Vec<MethodRef>, Error>)
    requires
        keeper_tracks(*class_keeper, constant_pool.deep_view(), ConstantKind::Class),
        keeper_tracks(*name_and_type_keeper, constant_pool.deep_view(), ConstantKind::NameAndType),
    ensures
        match r {
            Ok(entries) => spec_method_refs(
                constant_pool.deep_view(),
                constant_pool_count as int,
                constant_pool.deep_view().len() as int,
            ) == Ok::<_, Error>(entries@),
            Err(e) => spec_method_refs(
                constant_pool.deep_view(),
                constant_pool_count as int,
                constant_pool.deep_view().len() as int,
            ) == Err::<Seq<MethodRef>, _>(e),
        },
{
    let ghost pool = constant_pool.deep_view();
    let mut entries: Vec<MethodRef> = Vec::new();
    let mut k: usize = 0;
    while k < constant_pool.len()
        invariant
            k <= pool.len(),
            spec_method_refs(pool, constant_pool_count as int, k as int) == Ok::<_, Error>(
                entries@,
            ),
        decreases pool.len() - k,
    {
        match &constant_pool[k] {
            Constant::MethodRef { class_index, name_and_type_index } => {
                let class = match resolve_ref(
                    constant_pool,
                    class_keeper,
                    *class_index,
                    constant_pool_count,
                    true,
                    ConstantKind::Class,
                ) {
                    Ok(resolved) => resolved,
                    Err(e) => {
                        proof {
                            lemma_method_refs_err(
                                pool,
                                constant_pool_count as int,
                                k as int + 1,
                                pool.len() as int,
                            );
                        }
                        return Err(e);
                    },
                };
                let name_and_type = match resolve_ref(
                    constant_pool,
                    name_and_type_keeper,
                    *name_and_type_index,
                    constant_pool_count,
                    true,
                    ConstantKind::NameAndType,
                ) {
                    Ok(resolved) => resolved,
                    Err(e) => {
                        proof {
                            lemma_method_refs_err(
                                pool,
                                constant_pool_count as int,
                                k as int + 1,
                                pool.len() as int,
                            );
                        }
                        return Err(e);
                    },
                };
                entries.push(MethodRef { class_index: class, name_and_type_index: name_and_type });
            },
            _ => {},
        }
        k = k + 1;
    }
    Ok(entries)
}

impl ConstantPool {
    /// Resolves the raw pool into dense per-kind arrays, returning exactly
    /// what [`spec_resolve`] describes: the first failure of any pass, or
    /// the fully validated pool.
    pub fn new(constant_pool: &[Constant], constant_pool_count: usize) -> (r: Result<
        ConstantPool,
        Error,
    >)
        ensures
            match r {
                Ok(resolved) => spec_resolve(constant_pool.deep_view(), constant_pool_count as int)
                    == Ok::<_, Error>(resolved@),
                Err(e) => spec_resolve(constant_pool.deep_view(), constant_pool_count as int)
                    == Err::<ConstantPoolView, _>(e),
            },
    {
        let (utf8s, utf8_keeper) = match collect_utf8s(constant_pool) {
            Ok(v) => v,
            Err(e) => return Err(e),
        };
        let (classes, class_keeper) = match collect_classes(
            constant_pool,
            constant_pool_count,
            &utf8_keeper,
        ) {
            Ok(v) => v,
            Err(e) => return Err(e),
        };
        let strings = match collect_strings(constant_pool, constant_pool_count, &utf8_keeper) {
            Ok(v) => v,
            Err(e) => return Err(e),
        };
        let (name_and_types, name_and_type_keeper) = match collect_name_and_types(
            constant_pool,
            constant_pool_count,
            &utf8_keeper,
        ) {
            Ok(v) => v,
            Err(e) => return Err(e),
        };
        let field_refs = match collect_field_refs(
            constant_pool,
            constant_pool_count,
            &class_keeper,
            &name_and_type_keeper,
        ) {
            Ok(v) => v,
            Err(e) => return Err(e),
        };
        let method_refs = match collect_method_refs(
            constant_pool,
            constant_pool_count,
            &class_keeper,
            &name_and_type_keeper,
        ) {
            Ok(v) => v,
            Err(e) => return Err(e),
        };
        Ok(ConstantPool { classes, field_refs, method_refs, strings, name_and_types, utf8s })
    }
}

} // verus!
