//! The mathematical model of the conversion engine.
//!
//! Every exec data type of the library views into one of the ghost types
//! below, and every exec function of the engine is specified as equal to one
//! of the spec functions below. The model mirrors the two value worlds the
//! engine bridges: a schema-directed, pre-sized object tree (`Ty`, `Val`) and
//! a generic structured-data protocol (`OutVal` for the push side, `InVal`
//! for the pull side).

use vstd::prelude::*;

verus! {

// ------------------------------------------------------------------
// Schema model
// ------------------------------------------------------------------

/// The shape of a value, as the external schema collaborator describes it.
pub enum Ty {
    Void,
    Bool,
    Int8,
    Int16,
    Int32,
    Int64,
    UInt8,
    UInt16,
    UInt32,
    UInt64,
    Float32,
    Float64,
    Text,
    Data,
    Struct(StructTy),
    Enum(EnumTy),
    List(Box<Ty>),
    AnyPointer,
    Capability,
}

/// One field of a struct schema.
pub struct FieldTy {
    pub name: Seq<char>,
    pub ty: Ty,
    pub in_union: bool,
}

/// A struct schema: a durable numeric id and an ordered field list.
pub struct StructTy {
    pub id: u64,
    pub fields: Seq<FieldTy>,
}

/// An enum schema: a durable numeric id, a display name and the ordered
/// enumerant names (the ordinal of an enumerant is its position).
pub struct EnumTy {
    pub id: u64,
    pub name: Seq<char>,
    pub enumerants: Seq<Seq<char>>,
}

// ------------------------------------------------------------------
// Value model
// ------------------------------------------------------------------

/// A dynamic value of the schema-driven object model. Floating-point
/// payloads are carried as raw bit patterns: the engine never computes on
/// them, it only moves them.
pub enum Val {
    Void,
    Bool(bool),
    Int8(i8),
    Int16(i16),
    Int32(i32),
    Int64(i64),
    UInt8(u8),
    UInt16(u16),
    UInt32(u32),
    UInt64(u64),
    Float32(u32),
    Float64(u64),
    Text(Seq<char>),
    Data(Seq<u8>),
    Enum(EnumTy, u16),
    /// A struct value: its schema and one slot per field. `None` means the
    /// field is absent (an unset pointer field or an inactive union branch).
    Struct(StructTy, Seq<Option<Val>>),
    /// A list value: its element type and the element values.
    List(Ty, Seq<Val>),
    AnyPointer,
    Capability,
}

// ------------------------------------------------------------------
// Protocol model
// ------------------------------------------------------------------

/// What the serializing engine pushes into the generic output protocol.
pub enum OutVal {
    Null,
    Bool(bool),
    I8(i8),
    I16(i16),
    I32(i32),
    I64(i64),
    U8(u8),
    U16(u16),
    U32(u32),
    U64(u64),
    F32(u32),
    F64(u64),
    Str(Seq<char>),
    Bytes(Seq<u8>),
    Sequence(Seq<OutVal>),
    Record(Seq<(Seq<char>, OutVal)>),
    Variant { enum_name: Seq<char>, ordinal: u32, name: Seq<char> },
}

/// What the deserializing engine pulls from the generic input protocol.
/// A sequence carries an optional advisory size hint, the one piece of the
/// input protocol the size-resolution strategy depends on.
pub enum InVal {
    Unit,
    Bool(bool),
    Int(i64),
    UInt(u64),
    F32(u32),
    F64(u64),
    Str(Seq<char>),
    Bytes(Seq<u8>),
    Sequence(Option<int>, Seq<InVal>),
    Record(Seq<(Seq<char>, InVal)>),
}

// ------------------------------------------------------------------
// Schema helpers
// ------------------------------------------------------------------

/// A scalar kind is stored inline in the arena and exists, default-valued,
/// from the moment its container is allocated. The other kinds are pointers.
pub open spec fn scalar_kind(t: Ty) -> bool {
    match t {
        Ty::Void => true,
        Ty::Bool => true,
        Ty::Int8 => true,
        Ty::Int16 => true,
        Ty::Int32 => true,
        Ty::Int64 => true,
        Ty::UInt8 => true,
        Ty::UInt16 => true,
        Ty::UInt32 => true,
        Ty::UInt64 => true,
        Ty::Float32 => true,
        Ty::Float64 => true,
        Ty::Enum(_) => true,
        _ => false,
    }
}

/// The names of a struct schema's fields, in schema order.
pub open spec fn field_names(fields: Seq<FieldTy>) -> Seq<Seq<char>> {
    Seq::new(fields.len(), |i: int| fields[i].name)
}

/// The name list the name cache stores for a type: field names for a
/// struct, enumerant names for an enum, empty for anything else.
pub open spec fn names_of(t: Ty) -> Seq<Seq<char>> {
    match t {
        Ty::Struct(st) => field_names(st.fields),
        Ty::Enum(et) => et.enumerants,
        _ => Seq::empty(),
    }
}

/// The first position at or after `i` whose name is `name`, scanning left
/// to right as the exec lookup does.
pub open spec fn find_name_from(names: Seq<Seq<char>>, name: Seq<char>, i: int) -> Option<int>
    decreases names.len() - i,
{
    if !(0 <= i < names.len()) {
        None
    } else if names[i] == name {
        Some(i)
    } else {
        find_name_from(names, name, i + 1)
    }
}

/// The position of the first name equal to `name`, if any.
pub open spec fn find_name(names: Seq<Seq<char>>, name: Seq<char>) -> Option<int> {
    find_name_from(names, name, 0)
}

pub open spec fn distinct_names(names: Seq<Seq<char>>) -> bool {
    forall|i: int, j: int| 0 <= i < j < names.len() ==> names[i] != names[j]
}

/// Field `i` is the union branch that is active by default: the first
/// union member in schema order.
pub open spec fn is_first_union(fields: Seq<FieldTy>, i: int) -> bool {
    &&& 0 <= i < fields.len()
    &&& fields[i].in_union
    &&& forall|j: int| 0 <= j < i ==> !fields[j].in_union
}

pub open spec fn has_union(fields: Seq<FieldTy>) -> bool {
    exists|i: int| 0 <= i < fields.len() && fields[i].in_union
}

/// A well-formed schema: field and enumerant names are unique (the schema
/// compiler guarantees this) and enum ordinals fit the wire's ordinal width.
pub open spec fn wf_ty(t: Ty) -> bool
    decreases t,
{
    match t {
        Ty::Struct(st) => {
            &&& distinct_names(field_names(st.fields))
            &&& forall|i: int| 0 <= i < st.fields.len() ==> wf_ty(#[trigger] st.fields[i].ty)
        },
        Ty::Enum(et) => distinct_names(et.enumerants) && et.enumerants.len() <= 0x1_0000,
        Ty::List(b) => wf_ty(*b),
        _ => true,
    }
}

// ------------------------------------------------------------------
// Default values and fresh struct slots
// ------------------------------------------------------------------

/// The default value of a type: what a freshly allocated arena slot holds.
pub open spec fn default_val(t: Ty) -> Val
    decreases t,
{
    match t {
        Ty::Void => Val::Void,
        Ty::Bool => Val::Bool(false),
        Ty::Int8 => Val::Int8(0),
        Ty::Int16 => Val::Int16(0),
        Ty::Int32 => Val::Int32(0),
        Ty::Int64 => Val::Int64(0),
        Ty::UInt8 => Val::UInt8(0),
        Ty::UInt16 => Val::UInt16(0),
        Ty::UInt32 => Val::UInt32(0),
        Ty::UInt64 => Val::UInt64(0),
        Ty::Float32 => Val::Float32(0),
        Ty::Float64 => Val::Float64(0),
        Ty::Text => Val::Text(Seq::empty()),
        Ty::Data => Val::Data(Seq::empty()),
        Ty::Enum(et) => Val::Enum(et, 0),
        Ty::Struct(st) => Val::Struct(st, fresh_slots(st.fields)),
        Ty::List(b) => Val::List(*b, Seq::empty()),
        Ty::AnyPointer => Val::AnyPointer,
        Ty::Capability => Val::Capability,
    }
}

/// The slots of a freshly allocated struct. Scalar fields exist at their
/// default from allocation time; pointer fields start unset; of a union,
/// only the default branch (the first union member) is present, and only
/// when it is scalar.
pub open spec fn fresh_slots(fields: Seq<FieldTy>) -> Seq<Option<Val>>
    decreases fields,
{
    Seq::new(
        fields.len(),
        |i: int|
            if 0 <= i < fields.len() && scalar_kind(fields[i].ty) && (!fields[i].in_union
                || is_first_union(fields, i)) {
                Some(default_val(fields[i].ty))
            } else {
                None
            },
    )
}

/// Writing slot `idx`. Writing any member of a union activates it and
/// deactivates every sibling branch.
pub open spec fn write_slot(
    fields: Seq<FieldTy>,
    slots: Seq<Option<Val>>,
    idx: int,
    v: Val,
) -> Seq<Option<Val>> {
    if 0 <= idx < fields.len() && fields[idx].in_union {
        Seq::new(
            slots.len(),
            |j: int|
                if j == idx {
                    Some(v)
                } else if 0 <= j < fields.len() && fields[j].in_union {
                    None
                } else {
                    slots[j]
                },
        )
    } else {
        slots.update(idx, Some(v))
    }
}

// ------------------------------------------------------------------
// Value well-formedness
// ------------------------------------------------------------------

/// Exactly one union branch is present.
pub open spec fn one_active(fields: Seq<FieldTy>, slots: Seq<Option<Val>>) -> bool {
    exists|k: int|
        {
            &&& 0 <= k < fields.len()
            &&& #[trigger] fields[k].in_union
            &&& slots[k] is Some
            &&& forall|j: int|
                0 <= j < fields.len() && #[trigger] fields[j].in_union && j != k ==> slots[j] is None
        }
}

/// A value the arena model can actually represent, of the given type:
/// every part is typed by the schema, scalar fields of a struct are always
/// present, and a union has exactly one active branch.
pub open spec fn wf_val(v: Val, t: Ty) -> bool
    decreases v,
{
    match v {
        Val::Void => t == Ty::Void,
        Val::Bool(_) => t == Ty::Bool,
        Val::Int8(_) => t == Ty::Int8,
        Val::Int16(_) => t == Ty::Int16,
        Val::Int32(_) => t == Ty::Int32,
        Val::Int64(_) => t == Ty::Int64,
        Val::UInt8(_) => t == Ty::UInt8,
        Val::UInt16(_) => t == Ty::UInt16,
        Val::UInt32(_) => t == Ty::UInt32,
        Val::UInt64(_) => t == Ty::UInt64,
        Val::Float32(_) => t == Ty::Float32,
        Val::Float64(_) => t == Ty::Float64,
        Val::Text(_) => t == Ty::Text,
        Val::Data(_) => t == Ty::Data,
        Val::Enum(et, _) => t == Ty::Enum(et),
        Val::Struct(st, slots) => {
            &&& t == Ty::Struct(st)
            &&& slots.len() == st.fields.len()
            &&& forall|i: int|
                0 <= i < slots.len() ==> (#[trigger] slots[i] matches Some(w) ==> wf_val(
                    w,
                    st.fields[i].ty,
                ))
            &&& forall|i: int|
                0 <= i < slots.len() && scalar_kind(#[trigger] st.fields[i].ty)
                    && !st.fields[i].in_union ==> slots[i] is Some
            &&& has_union(st.fields) ==> one_active(st.fields, slots)
        },
        Val::List(e, items) => {
            &&& t == Ty::List(Box::new(e))
            &&& forall|i: int| 0 <= i < items.len() ==> wf_val(#[trigger] items[i], e)
        },
        Val::AnyPointer => t == Ty::AnyPointer,
        Val::Capability => t == Ty::Capability,
    }
}

/// A value whose serialized image determines it exactly: no unsupported
/// kinds, and every enum ordinal resolves to a known enumerant (an unknown
/// ordinal serializes to a null placeholder and cannot come back).
pub open spec fn round_trippable(v: Val) -> bool
    decreases v,
{
    match v {
        Val::Enum(et, ord) => (ord as int) < et.enumerants.len(),
        Val::Struct(_, slots) => forall|i: int|
            0 <= i < slots.len() ==> (#[trigger] slots[i] matches Some(w) ==> round_trippable(w)),
        Val::List(_, items) => forall|i: int|
            0 <= i < items.len() ==> round_trippable(#[trigger] items[i]),
        Val::AnyPointer => false,
        Val::Capability => false,
        _ => true,
    }
}

// ------------------------------------------------------------------
// Small sequence facts the engine proofs step through
// ------------------------------------------------------------------

/// One step of a left-to-right walk: the prefix of length `k + 1` is the
/// prefix of length `k` plus the element at `k`.
pub proof fn lemma_take_step<A>(s: Seq<A>, k: int)
    requires
        0 <= k < s.len(),
    ensures
        s.take(k + 1).drop_last() =~= s.take(k),
        s.take(k + 1).last() == s[k],
{
}

/// The full-length prefix is the sequence itself.
pub proof fn lemma_take_full<A>(s: Seq<A>)
    ensures
        s.take(s.len() as int) =~= s,
{
}

/// When nothing before position `i` matches, the overall lookup equals the
/// scan from `i`.
pub proof fn lemma_find_name_prefix(names: Seq<Seq<char>>, name: Seq<char>, i: int)
    requires
        0 <= i <= names.len(),
        forall|j: int| 0 <= j < i ==> names[j] != name,
    ensures
        find_name(names, name) == find_name_from(names, name, i),
    decreases i,
{
    if i > 0 {
        lemma_find_name_prefix(names, name, i - 1);
    }
}

/// In a list of distinct names, looking up the name at `k` finds `k`.
pub proof fn lemma_find_name_hit(names: Seq<Seq<char>>, k: int)
    requires
        distinct_names(names),
        0 <= k < names.len(),
    ensures
        find_name(names, names[k]) == Some(k),
{
    lemma_find_name_prefix(names, names[k], k);
}

/// A name that matches no entry is not found.
pub proof fn lemma_find_name_miss(names: Seq<Seq<char>>, name: Seq<char>)
    requires
        forall|i: int| 0 <= i < names.len() ==> names[i] != name,
    ensures
        find_name(names, name) is None,
{
    lemma_find_name_prefix(names, name, names.len() as int);
}

} // verus!
