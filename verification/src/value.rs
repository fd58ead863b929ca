//! Executable dynamic values: the schema-driven object model, held as plain
//! values. A `StructValue` slot is `None` where the field is absent (an
//! unset pointer field or an inactive union branch); float payloads are
//! carried as raw bit patterns, which the engine moves but never computes
//! on.

use vstd::prelude::*;

use crate::model::{default_val, fresh_slots, is_first_union, write_slot, Val};
use crate::schema::{eschema_view, field_view, sschema_view, stype_view, EnumSchema, SchemaType, StructSchema};

verus! {

/// A dynamic value, mirroring the schema kinds.
#[derive(Debug, PartialEq)]
pub enum DynamicValue {
    Void,
    Bool(bool),
    Int8(i8),
    Int16(i16),
    Int32(i32),
    Int64(i64),
    UInt8(u8),
    UInt16(u16),
    UInt32(u32),
    UInt64(u64),
    Float32Bits(u32),
    Float64Bits(u64),
    Text(String),
    Data(Vec<u8>),
    Enum(EnumValue),
    Struct(StructValue),
    List(ListValue),
    AnyPointer,
    Capability,
}

/// An enum value: its schema and the stored ordinal. The ordinal may fall
/// outside the schema's enumerant list when the data was written by a
/// newer schema.
#[derive(Debug, PartialEq)]
pub struct EnumValue {
    pub schema: EnumSchema,
    pub ordinal: u16,
}

/// A struct value: its schema and one slot per field.
#[derive(Debug, PartialEq)]
pub struct StructValue {
    pub schema: StructSchema,
    pub slots: Vec<Option<DynamicValue>>,
}

/// A list value: its element type and the elements. Once allocated at a
/// size, the arena model keeps every slot; absent writes leave defaults.
#[derive(Debug, PartialEq)]
pub struct ListValue {
    pub elem: SchemaType,
    pub items: Vec<DynamicValue>,
}

// ------------------------------------------------------------------
// Views into the model
// ------------------------------------------------------------------

pub open spec fn dv_view(v: DynamicValue) -> Val
    decreases v,
{
    match v {
        DynamicValue::Void => Val::Void,
        DynamicValue::Bool(b) => Val::Bool(b),
        DynamicValue::Int8(x) => Val::Int8(x),
        DynamicValue::Int16(x) => Val::Int16(x),
        DynamicValue::Int32(x) => Val::Int32(x),
        DynamicValue::Int64(x) => Val::Int64(x),
        DynamicValue::UInt8(x) => Val::UInt8(x),
        DynamicValue::UInt16(x) => Val::UInt16(x),
        DynamicValue::UInt32(x) => Val::UInt32(x),
        DynamicValue::UInt64(x) => Val::UInt64(x),
        DynamicValue::Float32Bits(b) => Val::Float32(b),
        DynamicValue::Float64Bits(b) => Val::Float64(b),
        DynamicValue::Text(s) => Val::Text(s@),
        DynamicValue::Data(d) => Val::Data(d@),
        DynamicValue::Enum(ev) => Val::Enum(eschema_view(ev.schema), ev.ordinal),
        DynamicValue::Struct(sv) => Val::Struct(sschema_view(sv.schema), slots_view(sv.slots)),
        DynamicValue::List(lv) => Val::List(stype_view(lv.elem), items_view(lv.items)),
        DynamicValue::AnyPointer => Val::AnyPointer,
        DynamicValue::Capability => Val::Capability,
    }
}

pub open spec fn slots_view(slots: Vec<Option<DynamicValue>>) -> Seq<Option<Val>>
    decreases slots,
{
    Seq::new(
        slots@.len(),
        |i: int|
            if 0 <= i < slots@.len() {
                match slots@[i] {
                    Some(w) => Some(dv_view(w)),
                    None => None,
                }
            } else {
                None
            },
    )
}

pub open spec fn items_view(items: Vec<DynamicValue>) -> Seq<Val>
    decreases items,
{
    Seq::new(
        items@.len(),
        |i: int|
            if 0 <= i < items@.len() {
                dv_view(items@[i])
            } else {
                Val::Void
            },
    )
}

impl View for DynamicValue {
    type V = Val;

    open spec fn view(&self) -> Val {
        dv_view(*self)
    }
}

impl View for StructValue {
    type V = Val;

    open spec fn view(&self) -> Val {
        Val::Struct(sschema_view(self.schema), slots_view(self.slots))
    }
}

impl View for ListValue {
    type V = Val;

    open spec fn view(&self) -> Val {
        Val::List(stype_view(self.elem), items_view(self.items))
    }
}

// ------------------------------------------------------------------
// Kind names
// ------------------------------------------------------------------

/// The short kind name of a dynamic value, as diagnostics print it.
pub open spec fn spec_value_kind_name(v: Val) -> Seq<char> {
    match v {
        Val::Void => "void"@,
        Val::Bool(_) => "bool"@,
        Val::Int8(_) => "int8"@,
        Val::Int16(_) => "int16"@,
        Val::Int32(_) => "int32"@,
        Val::Int64(_) => "int64"@,
        Val::UInt8(_) => "uint8"@,
        Val::UInt16(_) => "uint16"@,
        Val::UInt32(_) => "uint32"@,
        Val::UInt64(_) => "uint64"@,
        Val::Float32(_) => "float32"@,
        Val::Float64(_) => "float64"@,
        Val::Text(_) => "text"@,
        Val::Data(_) => "data"@,
        Val::Enum(_, _) => "enum"@,
        Val::Struct(_, _) => "struct"@,
        Val::List(_, _) => "list"@,
        Val::AnyPointer => "any"@,
        Val::Capability => "capability"@,
    }
}

/// The short kind name of a dynamic value.
pub fn value_kind_name(v: &DynamicValue) -> (r: &'static str)
    ensures
        r@ == spec_value_kind_name(dv_view(*v)),
{
    match v {
        DynamicValue::Void => "void",
        DynamicValue::Bool(_) => "bool",
        DynamicValue::Int8(_) => "int8",
        DynamicValue::Int16(_) => "int16",
        DynamicValue::Int32(_) => "int32",
        DynamicValue::Int64(_) => "int64",
        DynamicValue::UInt8(_) => "uint8",
        DynamicValue::UInt16(_) => "uint16",
        DynamicValue::UInt32(_) => "uint32",
        DynamicValue::UInt64(_) => "uint64",
        DynamicValue::Float32Bits(_) => "float32",
        DynamicValue::Float64Bits(_) => "float64",
        DynamicValue::Text(_) => "text",
        DynamicValue::Data(_) => "data",
        DynamicValue::Enum(_) => "enum",
        DynamicValue::Struct(_) => "struct",
        DynamicValue::List(_) => "list",
        DynamicValue::AnyPointer => "any",
        DynamicValue::Capability => "capability",
    }
}

// ------------------------------------------------------------------
// Leaf copies
// ------------------------------------------------------------------

/// Clones a byte blob, preserving its view.
pub fn clone_bytes(v: &Vec<u8>) -> (r: Vec<u8>)
    ensures
        r@ == v@,
{
    let r = v.clone();
    proof {
        assert(r@ =~= v@);
    }
    r
}

// ------------------------------------------------------------------
// Defaults and fresh structs
// ------------------------------------------------------------------

/// The default value of a type: what a freshly allocated slot holds.
pub fn default_value(t: &SchemaType) -> (r: DynamicValue)
    ensures
        dv_view(r) == default_val(t@),
    decreases *t, 1int,
{
    match t {
        SchemaType::Void => DynamicValue::Void,
        SchemaType::Bool => DynamicValue::Bool(false),
        SchemaType::Int8 => DynamicValue::Int8(0),
        SchemaType::Int16 => DynamicValue::Int16(0),
        SchemaType::Int32 => DynamicValue::Int32(0),
        SchemaType::Int64 => DynamicValue::Int64(0),
        SchemaType::UInt8 => DynamicValue::UInt8(0),
        SchemaType::UInt16 => DynamicValue::UInt16(0),
        SchemaType::UInt32 => DynamicValue::UInt32(0),
        SchemaType::UInt64 => DynamicValue::UInt64(0),
        SchemaType::Float32 => DynamicValue::Float32Bits(0),
        SchemaType::Float64 => DynamicValue::Float64Bits(0),
        SchemaType::Text => DynamicValue::Text(String::new()),
        SchemaType::Data => DynamicValue::Data(Vec::new()),
        SchemaType::Enum(e) => DynamicValue::Enum(EnumValue { schema: e.clone(), ordinal: 0 }),
        SchemaType::Struct(s) => DynamicValue::Struct(fresh_struct(s)),
        SchemaType::List(b) => {
            let items: Vec<DynamicValue> = Vec::new();
            proof {
                assert(items_view(items) =~= Seq::<Val>::empty());
            }
            DynamicValue::List(ListValue { elem: (**b).clone(), items })
        },
        SchemaType::AnyPointer => DynamicValue::AnyPointer,
        SchemaType::Capability => DynamicValue::Capability,
    }
}

/// Allocates a struct with every slot at its fresh state: scalar fields at
/// their default, pointer fields unset, and of a union only the default
/// branch (its first member) present, when scalar.
pub fn fresh_struct(schema: &StructSchema) -> (r: StructValue)
    ensures
        r@ == Val::Struct(sschema_view(*schema), fresh_slots(sschema_view(*schema).fields)),
        r.slots@.len() == schema.fields@.len(),
        r.schema.fields@.len() == schema.fields@.len(),
        sschema_view(r.schema) == sschema_view(*schema),
    decreases *schema, 0int,
{
    let ghost gfields = sschema_view(*schema).fields;
    let mut slots: Vec<Option<DynamicValue>> = Vec::new();
    let n = schema.fields.len();
    let mut i: usize = 0;
    while i < n
        invariant
            i <= n,
            n == schema.fields@.len(),
            gfields == sschema_view(*schema).fields,
            slots@.len() == i,
            forall|j: int| 0 <= j < i ==> #[trigger] slots_view(slots)[j] == fresh_slots(gfields)[j],
        decreases n - i,
    {
        let ghost slots_pre = slots;
        let f = &schema.fields[i];
        let scalar = is_scalar_type(&f.ty);
        let default_branch = !f.in_union || first_union_index(schema) == i;
        if scalar && default_branch {
            let w = default_value(&f.ty);
            slots.push(Some(w));
        } else {
            slots.push(None);
        }
        proof {
            assert forall|j: int| 0 <= j < i implies #[trigger] slots_view(slots)[j]
                == fresh_slots(gfields)[j] by {
                assert(slots@[j] == slots_pre@[j]);
                assert(slots_view(slots_pre)[j] == fresh_slots(gfields)[j]);
            }
            assert(gfields[i as int] == field_view(schema.fields@[i as int])) by {
                assert(sschema_view(*schema).fields[i as int] == field_view(
                    schema.fields@[i as int],
                ));
            }
            assert(is_first_union(gfields, i as int) <==> spec_first_union_index(
                sschema_view(*schema),
            ) == Some(i as int)) by {
                lemma_first_union_index(sschema_view(*schema), i as int);
            }
            assert(slots_view(slots)[i as int] == fresh_slots(gfields)[i as int]);
        }
        i = i + 1;
    }
    let r = StructValue { schema: schema.clone(), slots };
    proof {
        assert(slots_view(r.slots) =~= fresh_slots(sschema_view(*schema).fields));
        assert(r.schema.fields@.len() == sschema_view(r.schema).fields.len());
    }
    r
}

/// Whether a type is a scalar kind: stored inline, present from
/// allocation time.
pub fn is_scalar_type(t: &SchemaType) -> (r: bool)
    ensures
        r == crate::model::scalar_kind(t@),
{
    match t {
        SchemaType::Void => true,
        SchemaType::Bool => true,
        SchemaType::Int8 => true,
        SchemaType::Int16 => true,
        SchemaType::Int32 => true,
        SchemaType::Int64 => true,
        SchemaType::UInt8 => true,
        SchemaType::UInt16 => true,
        SchemaType::UInt32 => true,
        SchemaType::UInt64 => true,
        SchemaType::Float32 => true,
        SchemaType::Float64 => true,
        SchemaType::Enum(_) => true,
        _ => false,
    }
}

/// The position of a struct schema's default union branch: its first
/// union member, as a spec value.
pub open spec fn spec_first_union_index(st: crate::model::StructTy) -> Option<int> {
    if crate::model::has_union(st.fields) {
        Some(
            choose|i: int| crate::model::is_first_union(st.fields, i),
        )
    } else {
        None
    }
}

/// The first union member is unique, and `is_first_union` characterizes it.
pub proof fn lemma_first_union_index(st: crate::model::StructTy, i: int)
    ensures
        crate::model::is_first_union(st.fields, i) <==> spec_first_union_index(st) == Some(i),
{
    if crate::model::is_first_union(st.fields, i) {
        assert(crate::model::has_union(st.fields));
        let k = choose|k: int| crate::model::is_first_union(st.fields, k);
        assert(crate::model::is_first_union(st.fields, k));
        if k < i {
            assert(!st.fields[k].in_union);
        }
        if i < k {
            assert(!st.fields[i].in_union);
        }
        assert(k == i);
    }
    if spec_first_union_index(st) == Some(i) {
        assert(crate::model::has_union(st.fields));
        let w = choose|w: int| 0 <= w < st.fields.len() && st.fields[w].in_union;
        assert(exists|k: int| crate::model::is_first_union(st.fields, k)) by {
            lemma_exists_first_union(st.fields, w);
        }
        assert(crate::model::is_first_union(
            st.fields,
            choose|k: int| crate::model::is_first_union(st.fields, k),
        ));
    }
}

/// If some union member exists at or before `w`, a first union member
/// exists.
proof fn lemma_exists_first_union(fields: Seq<crate::model::FieldTy>, w: int)
    requires
        0 <= w < fields.len(),
        fields[w].in_union,
    ensures
        exists|k: int| crate::model::is_first_union(fields, k),
    decreases w,
{
    if forall|j: int| 0 <= j < w ==> !fields[j].in_union {
        assert(crate::model::is_first_union(fields, w));
    } else {
        let j = choose|j: int| 0 <= j < w && fields[j].in_union;
        lemma_exists_first_union(fields, j);
    }
}

/// The position of the first union member of the schema, or the field
/// count when the schema has no union.
pub fn first_union_index(schema: &StructSchema) -> (r: usize)
    ensures
        match spec_first_union_index(sschema_view(*schema)) {
            Some(i) => r == i,
            None => r == schema.fields@.len(),
        },
{
    let ghost st = sschema_view(*schema);
    let n = schema.fields.len();
    let mut i: usize = 0;
    while i < n
        invariant
            i <= n,
            n == schema.fields@.len(),
            st == sschema_view(*schema),
            forall|j: int| 0 <= j < i ==> !(#[trigger] st.fields[j].in_union),
        decreases n - i,
    {
        if schema.fields[i].in_union {
            proof {
                assert(st.fields[i as int] == field_view(schema.fields@[i as int]));
                assert(crate::model::is_first_union(st.fields, i as int));
                lemma_first_union_index(st, i as int);
            }
            return i;
        }
        proof {
            assert(st.fields[i as int] == field_view(schema.fields@[i as int]));
        }
        i = i + 1;
    }
    proof {
        if crate::model::has_union(st.fields) {
            let w = choose|w: int| 0 <= w < st.fields.len() && st.fields[w].in_union;
            assert(false);
        }
    }
    n
}

// ------------------------------------------------------------------
// Struct writes
// ------------------------------------------------------------------

impl StructValue {
    /// Whether field `idx` is present: set pointer field, or scalar field,
    /// or active union branch.
    pub fn has(&self, idx: usize) -> (r: bool)
        requires
            idx < self.slots@.len(),
        ensures
            r == (slots_view(self.slots)[idx as int] is Some),
    {
        self.slots[idx].is_some()
    }

    /// Writes field `idx`. Writing any member of a union group activates
    /// that branch and deactivates every sibling.
    pub fn set_field(&mut self, idx: usize, v: DynamicValue)
        requires
            idx < old(self).slots@.len(),
            old(self).slots@.len() == old(self).schema.fields@.len(),
        ensures
            final(self).schema == old(self).schema,
            final(self).slots@.len() == old(self).slots@.len(),
            slots_view(final(self).slots) == write_slot(
                sschema_view(old(self).schema).fields,
                slots_view(old(self).slots),
                idx as int,
                dv_view(v),
            ),
    {
        let ghost fields = sschema_view(self.schema).fields;
        let ghost slots0 = slots_view(self.slots);
        proof {
            assert(fields[idx as int] == field_view(self.schema.fields@[idx as int]));
        }
        if self.schema.fields[idx].in_union {
            let n = self.slots.len();
            let mut j: usize = 0;
            while j < n
                invariant
                    j <= n,
                    n == self.slots@.len(),
                    self.schema == old(self).schema,
                    self.slots@.len() == old(self).slots@.len(),
                    n == self.schema.fields@.len(),
                    fields == sschema_view(self.schema).fields,
                    fields[idx as int].in_union,
                    idx < n,
                    slots0 == slots_view(old(self).slots),
                    forall|k: int|
                        0 <= k < n ==> #[trigger] slots_view(self.slots)[k] == (
                        if k < j && fields[k].in_union {
                            None
                        } else {
                            slots0[k]
                        }),
                decreases n - j,
            {
                proof {
                    assert(fields[j as int] == field_view(self.schema.fields@[j as int]));
                }
                let ghost pre = self.slots;
                if self.schema.fields[j].in_union {
                    self.slots.set(j, None);
                }
                proof {
                    assert forall|k: int| 0 <= k < n implies #[trigger] slots_view(self.slots)[k]
                        == (
                    if k < j + 1 && fields[k].in_union {
                        None
                    } else {
                        slots0[k]
                    }) by {
                        if k != j {
                            assert(self.slots@[k] == pre@[k]);
                        }
                        assert(slots_view(pre)[k] == (
                        if k < j && fields[k].in_union {
                            None
                        } else {
                            slots0[k]
                        }));
                    }
                }
                j = j + 1;
            }
            let ghost pre = self.slots;
            self.slots.set(idx, Some(v));
            proof {
                assert forall|k: int| 0 <= k < self.slots@.len() implies #[trigger] slots_view(
                    self.slots,
                )[k] == write_slot(fields, slots0, idx as int, dv_view(v))[k] by {
                    if k != idx {
                        assert(self.slots@[k] == pre@[k]);
                        assert(slots_view(pre)[k] == (
                        if fields[k].in_union {
                            None
                        } else {
                            slots0[k]
                        }));
                    }
                }
                assert(slots_view(self.slots) =~= write_slot(
                    fields,
                    slots0,
                    idx as int,
                    dv_view(v),
                ));
            }
        } else {
            let ghost pre = self.slots;
            self.slots.set(idx, Some(v));
            proof {
                assert forall|k: int| 0 <= k < self.slots@.len() implies #[trigger] slots_view(
                    self.slots,
                )[k] == write_slot(fields, slots0, idx as int, dv_view(v))[k] by {
                    if k != idx {
                        assert(self.slots@[k] == pre@[k]);
                        assert(slots_view(pre)[k] == slots0[k]);
                    }
                }
                assert(slots_view(self.slots) =~= write_slot(
                    fields,
                    slots0,
                    idx as int,
                    dv_view(v),
                ));
            }
        }
    }
}

} // verus!
