//! The serializing engine: a dynamic value tree, read once, recursively,
//! into the generic output protocol.

use vstd::prelude::*;

use crate::error::ConvError;
use crate::model::{lemma_take_full, lemma_take_step, FieldTy, OutVal, Val};
use crate::protocol::{out_entries_view, out_items_view, OutValue, VariantValue};
use crate::schema::{sschema_view, StructSchema};
use crate::value::{clone_bytes, dv_view, items_view, slots_view, DynamicValue};

verus! {

// ------------------------------------------------------------------
// Specification
// ------------------------------------------------------------------

/// What serializing a value means. Scalars map to the matching output
/// primitive; text and byte blobs to the string and byte-sequence
/// primitives; a struct to a record of its present fields in schema order;
/// a list to a sequence of its elements; an enum to a named variant when
/// the stored ordinal is known, and to a null placeholder when the schema
/// has evolved past this reader; the unsupported kinds fail. A struct
/// whose slot count disagrees with its schema cannot come from this
/// library's constructors and fails as a schema mismatch.
pub open spec fn ser(v: Val) -> Result<OutVal, ConvError>
    decreases v,
{
    match v {
        Val::Void => Ok(OutVal::Null),
        Val::Bool(b) => Ok(OutVal::Bool(b)),
        Val::Int8(x) => Ok(OutVal::I8(x)),
        Val::Int16(x) => Ok(OutVal::I16(x)),
        Val::Int32(x) => Ok(OutVal::I32(x)),
        Val::Int64(x) => Ok(OutVal::I64(x)),
        Val::UInt8(x) => Ok(OutVal::U8(x)),
        Val::UInt16(x) => Ok(OutVal::U16(x)),
        Val::UInt32(x) => Ok(OutVal::U32(x)),
        Val::UInt64(x) => Ok(OutVal::U64(x)),
        Val::Float32(b) => Ok(OutVal::F32(b)),
        Val::Float64(b) => Ok(OutVal::F64(b)),
        Val::Text(s) => Ok(OutVal::Str(s)),
        Val::Data(d) => Ok(OutVal::Bytes(d)),
        Val::Enum(et, ord) => if (ord as int) < et.enumerants.len() {
            Ok(
                OutVal::Variant {
                    enum_name: et.name,
                    ordinal: ord as u32,
                    name: et.enumerants[ord as int],
                },
            )
        } else {
            Ok(OutVal::Null)
        },
        Val::Struct(st, slots) => if slots.len() != st.fields.len() {
            Err(ConvError::SchemaMismatch)
        } else {
            match ser_fields(st.fields, slots) {
                Ok(entries) => Ok(OutVal::Record(entries)),
                Err(e) => Err(e),
            }
        },
        Val::List(_, items) => match ser_items(items) {
            Ok(os) => Ok(OutVal::Sequence(os)),
            Err(e) => Err(e),
        },
        Val::AnyPointer => Err(ConvError::UnsupportedType),
        Val::Capability => Err(ConvError::UnsupportedType),
    }
}

/// The record entries of a struct: one `(name, value)` pair for each
/// present slot, left to right; absent slots are silently omitted. The
/// leftmost failing field decides the error.
pub open spec fn ser_fields(
    fields: Seq<crate::model::FieldTy>,
    slots: Seq<Option<Val>>,
) -> Result<Seq<(Seq<char>, OutVal)>, ConvError>
    decreases slots,
{
    if slots.len() == 0 || fields.len() == 0 {
        Ok(Seq::empty())
    } else {
        match ser_fields(fields.drop_last(), slots.drop_last()) {
            Err(e) => Err(e),
            Ok(entries) => match slots.last() {
                None => Ok(entries),
                Some(w) => match ser(w) {
                    Err(e) => Err(e),
                    Ok(o) => Ok(entries.push((fields.last().name, o))),
                },
            },
        }
    }
}

/// The serialized elements of a list, in order; the leftmost failing
/// element decides the error.
pub open spec fn ser_items(items: Seq<Val>) -> Result<Seq<OutVal>, ConvError>
    decreases items,
{
    if items.len() == 0 {
        Ok(Seq::empty())
    } else {
        match ser_items(items.drop_last()) {
            Err(e) => Err(e),
            Ok(os) => match ser(items.last()) {
                Err(e) => Err(e),
                Ok(o) => Ok(os.push(o)),
            },
        }
    }
}

// ------------------------------------------------------------------
// Executable engine
// ------------------------------------------------------------------

pub open spec fn out_res_view(r: Result<OutValue, ConvError>) -> Result<OutVal, ConvError> {
    match r {
        Ok(o) => Ok(crate::protocol::ov_view(o)),
        Err(e) => Err(e),
    }
}

/// Serializes one dynamic value into the output protocol tree. Pure read:
/// the value is only borrowed, every composite is walked exactly once.
pub fn serialize_value(v: &DynamicValue) -> (r: Result<OutValue, ConvError>)
    ensures
        out_res_view(r) == ser(dv_view(*v)),
    decreases *v, 0nat,
{
    match v {
        DynamicValue::Void => Ok(OutValue::Null),
        DynamicValue::Bool(b) => Ok(OutValue::Bool(*b)),
        DynamicValue::Int8(x) => Ok(OutValue::I8(*x)),
        DynamicValue::Int16(x) => Ok(OutValue::I16(*x)),
        DynamicValue::Int32(x) => Ok(OutValue::I32(*x)),
        DynamicValue::Int64(x) => Ok(OutValue::I64(*x)),
        DynamicValue::UInt8(x) => Ok(OutValue::U8(*x)),
        DynamicValue::UInt16(x) => Ok(OutValue::U16(*x)),
        DynamicValue::UInt32(x) => Ok(OutValue::U32(*x)),
        DynamicValue::UInt64(x) => Ok(OutValue::U64(*x)),
        DynamicValue::Float32Bits(b) => Ok(OutValue::F32Bits(*b)),
        DynamicValue::Float64Bits(b) => Ok(OutValue::F64Bits(*b)),
        DynamicValue::Text(s) => Ok(OutValue::Str(s.clone())),
        DynamicValue::Data(d) => Ok(OutValue::Bytes(clone_bytes(d))),
        DynamicValue::Enum(ev) => {
            if (ev.ordinal as usize) < ev.schema.enumerants.len() {
                Ok(
                    OutValue::Variant(
                        VariantValue {
                            enum_name: ev.schema.name.clone(),
                            ordinal: ev.ordinal as u32,
                            name: ev.schema.enumerants[ev.ordinal as usize].clone(),
                        },
                    ),
                )
            } else {
                Ok(OutValue::Null)
            }
        },
        DynamicValue::Struct(sv) => {
            if sv.slots.len() != sv.schema.fields.len() {
                return Err(ConvError::SchemaMismatch);
            }
            let n = sv.slots.len();
            let r = serialize_fields(&sv.schema, &sv.slots, n);
            proof {
                lemma_take_full(sschema_view(sv.schema).fields);
                lemma_take_full(slots_view(sv.slots));
            }
            match r {
                Ok(entries) => Ok(OutValue::Record(entries)),
                Err(e) => Err(e),
            }
        },
        DynamicValue::List(lv) => {
            let n = lv.items.len();
            let r = serialize_items(&lv.items, n);
            proof {
                lemma_take_full(items_view(lv.items));
            }
            match r {
                Ok(os) => Ok(OutValue::Sequence(os)),
                Err(e) => Err(e),
            }
        },
        DynamicValue::AnyPointer => Err(ConvError::UnsupportedType),
        DynamicValue::Capability => Err(ConvError::UnsupportedType),
    }
}

/// Serializes the first `upto` fields of a struct: one record entry per
/// present slot, absent slots silently omitted.
fn serialize_fields(schema: &StructSchema, slots: &Vec<Option<DynamicValue>>, upto: usize) -> (r:
    Result<Vec<(String, OutValue)>, ConvError>)
    requires
        upto <= slots@.len(),
        slots@.len() == schema.fields@.len(),
    ensures
        match r {
            Ok(entries) => ser_fields(
                sschema_view(*schema).fields.take(upto as int),
                slots_view(*slots).take(upto as int),
            ) == Ok::<_, ConvError>(out_entries_view(entries)),
            Err(e) => ser_fields(
                sschema_view(*schema).fields.take(upto as int),
                slots_view(*slots).take(upto as int),
            ) == Err::<Seq<(Seq<char>, OutVal)>, _>(e),
        },
    decreases *slots, upto,
{
    if upto == 0 {
        let entries: Vec<(String, OutValue)> = Vec::new();
        proof {
            assert(out_entries_view(entries) =~= Seq::<(Seq<char>, OutVal)>::empty());
            assert(sschema_view(*schema).fields.take(0) =~= Seq::<FieldTy>::empty());
            assert(slots_view(*slots).take(0) =~= Seq::<Option<Val>>::empty());
        }
        Ok(entries)
    } else {
        let prev = serialize_fields(schema, slots, upto - 1);
        proof {
            lemma_take_step(sschema_view(*schema).fields, upto - 1);
            lemma_take_step(slots_view(*slots), upto - 1);
        }
        match prev {
            Err(e) => Err(e),
            Ok(mut entries) => match &slots[upto - 1] {
                None => {
                    proof {
                        assert(slots_view(*slots)[upto - 1] is None);
                    }
                    Ok(entries)
                },
                Some(w) => {
                    proof {
                        assert(slots_view(*slots)[upto - 1] == Some(dv_view(*w)));
                    }
                    match serialize_value(w) {
                        Err(e) => Err(e),
                        Ok(o) => {
                            let name = schema.fields[upto - 1].name.clone();
                            proof {
                                assert(sschema_view(*schema).fields[upto - 1]
                                    == crate::schema::field_view(schema.fields@[upto - 1]));
                            }
                            let ghost entries_pre = entries;
                            entries.push((name, o));
                            proof {
                                assert(out_entries_view(entries) =~= out_entries_view(
                                    entries_pre,
                                ).push((name@, crate::protocol::ov_view(o))));
                            }
                            Ok(entries)
                        },
                    }
                },
            },
        }
    }
}

/// Serializes the first `upto` elements of a list, in order.
fn serialize_items(items: &Vec<DynamicValue>, upto: usize) -> (r: Result<
    Vec<OutValue>,
    ConvError,
>)
    requires
        upto <= items@.len(),
    ensures
        match r {
            Ok(os) => ser_items(items_view(*items).take(upto as int)) == Ok::<_, ConvError>(
                out_items_view(os),
            ),
            Err(e) => ser_items(items_view(*items).take(upto as int)) == Err::<Seq<OutVal>, _>(e),
        },
    decreases *items, upto,
{
    if upto == 0 {
        let os: Vec<OutValue> = Vec::new();
        proof {
            assert(out_items_view(os) =~= Seq::<OutVal>::empty());
            assert(items_view(*items).take(0) =~= Seq::<Val>::empty());
        }
        Ok(os)
    } else {
        let prev = serialize_items(items, upto - 1);
        proof {
            lemma_take_step(items_view(*items), upto - 1);
        }
        match prev {
            Err(e) => Err(e),
            Ok(mut os) => match serialize_value(&items[upto - 1]) {
                Err(e) => Err(e),
                Ok(o) => {
                    let ghost os_pre = os;
                    os.push(o);
                    proof {
                        assert(out_items_view(os) =~= out_items_view(os_pre).push(
                            crate::protocol::ov_view(o),
                        ));
                    }
                    Ok(os)
                },
            },
        }
    }
}

} // verus!
