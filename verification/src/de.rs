//! The deserializing engine: expected-type-directed. The engine walks the
//! expected schema type and requests matching shapes from the input, rather
//! than discovering shape from the input, because the destination arena
//! model cannot be populated without knowing the target shape first.

use vstd::prelude::*;

use crate::cache::{cache_extends, lemma_cache_extends_trans, NameCache};
use crate::error::ConvError;
use crate::floatbits::{
    f32_exact_int, f32_to_f64_bits_exact, f64_exact_int, f64_to_f32_bits_exact, i64_mag,
    int_to_f32_bits, int_to_f64_bits, mag_to_i16, mag_to_i32, mag_to_i64, mag_to_i8, mag_to_u16,
    mag_to_u32, mag_to_u64, mag_to_u8,
};
use crate::model::{
    default_val, field_names, find_name, fresh_slots, lemma_find_name_prefix, lemma_take_full,
    lemma_take_step, write_slot, FieldTy, InVal, StructTy, Ty, Val,
};
use crate::protocol::{in_entries_view, in_items_view, iv_view, InValue};
use crate::schema::{field_view, sschema_view, stype_view, SchemaType, StructSchema};
use crate::value::{
    default_value, dv_view, fresh_struct, items_view, slots_view, DynamicValue, EnumValue,
    ListValue, StructValue,
};
use crate::visitors::{BoolVisitor, DataVisitor, NumVisitor, TextVisitor, VoidVisitor};

verus! {

// ------------------------------------------------------------------
// Numeric casts
// ------------------------------------------------------------------
//
// The input protocol delivers whatever numeric kind the backend parsed;
// the engine performs the generic cast to the field's exact width and
// signedness. A conversion happens exactly when the token's value is
// representable at the target without change: integer tokens in the target
// range; float tokens whose value is an in-range integer, for integer
// targets; exactly representable integers and exactly converting float
// widths, for float targets. A token the target cannot carry exactly —
// out of range, fractional, inexact or non-finite — is dropped: the write
// is skipped and the destination keeps its default (`Ok(None)`). A token
// of a non-numeric kind is a schema mismatch.

pub open spec fn cast_i8(i: InVal) -> Result<Option<i8>, ConvError> {
    match i {
        InVal::Int(x) => Ok(if -0x80 <= x < 0x80 { Some(x as i8) } else { None }),
        InVal::UInt(u) => Ok(if u < 0x80 { Some(u as i8) } else { None }),
        InVal::F32(b) => Ok(
            match f32_exact_int(b) {
                Some((neg, mag)) => mag_to_i8(neg, mag),
                None => None,
            },
        ),
        InVal::F64(b) => Ok(
            match f64_exact_int(b) {
                Some((neg, mag)) => mag_to_i8(neg, mag),
                None => None,
            },
        ),
        _ => Err(ConvError::SchemaMismatch),
    }
}

pub open spec fn cast_i16(i: InVal) -> Result<Option<i16>, ConvError> {
    match i {
        InVal::Int(x) => Ok(if -0x8000 <= x < 0x8000 { Some(x as i16) } else { None }),
        InVal::UInt(u) => Ok(if u < 0x8000 { Some(u as i16) } else { None }),
        InVal::F32(b) => Ok(
            match f32_exact_int(b) {
                Some((neg, mag)) => mag_to_i16(neg, mag),
                None => None,
            },
        ),
        InVal::F64(b) => Ok(
            match f64_exact_int(b) {
                Some((neg, mag)) => mag_to_i16(neg, mag),
                None => None,
            },
        ),
        _ => Err(ConvError::SchemaMismatch),
    }
}

pub open spec fn cast_i32(i: InVal) -> Result<Option<i32>, ConvError> {
    match i {
        InVal::Int(x) => Ok(
            if -0x8000_0000 <= x < 0x8000_0000 {
                Some(x as i32)
            } else {
                None
            },
        ),
        InVal::UInt(u) => Ok(if u < 0x8000_0000 { Some(u as i32) } else { None }),
        InVal::F32(b) => Ok(
            match f32_exact_int(b) {
                Some((neg, mag)) => mag_to_i32(neg, mag),
                None => None,
            },
        ),
        InVal::F64(b) => Ok(
            match f64_exact_int(b) {
                Some((neg, mag)) => mag_to_i32(neg, mag),
                None => None,
            },
        ),
        _ => Err(ConvError::SchemaMismatch),
    }
}

pub open spec fn cast_i64(i: InVal) -> Result<Option<i64>, ConvError> {
    match i {
        InVal::Int(x) => Ok(Some(x)),
        InVal::UInt(u) => Ok(
            if u < 0x8000_0000_0000_0000 {
                Some(u as i64)
            } else {
                None
            },
        ),
        InVal::F32(b) => Ok(
            match f32_exact_int(b) {
                Some((neg, mag)) => mag_to_i64(neg, mag),
                None => None,
            },
        ),
        InVal::F64(b) => Ok(
            match f64_exact_int(b) {
                Some((neg, mag)) => mag_to_i64(neg, mag),
                None => None,
            },
        ),
        _ => Err(ConvError::SchemaMismatch),
    }
}

pub open spec fn cast_u8(i: InVal) -> Result<Option<u8>, ConvError> {
    match i {
        InVal::Int(x) => Ok(if 0 <= x < 0x100 { Some(x as u8) } else { None }),
        InVal::UInt(u) => Ok(if u < 0x100 { Some(u as u8) } else { None }),
        InVal::F32(b) => Ok(
            match f32_exact_int(b) {
                Some((neg, mag)) => mag_to_u8(neg, mag),
                None => None,
            },
        ),
        InVal::F64(b) => Ok(
            match f64_exact_int(b) {
                Some((neg, mag)) => mag_to_u8(neg, mag),
                None => None,
            },
        ),
        _ => Err(ConvError::SchemaMismatch),
    }
}

pub open spec fn cast_u16(i: InVal) -> Result<Option<u16>, ConvError> {
    match i {
        InVal::Int(x) => Ok(if 0 <= x < 0x1_0000 { Some(x as u16) } else { None }),
        InVal::UInt(u) => Ok(if u < 0x1_0000 { Some(u as u16) } else { None }),
        InVal::F32(b) => Ok(
            match f32_exact_int(b) {
                Some((neg, mag)) => mag_to_u16(neg, mag),
                None => None,
            },
        ),
        InVal::F64(b) => Ok(
            match f64_exact_int(b) {
                Some((neg, mag)) => mag_to_u16(neg, mag),
                None => None,
            },
        ),
        _ => Err(ConvError::SchemaMismatch),
    }
}

pub open spec fn cast_u32(i: InVal) -> Result<Option<u32>, ConvError> {
    match i {
        InVal::Int(x) => Ok(
            if 0 <= x < 0x1_0000_0000 {
                Some(x as u32)
            } else {
                None
            },
        ),
        InVal::UInt(u) => Ok(if u < 0x1_0000_0000 { Some(u as u32) } else { None }),
        InVal::F32(b) => Ok(
            match f32_exact_int(b) {
                Some((neg, mag)) => mag_to_u32(neg, mag),
                None => None,
            },
        ),
        InVal::F64(b) => Ok(
            match f64_exact_int(b) {
                Some((neg, mag)) => mag_to_u32(neg, mag),
                None => None,
            },
        ),
        _ => Err(ConvError::SchemaMismatch),
    }
}

pub open spec fn cast_u64(i: InVal) -> Result<Option<u64>, ConvError> {
    match i {
        InVal::Int(x) => Ok(if 0 <= x { Some(x as u64) } else { None }),
        InVal::UInt(u) => Ok(Some(u)),
        InVal::F32(b) => Ok(
            match f32_exact_int(b) {
                Some((neg, mag)) => mag_to_u64(neg, mag),
                None => None,
            },
        ),
        InVal::F64(b) => Ok(
            match f64_exact_int(b) {
                Some((neg, mag)) => mag_to_u64(neg, mag),
                None => None,
            },
        ),
        _ => Err(ConvError::SchemaMismatch),
    }
}

pub open spec fn cast_f32_bits(i: InVal) -> Result<Option<u32>, ConvError> {
    match i {
        InVal::F32(b) => Ok(Some(b)),
        InVal::F64(b) => Ok(f64_to_f32_bits_exact(b)),
        InVal::Int(x) => Ok(int_to_f32_bits(x < 0, i64_mag(x))),
        InVal::UInt(u) => Ok(int_to_f32_bits(false, u)),
        _ => Err(ConvError::SchemaMismatch),
    }
}

pub open spec fn cast_f64_bits(i: InVal) -> Result<Option<u64>, ConvError> {
    match i {
        InVal::F64(b) => Ok(Some(b)),
        InVal::F32(b) => Ok(f32_to_f64_bits_exact(b)),
        InVal::Int(x) => Ok(int_to_f64_bits(x < 0, i64_mag(x))),
        InVal::UInt(u) => Ok(int_to_f64_bits(false, u)),
        _ => Err(ConvError::SchemaMismatch),
    }
}

// ------------------------------------------------------------------
// Specification
// ------------------------------------------------------------------

/// Lists padded out to a hinted size: the trailing slots a too-short input
/// leaves behind stay at the element type's default.
pub open spec fn padded(elem: Ty, k: int) -> Seq<Val>
    decreases k,
{
    if k <= 0 {
        Seq::empty()
    } else {
        padded(elem, k - 1).push(default_val(elem))
    }
}

/// Whether a list of this element type can be buffered in a temporary
/// growable sequence when the input reports no size hint. A pointer-bearing
/// element (struct or list) would itself need upfront sizing to be built,
/// so it cannot.
pub open spec fn bufferable(elem: Ty) -> bool {
    match elem {
        Ty::Struct(_) => false,
        Ty::List(_) => false,
        Ty::AnyPointer => false,
        Ty::Capability => false,
        _ => true,
    }
}

/// What deserializing means: the result of pulling one value of the
/// expected type out of the input. `Ok(None)` means the input carried a
/// numeric token outside the target width: nothing is written and the
/// destination keeps its default. Dispatch is by the expected type alone.
pub open spec fn de(t: Ty, i: InVal) -> Result<Option<Val>, ConvError>
    decreases t, i,
{
    match t {
        Ty::Void => match i {
            InVal::Unit => Ok(Some(Val::Void)),
            _ => Err(ConvError::SchemaMismatch),
        },
        Ty::Bool => match i {
            InVal::Bool(b) => Ok(Some(Val::Bool(b))),
            _ => Err(ConvError::SchemaMismatch),
        },
        Ty::Int8 => match cast_i8(i) {
            Ok(Some(x)) => Ok(Some(Val::Int8(x))),
            Ok(None) => Ok(None),
            Err(e) => Err(e),
        },
        Ty::Int16 => match cast_i16(i) {
            Ok(Some(x)) => Ok(Some(Val::Int16(x))),
            Ok(None) => Ok(None),
            Err(e) => Err(e),
        },
        Ty::Int32 => match cast_i32(i) {
            Ok(Some(x)) => Ok(Some(Val::Int32(x))),
            Ok(None) => Ok(None),
            Err(e) => Err(e),
        },
        Ty::Int64 => match cast_i64(i) {
            Ok(Some(x)) => Ok(Some(Val::Int64(x))),
            Ok(None) => Ok(None),
            Err(e) => Err(e),
        },
        Ty::UInt8 => match cast_u8(i) {
            Ok(Some(x)) => Ok(Some(Val::UInt8(x))),
            Ok(None) => Ok(None),
            Err(e) => Err(e),
        },
        Ty::UInt16 => match cast_u16(i) {
            Ok(Some(x)) => Ok(Some(Val::UInt16(x))),
            Ok(None) => Ok(None),
            Err(e) => Err(e),
        },
        Ty::UInt32 => match cast_u32(i) {
            Ok(Some(x)) => Ok(Some(Val::UInt32(x))),
            Ok(None) => Ok(None),
            Err(e) => Err(e),
        },
        Ty::UInt64 => match cast_u64(i) {
            Ok(Some(x)) => Ok(Some(Val::UInt64(x))),
            Ok(None) => Ok(None),
            Err(e) => Err(e),
        },
        Ty::Float32 => match cast_f32_bits(i) {
            Ok(Some(b)) => Ok(Some(Val::Float32(b))),
            Ok(None) => Ok(None),
            Err(e) => Err(e),
        },
        Ty::Float64 => match cast_f64_bits(i) {
            Ok(Some(b)) => Ok(Some(Val::Float64(b))),
            Ok(None) => Ok(None),
            Err(e) => Err(e),
        },
        Ty::Text => match i {
            InVal::Str(s) => Ok(Some(Val::Text(s))),
            _ => Err(ConvError::SchemaMismatch),
        },
        Ty::Data => match i {
            InVal::Bytes(b) => Ok(Some(Val::Data(b))),
            _ => Err(ConvError::SchemaMismatch),
        },
        Ty::Enum(et) => match i {
            InVal::Str(s) => match find_name(et.enumerants, s) {
                Some(o) => Ok(Some(Val::Enum(et, o as u16))),
                None => Err(ConvError::UnknownEnumerant),
            },
            _ => Err(ConvError::SchemaMismatch),
        },
        Ty::Struct(st) => match i {
            InVal::Record(entries) => match de_entries(st, entries) {
                Ok(slots) => Ok(Some(Val::Struct(st, slots))),
                Err(e) => Err(e),
            },
            _ => Err(ConvError::SchemaMismatch),
        },
        Ty::List(b) => match i {
            InVal::Sequence(hint, items) => match hint {
                Some(n) => if items.len() > n {
                    Err(ConvError::UnderlyingProtocolError)
                } else {
                    match de_items(*b, items) {
                        Ok(vs) => Ok(
                            Some(Val::List(*b, vs + padded(*b, n - items.len()))),
                        ),
                        Err(e) => Err(e),
                    }
                },
                None => if !bufferable(*b) {
                    match *b {
                        Ty::AnyPointer => Err(ConvError::UnsupportedType),
                        Ty::Capability => Err(ConvError::UnsupportedType),
                        _ => Err(ConvError::SizeUnavailable),
                    }
                } else {
                    match de_items(*b, items) {
                        Ok(vs) => Ok(Some(Val::List(*b, vs))),
                        Err(e) => Err(e),
                    }
                },
            },
            _ => Err(ConvError::SchemaMismatch),
        },
        Ty::AnyPointer => Err(ConvError::UnsupportedType),
        Ty::Capability => Err(ConvError::UnsupportedType),
    }
}

/// Folding the input record into struct slots, left to right, starting
/// from a freshly allocated struct. An unknown key is fatal; a dropped
/// numeric write leaves the slot untouched; anything else writes the slot
/// (activating its union branch, if it has one).
pub open spec fn de_entries(
    st: StructTy,
    entries: Seq<(Seq<char>, InVal)>,
) -> Result<Seq<Option<Val>>, ConvError>
    decreases st, entries,
{
    if entries.len() == 0 {
        Ok(fresh_slots(st.fields))
    } else {
        match de_entries(st, entries.drop_last()) {
            Err(e) => Err(e),
            Ok(slots) => match find_name(crate::model::field_names(st.fields), entries.last().0) {
                None => Err(ConvError::UnknownField),
                Some(idx) => if !(0 <= idx < st.fields.len()) {
                    // `find_name` only returns positions of the name list;
                    // this branch is unreachable.
                    Err(ConvError::UnknownField)
                } else {
                    match de(st.fields[idx].ty, entries.last().1) {
                        Err(e) => Err(e),
                        Ok(None) => Ok(slots),
                        Ok(Some(w)) => Ok(write_slot(st.fields, slots, idx, w)),
                    }
                },
            },
        }
    }
}

/// Decoding the elements of a list input, in order; a dropped numeric
/// write leaves the element at the element type's default.
pub open spec fn de_items(elem: Ty, items: Seq<InVal>) -> Result<Seq<Val>, ConvError>
    decreases elem, items,
{
    if items.len() == 0 {
        Ok(Seq::empty())
    } else {
        match de_items(elem, items.drop_last()) {
            Err(e) => Err(e),
            Ok(vs) => match de(elem, items.last()) {
                Err(e) => Err(e),
                Ok(None) => Ok(vs.push(default_val(elem))),
                Ok(Some(w)) => Ok(vs.push(w)),
            },
        }
    }
}

// ------------------------------------------------------------------
// Executable engine
// ------------------------------------------------------------------

pub open spec fn de_res_view(r: Result<Option<DynamicValue>, ConvError>) -> Result<
    Option<Val>,
    ConvError,
> {
    match r {
        Ok(Some(v)) => Ok(Some(dv_view(v))),
        Ok(None) => Ok(None),
        Err(e) => Err(e),
    }
}

/// What deserializing one rooted value means: a dropped numeric write at
/// the root leaves the root at its default.
pub open spec fn de_message(t: Ty, i: InVal) -> Result<Val, ConvError> {
    match de(t, i) {
        Ok(Some(v)) => Ok(v),
        Ok(None) => Ok(default_val(t)),
        Err(e) => Err(e),
    }
}

/// The position of the first field named `key`, scanning the schema's
/// field list left to right.
fn find_field_index(schema: &StructSchema, key: &String) -> (r: Option<usize>)
    ensures
        match r {
            Some(i) => i < schema.fields@.len() && find_name(
                field_names(sschema_view(*schema).fields),
                key@,
            ) == Some(i as int),
            None => find_name(field_names(sschema_view(*schema).fields), key@) is None,
        },
{
    let ghost names = field_names(sschema_view(*schema).fields);
    let n = schema.fields.len();
    let mut i: usize = 0;
    while i < n
        invariant
            i <= n,
            n == schema.fields@.len(),
            names == field_names(sschema_view(*schema).fields),
            forall|j: int| 0 <= j < i ==> names[j] != key@,
        decreases n - i,
    {
        proof {
            assert(sschema_view(*schema).fields[i as int] == field_view(
                schema.fields@[i as int],
            ));
            assert(names[i as int] == schema.fields@[i as int].name@);
        }
        if schema.fields[i].name == *key {
            proof {
                lemma_find_name_prefix(names, key@, i as int);
            }
            return Some(i);
        }
        i = i + 1;
    }
    proof {
        lemma_find_name_prefix(names, key@, n as int);
    }
    None
}

/// The ordinal of the first enumerant named `key`.
fn find_enumerant_index(names: &Vec<String>, key: &String) -> (r: Option<usize>)
    ensures
        match r {
            Some(i) => i < names@.len() && find_name(names.deep_view(), key@) == Some(i as int),
            None => find_name(names.deep_view(), key@) is None,
        },
{
    let n = names.len();
    let mut i: usize = 0;
    while i < n
        invariant
            i <= n,
            n == names@.len(),
            forall|j: int| 0 <= j < i ==> names.deep_view()[j] != key@,
        decreases n - i,
    {
        if names[i] == *key {
            proof {
                lemma_find_name_prefix(names.deep_view(), key@, i as int);
            }
            return Some(i);
        }
        i = i + 1;
    }
    proof {
        lemma_find_name_prefix(names.deep_view(), key@, n as int);
    }
    None
}

/// Deserializes one value of the expected type out of the input. Returns
/// `Ok(None)` when the input carried a numeric token outside the target
/// width: nothing is to be written and the destination keeps its default.
/// The name cache gains at most the name lists of the struct and enum
/// types the walk passes; no cached entry is changed or removed.
pub fn deserialize_value(cache: &mut NameCache, expected: &SchemaType, input: &InValue) -> (r:
    Result<Option<DynamicValue>, ConvError>)
    ensures
        de_res_view(r) == de(expected@, iv_view(*input)),
        cache_extends(old(cache)@, final(cache)@),
    decreases *expected, *input, 0nat,
{
    match expected {
        SchemaType::Void => match VoidVisitor::new().visit(input) {
            Ok(_) => Ok(Some(DynamicValue::Void)),
            Err(e) => Err(e),
        },
        SchemaType::Bool => match BoolVisitor::new().visit(input) {
            Ok(b) => Ok(Some(DynamicValue::Bool(b))),
            Err(e) => Err(e),
        },
        SchemaType::Int8 => match NumVisitor::new().visit_i8(input) {
            Ok(Some(x)) => Ok(Some(DynamicValue::Int8(x))),
            Ok(None) => Ok(None),
            Err(e) => Err(e),
        },
        SchemaType::Int16 => match NumVisitor::new().visit_i16(input) {
            Ok(Some(x)) => Ok(Some(DynamicValue::Int16(x))),
            Ok(None) => Ok(None),
            Err(e) => Err(e),
        },
        SchemaType::Int32 => match NumVisitor::new().visit_i32(input) {
            Ok(Some(x)) => Ok(Some(DynamicValue::Int32(x))),
            Ok(None) => Ok(None),
            Err(e) => Err(e),
        },
        SchemaType::Int64 => match NumVisitor::new().visit_i64(input) {
            Ok(Some(x)) => Ok(Some(DynamicValue::Int64(x))),
            Ok(None) => Ok(None),
            Err(e) => Err(e),
        },
        SchemaType::UInt8 => match NumVisitor::new().visit_u8(input) {
            Ok(Some(x)) => Ok(Some(DynamicValue::UInt8(x))),
            Ok(None) => Ok(None),
            Err(e) => Err(e),
        },
        SchemaType::UInt16 => match NumVisitor::new().visit_u16(input) {
            Ok(Some(x)) => Ok(Some(DynamicValue::UInt16(x))),
            Ok(None) => Ok(None),
            Err(e) => Err(e),
        },
        SchemaType::UInt32 => match NumVisitor::new().visit_u32(input) {
            Ok(Some(x)) => Ok(Some(DynamicValue::UInt32(x))),
            Ok(None) => Ok(None),
            Err(e) => Err(e),
        },
        SchemaType::UInt64 => match NumVisitor::new().visit_u64(input) {
            Ok(Some(x)) => Ok(Some(DynamicValue::UInt64(x))),
            Ok(None) => Ok(None),
            Err(e) => Err(e),
        },
        SchemaType::Float32 => match NumVisitor::new().visit_f32_bits(input) {
            Ok(Some(b)) => Ok(Some(DynamicValue::Float32Bits(b))),
            Ok(None) => Ok(None),
            Err(e) => Err(e),
        },
        SchemaType::Float64 => match NumVisitor::new().visit_f64_bits(input) {
            Ok(Some(b)) => Ok(Some(DynamicValue::Float64Bits(b))),
            Ok(None) => Ok(None),
            Err(e) => Err(e),
        },
        SchemaType::Text => match TextVisitor::new().visit(input) {
            Ok(s) => Ok(Some(DynamicValue::Text(s))),
            Err(e) => Err(e),
        },
        SchemaType::Data => match DataVisitor::new().visit(input) {
            Ok(b) => Ok(Some(DynamicValue::Data(b))),
            Err(e) => Err(e),
        },
        SchemaType::Enum(es) => {
            // The first resolver of this id installs the enumerant names
            // for later pure reads. The identifier is then matched against
            // the schema's own list: the two are content-identical under
            // durable ids, but the schema is what this call was handed, so
            // the engine's contract cannot depend on what an earlier
            // conversion primed the cache with.
            let _names = cache.resolve(es.id, expected);
            match input {
                InValue::Str(s) => match find_enumerant_index(&es.enumerants, s) {
                    Some(idx) => {
                        let ordinal: u16 = #[verifier::truncate] (idx as u16);
                        Ok(
                            Some(
                                DynamicValue::Enum(
                                    EnumValue { schema: es.clone(), ordinal },
                                ),
                            ),
                        )
                    },
                    None => Err(ConvError::UnknownEnumerant),
                },
                _ => Err(ConvError::SchemaMismatch),
            }
        },
        SchemaType::Struct(ss) => {
            // The first resolver of this id installs the field names for
            // later pure reads. Keys are then looked up in the schema's own
            // field list: the two are content-identical under durable ids,
            // but the schema is what this call was handed, so the engine's
            // contract cannot depend on what an earlier conversion primed
            // the cache with.
            let _names = cache.resolve(ss.id, expected);
            match input {
                InValue::Record(entries) => {
                    let ghost mid = cache@;
                    let n = entries.len();
                    let r = de_struct_entries(cache, ss, entries, n);
                    proof {
                        lemma_take_full(in_entries_view(*entries));
                        lemma_cache_extends_trans(old(cache)@, mid, cache@);
                    }
                    match r {
                        Ok(sv) => Ok(Some(DynamicValue::Struct(sv))),
                        Err(e) => Err(e),
                    }
                },
                _ => Err(ConvError::SchemaMismatch),
            }
        },
        SchemaType::List(b) => match input {
            InValue::Sequence(si) => de_list(cache, b, si),
            _ => Err(ConvError::SchemaMismatch),
        },
        SchemaType::AnyPointer => Err(ConvError::UnsupportedType),
        SchemaType::Capability => Err(ConvError::UnsupportedType),
    }
}

/// Deserializes a list: the size-resolution strategy. With an upfront
/// count, allocate at that count and stream elements into it (a shorter
/// input leaves trailing defaults, a longer one is the input protocol's
/// own contract violation). Without one, buffer the decoded elements and
/// allocate at the final count; a pointer-bearing element type cannot be
/// buffered and fails instead.
fn de_list(cache: &mut NameCache, elem: &SchemaType, si: &crate::protocol::SeqInput) -> (r: Result<
    Option<DynamicValue>,
    ConvError,
>)
    ensures
        de_res_view(r) == de(
            Ty::List(Box::new(stype_view(*elem))),
            InVal::Sequence(
                match si.hint {
                    Some(h) => Some(h as int),
                    None => None,
                },
                in_items_view(si.items),
            ),
        ),
        cache_extends(old(cache)@, final(cache)@),
    decreases *elem, *si, 0nat,
{
    match si.hint {
        Some(n) => {
            if si.items.len() > n {
                // More elements than the upfront count: the input protocol
                // broke its own contract.
                Err(ConvError::UnderlyingProtocolError)
            } else {
                let m = si.items.len();
                let r = de_list_items(cache, elem, &si.items, m);
                proof {
                    lemma_take_full(in_items_view(si.items));
                }
                match r {
                    Err(e) => Err(e),
                    Ok(mut vs) => {
                        let ghost base = items_view(vs);
                        let ghost ev = stype_view(*elem);
                        proof {
                            assert(base + padded(ev, 0) =~= base);
                        }
                        while vs.len() < n
                            invariant
                                m <= vs@.len() <= n,
                                base.len() == m,
                                ev == stype_view(*elem),
                                items_view(vs) == base + padded(ev, vs@.len() - m),
                            decreases n - vs@.len(),
                        {
                            let ghost vs_pre = vs;
                            let d = default_value(elem);
                            vs.push(d);
                            proof {
                                assert(items_view(vs) =~= items_view(vs_pre).push(dv_view(d)));
                                assert(items_view(vs_pre).push(dv_view(d)) =~= base + padded(
                                    ev,
                                    vs@.len() - m,
                                ));
                            }
                        }
                        Ok(
                            Some(
                                DynamicValue::List(
                                    ListValue { elem: elem.clone(), items: vs },
                                ),
                            ),
                        )
                    },
                }
            }
        },
        None => {
            match elem {
                SchemaType::Struct(_) => Err(ConvError::SizeUnavailable),
                SchemaType::List(_) => Err(ConvError::SizeUnavailable),
                SchemaType::AnyPointer => Err(ConvError::UnsupportedType),
                SchemaType::Capability => Err(ConvError::UnsupportedType),
                _ => {
                    // Buffer the whole sequence first, then allocate at the
                    // final count.
                    let m = si.items.len();
                    let r = de_list_items(cache, elem, &si.items, m);
                    proof {
                        lemma_take_full(in_items_view(si.items));
                    }
                    match r {
                        Err(e) => Err(e),
                        Ok(vs) => Ok(
                            Some(
                                DynamicValue::List(
                                    ListValue { elem: elem.clone(), items: vs },
                                ),
                            ),
                        ),
                    }
                },
            }
        },
    }
}

/// Folds the first `upto` record entries into a freshly allocated struct.
fn de_struct_entries(
    cache: &mut NameCache,
    schema: &StructSchema,
    entries: &Vec<(String, InValue)>,
    upto: usize,
) -> (r: Result<StructValue, ConvError>)
    requires
        upto <= entries@.len(),
    ensures
        cache_extends(old(cache)@, final(cache)@),
        match r {
            Ok(sv) => {
                &&& de_entries(
                    sschema_view(*schema),
                    in_entries_view(*entries).take(upto as int),
                ) == Ok::<_, ConvError>(slots_view(sv.slots))
                &&& sschema_view(sv.schema) == sschema_view(*schema)
                &&& sv.slots@.len() == sv.schema.fields@.len()
                &&& sv.schema.fields@.len() == schema.fields@.len()
            },
            Err(e) => de_entries(
                sschema_view(*schema),
                in_entries_view(*entries).take(upto as int),
            ) == Err::<Seq<Option<Val>>, _>(e),
        },
    decreases *schema, *entries, upto,
{
    if upto == 0 {
        let sv = fresh_struct(schema);
        proof {
            assert(in_entries_view(*entries).take(0) =~= Seq::<(Seq<char>, InVal)>::empty());
        }
        Ok(sv)
    } else {
        let prev = de_struct_entries(cache, schema, entries, upto - 1);
        proof {
            lemma_take_step(in_entries_view(*entries), upto - 1);
        }
        match prev {
            Err(e) => Err(e),
            Ok(mut sv) => {
                let key = &entries[upto - 1].0;
                match find_field_index(schema, key) {
                    None => Err(ConvError::UnknownField),
                    Some(idx) => {
                        let ghost mid = cache@;
                        let dr = deserialize_value(
                            cache,
                            &schema.fields[idx].ty,
                            &entries[upto - 1].1,
                        );
                        proof {
                            assert(sschema_view(*schema).fields[idx as int] == field_view(
                                schema.fields@[idx as int],
                            ));
                        }
                        match dr {
                            Err(e) => Err(e),
                            Ok(None) => Ok(sv),
                            Ok(Some(w)) => {
                                proof {
                                    assert(sschema_view(sv.schema).fields == sschema_view(
                                        *schema,
                                    ).fields);
                                }
                                sv.set_field(idx, w);
                                Ok(sv)
                            },
                        }
                    },
                }
            },
        }
    }
}

/// Decodes the first `upto` elements of a sequence input, in order; a
/// dropped numeric write leaves the element at the element type's default.
fn de_list_items(
    cache: &mut NameCache,
    elem: &SchemaType,
    items: &Vec<InValue>,
    upto: usize,
) -> (r: Result<Vec<DynamicValue>, ConvError>)
    requires
        upto <= items@.len(),
    ensures
        cache_extends(old(cache)@, final(cache)@),
        match r {
            Ok(vs) => de_items(stype_view(*elem), in_items_view(*items).take(upto as int))
                == Ok::<_, ConvError>(items_view(vs)) && vs@.len() == upto,
            Err(e) => de_items(stype_view(*elem), in_items_view(*items).take(upto as int))
                == Err::<Seq<Val>, _>(e),
        },
    decreases *elem, *items, upto,
{
    if upto == 0 {
        let vs: Vec<DynamicValue> = Vec::new();
        proof {
            assert(items_view(vs) =~= Seq::<Val>::empty());
            assert(in_items_view(*items).take(0) =~= Seq::<InVal>::empty());
        }
        Ok(vs)
    } else {
        let prev = de_list_items(cache, elem, items, upto - 1);
        proof {
            lemma_take_step(in_items_view(*items), upto - 1);
        }
        match prev {
            Err(e) => Err(e),
            Ok(mut vs) => {
                let dr = deserialize_value(cache, elem, &items[upto - 1]);
                match dr {
                    Err(e) => Err(e),
                    Ok(got) => {
                        let w = match got {
                            Some(w) => w,
                            None => default_value(elem),
                        };
                        let ghost vs_pre = vs;
                        vs.push(w);
                        proof {
                            assert(items_view(vs) =~= items_view(vs_pre).push(dv_view(w)));
                        }
                        Ok(vs)
                    },
                }
            },
        }
    }
}

/// Deserializes one rooted value: the expected root type must be a struct
/// or a list, as the arena's root allocation demands.
pub fn deserialize_message(cache: &mut NameCache, root: &SchemaType, input: &InValue) -> (r:
    Result<DynamicValue, ConvError>)
    requires
        root@ is Struct || root@ is List,
    ensures
        match r {
            Ok(v) => de_message(root@, iv_view(*input)) == Ok::<_, ConvError>(dv_view(v)),
            Err(e) => de_message(root@, iv_view(*input)) == Err::<Val, _>(e),
        },
        cache_extends(old(cache)@, final(cache)@),
{
    match deserialize_value(cache, root, input) {
        Ok(Some(v)) => Ok(v),
        Ok(None) => Ok(default_value(root)),
        Err(e) => Err(e),
    }
}

} // verus!
