use capnp_serde::cache::NameCache;
use capnp_serde::de::{deserialize_message, deserialize_value};
use capnp_serde::error::ConvError;
use capnp_serde::protocol::{InValue, SeqInput};
use capnp_serde::schema::{Field, SchemaType, StructSchema};
use capnp_serde::value::DynamicValue;

fn int_list_type() -> SchemaType {
    SchemaType::List(Box::new(SchemaType::Int32))
}

fn seq_input(hint: Option<usize>, items: Vec<InValue>) -> InValue {
    InValue::Sequence(SeqInput { hint, items })
}

fn five_ints() -> Vec<InValue> {
    vec![
        InValue::Int(1),
        InValue::Int(2),
        InValue::Int(3),
        InValue::Int(4),
        InValue::Int(5),
    ]
}

fn expect_int_list(v: &DynamicValue, expected: &[i32]) {
    match v {
        DynamicValue::List(lv) => {
            assert_eq!(lv.items.len(), expected.len());
            for (got, want) in lv.items.iter().zip(expected.iter()) {
                assert_eq!(got, &DynamicValue::Int32(*want));
            }
        }
        _ => panic!("expected a list"),
    }
}

#[test]
fn no_hint_scalar_list_decodes_in_order() {
    // The buffered path: no upfront count, scalar elements.
    let mut cache = NameCache::new();
    let input = seq_input(None, five_ints());
    let r = deserialize_message(&mut cache, &int_list_type(), &input).expect("deserialize");
    expect_int_list(&r, &[1, 2, 3, 4, 5]);
}

#[test]
fn hinted_scalar_list_decodes_in_order() {
    let mut cache = NameCache::new();
    let input = seq_input(Some(5), five_ints());
    let r = deserialize_message(&mut cache, &int_list_type(), &input).expect("deserialize");
    expect_int_list(&r, &[1, 2, 3, 4, 5]);
}

#[test]
fn no_hint_struct_list_fails_size_unavailable() {
    let point = StructSchema {
        id: 200,
        fields: vec![Field { name: "x".to_string(), ty: SchemaType::Int32, in_union: false }],
    };
    let root = SchemaType::List(Box::new(SchemaType::Struct(point)));
    let mut cache = NameCache::new();
    let input = seq_input(None, vec![]);
    let r = deserialize_message(&mut cache, &root, &input);
    assert_eq!(r, Err(ConvError::SizeUnavailable));
}

#[test]
fn no_hint_nested_list_fails_size_unavailable() {
    let root = SchemaType::List(Box::new(int_list_type()));
    let mut cache = NameCache::new();
    let input = seq_input(None, vec![]);
    let r = deserialize_message(&mut cache, &root, &input);
    assert_eq!(r, Err(ConvError::SizeUnavailable));
}

#[test]
fn short_input_leaves_trailing_defaults() {
    // The hint is advisory: fewer elements than hinted leave the trailing
    // slots at the element default.
    let mut cache = NameCache::new();
    let input = seq_input(Some(4), vec![InValue::Int(9), InValue::Int(8)]);
    let r = deserialize_message(&mut cache, &int_list_type(), &input).expect("deserialize");
    expect_int_list(&r, &[9, 8, 0, 0]);
}

#[test]
fn long_input_is_a_protocol_violation() {
    let mut cache = NameCache::new();
    let input = seq_input(Some(1), vec![InValue::Int(1), InValue::Int(2)]);
    let r = deserialize_message(&mut cache, &int_list_type(), &input);
    assert_eq!(r, Err(ConvError::UnderlyingProtocolError));
}

#[test]
fn out_of_range_number_leaves_default() {
    // An element outside the target width is silently dropped: the slot
    // keeps the element default.
    let mut cache = NameCache::new();
    let root = SchemaType::List(Box::new(SchemaType::Int8));
    let input = seq_input(
        Some(3),
        vec![InValue::Int(127), InValue::Int(128), InValue::Int(-128)],
    );
    let r = deserialize_message(&mut cache, &root, &input).expect("deserialize");
    match &r {
        DynamicValue::List(lv) => {
            assert_eq!(lv.items[0], DynamicValue::Int8(127));
            assert_eq!(lv.items[1], DynamicValue::Int8(0));
            assert_eq!(lv.items[2], DynamicValue::Int8(-128));
        }
        _ => panic!("expected a list"),
    }
}

#[test]
fn out_of_range_field_leaves_default() {
    let schema = StructSchema {
        id: 201,
        fields: vec![Field { name: "n".to_string(), ty: SchemaType::UInt8, in_union: false }],
    };
    let mut cache = NameCache::new();
    let input = InValue::Record(vec![("n".to_string(), InValue::Int(300))]);
    let r = deserialize_message(&mut cache, &SchemaType::Struct(schema), &input)
        .expect("deserialize");
    match &r {
        DynamicValue::Struct(sv) => {
            assert_eq!(sv.slots[0], Some(DynamicValue::UInt8(0)));
        }
        _ => panic!("expected a struct"),
    }
}

#[test]
fn unknown_key_is_fatal() {
    let schema = StructSchema {
        id: 202,
        fields: vec![Field { name: "x".to_string(), ty: SchemaType::Int32, in_union: false }],
    };
    let mut cache = NameCache::new();
    let input = InValue::Record(vec![("y".to_string(), InValue::Int(1))]);
    let r = deserialize_message(&mut cache, &SchemaType::Struct(schema), &input);
    assert_eq!(r, Err(ConvError::UnknownField));
}

#[test]
fn wrong_input_kind_is_schema_mismatch() {
    let mut cache = NameCache::new();
    let schema = StructSchema {
        id: 203,
        fields: vec![Field { name: "b".to_string(), ty: SchemaType::Bool, in_union: false }],
    };
    let input = InValue::Record(vec![("b".to_string(), InValue::Str("yes".to_string()))]);
    let r = deserialize_message(&mut cache, &SchemaType::Struct(schema), &input);
    assert_eq!(r, Err(ConvError::SchemaMismatch));
}

#[test]
fn text_never_converts_to_data() {
    let mut cache = NameCache::new();
    let r = deserialize_value(&mut cache, &SchemaType::Data, &InValue::Str("ab".to_string()));
    assert_eq!(r, Err(ConvError::SchemaMismatch));
}

#[test]
fn any_pointer_expectation_is_unsupported() {
    let mut cache = NameCache::new();
    let r = deserialize_value(&mut cache, &SchemaType::AnyPointer, &InValue::Unit);
    assert_eq!(r, Err(ConvError::UnsupportedType));
}

#[test]
fn unsigned_rejects_negative_silently() {
    let mut cache = NameCache::new();
    let r = deserialize_value(&mut cache, &SchemaType::UInt32, &InValue::Int(-1))
        .expect("deserialize");
    assert_eq!(r, None);
}

#[test]
fn widths_cast_exactly() {
    let mut cache = NameCache::new();
    let r = deserialize_value(&mut cache, &SchemaType::Int64, &InValue::UInt(u64::MAX));
    assert_eq!(r, Ok(None));
    let r = deserialize_value(&mut cache, &SchemaType::Int64, &InValue::UInt(42));
    assert_eq!(r, Ok(Some(DynamicValue::Int64(42))));
    let r = deserialize_value(&mut cache, &SchemaType::UInt16, &InValue::UInt(65535));
    assert_eq!(r, Ok(Some(DynamicValue::UInt16(65535))));
    let r = deserialize_value(&mut cache, &SchemaType::UInt16, &InValue::UInt(65536));
    assert_eq!(r, Ok(None));
}
