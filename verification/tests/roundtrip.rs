use capnp_serde::cache::NameCache;
use capnp_serde::de::deserialize_message;
use capnp_serde::error::ConvError;
use capnp_serde::protocol::encode_value;
use capnp_serde::schema::{Field, SchemaType, StructSchema};
use capnp_serde::ser::serialize_value;
use capnp_serde::value::{fresh_struct, DynamicValue};

fn field(name: &str, ty: SchemaType) -> Field {
    Field { name: name.to_string(), ty, in_union: false }
}

fn point_schema() -> StructSchema {
    StructSchema {
        id: 100,
        fields: vec![field("x", SchemaType::Int32), field("y", SchemaType::Int32)],
    }
}

fn mixed_schema() -> StructSchema {
    StructSchema {
        id: 101,
        fields: vec![
            field("flag", SchemaType::Bool),
            field("tag", SchemaType::Text),
            field("blob", SchemaType::Data),
            field("count", SchemaType::UInt64),
            field("items", SchemaType::List(Box::new(SchemaType::Int32))),
            field("inner", SchemaType::Struct(point_schema())),
        ],
    }
}

fn round_trip(root: &SchemaType, v: &DynamicValue) -> DynamicValue {
    let out = serialize_value(v).expect("serialize");
    let input = encode_value(&out, true, true).expect("encode");
    let mut cache = NameCache::new();
    deserialize_message(&mut cache, root, &input).expect("deserialize")
}

#[test]
fn scalar_struct_round_trips_exactly() {
    let schema = point_schema();
    let mut sv = fresh_struct(&schema);
    sv.set_field(0, DynamicValue::Int32(3));
    sv.set_field(1, DynamicValue::Int32(-4));
    let v = DynamicValue::Struct(sv);
    let r = round_trip(&SchemaType::Struct(point_schema()), &v);
    assert_eq!(r, v);
}

#[test]
fn mixed_struct_round_trips_exactly() {
    let schema = mixed_schema();
    let mut sv = fresh_struct(&schema);
    sv.set_field(0, DynamicValue::Bool(true));
    sv.set_field(1, DynamicValue::Text("hi".to_string()));
    sv.set_field(2, DynamicValue::Data(vec![0x01, 0x02]));
    sv.set_field(3, DynamicValue::UInt64(u64::MAX));
    sv.set_field(
        4,
        DynamicValue::List(capnp_serde::value::ListValue {
            elem: SchemaType::Int32,
            items: vec![
                DynamicValue::Int32(1),
                DynamicValue::Int32(2),
                DynamicValue::Int32(3),
            ],
        }),
    );
    let mut inner = fresh_struct(&point_schema());
    inner.set_field(0, DynamicValue::Int32(7));
    inner.set_field(1, DynamicValue::Int32(8));
    sv.set_field(5, DynamicValue::Struct(inner));
    let v = DynamicValue::Struct(sv);
    let r = round_trip(&SchemaType::Struct(mixed_schema()), &v);
    assert_eq!(r, v);
}

#[test]
fn absent_pointer_fields_stay_at_default() {
    // tag, blob, items and inner are never written: after the round trip
    // they are still absent, and the value compares equal to the original.
    let schema = mixed_schema();
    let mut sv = fresh_struct(&schema);
    sv.set_field(0, DynamicValue::Bool(false));
    let v = DynamicValue::Struct(sv);
    let r = round_trip(&SchemaType::Struct(mixed_schema()), &v);
    assert_eq!(r, v);
    match &r {
        DynamicValue::Struct(rs) => {
            assert!(rs.slots[1].is_none());
            assert!(rs.slots[2].is_none());
            assert!(rs.slots[4].is_none());
            assert!(rs.slots[5].is_none());
        }
        _ => panic!("expected a struct"),
    }
}

#[test]
fn int_list_root_round_trips() {
    let root = SchemaType::List(Box::new(SchemaType::Int32));
    let v = DynamicValue::List(capnp_serde::value::ListValue {
        elem: SchemaType::Int32,
        items: vec![
            DynamicValue::Int32(1),
            DynamicValue::Int32(2),
            DynamicValue::Int32(3),
            DynamicValue::Int32(4),
            DynamicValue::Int32(5),
        ],
    });
    let r = round_trip(&root, &v);
    assert_eq!(r, v);
}

#[test]
fn float_bits_round_trip_unchanged() {
    let schema = StructSchema {
        id: 102,
        fields: vec![field("f", SchemaType::Float32), field("d", SchemaType::Float64)],
    };
    let mut sv = fresh_struct(&schema);
    sv.set_field(0, DynamicValue::Float32Bits(1.5f32.to_bits()));
    sv.set_field(1, DynamicValue::Float64Bits((-2.25f64).to_bits()));
    let v = DynamicValue::Struct(sv);
    let r = round_trip(&SchemaType::Struct(schema), &v);
    assert_eq!(r, v);
}

#[test]
fn serializing_any_pointer_fails() {
    let r = serialize_value(&DynamicValue::AnyPointer);
    assert_eq!(r, Err(ConvError::UnsupportedType));
    let r = serialize_value(&DynamicValue::Capability);
    assert_eq!(r, Err(ConvError::UnsupportedType));
}

#[test]
fn empty_list_round_trips() {
    let root = SchemaType::List(Box::new(SchemaType::Text));
    let v = DynamicValue::List(capnp_serde::value::ListValue {
        elem: SchemaType::Text,
        items: vec![],
    });
    let r = round_trip(&root, &v);
    assert_eq!(r, v);
}
