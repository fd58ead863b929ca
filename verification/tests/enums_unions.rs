use capnp_serde::cache::NameCache;
use capnp_serde::de::{deserialize_message, deserialize_value};
use capnp_serde::error::ConvError;
use capnp_serde::protocol::{encode_value, InValue, OutValue};
use capnp_serde::schema::{EnumSchema, Field, SchemaType, StructSchema};
use capnp_serde::ser::serialize_value;
use capnp_serde::value::{fresh_struct, DynamicValue, EnumValue};

fn abc_enum() -> EnumSchema {
    EnumSchema {
        id: 300,
        name: "Letter".to_string(),
        enumerants: vec!["A".to_string(), "B".to_string(), "C".to_string()],
    }
}

fn union_schema() -> StructSchema {
    StructSchema {
        id: 301,
        fields: vec![
            Field { name: "a".to_string(), ty: SchemaType::Int32, in_union: true },
            Field { name: "b".to_string(), ty: SchemaType::Text, in_union: true },
            Field { name: "c".to_string(), ty: SchemaType::Bool, in_union: true },
        ],
    }
}

#[test]
fn known_ordinal_serializes_to_named_variant() {
    let v = DynamicValue::Enum(EnumValue { schema: abc_enum(), ordinal: 2 });
    let out = serialize_value(&v).expect("serialize");
    match out {
        OutValue::Variant(var) => {
            assert_eq!(var.enum_name, "Letter");
            assert_eq!(var.ordinal, 2);
            assert_eq!(var.name, "C");
        }
        _ => panic!("expected a named variant"),
    }
}

#[test]
fn enumerant_name_deserializes_to_ordinal() {
    let mut cache = NameCache::new();
    let expected = SchemaType::Enum(abc_enum());
    let r = deserialize_value(&mut cache, &expected, &InValue::Str("C".to_string()))
        .expect("deserialize");
    assert_eq!(r, Some(DynamicValue::Enum(EnumValue { schema: abc_enum(), ordinal: 2 })));
}

#[test]
fn unknown_enumerant_name_is_fatal() {
    let mut cache = NameCache::new();
    let expected = SchemaType::Enum(abc_enum());
    let r = deserialize_value(&mut cache, &expected, &InValue::Str("Z".to_string()));
    assert_eq!(r, Err(ConvError::UnknownEnumerant));
}

#[test]
fn unknown_ordinal_serializes_to_null() {
    // A producer with a newer schema wrote ordinal 9; this reader outputs
    // a unit placeholder instead of failing.
    let v = DynamicValue::Enum(EnumValue { schema: abc_enum(), ordinal: 9 });
    let out = serialize_value(&v).expect("serialize");
    assert_eq!(out, OutValue::Null);
}

#[test]
fn active_union_branch_is_the_only_key() {
    let schema = union_schema();
    let mut sv = fresh_struct(&schema);
    sv.set_field(1, DynamicValue::Text("chosen".to_string()));
    let v = DynamicValue::Struct(sv);
    let out = serialize_value(&v).expect("serialize");
    match &out {
        OutValue::Record(entries) => {
            assert_eq!(entries.len(), 1);
            assert_eq!(entries[0].0, "b");
        }
        _ => panic!("expected a record"),
    }
}

#[test]
fn deserializing_reactivates_the_branch_and_no_other() {
    let schema = union_schema();
    let mut sv = fresh_struct(&schema);
    sv.set_field(1, DynamicValue::Text("chosen".to_string()));
    let v = DynamicValue::Struct(sv);
    let out = serialize_value(&v).expect("serialize");
    let input = encode_value(&out, true, true).expect("encode");
    let mut cache = NameCache::new();
    let r = deserialize_message(&mut cache, &SchemaType::Struct(union_schema()), &input)
        .expect("deserialize");
    match &r {
        DynamicValue::Struct(rs) => {
            assert!(rs.slots[0].is_none());
            assert_eq!(rs.slots[1], Some(DynamicValue::Text("chosen".to_string())));
            assert!(rs.slots[2].is_none());
        }
        _ => panic!("expected a struct"),
    }
    assert_eq!(r, v);
}

#[test]
fn fresh_union_defaults_to_first_scalar_branch() {
    // Before any write, the default branch (the first union member, here a
    // scalar) is present at its default value.
    let sv = fresh_struct(&union_schema());
    assert_eq!(sv.slots[0], Some(DynamicValue::Int32(0)));
    assert!(sv.slots[1].is_none());
    assert!(sv.slots[2].is_none());
}

#[test]
fn writing_a_union_member_deactivates_siblings() {
    let mut sv = fresh_struct(&union_schema());
    sv.set_field(2, DynamicValue::Bool(true));
    assert!(sv.slots[0].is_none());
    assert!(sv.slots[1].is_none());
    assert_eq!(sv.slots[2], Some(DynamicValue::Bool(true)));
    assert!(sv.has(2));
    assert!(!sv.has(0));
}

#[test]
fn enum_list_round_trips_by_name() {
    let root = SchemaType::List(Box::new(SchemaType::Enum(abc_enum())));
    let v = DynamicValue::List(capnp_serde::value::ListValue {
        elem: SchemaType::Enum(abc_enum()),
        items: vec![
            DynamicValue::Enum(EnumValue { schema: abc_enum(), ordinal: 1 }),
            DynamicValue::Enum(EnumValue { schema: abc_enum(), ordinal: 0 }),
        ],
    });
    let out = serialize_value(&v).expect("serialize");
    // Even without a size hint: enum elements take the buffered path.
    let input = encode_value(&out, false, true).expect("encode");
    let mut cache = NameCache::new();
    let r = deserialize_message(&mut cache, &root, &input).expect("deserialize");
    assert_eq!(r, v);
}
