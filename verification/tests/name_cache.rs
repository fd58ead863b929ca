use capnp_serde::cache::NameCache;
use capnp_serde::error::ConvError;
use capnp_serde::schema::kind_name;
use capnp_serde::value::{value_kind_name, DynamicValue};
use capnp_serde::de::deserialize_message;
use capnp_serde::protocol::InValue;
use capnp_serde::schema::{EnumSchema, Field, SchemaType, StructSchema};

fn pair_schema() -> SchemaType {
    SchemaType::Struct(StructSchema {
        id: 500,
        fields: vec![
            Field { name: "first".to_string(), ty: SchemaType::Int32, in_union: false },
            Field { name: "second".to_string(), ty: SchemaType::Text, in_union: false },
        ],
    })
}

fn letter_schema() -> SchemaType {
    SchemaType::Enum(EnumSchema {
        id: 501,
        name: "Letter".to_string(),
        enumerants: vec!["A".to_string(), "B".to_string()],
    })
}

#[test]
fn resolve_walks_the_field_names() {
    // Would fail if the cache handed anything but the schema's own ordered
    // name list back.
    let mut cache = NameCache::new();
    let names = cache.resolve(500, &pair_schema());
    assert_eq!(names, vec!["first".to_string(), "second".to_string()]);
}

#[test]
fn resolve_walks_the_enumerant_names() {
    let mut cache = NameCache::new();
    let names = cache.resolve(501, &letter_schema());
    assert_eq!(names, vec!["A".to_string(), "B".to_string()]);
}

#[test]
fn repeated_resolves_yield_identical_content() {
    let mut cache = NameCache::new();
    let first = cache.resolve(500, &pair_schema());
    let second = cache.resolve(500, &pair_schema());
    let third = cache.resolve(500, &pair_schema());
    assert_eq!(first, second);
    assert_eq!(second, third);
}

#[test]
fn an_installed_id_is_a_pure_read() {
    // After the first resolve the entry is installed; a later resolve
    // returns the stored list even if handed another descriptor.
    let mut cache = NameCache::new();
    let first = cache.resolve(500, &pair_schema());
    let again = cache.resolve(500, &letter_schema());
    assert_eq!(first, again);
}

#[test]
fn deserializing_installs_the_walked_ids() {
    let mut cache = NameCache::new();
    let input = InValue::Record(vec![("first".to_string(), InValue::Int(1))]);
    deserialize_message(&mut cache, &pair_schema(), &input).expect("deserialize");
    // The struct's id is installed now: resolving it is a pure read.
    let names = cache.resolve(500, &pair_schema());
    assert_eq!(names, vec!["first".to_string(), "second".to_string()]);
}

#[test]
fn error_descriptions_are_stable() {
    assert!(!ConvError::SizeUnavailable.describe().is_empty());
    assert!(!ConvError::UnknownField.describe().is_empty());
}

#[test]
fn kind_names_match_the_wire_vocabulary() {
    assert_eq!(kind_name(&SchemaType::Int32), "int32");
    assert_eq!(kind_name(&SchemaType::List(Box::new(SchemaType::Text))), "list");
    assert_eq!(value_kind_name(&DynamicValue::Bool(true)), "bool");
    assert_eq!(value_kind_name(&DynamicValue::AnyPointer), "any");
}
