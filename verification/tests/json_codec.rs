//! The engine against a real codec: the output tree rendered by serde_json
//! and parsed back through the input tree.

use capnp_serde::cache::NameCache;
use capnp_serde::de::deserialize_message;
use capnp_serde::error::ConvError;
use capnp_serde::protocol::{encode_value, InValue, OutValue, SeqInput};
use capnp_serde::schema::{Field, SchemaType, StructSchema};
use capnp_serde::ser::serialize_value;
use capnp_serde::value::{fresh_struct, DynamicValue};

fn out_to_json(o: &OutValue) -> serde_json::Value {
    match o {
        OutValue::Null => serde_json::Value::Null,
        OutValue::Bool(b) => serde_json::Value::Bool(*b),
        OutValue::I8(x) => serde_json::Value::from(*x as i64),
        OutValue::I16(x) => serde_json::Value::from(*x as i64),
        OutValue::I32(x) => serde_json::Value::from(*x as i64),
        OutValue::I64(x) => serde_json::Value::from(*x),
        OutValue::U8(x) => serde_json::Value::from(*x as u64),
        OutValue::U16(x) => serde_json::Value::from(*x as u64),
        OutValue::U32(x) => serde_json::Value::from(*x as u64),
        OutValue::U64(x) => serde_json::Value::from(*x),
        OutValue::F32Bits(b) => serde_json::Value::from(f32::from_bits(*b) as f64),
        OutValue::F64Bits(b) => serde_json::Value::from(f64::from_bits(*b)),
        OutValue::Str(s) => serde_json::Value::String(s.clone()),
        OutValue::Bytes(_) => panic!("JSON rendering of bytes is the codec's own affair"),
        OutValue::Sequence(items) => {
            serde_json::Value::Array(items.iter().map(out_to_json).collect())
        }
        OutValue::Record(entries) => {
            let mut m = serde_json::Map::new();
            for (k, v) in entries {
                m.insert(k.clone(), out_to_json(v));
            }
            serde_json::Value::Object(m)
        }
        OutValue::Variant(v) => serde_json::Value::String(v.name.clone()),
    }
}

// serde_json reports no sequence sizes upfront when streaming; model that
// with hint-less sequences, and the hinted variant for hint-reporting
// backends.
fn json_to_in(v: &serde_json::Value, hints: bool) -> InValue {
    match v {
        serde_json::Value::Null => InValue::Unit,
        serde_json::Value::Bool(b) => InValue::Bool(*b),
        serde_json::Value::Number(n) => {
            if let Some(i) = n.as_i64() {
                InValue::Int(i)
            } else if let Some(u) = n.as_u64() {
                InValue::UInt(u)
            } else {
                InValue::F64Bits(n.as_f64().unwrap().to_bits())
            }
        }
        serde_json::Value::String(s) => InValue::Str(s.clone()),
        serde_json::Value::Array(items) => InValue::Sequence(SeqInput {
            hint: if hints { Some(items.len()) } else { None },
            items: items.iter().map(|i| json_to_in(i, hints)).collect(),
        }),
        serde_json::Value::Object(entries) => InValue::Record(
            entries.iter().map(|(k, v)| (k.clone(), json_to_in(v, hints))).collect(),
        ),
    }
}

fn xy_schema() -> StructSchema {
    StructSchema {
        id: 400,
        fields: vec![
            Field { name: "x".to_string(), ty: SchemaType::Int32, in_union: false },
            Field { name: "y".to_string(), ty: SchemaType::Int32, in_union: false },
        ],
    }
}

#[test]
fn point_renders_to_exact_json() {
    let mut sv = fresh_struct(&xy_schema());
    sv.set_field(0, DynamicValue::Int32(3));
    sv.set_field(1, DynamicValue::Int32(-4));
    let out = serialize_value(&DynamicValue::Struct(sv)).expect("serialize");
    let json = serde_json::to_string(&out_to_json(&out)).expect("render");
    assert_eq!(json, "{\"x\":3,\"y\":-4}");
}

#[test]
fn point_parses_back_from_json() {
    let parsed: serde_json::Value = serde_json::from_str("{\"x\":3,\"y\":-4}").expect("parse");
    let input = json_to_in(&parsed, false);
    let mut cache = NameCache::new();
    let r = deserialize_message(&mut cache, &SchemaType::Struct(xy_schema()), &input)
        .expect("deserialize");
    match &r {
        DynamicValue::Struct(sv) => {
            assert_eq!(sv.slots[0], Some(DynamicValue::Int32(3)));
            assert_eq!(sv.slots[1], Some(DynamicValue::Int32(-4)));
        }
        _ => panic!("expected a struct"),
    }
}

#[test]
fn int_list_survives_a_hintless_backend() {
    // A backend that reports no sizes: the buffered path reproduces the
    // elements in order.
    let root = SchemaType::List(Box::new(SchemaType::Int32));
    let v = DynamicValue::List(capnp_serde::value::ListValue {
        elem: SchemaType::Int32,
        items: (1..=5).map(DynamicValue::Int32).collect(),
    });
    let out = serialize_value(&v).expect("serialize");
    let json = serde_json::to_string(&out_to_json(&out)).expect("render");
    assert_eq!(json, "[1,2,3,4,5]");
    let parsed: serde_json::Value = serde_json::from_str(&json).expect("parse");
    let input = json_to_in(&parsed, false);
    let mut cache = NameCache::new();
    let r = deserialize_message(&mut cache, &root, &input).expect("deserialize");
    assert_eq!(r, v);
}

#[test]
fn text_field_renders_as_json_string() {
    let schema = StructSchema {
        id: 401,
        fields: vec![
            Field { name: "tag".to_string(), ty: SchemaType::Text, in_union: false },
        ],
    };
    let mut sv = fresh_struct(&schema);
    sv.set_field(0, DynamicValue::Text("hi".to_string()));
    let out = serialize_value(&DynamicValue::Struct(sv)).expect("serialize");
    let json = serde_json::to_string(&out_to_json(&out)).expect("render");
    assert_eq!(json, "{\"tag\":\"hi\"}");
}

#[test]
fn byteless_backend_fails_with_encoding_error() {
    // A backend without a byte-sequence primitive must fail rather than
    // silently stringify the blob.
    let schema = StructSchema {
        id: 402,
        fields: vec![
            Field { name: "tag".to_string(), ty: SchemaType::Text, in_union: false },
            Field { name: "blob".to_string(), ty: SchemaType::Data, in_union: false },
        ],
    };
    let mut sv = fresh_struct(&schema);
    sv.set_field(0, DynamicValue::Text("hi".to_string()));
    sv.set_field(1, DynamicValue::Data(vec![0x01, 0x02]));
    let out = serialize_value(&DynamicValue::Struct(sv)).expect("serialize");
    let r = encode_value(&out, false, false);
    assert_eq!(r, Err(ConvError::EncodingError));
    // A byte-capable backend carries the same output through.
    let input = encode_value(&out, true, true).expect("encode");
    let mut cache = NameCache::new();
    let r = deserialize_message(&mut cache, &SchemaType::Struct(schema), &input)
        .expect("deserialize");
    match &r {
        DynamicValue::Struct(rs) => {
            assert_eq!(rs.slots[0], Some(DynamicValue::Text("hi".to_string())));
            assert_eq!(rs.slots[1], Some(DynamicValue::Data(vec![0x01, 0x02])));
        }
        _ => panic!("expected a struct"),
    }
}
