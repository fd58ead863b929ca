//! The generic numeric cast against real IEEE-754 bit patterns: a numeric
//! token converts to another numeric kind exactly when the value carries
//! over without change; everything else leaves the destination default.

use capnp_serde::cache::NameCache;
use capnp_serde::de::deserialize_value;
use capnp_serde::protocol::InValue;
use capnp_serde::schema::SchemaType;
use capnp_serde::value::DynamicValue;

fn de_one(expected: &SchemaType, input: &InValue) -> Option<DynamicValue> {
    let mut cache = NameCache::new();
    deserialize_value(&mut cache, expected, input).expect("deserialize")
}

#[test]
fn integral_float_writes_the_integer() {
    let r = de_one(&SchemaType::Int32, &InValue::F64Bits(3.0f64.to_bits()));
    assert_eq!(r, Some(DynamicValue::Int32(3)));
    let r = de_one(&SchemaType::Int8, &InValue::F32Bits((-4.0f32).to_bits()));
    assert_eq!(r, Some(DynamicValue::Int8(-4)));
    let r = de_one(&SchemaType::UInt16, &InValue::F64Bits(65535.0f64.to_bits()));
    assert_eq!(r, Some(DynamicValue::UInt16(65535)));
}

#[test]
fn fractional_float_leaves_the_default() {
    let r = de_one(&SchemaType::Int32, &InValue::F64Bits(3.5f64.to_bits()));
    assert_eq!(r, None);
    let r = de_one(&SchemaType::Int64, &InValue::F64Bits(0.25f64.to_bits()));
    assert_eq!(r, None);
}

#[test]
fn out_of_range_float_leaves_the_default() {
    let r = de_one(&SchemaType::Int64, &InValue::F64Bits(1.0e300f64.to_bits()));
    assert_eq!(r, None);
    let r = de_one(&SchemaType::Int8, &InValue::F64Bits(129.0f64.to_bits()));
    assert_eq!(r, None);
    let r = de_one(&SchemaType::UInt32, &InValue::F64Bits((-1.0f64).to_bits()));
    assert_eq!(r, None);
}

#[test]
fn non_finite_float_leaves_the_default() {
    let r = de_one(&SchemaType::Int32, &InValue::F64Bits(f64::NAN.to_bits()));
    assert_eq!(r, None);
    let r = de_one(&SchemaType::Int32, &InValue::F64Bits(f64::INFINITY.to_bits()));
    assert_eq!(r, None);
    let r = de_one(&SchemaType::Float64, &InValue::F32Bits(f32::NAN.to_bits()));
    assert_eq!(r, None);
}

#[test]
fn float_extremes_of_each_signed_width() {
    let r = de_one(&SchemaType::Int64, &InValue::F64Bits((-9.223372036854776e18f64).to_bits()));
    // -2^63 is exactly representable in binary64 and is i64's minimum.
    assert_eq!(r, Some(DynamicValue::Int64(i64::MIN)));
    let r = de_one(&SchemaType::Int8, &InValue::F32Bits((-128.0f32).to_bits()));
    assert_eq!(r, Some(DynamicValue::Int8(i8::MIN)));
}

#[test]
fn negative_zero_float_writes_zero() {
    let r = de_one(&SchemaType::UInt8, &InValue::F64Bits((-0.0f64).to_bits()));
    assert_eq!(r, Some(DynamicValue::UInt8(0)));
    let r = de_one(&SchemaType::Int16, &InValue::F32Bits((-0.0f32).to_bits()));
    assert_eq!(r, Some(DynamicValue::Int16(0)));
}

#[test]
fn exact_integer_writes_the_float_bits() {
    let r = de_one(&SchemaType::Float32, &InValue::Int(3));
    assert_eq!(r, Some(DynamicValue::Float32Bits(3.0f32.to_bits())));
    let r = de_one(&SchemaType::Float64, &InValue::Int(-7));
    assert_eq!(r, Some(DynamicValue::Float64Bits((-7.0f64).to_bits())));
    let r = de_one(&SchemaType::Float64, &InValue::UInt(1u64 << 53));
    assert_eq!(
        r,
        Some(DynamicValue::Float64Bits(((1u64 << 53) as f64).to_bits()))
    );
    let r = de_one(&SchemaType::Float64, &InValue::Int(0));
    assert_eq!(r, Some(DynamicValue::Float64Bits(0.0f64.to_bits())));
    let r = de_one(&SchemaType::Float64, &InValue::Int(i64::MIN));
    assert_eq!(r, Some(DynamicValue::Float64Bits((i64::MIN as f64).to_bits())));
}

#[test]
fn inexact_integer_leaves_the_float_default() {
    // 2^53 + 1 rounds in binary64; 2^24 + 1 rounds in binary32.
    let r = de_one(&SchemaType::Float64, &InValue::UInt((1u64 << 53) + 1));
    assert_eq!(r, None);
    let r = de_one(&SchemaType::Float32, &InValue::Int((1i64 << 24) + 1));
    assert_eq!(r, None);
    let r = de_one(&SchemaType::Float32, &InValue::UInt(u64::MAX));
    assert_eq!(r, None);
}

#[test]
fn float_width_changes_when_exact() {
    let r = de_one(&SchemaType::Float32, &InValue::F64Bits(1.5f64.to_bits()));
    assert_eq!(r, Some(DynamicValue::Float32Bits(1.5f32.to_bits())));
    let r = de_one(&SchemaType::Float64, &InValue::F32Bits(1.5f32.to_bits()));
    assert_eq!(r, Some(DynamicValue::Float64Bits(1.5f64.to_bits())));
    let r = de_one(&SchemaType::Float64, &InValue::F32Bits((-0.0f32).to_bits()));
    assert_eq!(r, Some(DynamicValue::Float64Bits((-0.0f64).to_bits())));
    // A subnormal binary32 value widens exactly.
    let tiny = f32::from_bits(1);
    let r = de_one(&SchemaType::Float64, &InValue::F32Bits(tiny.to_bits()));
    assert_eq!(r, Some(DynamicValue::Float64Bits((tiny as f64).to_bits())));
}

#[test]
fn inexact_width_change_leaves_the_default() {
    let r = de_one(&SchemaType::Float32, &InValue::F64Bits(0.1f64.to_bits()));
    assert_eq!(r, None);
    let r = de_one(&SchemaType::Float32, &InValue::F64Bits(1.0e300f64.to_bits()));
    assert_eq!(r, None);
    // A value only binary32's subnormal range could hold is not converted.
    let r = de_one(&SchemaType::Float32, &InValue::F64Bits(1.0e-42f64.to_bits()));
    assert_eq!(r, None);
}

#[test]
fn integer_tokens_still_cast_by_width() {
    let r = de_one(&SchemaType::Int8, &InValue::Int(127));
    assert_eq!(r, Some(DynamicValue::Int8(127)));
    let r = de_one(&SchemaType::Int8, &InValue::Int(128));
    assert_eq!(r, None);
    let r = de_one(&SchemaType::UInt64, &InValue::UInt(u64::MAX));
    assert_eq!(r, Some(DynamicValue::UInt64(u64::MAX)));
}
