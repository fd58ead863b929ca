//! Per-kind input visitors. Each visitor requests one shape from the input
//! protocol: the deserializing engine builds the visitor for the expected
//! kind and hands it the pulled input value. The numeric visitor performs
//! the generic cast: a token whose value the target kind represents
//! without change is converted; `Ok(None)` from a cast means the token did
//! not fit exactly and the write is skipped.

use vstd::prelude::*;

use crate::de::{
    cast_f32_bits, cast_f64_bits, cast_i16, cast_i32, cast_i64, cast_i8, cast_u16, cast_u32,
    cast_u64, cast_u8,
};
use crate::error::ConvError;
use crate::floatbits::{
    f32_exact_int_exec, f32_to_f64_bits_exact_exec, f64_exact_int_exec, f64_to_f32_bits_exact_exec,
    i64_mag_exec, int_to_f32_bits_exec, int_to_f64_bits_exec, mag_to_i16_exec, mag_to_i32_exec,
    mag_to_i64_exec, mag_to_i8_exec, mag_to_u16_exec, mag_to_u32_exec, mag_to_u64_exec,
    mag_to_u8_exec,
};
use crate::model::InVal;
use crate::protocol::{iv_view, InValue};
use crate::value::clone_bytes;

verus! {

/// Requests a bool from the input.
pub struct BoolVisitor {}

impl BoolVisitor {
    pub fn new() -> (r: BoolVisitor) {
        BoolVisitor {  }
    }

    pub fn visit(&self, i: &InValue) -> (r: Result<bool, ConvError>)
        ensures
            r == (match iv_view(*i) {
                InVal::Bool(b) => Ok::<bool, ConvError>(b),
                _ => Err::<bool, ConvError>(ConvError::SchemaMismatch),
            }),
    {
        match i {
            InValue::Bool(b) => Ok(*b),
            _ => Err(ConvError::SchemaMismatch),
        }
    }
}

/// Requests the unit value from the input.
pub struct VoidVisitor {}

impl VoidVisitor {
    pub fn new() -> (r: VoidVisitor) {
        VoidVisitor {  }
    }

    pub fn visit(&self, i: &InValue) -> (r: Result<(), ConvError>)
        ensures
            iv_view(*i) is Unit <==> r is Ok,
            r is Err ==> r == Err::<(), ConvError>(ConvError::SchemaMismatch),
    {
        match i {
            InValue::Unit => Ok(()),
            _ => Err(ConvError::SchemaMismatch),
        }
    }
}

/// Requests a string primitive from the input.
pub struct TextVisitor {}

impl TextVisitor {
    pub fn new() -> (r: TextVisitor) {
        TextVisitor {  }
    }

    pub fn visit(&self, i: &InValue) -> (r: Result<String, ConvError>)
        ensures
            match r {
                Ok(s) => iv_view(*i) == InVal::Str(s@),
                Err(e) => !(iv_view(*i) is Str) && e == ConvError::SchemaMismatch,
            },
    {
        match i {
            InValue::Str(s) => Ok(s.clone()),
            _ => Err(ConvError::SchemaMismatch),
        }
    }
}

/// Requests a byte-sequence primitive from the input, distinct from a
/// string: a text token never converts to a byte blob.
pub struct DataVisitor {}

impl DataVisitor {
    pub fn new() -> (r: DataVisitor) {
        DataVisitor {  }
    }

    pub fn visit(&self, i: &InValue) -> (r: Result<Vec<u8>, ConvError>)
        ensures
            match r {
                Ok(b) => iv_view(*i) == InVal::Bytes(b@),
                Err(e) => !(iv_view(*i) is Bytes) && e == ConvError::SchemaMismatch,
            },
    {
        match i {
            InValue::Bytes(b) => Ok(clone_bytes(b)),
            _ => Err(ConvError::SchemaMismatch),
        }
    }
}

/// Requests a numeric token from the input and casts it to the exact
/// target width and signedness.
pub struct NumVisitor {}

impl NumVisitor {
    pub fn new() -> (r: NumVisitor) {
        NumVisitor {  }
    }

    pub fn visit_i8(&self, i: &InValue) -> (r: Result<Option<i8>, ConvError>)
        ensures
            r == cast_i8(iv_view(*i)),
    {
        match i {
            InValue::Int(x) => Ok(
                if -0x80 <= *x && *x < 0x80 {
                    Some(*x as i8)
                } else {
                    None
                },
            ),
            InValue::UInt(u) => Ok(if *u < 0x80 { Some(*u as i8) } else { None }),
            InValue::F32Bits(b) => Ok(
                match f32_exact_int_exec(*b) {
                    Some((neg, mag)) => mag_to_i8_exec(neg, mag),
                    None => None,
                },
            ),
            InValue::F64Bits(b) => Ok(
                match f64_exact_int_exec(*b) {
                    Some((neg, mag)) => mag_to_i8_exec(neg, mag),
                    None => None,
                },
            ),
            _ => Err(ConvError::SchemaMismatch),
        }
    }

    pub fn visit_i16(&self, i: &InValue) -> (r: Result<Option<i16>, ConvError>)
        ensures
            r == cast_i16(iv_view(*i)),
    {
        match i {
            InValue::Int(x) => Ok(
                if -0x8000 <= *x && *x < 0x8000 {
                    Some(*x as i16)
                } else {
                    None
                },
            ),
            InValue::UInt(u) => Ok(if *u < 0x8000 { Some(*u as i16) } else { None }),
            InValue::F32Bits(b) => Ok(
                match f32_exact_int_exec(*b) {
                    Some((neg, mag)) => mag_to_i16_exec(neg, mag),
                    None => None,
                },
            ),
            InValue::F64Bits(b) => Ok(
                match f64_exact_int_exec(*b) {
                    Some((neg, mag)) => mag_to_i16_exec(neg, mag),
                    None => None,
                },
            ),
            _ => Err(ConvError::SchemaMismatch),
        }
    }

    pub fn visit_i32(&self, i: &InValue) -> (r: Result<Option<i32>, ConvError>)
        ensures
            r == cast_i32(iv_view(*i)),
    {
        match i {
            InValue::Int(x) => Ok(
                if -0x8000_0000 <= *x && *x < 0x8000_0000 {
                    Some(*x as i32)
                } else {
                    None
                },
            ),
            InValue::UInt(u) => Ok(if *u < 0x8000_0000 { Some(*u as i32) } else { None }),
            InValue::F32Bits(b) => Ok(
                match f32_exact_int_exec(*b) {
                    Some((neg, mag)) => mag_to_i32_exec(neg, mag),
                    None => None,
                },
            ),
            InValue::F64Bits(b) => Ok(
                match f64_exact_int_exec(*b) {
                    Some((neg, mag)) => mag_to_i32_exec(neg, mag),
                    None => None,
                },
            ),
            _ => Err(ConvError::SchemaMismatch),
        }
    }

    pub fn visit_i64(&self, i: &InValue) -> (r: Result<Option<i64>, ConvError>)
        ensures
            r == cast_i64(iv_view(*i)),
    {
        match i {
            InValue::Int(x) => Ok(Some(*x)),
            InValue::UInt(u) => Ok(
                if *u < 0x8000_0000_0000_0000 {
                    Some(*u as i64)
                } else {
                    None
                },
            ),
            InValue::F32Bits(b) => Ok(
                match f32_exact_int_exec(*b) {
                    Some((neg, mag)) => mag_to_i64_exec(neg, mag),
                    None => None,
                },
            ),
            InValue::F64Bits(b) => Ok(
                match f64_exact_int_exec(*b) {
                    Some((neg, mag)) => mag_to_i64_exec(neg, mag),
                    None => None,
                },
            ),
            _ => Err(ConvError::SchemaMismatch),
        }
    }

    pub fn visit_u8(&self, i: &InValue) -> (r: Result<Option<u8>, ConvError>)
        ensures
            r == cast_u8(iv_view(*i)),
    {
        match i {
            InValue::Int(x) => Ok(
                if 0 <= *x && *x < 0x100 {
                    Some(*x as u8)
                } else {
                    None
                },
            ),
            InValue::UInt(u) => Ok(if *u < 0x100 { Some(*u as u8) } else { None }),
            InValue::F32Bits(b) => Ok(
                match f32_exact_int_exec(*b) {
                    Some((neg, mag)) => mag_to_u8_exec(neg, mag),
                    None => None,
                },
            ),
            InValue::F64Bits(b) => Ok(
                match f64_exact_int_exec(*b) {
                    Some((neg, mag)) => mag_to_u8_exec(neg, mag),
                    None => None,
                },
            ),
            _ => Err(ConvError::SchemaMismatch),
        }
    }

    pub fn visit_u16(&self, i: &InValue) -> (r: Result<Option<u16>, ConvError>)
        ensures
            r == cast_u16(iv_view(*i)),
    {
        match i {
            InValue::Int(x) => Ok(
                if 0 <= *x && *x < 0x1_0000 {
                    Some(*x as u16)
                } else {
                    None
                },
            ),
            InValue::UInt(u) => Ok(if *u < 0x1_0000 { Some(*u as u16) } else { None }),
            InValue::F32Bits(b) => Ok(
                match f32_exact_int_exec(*b) {
                    Some((neg, mag)) => mag_to_u16_exec(neg, mag),
                    None => None,
                },
            ),
            InValue::F64Bits(b) => Ok(
                match f64_exact_int_exec(*b) {
                    Some((neg, mag)) => mag_to_u16_exec(neg, mag),
                    None => None,
                },
            ),
            _ => Err(ConvError::SchemaMismatch),
        }
    }

    pub fn visit_u32(&self, i: &InValue) -> (r: Result<Option<u32>, ConvError>)
        ensures
            r == cast_u32(iv_view(*i)),
    {
        match i {
            InValue::Int(x) => Ok(
                if 0 <= *x && *x < 0x1_0000_0000 {
                    Some(*x as u32)
                } else {
                    None
                },
            ),
            InValue::UInt(u) => Ok(if *u < 0x1_0000_0000 { Some(*u as u32) } else { None }),
            InValue::F32Bits(b) => Ok(
                match f32_exact_int_exec(*b) {
                    Some((neg, mag)) => mag_to_u32_exec(neg, mag),
                    None => None,
                },
            ),
            InValue::F64Bits(b) => Ok(
                match f64_exact_int_exec(*b) {
                    Some((neg, mag)) => mag_to_u32_exec(neg, mag),
                    None => None,
                },
            ),
            _ => Err(ConvError::SchemaMismatch),
        }
    }

    pub fn visit_u64(&self, i: &InValue) -> (r: Result<Option<u64>, ConvError>)
        ensures
            r == cast_u64(iv_view(*i)),
    {
        match i {
            InValue::Int(x) => Ok(if 0 <= *x { Some(*x as u64) } else { None }),
            InValue::UInt(u) => Ok(Some(*u)),
            InValue::F32Bits(b) => Ok(
                match f32_exact_int_exec(*b) {
                    Some((neg, mag)) => mag_to_u64_exec(neg, mag),
                    None => None,
                },
            ),
            InValue::F64Bits(b) => Ok(
                match f64_exact_int_exec(*b) {
                    Some((neg, mag)) => mag_to_u64_exec(neg, mag),
                    None => None,
                },
            ),
            _ => Err(ConvError::SchemaMismatch),
        }
    }

    pub fn visit_f32_bits(&self, i: &InValue) -> (r: Result<Option<u32>, ConvError>)
        ensures
            r == cast_f32_bits(iv_view(*i)),
    {
        match i {
            InValue::F32Bits(b) => Ok(Some(*b)),
            InValue::F64Bits(b) => Ok(f64_to_f32_bits_exact_exec(*b)),
            InValue::Int(x) => Ok(int_to_f32_bits_exec(*x < 0, i64_mag_exec(*x))),
            InValue::UInt(u) => Ok(int_to_f32_bits_exec(false, *u)),
            _ => Err(ConvError::SchemaMismatch),
        }
    }

    pub fn visit_f64_bits(&self, i: &InValue) -> (r: Result<Option<u64>, ConvError>)
        ensures
            r == cast_f64_bits(iv_view(*i)),
    {
        match i {
            InValue::F64Bits(b) => Ok(Some(*b)),
            InValue::F32Bits(b) => Ok(f32_to_f64_bits_exact_exec(*b)),
            InValue::Int(x) => Ok(int_to_f64_bits_exec(*x < 0, i64_mag_exec(*x))),
            InValue::UInt(u) => Ok(int_to_f64_bits_exec(false, *u)),
            _ => Err(ConvError::SchemaMismatch),
        }
    }
}

} // verus!
