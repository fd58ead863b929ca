//! The codec boundary: what a concrete format backend does between the
//! engine's output protocol and its input protocol. `encode` models one
//! round through such a backend — which is exactly where a backend's two
//! capabilities matter: whether it reports sequence sizes upfront, and
//! whether it has a byte-sequence primitive distinct from strings.

use vstd::prelude::*;

use crate::error::ConvError;
use crate::model::{lemma_take_full, lemma_take_step, InVal, OutVal};
use crate::value::clone_bytes;

verus! {

/// One round through a format backend. Scalars pass through at their
/// width; a named variant is written as its enumerant identifier; a
/// sequence carries its length as a hint only if the backend reports
/// sizes; a byte blob fails on a backend that cannot represent bytes,
/// rather than being silently stringified.
pub open spec fn encode(o: OutVal, hints: bool, bytes_ok: bool) -> Result<InVal, ConvError>
    decreases o,
{
    match o {
        OutVal::Null => Ok(InVal::Unit),
        OutVal::Bool(b) => Ok(InVal::Bool(b)),
        OutVal::I8(x) => Ok(InVal::Int(x as i64)),
        OutVal::I16(x) => Ok(InVal::Int(x as i64)),
        OutVal::I32(x) => Ok(InVal::Int(x as i64)),
        OutVal::I64(x) => Ok(InVal::Int(x)),
        OutVal::U8(x) => Ok(InVal::UInt(x as u64)),
        OutVal::U16(x) => Ok(InVal::UInt(x as u64)),
        OutVal::U32(x) => Ok(InVal::UInt(x as u64)),
        OutVal::U64(x) => Ok(InVal::UInt(x)),
        OutVal::F32(b) => Ok(InVal::F32(b)),
        OutVal::F64(b) => Ok(InVal::F64(b)),
        OutVal::Str(s) => Ok(InVal::Str(s)),
        OutVal::Bytes(b) => if bytes_ok {
            Ok(InVal::Bytes(b))
        } else {
            Err(ConvError::EncodingError)
        },
        OutVal::Sequence(items) => match encode_items(items, hints, bytes_ok) {
            Ok(es) => Ok(
                InVal::Sequence(
                    if hints {
                        Some(items.len() as int)
                    } else {
                        None
                    },
                    es,
                ),
            ),
            Err(e) => Err(e),
        },
        OutVal::Record(entries) => match encode_entries(entries, hints, bytes_ok) {
            Ok(es) => Ok(InVal::Record(es)),
            Err(e) => Err(e),
        },
        OutVal::Variant { enum_name: _, ordinal: _, name } => Ok(InVal::Str(name)),
    }
}

pub open spec fn encode_items(
    items: Seq<OutVal>,
    hints: bool,
    bytes_ok: bool,
) -> Result<Seq<InVal>, ConvError>
    decreases items,
{
    if items.len() == 0 {
        Ok(Seq::empty())
    } else {
        match encode_items(items.drop_last(), hints, bytes_ok) {
            Err(e) => Err(e),
            Ok(es) => match encode(items.last(), hints, bytes_ok) {
                Err(e) => Err(e),
                Ok(iv) => Ok(es.push(iv)),
            },
        }
    }
}

pub open spec fn encode_entries(
    entries: Seq<(Seq<char>, OutVal)>,
    hints: bool,
    bytes_ok: bool,
) -> Result<Seq<(Seq<char>, InVal)>, ConvError>
    decreases entries,
{
    if entries.len() == 0 {
        Ok(Seq::empty())
    } else {
        match encode_entries(entries.drop_last(), hints, bytes_ok) {
            Err(e) => Err(e),
            Ok(es) => match encode(entries.last().1, hints, bytes_ok) {
                Err(e) => Err(e),
                Ok(iv) => Ok(es.push((entries.last().0, iv))),
            },
        }
    }
}

// ------------------------------------------------------------------
// Executable protocol trees
// ------------------------------------------------------------------

/// What the engine pushes into the output protocol, as a plain tree. A
/// concrete codec renders this tree in its own syntax.
#[derive(Debug, PartialEq)]
pub enum OutValue {
    Null,
    Bool(bool),
    I8(i8),
    I16(i16),
    I32(i32),
    I64(i64),
    U8(u8),
    U16(u16),
    U32(u32),
    U64(u64),
    F32Bits(u32),
    F64Bits(u64),
    Str(String),
    Bytes(Vec<u8>),
    Sequence(Vec<OutValue>),
    Record(Vec<(String, OutValue)>),
    Variant(VariantValue),
}

/// A named enum variant: the enum's display name, the ordinal, and the
/// enumerant name a codec writes as a discriminated identifier.
#[derive(Debug, PartialEq)]
pub struct VariantValue {
    pub enum_name: String,
    pub ordinal: u32,
    pub name: String,
}

/// What the engine pulls from the input protocol, as a plain tree. A
/// concrete codec parses its syntax into this tree; the hint on a sequence
/// is present exactly when the backend reports sizes upfront.
#[derive(Debug, PartialEq)]
pub enum InValue {
    Unit,
    Bool(bool),
    Int(i64),
    UInt(u64),
    F32Bits(u32),
    F64Bits(u64),
    Str(String),
    Bytes(Vec<u8>),
    Sequence(SeqInput),
    Record(Vec<(String, InValue)>),
}

/// A sequence input: its optional upfront element count and its elements.
#[derive(Debug, PartialEq)]
pub struct SeqInput {
    pub hint: Option<usize>,
    pub items: Vec<InValue>,
}

// ------------------------------------------------------------------
// Views into the model
// ------------------------------------------------------------------

pub open spec fn ov_view(o: OutValue) -> OutVal
    decreases o,
{
    match o {
        OutValue::Null => OutVal::Null,
        OutValue::Bool(b) => OutVal::Bool(b),
        OutValue::I8(x) => OutVal::I8(x),
        OutValue::I16(x) => OutVal::I16(x),
        OutValue::I32(x) => OutVal::I32(x),
        OutValue::I64(x) => OutVal::I64(x),
        OutValue::U8(x) => OutVal::U8(x),
        OutValue::U16(x) => OutVal::U16(x),
        OutValue::U32(x) => OutVal::U32(x),
        OutValue::U64(x) => OutVal::U64(x),
        OutValue::F32Bits(b) => OutVal::F32(b),
        OutValue::F64Bits(b) => OutVal::F64(b),
        OutValue::Str(s) => OutVal::Str(s@),
        OutValue::Bytes(b) => OutVal::Bytes(b@),
        OutValue::Sequence(items) => OutVal::Sequence(out_items_view(items)),
        OutValue::Record(entries) => OutVal::Record(out_entries_view(entries)),
        OutValue::Variant(v) => OutVal::Variant {
            enum_name: v.enum_name@,
            ordinal: v.ordinal,
            name: v.name@,
        },
    }
}

pub open spec fn out_items_view(items: Vec<OutValue>) -> Seq<OutVal>
    decreases items,
{
    Seq::new(
        items@.len(),
        |i: int|
            if 0 <= i < items@.len() {
                ov_view(items@[i])
            } else {
                OutVal::Null
            },
    )
}

pub open spec fn out_entries_view(entries: Vec<(String, OutValue)>) -> Seq<(Seq<char>, OutVal)>
    decreases entries,
{
    Seq::new(
        entries@.len(),
        |i: int|
            if 0 <= i < entries@.len() {
                (entries@[i].0@, ov_view(entries@[i].1))
            } else {
                (Seq::empty(), OutVal::Null)
            },
    )
}

pub open spec fn iv_view(i: InValue) -> InVal
    decreases i,
{
    match i {
        InValue::Unit => InVal::Unit,
        InValue::Bool(b) => InVal::Bool(b),
        InValue::Int(x) => InVal::Int(x),
        InValue::UInt(x) => InVal::UInt(x),
        InValue::F32Bits(b) => InVal::F32(b),
        InValue::F64Bits(b) => InVal::F64(b),
        InValue::Str(s) => InVal::Str(s@),
        InValue::Bytes(b) => InVal::Bytes(b@),
        InValue::Sequence(s) => InVal::Sequence(
            match s.hint {
                Some(h) => Some(h as int),
                None => None,
            },
            in_items_view(s.items),
        ),
        InValue::Record(entries) => InVal::Record(in_entries_view(entries)),
    }
}

pub open spec fn in_items_view(items: Vec<InValue>) -> Seq<InVal>
    decreases items,
{
    Seq::new(
        items@.len(),
        |i: int|
            if 0 <= i < items@.len() {
                iv_view(items@[i])
            } else {
                InVal::Unit
            },
    )
}

pub open spec fn in_entries_view(entries: Vec<(String, InValue)>) -> Seq<(Seq<char>, InVal)>
    decreases entries,
{
    Seq::new(
        entries@.len(),
        |i: int|
            if 0 <= i < entries@.len() {
                (entries@[i].0@, iv_view(entries@[i].1))
            } else {
                (Seq::empty(), InVal::Unit)
            },
    )
}

impl View for OutValue {
    type V = OutVal;

    open spec fn view(&self) -> OutVal {
        ov_view(*self)
    }
}

impl View for InValue {
    type V = InVal;

    open spec fn view(&self) -> InVal {
        iv_view(*self)
    }
}

pub open spec fn in_res_view(r: Result<InValue, ConvError>) -> Result<InVal, ConvError> {
    match r {
        Ok(iv) => Ok(iv_view(iv)),
        Err(e) => Err(e),
    }
}

// ------------------------------------------------------------------
// Executable codec round
// ------------------------------------------------------------------

/// One round through a format backend, executably: turns what the engine
/// pushed into what the engine would pull back. `hints` says whether the
/// backend reports sequence sizes upfront; `bytes_ok` whether it has a
/// byte-sequence primitive.
pub fn encode_value(o: &OutValue, hints: bool, bytes_ok: bool) -> (r: Result<InValue, ConvError>)
    ensures
        in_res_view(r) == encode(ov_view(*o), hints, bytes_ok),
    decreases *o, 0nat,
{
    match o {
        OutValue::Null => Ok(InValue::Unit),
        OutValue::Bool(b) => Ok(InValue::Bool(*b)),
        OutValue::I8(x) => Ok(InValue::Int(*x as i64)),
        OutValue::I16(x) => Ok(InValue::Int(*x as i64)),
        OutValue::I32(x) => Ok(InValue::Int(*x as i64)),
        OutValue::I64(x) => Ok(InValue::Int(*x)),
        OutValue::U8(x) => Ok(InValue::UInt(*x as u64)),
        OutValue::U16(x) => Ok(InValue::UInt(*x as u64)),
        OutValue::U32(x) => Ok(InValue::UInt(*x as u64)),
        OutValue::U64(x) => Ok(InValue::UInt(*x)),
        OutValue::F32Bits(b) => Ok(InValue::F32Bits(*b)),
        OutValue::F64Bits(b) => Ok(InValue::F64Bits(*b)),
        OutValue::Str(s) => Ok(InValue::Str(s.clone())),
        OutValue::Bytes(b) => if bytes_ok {
            Ok(InValue::Bytes(clone_bytes(b)))
        } else {
            Err(ConvError::EncodingError)
        },
        OutValue::Sequence(items) => {
            let n = items.len();
            match encode_items_exec(items, n, hints, bytes_ok) {
                Ok(es) => {
                    proof {
                        lemma_take_full(out_items_view(*items));
                    }
                    let hint: Option<usize> = if hints {
                        Some(n)
                    } else {
                        None
                    };
                    Ok(InValue::Sequence(SeqInput { hint, items: es }))
                },
                Err(e) => {
                    proof {
                        lemma_take_full(out_items_view(*items));
                    }
                    Err(e)
                },
            }
        },
        OutValue::Record(entries) => {
            let n = entries.len();
            match encode_entries_exec(entries, n, hints, bytes_ok) {
                Ok(es) => {
                    proof {
                        lemma_take_full(out_entries_view(*entries));
                    }
                    Ok(InValue::Record(es))
                },
                Err(e) => {
                    proof {
                        lemma_take_full(out_entries_view(*entries));
                    }
                    Err(e)
                },
            }
        },
        OutValue::Variant(v) => Ok(InValue::Str(v.name.clone())),
    }
}

/// Encodes the first `upto` elements of a sequence.
fn encode_items_exec(items: &Vec<OutValue>, upto: usize, hints: bool, bytes_ok: bool) -> (r:
    Result<Vec<InValue>, ConvError>)
    requires
        upto <= items@.len(),
    ensures
        match r {
            Ok(es) => encode_items(out_items_view(*items).take(upto as int), hints, bytes_ok)
                == Ok::<_, ConvError>(in_items_view(es)),
            Err(e) => encode_items(out_items_view(*items).take(upto as int), hints, bytes_ok)
                == Err::<Seq<InVal>, _>(e),
        },
    decreases *items, upto,
{
    if upto == 0 {
        let es: Vec<InValue> = Vec::new();
        proof {
            assert(in_items_view(es) =~= Seq::<InVal>::empty());
            assert(out_items_view(*items).take(0) =~= Seq::<OutVal>::empty());
        }
        Ok(es)
    } else {
        let prev = encode_items_exec(items, upto - 1, hints, bytes_ok);
        proof {
            lemma_take_step(out_items_view(*items), upto - 1);
        }
        match prev {
            Err(e) => Err(e),
            Ok(mut es) => match encode_value(&items[upto - 1], hints, bytes_ok) {
                Err(e) => Err(e),
                Ok(iv) => {
                    let ghost es_pre = es;
                    es.push(iv);
                    proof {
                        assert(in_items_view(es) =~= in_items_view(es_pre).push(iv_view(iv)));
                    }
                    Ok(es)
                },
            },
        }
    }
}

/// Encodes the values of the first `upto` record entries, keeping keys.
fn encode_entries_exec(entries: &Vec<(String, OutValue)>, upto: usize, hints: bool, bytes_ok:
    bool) -> (r: Result<Vec<(String, InValue)>, ConvError>)
    requires
        upto <= entries@.len(),
    ensures
        match r {
            Ok(es) => encode_entries(out_entries_view(*entries).take(upto as int), hints, bytes_ok)
                == Ok::<_, ConvError>(in_entries_view(es)),
            Err(e) => encode_entries(out_entries_view(*entries).take(upto as int), hints, bytes_ok)
                == Err::<Seq<(Seq<char>, InVal)>, _>(e),
        },
    decreases *entries, upto,
{
    if upto == 0 {
        let es: Vec<(String, InValue)> = Vec::new();
        proof {
            assert(in_entries_view(es) =~= Seq::<(Seq<char>, InVal)>::empty());
            assert(out_entries_view(*entries).take(0) =~= Seq::<(Seq<char>, OutVal)>::empty());
        }
        Ok(es)
    } else {
        let prev = encode_entries_exec(entries, upto - 1, hints, bytes_ok);
        proof {
            lemma_take_step(out_entries_view(*entries), upto - 1);
        }
        match prev {
            Err(e) => Err(e),
            Ok(mut es) => match encode_value(&entries[upto - 1].1, hints, bytes_ok) {
                Err(e) => Err(e),
                Ok(iv) => {
                    let key = entries[upto - 1].0.clone();
                    let ghost es_pre = es;
                    es.push((key, iv));
                    proof {
                        assert(in_entries_view(es) =~= in_entries_view(es_pre).push(
                            (key@, iv_view(iv)),
                        ));
                    }
                    Ok(es)
                },
            },
        }
    }
}

} // verus!
