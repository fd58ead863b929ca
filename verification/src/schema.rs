//! Executable schema descriptors. These hold, as plain values, exactly what
//! the engine reads of the external schema collaborator's type descriptors:
//! the structural kind tree, field names and union membership, enumerant
//! names, and the durable numeric id of every struct and enum type.

use vstd::prelude::*;

use crate::model::{EnumTy, FieldTy, StructTy, Ty};

verus! {

/// The structural type of a value.
#[derive(Debug, PartialEq)]
pub enum SchemaType {
    Void,
    Bool,
    Int8,
    Int16,
    Int32,
    Int64,
    UInt8,
    UInt16,
    UInt32,
    UInt64,
    Float32,
    Float64,
    Text,
    Data,
    Struct(StructSchema),
    Enum(EnumSchema),
    List(Box<SchemaType>),
    AnyPointer,
    Capability,
}

/// One field of a struct schema.
#[derive(Debug, PartialEq)]
pub struct Field {
    pub name: String,
    pub ty: SchemaType,
    pub in_union: bool,
}

/// A struct schema: durable id and ordered fields.
#[derive(Debug, PartialEq)]
pub struct StructSchema {
    pub id: u64,
    pub fields: Vec<Field>,
}

/// An enum schema: durable id, display name, ordered enumerant names.
#[derive(Debug, PartialEq)]
pub struct EnumSchema {
    pub id: u64,
    pub name: String,
    pub enumerants: Vec<String>,
}

// ------------------------------------------------------------------
// Views into the model
// ------------------------------------------------------------------

pub open spec fn field_view(f: Field) -> FieldTy
    decreases f,
{
    FieldTy { name: f.name@, ty: stype_view(f.ty), in_union: f.in_union }
}

pub open spec fn sschema_view(s: StructSchema) -> StructTy
    decreases s,
{
    StructTy {
        id: s.id,
        fields: Seq::new(
            s.fields@.len(),
            |i: int|
                if 0 <= i < s.fields@.len() {
                    field_view(s.fields@[i])
                } else {
                    FieldTy { name: Seq::empty(), ty: Ty::Void, in_union: false }
                },
        ),
    }
}

pub open spec fn eschema_view(e: EnumSchema) -> EnumTy {
    EnumTy { id: e.id, name: e.name@, enumerants: e.enumerants.deep_view() }
}

pub open spec fn stype_view(t: SchemaType) -> Ty
    decreases t,
{
    match t {
        SchemaType::Void => Ty::Void,
        SchemaType::Bool => Ty::Bool,
        SchemaType::Int8 => Ty::Int8,
        SchemaType::Int16 => Ty::Int16,
        SchemaType::Int32 => Ty::Int32,
        SchemaType::Int64 => Ty::Int64,
        SchemaType::UInt8 => Ty::UInt8,
        SchemaType::UInt16 => Ty::UInt16,
        SchemaType::UInt32 => Ty::UInt32,
        SchemaType::UInt64 => Ty::UInt64,
        SchemaType::Float32 => Ty::Float32,
        SchemaType::Float64 => Ty::Float64,
        SchemaType::Text => Ty::Text,
        SchemaType::Data => Ty::Data,
        SchemaType::Struct(s) => Ty::Struct(sschema_view(s)),
        SchemaType::Enum(e) => Ty::Enum(eschema_view(e)),
        SchemaType::List(b) => Ty::List(Box::new(stype_view(*b))),
        SchemaType::AnyPointer => Ty::AnyPointer,
        SchemaType::Capability => Ty::Capability,
    }
}

impl View for SchemaType {
    type V = Ty;

    open spec fn view(&self) -> Ty {
        stype_view(*self)
    }
}

impl View for Field {
    type V = FieldTy;

    open spec fn view(&self) -> FieldTy {
        field_view(*self)
    }
}

impl View for StructSchema {
    type V = StructTy;

    open spec fn view(&self) -> StructTy {
        sschema_view(*self)
    }
}

impl View for EnumSchema {
    type V = EnumTy;

    open spec fn view(&self) -> EnumTy {
        eschema_view(*self)
    }
}

// ------------------------------------------------------------------
// Cloning (view-preserving)
// ------------------------------------------------------------------

impl Clone for EnumSchema {
    fn clone(&self) -> (r: Self)
        ensures
            r@ == self@,
    {
        let r = EnumSchema { id: self.id, name: self.name.clone(), enumerants: clone_names(
            &self.enumerants,
        ) };
        proof {
            assert(r@.enumerants =~= self@.enumerants);
        }
        r
    }
}

/// Clones a name list, preserving its deep view.
pub fn clone_names(v: &Vec<String>) -> (r: Vec<String>)
    ensures
        r.deep_view() == v.deep_view(),
{
    let mut r: Vec<String> = Vec::new();
    let mut i: usize = 0;
    while i < v.len()
        invariant
            i <= v.len(),
            r@.len() == i,
            r.deep_view() == v.deep_view().take(i as int),
        decreases v.len() - i,
    {
        r.push(v[i].clone());
        i = i + 1;
        proof {
            assert(r.deep_view() =~~= v.deep_view().take(i as int));
        }
    }
    proof {
        assert(r.deep_view() =~~= v.deep_view());
    }
    r
}

impl Clone for StructSchema {
    fn clone(&self) -> (r: Self)
        ensures
            r@ == self@,
        decreases *self,
    {
        let mut fields: Vec<Field> = Vec::new();
        let mut i: usize = 0;
        while i < self.fields.len()
            invariant
                i <= self.fields.len(),
                fields@.len() == i,
                forall|j: int|
                    0 <= j < i ==> #[trigger] field_view(fields@[j]) == field_view(
                        self.fields@[j],
                    ),
            decreases self.fields.len() - i,
        {
            fields.push(self.fields[i].clone());
            i = i + 1;
        }
        let r = StructSchema { id: self.id, fields };
        proof {
            assert forall|j: int| 0 <= j < self.fields@.len() implies r@.fields[j]
                == self@.fields[j] by {
                assert(field_view(fields@[j]) == field_view(self.fields@[j]));
            }
            assert(r@.fields =~= self@.fields);
        }
        r
    }
}

impl Clone for Field {
    fn clone(&self) -> (r: Self)
        ensures
            r@ == self@,
        decreases *self,
    {
        Field { name: self.name.clone(), ty: self.ty.clone(), in_union: self.in_union }
    }
}

impl Clone for SchemaType {
    fn clone(&self) -> (r: Self)
        ensures
            r@ == self@,
        decreases *self,
    {
        match self {
            SchemaType::Void => SchemaType::Void,
            SchemaType::Bool => SchemaType::Bool,
            SchemaType::Int8 => SchemaType::Int8,
            SchemaType::Int16 => SchemaType::Int16,
            SchemaType::Int32 => SchemaType::Int32,
            SchemaType::Int64 => SchemaType::Int64,
            SchemaType::UInt8 => SchemaType::UInt8,
            SchemaType::UInt16 => SchemaType::UInt16,
            SchemaType::UInt32 => SchemaType::UInt32,
            SchemaType::UInt64 => SchemaType::UInt64,
            SchemaType::Float32 => SchemaType::Float32,
            SchemaType::Float64 => SchemaType::Float64,
            SchemaType::Text => SchemaType::Text,
            SchemaType::Data => SchemaType::Data,
            SchemaType::Struct(s) => SchemaType::Struct(s.clone()),
            SchemaType::Enum(e) => SchemaType::Enum(e.clone()),
            SchemaType::List(b) => SchemaType::List(Box::new((**b).clone())),
            SchemaType::AnyPointer => SchemaType::AnyPointer,
            SchemaType::Capability => SchemaType::Capability,
        }
    }
}

// ------------------------------------------------------------------
// Kind names
// ------------------------------------------------------------------

/// The short kind name of a schema type, as diagnostics print it.
pub open spec fn spec_kind_name(t: Ty) -> Seq<char> {
    match t {
        Ty::Void => "void"@,
        Ty::Bool => "bool"@,
        Ty::Int8 => "int8"@,
        Ty::Int16 => "int16"@,
        Ty::Int32 => "int32"@,
        Ty::Int64 => "int64"@,
        Ty::UInt8 => "uint8"@,
        Ty::UInt16 => "uint16"@,
        Ty::UInt32 => "uint32"@,
        Ty::UInt64 => "uint64"@,
        Ty::Float32 => "float32"@,
        Ty::Float64 => "float64"@,
        Ty::Text => "text"@,
        Ty::Data => "data"@,
        Ty::Struct(_) => "struct"@,
        Ty::Enum(_) => "enum"@,
        Ty::List(_) => "list"@,
        Ty::AnyPointer => "any"@,
        Ty::Capability => "capability"@,
    }
}

/// The short kind name of a schema type.
pub fn kind_name(t: &SchemaType) -> (r: &'static str)
    ensures
        r@ == spec_kind_name(t@),
{
    match t {
        SchemaType::Void => "void",
        SchemaType::Bool => "bool",
        SchemaType::Int8 => "int8",
        SchemaType::Int16 => "int16",
        SchemaType::Int32 => "int32",
        SchemaType::Int64 => "int64",
        SchemaType::UInt8 => "uint8",
        SchemaType::UInt16 => "uint16",
        SchemaType::UInt32 => "uint32",
        SchemaType::UInt64 => "uint64",
        SchemaType::Float32 => "float32",
        SchemaType::Float64 => "float64",
        SchemaType::Text => "text",
        SchemaType::Data => "data",
        SchemaType::Struct(_) => "struct",
        SchemaType::Enum(_) => "enum",
        SchemaType::List(_) => "list",
        SchemaType::AnyPointer => "any",
        SchemaType::Capability => "capability",
    }
}

// ------------------------------------------------------------------
// The name walk
// ------------------------------------------------------------------

/// Walks a type descriptor once and collects its ordered name list: field
/// names for a struct, enumerant names for an enum, empty otherwise. This
/// is the computation the name cache performs at most once per type id.
pub fn names_of_type(t: &SchemaType) -> (r: Vec<String>)
    ensures
        r.deep_view() == crate::model::names_of(t@),
{
    match t {
        SchemaType::Struct(s) => {
            let mut r: Vec<String> = Vec::new();
            let mut i: usize = 0;
            while i < s.fields.len()
                invariant
                    i <= s.fields.len(),
                    r@.len() == i,
                    r.deep_view() == crate::model::field_names(sschema_view(*s).fields).take(
                        i as int,
                    ),
                decreases s.fields.len() - i,
            {
                r.push(s.fields[i].name.clone());
                i = i + 1;
                proof {
                    assert(r.deep_view() =~~= crate::model::field_names(
                        sschema_view(*s).fields,
                    ).take(i as int));
                }
            }
            proof {
                assert(r.deep_view() =~~= crate::model::names_of(t@));
            }
            r
        },
        SchemaType::Enum(e) => {
            let r = clone_names(&e.enumerants);
            r
        },
        _ => {
            let r: Vec<String> = Vec::new();
            proof {
                assert(r.deep_view() =~= Seq::<Seq<char>>::empty());
            }
            r
        },
    }
}

} // verus!
