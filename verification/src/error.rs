use vstd::prelude::*;

verus! {

/// Every failure a conversion can end in. Any error aborts the whole
/// conversion; the caller must discard a partially built value.
#[derive(Clone, Copy, Debug, PartialEq, Eq, Structural)]
pub enum ConvError {
    /// The input value's kind disagrees with the expected schema type.
    SchemaMismatch,
    /// A map key does not name any field of the expected struct schema.
    UnknownField,
    /// An identifier does not name any enumerant of the expected enum schema.
    UnknownEnumerant,
    /// The schema reaches a kind this engine does not support.
    UnsupportedType,
    /// The output protocol cannot carry a value of this kind.
    EncodingError,
    /// A pointer-bearing list arrived without an upfront element count.
    SizeUnavailable,
    /// The input protocol broke its own contract.
    UnderlyingProtocolError,
}

impl ConvError {
    /// A short stable description of the error.
    pub fn describe(&self) -> (r: &'static str)
        ensures
            r@.len() > 0,
    {
        let s: &'static str = match self {
            ConvError::SchemaMismatch => "value kind disagrees with the expected schema type",
            ConvError::UnknownField => "map key does not name a schema field",
            ConvError::UnknownEnumerant => "identifier does not name an enumerant",
            ConvError::UnsupportedType => "schema kind is not supported",
            ConvError::EncodingError => "the output protocol cannot carry this value",
            ConvError::SizeUnavailable => "pointer-bearing list without an upfront element count",
            ConvError::UnderlyingProtocolError => "the input protocol broke its own contract",
        };
        proof {
            reveal_strlit("value kind disagrees with the expected schema type");
            reveal_strlit("map key does not name a schema field");
            reveal_strlit("identifier does not name an enumerant");
            reveal_strlit("schema kind is not supported");
            reveal_strlit("the output protocol cannot carry this value");
            reveal_strlit("pointer-bearing list without an upfront element count");
            reveal_strlit("the input protocol broke its own contract");
        }
        s
    }
}

} // verus!
