//! A verified impedance-matching engine between a schema-driven, pre-sized
//! dynamic value model and a generic structured-data protocol.

pub mod cache;
pub mod de;
pub mod error;
pub mod floatbits;
pub mod laws;
pub mod model;
pub mod protocol;
pub mod schema;
pub mod ser;
pub mod value;
pub mod visitors;

pub use cache::NameCache;
pub use de::{deserialize_message, deserialize_value};
pub use error::ConvError;
pub use ser::serialize_value;
