//! Variable-length integer encoding for the state wire format, and the
//! field and shape logic of the state derive.
pub mod leb;
pub mod size;
pub mod varint;
pub mod ints;
pub mod laws;
pub mod int_laws;
pub mod codegen_laws;
pub mod attr_laws;
pub mod text;
pub mod field;
pub mod derive;

pub use derive::DeriveKind;
pub use size::{size_32, size_64};
pub use varint::{DecodeError, Varint, VarintDecoder};
