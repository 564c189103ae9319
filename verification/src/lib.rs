//! Normalizes identifier casing in a declarative data-modeling schema.
//!
//! The schema's models, fields and indexes are renamed from the on-storage
//! convention (typically `snake_case`) to the conventions expected by code
//! consumers (`UpperCamelCase` for models, `lowerCamelCase` for fields and
//! index names), while each original identifier is recorded as a mapping
//! annotation so the underlying storage name is unaffected.
//!
//! Parsing schema text and rendering it back are the business of a
//! schema-language front end outside this crate; this library owns the
//! in-memory representation and the renaming transform over it.

pub mod casing;
pub mod dml;
pub mod transform;
