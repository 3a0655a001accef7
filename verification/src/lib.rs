//! Translation of structural type descriptions (schema graphs, possibly with
//! self- and mutually-recursive references) into type declarations in a
//! statically typed target language.
//!
//! The entry point is [`gen`], which resolves a root schema node against a
//! [`ExternalTypeCollector`] registry.  The registry memoizes every named
//! declaration it resolves, in first-resolution order, and breaks reference
//! cycles with an in-progress marker so that recursive types terminate.

pub mod error;
pub mod laws;
pub mod model;
pub mod registry;
pub mod schema;
pub mod translate;

pub use error::Error;
pub use registry::ExternalTypeCollector;
pub use translate::{gen, gen_object_header, gen_simple_enum_header, make_type_optional, remove_start_from_ref};
pub use schema::{InstanceType, Items, Literal, Property, RootSchema, Schema, SchemaObject};
