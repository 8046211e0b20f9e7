//! Schema-aware GraphQL code generation core.
//!
//! The crate models a GraphQL schema (input objects, root operation types,
//! reachability marks), resolves type references to target-language type
//! expressions, and assembles one language-neutral emission unit per
//! operation.  Lexical parsing of GraphQL documents and the lowering of the
//! emitted units into concrete target-language syntax are left to callers.

pub mod names;
pub mod casing;
pub mod errors;
pub mod deprecation;
pub mod ir;
pub mod field_type;
pub mod shared;
pub mod objects;
pub mod inputs;
pub mod schema;
pub mod variables;
pub mod operations;
pub mod codegen_options;
pub mod generated_module;
pub mod laws;
