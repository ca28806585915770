//! Code generation for aggregate time tracking: a declaration is parsed into a
//! shape model, its field types are deduplicated, and the trait implementation
//! is rendered as source text.

pub mod ci;
pub mod codegen;
pub mod dedup;
pub mod laws;
pub mod packer;
pub mod shape;
pub mod text;
