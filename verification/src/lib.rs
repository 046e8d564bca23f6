//! Hierarchical identifiers with a fixed-width hexadecimal token codec, and a
//! markup value that renders to a structural tree.

pub mod convert;
pub mod decimal;
pub mod event;
pub mod hex;
pub mod id;
pub mod invoke;
pub mod markup;
pub mod nesting;
pub mod order;
pub mod query;
pub mod render;
pub mod text;
pub mod tree;
