//! Completion of qualified name chains (`pkg::module::member`) and of `use`
//! declarations, over a read-only symbol index.
pub mod chain;
pub mod laws;
pub mod members;
pub mod model;
pub mod order;
pub mod packages;
pub mod text;
pub mod use_decl;
