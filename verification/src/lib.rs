//! Construction of a module dependency graph: starting from one root module,
//! the builder discovers, loads and resolves every statically and dynamically
//! imported module, producing a closed graph of modules, dependency edges and
//! the errors met along the way.

pub mod ast;
pub mod error;
pub mod graph;
pub mod media_type;
pub mod module;
pub mod resolution;
pub mod source;
pub mod specifier;
pub mod vecmap;
