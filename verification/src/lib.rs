//! Semantic-resolution core for a framework-aware source analyzer.
//!
//! The library builds a lazily-computed semantic object graph over a set of
//! interdependent source modules: every top-level declaration becomes a
//! uniquely identified [`object::Object`], each source file yields a
//! [`object::Module`] holding its namespace table, and a
//! [`resolve::ResolveState`] answers identifier, import and export lookups
//! over the graph, chasing re-exports and falling back to an ambient
//! "universe" scope.
//!
//! Cross-references are stored as small integer identities into arenas owned
//! by the resolve state; parsing is delegated to an external parser whose
//! output is modeled by the plain syntax-tree types in [`ast`].

pub mod ast;
pub mod maps;
pub mod laws;
pub mod loader;
pub mod model;
pub mod object;
pub mod resolve;
pub mod writers;

use vstd::prelude::*;

verus! {

/// Identity of a loaded source module, assigned by the module loader.
#[derive(Debug, Clone, Copy, PartialEq, Eq, Structural, Hash)]
pub struct ModuleId(pub u64);

} // verus!
