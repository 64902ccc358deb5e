//! Code-emission core of a source-to-source compiler for an object/state-machine
//! oriented scripting language.
//!
//! The library receives a fully parsed abstract syntax tree, decorates every
//! scope-introducing node (classes, functions) with a [`context::Context`]
//! describing its lexical scope, and emits equivalent source text in a
//! class-based target dialect.  The central behaviours are the per-scope
//! context tree built by a dedicated traversal pass, the dual-mode visitor
//! protocol, the monomorphization of generic classes into one emitted variant
//! per registered instantiation, and the scope-dependent emission policy for
//! variable declarations (function-local declarations are hoisted into
//! class-level fields and deduplicated by name).

pub mod builder;
pub mod classes;
pub mod codegen;
pub mod context;
pub mod expressions;
pub mod functions;
pub mod identifiers;
pub mod inference;
pub mod variables;
pub mod visitor;
