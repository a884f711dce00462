//! Code generation for a term-rewriting DSL: renders per-term decision tries
//! as dispatch functions in a host language.
//!
//! [`codegen::codegen`] is the entry point. It takes the declared types and
//! terms ([`sema`]), the rules of each term as a decision trie ([`trie`]),
//! and the options that select a backend. [`plan`] says which body the walk
//! lays out for a trie, [`codegen::syntax`] how a backend spells it,
//! [`semantics`] what a trie and a body mean, and [`laws`] what holds of
//! every body that is emitted.

pub mod codegen;
pub mod laws;
pub mod plan;
pub mod sema;
pub mod semantics;
pub mod stable_set;
pub mod text;
pub mod trie;
