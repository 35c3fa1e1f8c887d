//! A small report DSL engine: raw tokens are resolved into a closed, typed
//! vocabulary of arguments, argument collections are expanded into the
//! combinatorial set of parameter bindings a block is evaluated under, nested
//! blocks form a scope tree whose selections inherit unset fields from their
//! ancestors, and independent row/column axes are combined into cross-section
//! tables. Numeric figures themselves come from an external calculation
//! engine, modelled here as a finite table of pre-computed results.

pub mod vocab;
pub mod arg;
pub mod expression;
pub mod engine;
pub mod expand;
pub mod table;
pub mod tree;
pub mod clause;
pub mod laws;
