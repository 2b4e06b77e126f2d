//! Customizable debug-representation derivation.
//!
//! Given a description of a record or tagged-union type together with a
//! small per-symbol option language (`skip`, `alias`, `placeholder`, `fmt`,
//! `formatter`), this library resolves the options into rendering
//! directives, assembles a render plan for the type, and defines exactly
//! what text the derived debug implementation prints for a value, in both
//! the compact and the pretty (multi-line) convention.

pub mod laws;
pub mod options;
pub mod plan;
pub mod render;
