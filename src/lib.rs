//! Semantic core of a contract-language front end: the type engine, the
//! declaration engine, and the typed declarations that refer into them.
//! Source-text helpers (top-level attribute parsing, import formatting) sit
//! beside the core.

pub mod span;
pub mod type_engine;
pub mod decl_engine;
pub mod declaration;
pub mod fmt;
pub mod text;
pub mod toplevel;
pub mod expression;
pub mod script_data;
pub mod descriptor;
