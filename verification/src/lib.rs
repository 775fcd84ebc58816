//! Core of a config-language front-end: a scoped macro symbol table, a
//! recursive macro-expansion engine with provenance-preserving source
//! mapping, and the diagnostic-code framework that renders every detected
//! problem back at its original, pre-expansion source location.

pub mod analyze;
pub mod ce7_missing_parent;
pub mod code;
pub mod config;
pub mod cw2_magwell_missing_magazine;
pub mod defines;
pub mod definition;
pub mod expand;
pub mod pe14_include_unexpected_suffix;
pub mod pe9_function_call_argument_count;
pub mod position;
pub mod processed;
pub mod pw2_invalid_config_case;
pub mod report;
pub mod scope;
pub mod similarity;
pub mod strings;
pub mod symbol;
pub mod token;
