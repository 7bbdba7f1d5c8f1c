//! Error model, rules and the validation entry point.
pub mod locate_fragments;
pub mod rules;
pub mod utils;
pub mod validate;
