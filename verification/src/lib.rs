//! Static validation of GraphQL executable documents against a schema.
//!
//! The crate is organised in three layers:
//!
//! * [`static_graphql`] holds the syntax trees of schema documents and of
//!   executable documents.
//! * [`ast`] holds the schema lookups, the type-info context and the
//!   depth-first walker that drives a set of enter/leave hooks.
//! * [`validation`] holds the error model, the rules and the entry point
//!   [`validation::validate::validate`].
pub mod ast;
pub mod static_graphql;
pub mod validation;
