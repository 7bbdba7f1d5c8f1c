//! Syntax trees: [`query`] for executable documents, [`schema`] for schema
//! documents.
pub mod query;
pub mod schema;
