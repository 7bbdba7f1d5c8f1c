//! Schema lookups, the type-info context and the operation walker.
pub mod ext;
pub mod fragment_spreads;
pub mod lookup;
pub mod operation_visitor;
pub mod schema_index;
pub mod type_info_registry;
pub mod walk_laws;
