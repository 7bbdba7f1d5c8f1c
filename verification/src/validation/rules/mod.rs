//! The validation rules.
pub mod defaults;
pub mod field_records;
pub mod fields_on_correct_type;
pub mod fragment_cycles;
pub mod fragment_cycles_proof;
pub mod fragments_on_composite_types;
pub mod known_fragment_names;
pub mod known_type_names;
pub mod leaf_field_selections;
pub mod lone_anonymous_operation;
pub mod no_unused_fragments;
pub mod overlapping_fields_can_be_merged;
pub mod rule;
pub mod single_field_subscriptions;
pub mod unique_operation_names;
pub mod values;
