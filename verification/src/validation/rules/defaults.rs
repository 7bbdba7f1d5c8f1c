//! The default validation plan.
use vstd::prelude::*;
use crate::static_graphql::{query, schema};
use crate::validation::rules::fields_on_correct_type::{
    lemma_rule_reports_misplaced_fields, spec_misplaced_in_definitions, FieldsOnCorrectType,
};
use crate::validation::rules::fragment_cycles::spec_fragment_cycle_errors;
use crate::validation::rules::fragment_cycles_proof::spec_is_fragment_cycle;
use crate::validation::rules::fragments_on_composite_types::{
    lemma_rule_reports_conditions, spec_condition_errors_in_definitions,
    FragmentsOnCompositeTypes,
};
use crate::validation::rules::known_fragment_names::{
    lemma_rule_reports_unknown_spreads, spec_all_unknown_spread_errors,
    spec_document_spreads_from, KnownFragmentNamesRule,
};
use crate::validation::rules::known_type_names::{
    lemma_rule_reports_unknown_types, spec_type_errors_in_definitions, KnownTypeNames,
};
use crate::validation::rules::leaf_field_selections::{
    lemma_rule_reports_leaf_errors, spec_leaf_errors_in_definitions, LeafFieldSelections,
};
use crate::validation::rules::lone_anonymous_operation::{
    lemma_rule_reports_anonymous_operations, spec_count_operations,
    spec_lone_anonymous_errors_from, LoneAnonymousOperation,
};
use crate::validation::rules::no_unused_fragments::{
    lemma_rule_reports_unused_fragments, spec_unused_fragment_errors, NoUnusedFragments,
};
use crate::validation::rules::overlapping_fields_can_be_merged::{
    lemma_rule_reports_a_cycle, lemma_rule_reports_cycles_and_conflicts,
    spec_conflicts_in_definitions, OverlappingFieldsCanBeMerged,
};
use crate::validation::rules::rule::ValidationRule;
use crate::validation::rules::single_field_subscriptions::{
    lemma_rule_reports_subscriptions, spec_subscription_errors_from, SingleFieldSubscriptions,
};
use crate::validation::rules::unique_operation_names::{
    lemma_rule_reports_duplicate_names, spec_duplicate_errors_from, UniqueOperationNames,
};
use crate::validation::utils::{ErrorView, ValidationContext, ValidationError};
use crate::validation::validate::{spec_validate, spec_validate_upto, ValidationPlan};

verus! {

/// One of the rules of this crate.
pub enum Rule {
    LoneAnonymousOperation(LoneAnonymousOperation),
    KnownTypeNames(KnownTypeNames),
    FieldsOnCorrectType(FieldsOnCorrectType),
    KnownFragmentNamesRule(KnownFragmentNamesRule),
    FragmentsOnCompositeTypes(FragmentsOnCompositeTypes),
    NoUnusedFragments(NoUnusedFragments),
    LeafFieldSelections(LeafFieldSelections),
    UniqueOperationNames(UniqueOperationNames),
    SingleFieldSubscriptions(SingleFieldSubscriptions),
    OverlappingFieldsCanBeMerged(OverlappingFieldsCanBeMerged),
}

impl ValidationRule for Rule {
    /// The errors of a rule of this crate are those of the rule that it is.
    open spec fn spec_validate(
        &self,
        schema: &schema::Document,
        operation: &query::Document,
    ) -> Seq<ErrorView> {
        match self {
            Rule::LoneAnonymousOperation(_) => LoneAnonymousOperation::spec_errors(
                schema,
                operation,
            ),
            Rule::KnownTypeNames(_) => KnownTypeNames::spec_errors(schema, operation),
            Rule::FieldsOnCorrectType(_) => FieldsOnCorrectType::spec_errors(schema, operation),
            Rule::KnownFragmentNamesRule(_) => KnownFragmentNamesRule::spec_errors(
                schema,
                operation,
            ),
            Rule::FragmentsOnCompositeTypes(_) => FragmentsOnCompositeTypes::spec_errors(
                schema,
                operation,
            ),
            Rule::NoUnusedFragments(_) => NoUnusedFragments::spec_errors(schema, operation),
            Rule::LeafFieldSelections(_) => LeafFieldSelections::spec_errors(schema, operation),
            Rule::UniqueOperationNames(_) => UniqueOperationNames::spec_errors(schema, operation),
            Rule::SingleFieldSubscriptions(_) => SingleFieldSubscriptions::spec_errors(
                schema,
                operation,
            ),
            Rule::OverlappingFieldsCanBeMerged(_) => OverlappingFieldsCanBeMerged::spec_errors(
                schema,
                operation,
            ),
        }
    }

    fn validate<'a>(&self, ctx: &ValidationContext<'a>) -> (res: Vec<ValidationError>) {
        match self {
            Rule::LoneAnonymousOperation(rule) => rule.validate(ctx),
            Rule::KnownTypeNames(rule) => rule.validate(ctx),
            Rule::FieldsOnCorrectType(rule) => rule.validate(ctx),
            Rule::KnownFragmentNamesRule(rule) => rule.validate(ctx),
            Rule::FragmentsOnCompositeTypes(rule) => rule.validate(ctx),
            Rule::NoUnusedFragments(rule) => rule.validate(ctx),
            Rule::LeafFieldSelections(rule) => rule.validate(ctx),
            Rule::UniqueOperationNames(rule) => rule.validate(ctx),
            Rule::SingleFieldSubscriptions(rule) => rule.validate(ctx),
            Rule::OverlappingFieldsCanBeMerged(rule) => rule.validate(ctx),
        }
    }
}

/// The errors that the default plan reports on `operation` against
/// `schema`: those of its ten rules, one rule after the other.
pub open spec fn spec_default_validate(
    schema: &schema::Document,
    operation: &query::Document,
) -> Seq<ErrorView> {
    Seq::<ErrorView>::empty() + LoneAnonymousOperation::spec_errors(schema, operation)
        + KnownTypeNames::spec_errors(schema, operation) + FieldsOnCorrectType::spec_errors(
        schema,
        operation,
    ) + KnownFragmentNamesRule::spec_errors(schema, operation)
        + FragmentsOnCompositeTypes::spec_errors(schema, operation)
        + NoUnusedFragments::spec_errors(schema, operation) + LeafFieldSelections::spec_errors(
        schema,
        operation,
    ) + UniqueOperationNames::spec_errors(schema, operation)
        + SingleFieldSubscriptions::spec_errors(schema, operation)
        + OverlappingFieldsCanBeMerged::spec_errors(schema, operation)
}

/// Makes the default plan: the ten rules of this crate, in the order in
/// which their errors are reported.
pub fn default_rules_validation_plan() -> (plan: ValidationPlan<Rule>)
    ensures
        plan.rules@.len() == 10,
        forall|schema: &schema::Document, operation: &query::Document|
            #[trigger] spec_validate(plan.rules@, schema, operation) == spec_default_validate(
                schema,
                operation,
            ),
{
    let mut plan = ValidationPlan { rules: Vec::new() };
    plan.add_rule(Rule::LoneAnonymousOperation(LoneAnonymousOperation::new()));
    plan.add_rule(Rule::KnownTypeNames(KnownTypeNames::new()));
    plan.add_rule(Rule::FieldsOnCorrectType(FieldsOnCorrectType::new()));
    plan.add_rule(Rule::KnownFragmentNamesRule(KnownFragmentNamesRule::new()));
    plan.add_rule(Rule::FragmentsOnCompositeTypes(FragmentsOnCompositeTypes::new()));
    plan.add_rule(Rule::NoUnusedFragments(NoUnusedFragments::new()));
    plan.add_rule(Rule::LeafFieldSelections(LeafFieldSelections::new()));
    plan.add_rule(Rule::UniqueOperationNames(UniqueOperationNames::new()));
    plan.add_rule(Rule::SingleFieldSubscriptions(SingleFieldSubscriptions::new()));
    plan.add_rule(Rule::OverlappingFieldsCanBeMerged(OverlappingFieldsCanBeMerged::new()));
    proof {
        assert forall|schema: &schema::Document, operation: &query::Document|
            #[trigger] spec_validate(plan.rules@, schema, operation) == spec_default_validate(
                schema,
                operation,
            ) by {
            reveal_with_fuel(spec_validate_upto, 11);
        }
    }
    plan
}

/// Where the fragments of a document form a cycle, the default plan reports
/// at least one error.
pub proof fn lemma_default_plan_reports_a_cycle(
    schema: &schema::Document,
    operation: &query::Document,
    names: Seq<Seq<char>>,
)
    requires
        spec_is_fragment_cycle(operation, names),
    ensures
        spec_default_validate(schema, operation).len() >= 1,
{
    lemma_rule_reports_a_cycle(schema, operation, names);
}

/// What the default plan reports, said without the walk: the errors of the
/// ten rules, each as the rule's own law states them.
pub proof fn lemma_default_plan_reports(schema: &schema::Document, operation: &query::Document)
    ensures
        spec_default_validate(schema, operation) == Seq::<ErrorView>::empty()
            + spec_lone_anonymous_errors_from(
            operation.definitions@,
            spec_count_operations(operation.definitions@, operation.definitions@.len() as int),
            0,
        ) + spec_type_errors_in_definitions(schema, operation.definitions@, 0)
            + spec_misplaced_in_definitions(schema, operation.definitions@, 0)
            + spec_all_unknown_spread_errors(
            operation,
            spec_document_spreads_from(operation.definitions@, 0),
        ) + spec_condition_errors_in_definitions(schema, operation.definitions@, 0)
            + spec_unused_fragment_errors(operation) + spec_leaf_errors_in_definitions(
            schema,
            operation.definitions@,
            0,
        ) + spec_duplicate_errors_from(operation.definitions@, Seq::empty(), 0)
            + spec_subscription_errors_from(operation, operation.definitions@, 0) + (
        spec_fragment_cycle_errors(operation) + spec_conflicts_in_definitions(
            schema,
            operation,
            operation.definitions@,
            0,
        )),
{
    lemma_rule_reports_anonymous_operations(schema, operation);
    lemma_rule_reports_unknown_types(schema, operation);
    lemma_rule_reports_misplaced_fields(schema, operation);
    lemma_rule_reports_unknown_spreads(schema, operation);
    lemma_rule_reports_conditions(schema, operation);
    lemma_rule_reports_unused_fragments(schema, operation);
    lemma_rule_reports_leaf_errors(schema, operation);
    lemma_rule_reports_duplicate_names(schema, operation);
    lemma_rule_reports_subscriptions(schema, operation);
    lemma_rule_reports_cycles_and_conflicts(schema, operation);
}

} // verus!
