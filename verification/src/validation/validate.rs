//! The validation plan and the entry point.
use vstd::prelude::*;
use crate::ast::type_info_registry::TypeInfoRegistry;
use crate::static_graphql::{query, schema};
use crate::validation::locate_fragments::LocateFragments;
use crate::validation::rules::rule::ValidationRule;
use crate::validation::utils::{
    error_views, lemma_error_views_add, lemma_error_views_empty, ErrorView, ValidationContext,
    ValidationError,
};

verus! {

/// An ordered list of rules that are run together on a document.
pub struct ValidationPlan<R: ValidationRule> {
    pub rules: Vec<R>,
}

impl<R: ValidationRule> ValidationPlan<R> {
    /// Makes a plan without rules.
    pub fn new() -> (res: Self)
        ensures
            res.rules@ == Seq::<R>::empty(),
    {
        Self { rules: Vec::new() }
    }

    /// Makes a plan of the given rules, in their order.
    pub fn from(rules: Vec<R>) -> (res: Self)
        ensures
            res.rules == rules,
    {
        Self { rules }
    }

    /// Adds a rule at the end of the plan.
    pub fn add_rule(&mut self, rule: R)
        ensures
            final(self).rules@ == old(self).rules@.push(rule),
    {
        self.rules.push(rule);
    }
}

/// The errors that the first `n` rules of a plan report on `operation`
/// against `schema`: those of each rule, in plan order.
pub open spec fn spec_validate_upto<R: ValidationRule>(
    rules: Seq<R>,
    schema: &schema::Document,
    operation: &query::Document,
    n: int,
) -> Seq<ErrorView>
    decreases n,
{
    if n <= 0 || n > rules.len() {
        Seq::empty()
    } else {
        spec_validate_upto(rules, schema, operation, n - 1) + rules[n - 1].spec_validate(
            schema,
            operation,
        )
    }
}

/// The errors that a plan reports on `operation` against `schema`.
pub open spec fn spec_validate<R: ValidationRule>(
    rules: Seq<R>,
    schema: &schema::Document,
    operation: &query::Document,
) -> Seq<ErrorView> {
    spec_validate_upto(rules, schema, operation, rules.len() as int)
}

/// Validates `operation` against `schema` with the rules of
/// `validation_plan`. The result holds the errors of each rule in plan order,
/// and within a rule in the order in which the rule reports them. It is empty
/// exactly when no rule of the plan finds anything wrong.
pub fn validate<'a, R: ValidationRule>(
    schema: &'a schema::Document,
    operation: &'a query::Document,
    validation_plan: &'a ValidationPlan<R>,
) -> (res: Vec<ValidationError>)
    ensures
        error_views(res@) == spec_validate(validation_plan.rules@, schema, operation),
{
    let mut fragments_locator = LocateFragments::new();
    let fragments = fragments_locator.locate_fragments(operation);
    let type_info_registry = TypeInfoRegistry::new(schema);
    let validation_context = ValidationContext {
        operation,
        schema,
        fragments,
        type_info_registry: Some(type_info_registry),
    };
    let mut validation_errors: Vec<ValidationError> = Vec::new();
    proof {
        lemma_error_views_empty();
    }
    let mut i: usize = 0;
    while i < validation_plan.rules.len()
        invariant
            i <= validation_plan.rules.len(),
            validation_context.operation == operation,
            validation_context.schema == schema,
            error_views(validation_errors@) == spec_validate_upto(
                validation_plan.rules@,
                schema,
                operation,
                i as int,
            ),
        decreases validation_plan.rules.len() - i,
    {
        let mut errors = validation_plan.rules[i].validate(&validation_context);
        proof {
            lemma_error_views_add(validation_errors@, errors@);
        }
        validation_errors.append(&mut errors);
        i += 1;
    }
    validation_errors
}

/// Two runs of a plan on one document and one schema report the same errors.
pub proof fn lemma_validate_is_deterministic<R: ValidationRule>(
    rules: Seq<R>,
    schema: &schema::Document,
    operation: &query::Document,
    first: Seq<ErrorView>,
    second: Seq<ErrorView>,
)
    requires
        first == spec_validate(rules, schema, operation),
        second == spec_validate(rules, schema, operation),
    ensures
        first == second,
{
}

/// A plan without rules reports no errors.
pub proof fn lemma_empty_plan_reports_nothing<R: ValidationRule>(
    schema: &schema::Document,
    operation: &query::Document,
)
    ensures
        spec_validate(Seq::<R>::empty(), schema, operation) == Seq::<ErrorView>::empty(),
{
}

/// The errors of the first `n` rules of a plan do not depend on the rules
/// behind them.
pub proof fn lemma_validate_upto_prefix<R: ValidationRule>(
    rules: Seq<R>,
    longer: Seq<R>,
    schema: &schema::Document,
    operation: &query::Document,
    n: int,
)
    requires
        0 <= n <= rules.len() <= longer.len(),
        forall|i: int| 0 <= i < rules.len() ==> rules[i] == longer[i],
    ensures
        spec_validate_upto(rules, schema, operation, n) == spec_validate_upto(
            longer,
            schema,
            operation,
            n,
        ),
    decreases n,
{
    if n > 0 {
        lemma_validate_upto_prefix(rules, longer, schema, operation, n - 1);
    }
}

/// A plan with one more rule at its end reports what the plan reported
/// before, and then what the new rule reports: the errors of the other rules
/// stay, in their places.
pub proof fn lemma_added_rule_adds_errors<R: ValidationRule>(
    rules: Seq<R>,
    rule: R,
    schema: &schema::Document,
    operation: &query::Document,
)
    ensures
        spec_validate(rules.push(rule), schema, operation) == spec_validate(
            rules,
            schema,
            operation,
        ) + rule.spec_validate(schema, operation),
{
    lemma_validate_upto_prefix(rules, rules.push(rule), schema, operation, rules.len() as int);
}

} // verus!
