//! What every validation rule offers.
use vstd::prelude::*;
use crate::static_graphql::{query, schema};
use crate::validation::utils::{error_views, ErrorView, ValidationContext, ValidationError};

verus! {

/// A validation rule: it looks at a document and a schema and reports what it
/// finds wrong. A rule does not see what other rules report.
pub trait ValidationRule {
    /// The errors that the rule finds in `operation` against `schema`, in the
    /// order in which it reports them.
    spec fn spec_validate(
        &self,
        schema: &schema::Document,
        operation: &query::Document,
    ) -> Seq<ErrorView>;

    /// Validates the document of `ctx` against its schema.
    fn validate<'a>(&self, ctx: &ValidationContext<'a>) -> (res: Vec<ValidationError>)
        ensures
            error_views(res@) == self.spec_validate(ctx.schema, ctx.operation),
    ;
}

} // verus!
