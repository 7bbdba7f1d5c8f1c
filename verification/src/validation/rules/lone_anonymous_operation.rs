//! An operation without a name must be the only operation of its document.
use vstd::prelude::*;
use crate::ast::ext::AstNodeWithName;
use crate::ast::operation_visitor::{
    spec_definition_type, visit_document, walk_definition, walk_definitions, walk_document,
    ContextView, Node, OperationVisitor, OperationVisitorContext,
};
use crate::ast::walk_laws::{
    lemma_walk_fragment_body_keeps, lemma_walk_operation_body_keeps, spec_hooks_keep_below,
};
use crate::static_graphql::query::{
    Definition, Directive, Document, Field, FragmentDefinition, FragmentSpread, InlineFragment,
    OperationDefinition, SelectionSet, Value, VariableDefinition,
};
use crate::static_graphql::schema;
use crate::validation::rules::rule::ValidationRule;
use crate::validation::utils::{
    error_views, lemma_error_views_empty, report_error, ErrorView, ValidationContext,
    ValidationError,
};

verus! {

/// The number of operation definitions among the first `n` definitions.
pub open spec fn spec_count_operations(definitions: Seq<Definition>, n: int) -> nat
    decreases n,
{
    if n <= 0 || n > definitions.len() {
        0
    } else if definitions[n - 1] is Operation {
        spec_count_operations(definitions, n - 1) + 1
    } else {
        spec_count_operations(definitions, n - 1)
    }
}

/// Counts the operation definitions of a document.
pub fn count_operations(document: &Document) -> (res: usize)
    ensures
        res == spec_count_operations(document.definitions@, document.definitions@.len() as int),
{
    let mut count: usize = 0;
    let mut i: usize = 0;
    while i < document.definitions.len()
        invariant
            i <= document.definitions.len(),
            count == spec_count_operations(document.definitions@, i as int),
            count <= i,
        decreases document.definitions.len() - i,
    {
        if let Definition::Operation(_) = &document.definitions[i] {
            count += 1;
        }
        i += 1;
    }
    count
}

/// What the rule knows in the middle of a walk.
pub struct LoneAnonymousOperationState {
    /// The number of operations of the document that was entered.
    pub operations_count: nat,
    /// The errors found so far.
    pub errors: Seq<ErrorView>,
}

/// The error for an anonymous operation at `position` that is not alone.
pub open spec fn spec_not_alone_error(operation: &OperationDefinition) -> ErrorView {
    ErrorView {
        message: "This anonymous operation must be the only defined operation."@,
        locations: seq![operation.spec_position()],
    }
}

/// The rule that an anonymous operation must be the only operation of its
/// document.
pub struct LoneAnonymousOperation {
    operations_count: usize,
    errors: Vec<ValidationError>,
}

impl LoneAnonymousOperation {
    /// The state in which the rule starts a walk.
    pub open spec fn initial_state() -> LoneAnonymousOperationState {
        LoneAnonymousOperationState { operations_count: 0, errors: Seq::empty() }
    }

    /// Makes the rule, ready to start a walk.
    pub fn new() -> (res: Self)
        ensures
            res.state() == Self::initial_state(),
    {
        proof {
            lemma_error_views_empty();
        }
        LoneAnonymousOperation { operations_count: 0, errors: Vec::new() }
    }
}

impl<'a> OperationVisitor<'a> for LoneAnonymousOperation {
    type State = LoneAnonymousOperationState;

    closed spec fn state(&self) -> LoneAnonymousOperationState {
        LoneAnonymousOperationState {
            operations_count: self.operations_count as nat,
            errors: error_views(self.errors@),
        }
    }

    /// Entering the document counts its operations. Entering an operation
    /// without a name reports it where the document has more than one
    /// operation.
    open spec fn on_enter(
        state: LoneAnonymousOperationState,
        ctx: ContextView<'a>,
        node: Node<'a>,
    ) -> LoneAnonymousOperationState {
        match node {
            Node::Document(document) => LoneAnonymousOperationState {
                operations_count: spec_count_operations(
                    document.definitions@,
                    document.definitions@.len() as int,
                ),
                ..state
            },
            Node::OperationDefinition(operation) => if operation.spec_node_name() is None
                && state.operations_count > 1 {
                LoneAnonymousOperationState {
                    errors: state.errors.push(spec_not_alone_error(operation)),
                    ..state
                }
            } else {
                state
            },
            _ => state,
        }
    }

    open spec fn on_leave(
        state: LoneAnonymousOperationState,
        ctx: ContextView<'a>,
        node: Node<'a>,
    ) -> LoneAnonymousOperationState {
        state
    }

    fn enter_document(&mut self, ctx: &OperationVisitorContext<'a>, document: &'a Document) {
        self.operations_count = count_operations(document);
    }

    fn leave_document(&mut self, _ctx: &OperationVisitorContext<'a>, _document: &'a Document) {
    }

    fn enter_operation_definition(
        &mut self,
        ctx: &OperationVisitorContext<'a>,
        operation: &'a OperationDefinition,
    ) {
        if operation.name_ref().is_none() && self.operations_count > 1 {
            let mut locations: Vec<crate::static_graphql::query::Pos> = Vec::new();
            locations.push(operation.position());
            assert(locations@ =~= seq![operation.spec_position()]);
            report_error(
                &mut self.errors,
                String::from_str("This anonymous operation must be the only defined operation."),
                locations,
            );
        }
    }

    fn leave_operation_definition(
        &mut self,
        ctx: &OperationVisitorContext<'a>,
        operation: &'a OperationDefinition,
    ) {
    }

    fn enter_fragment_definition(
        &mut self,
        ctx: &OperationVisitorContext<'a>,
        fragment: &'a FragmentDefinition,
    ) {
    }

    fn leave_fragment_definition(
        &mut self,
        ctx: &OperationVisitorContext<'a>,
        fragment: &'a FragmentDefinition,
    ) {
    }

    fn enter_variable_definition(
        &mut self,
        ctx: &OperationVisitorContext<'a>,
        variable: &'a VariableDefinition,
    ) {
    }

    fn leave_variable_definition(
        &mut self,
        ctx: &OperationVisitorContext<'a>,
        variable: &'a VariableDefinition,
    ) {
    }

    fn enter_directive(&mut self, ctx: &OperationVisitorContext<'a>, directive: &'a Directive) {
    }

    fn leave_directive(&mut self, ctx: &OperationVisitorContext<'a>, directive: &'a Directive) {
    }

    fn enter_argument(&mut self, ctx: &OperationVisitorContext<'a>, argument: &'a (String, Value)) {
    }

    fn leave_argument(&mut self, ctx: &OperationVisitorContext<'a>, argument: &'a (String, Value)) {
    }

    fn enter_selection_set(
        &mut self,
        ctx: &OperationVisitorContext<'a>,
        selection_set: &'a SelectionSet,
    ) {
    }

    fn leave_selection_set(
        &mut self,
        ctx: &OperationVisitorContext<'a>,
        selection_set: &'a SelectionSet,
    ) {
    }

    fn enter_field(&mut self, ctx: &OperationVisitorContext<'a>, field: &'a Field) {
    }

    fn leave_field(&mut self, ctx: &OperationVisitorContext<'a>, field: &'a Field) {
    }

    fn enter_fragment_spread(
        &mut self,
        ctx: &OperationVisitorContext<'a>,
        fragment_spread: &'a FragmentSpread,
    ) {
    }

    fn leave_fragment_spread(
        &mut self,
        ctx: &OperationVisitorContext<'a>,
        fragment_spread: &'a FragmentSpread,
    ) {
    }

    fn enter_inline_fragment(
        &mut self,
        ctx: &OperationVisitorContext<'a>,
        inline_fragment: &'a InlineFragment,
    ) {
    }

    fn leave_inline_fragment(
        &mut self,
        ctx: &OperationVisitorContext<'a>,
        inline_fragment: &'a InlineFragment,
    ) {
    }

    fn enter_null_value(&mut self, ctx: &OperationVisitorContext<'a>) {
    }

    fn leave_null_value(&mut self, ctx: &OperationVisitorContext<'a>) {
    }

    fn enter_scalar_value(&mut self, ctx: &OperationVisitorContext<'a>, value: &'a Value) {
    }

    fn leave_scalar_value(&mut self, ctx: &OperationVisitorContext<'a>, value: &'a Value) {
    }

    fn enter_enum_value(&mut self, ctx: &OperationVisitorContext<'a>, value: &'a String) {
    }

    fn leave_enum_value(&mut self, ctx: &OperationVisitorContext<'a>, value: &'a String) {
    }

    fn enter_variable_value(&mut self, ctx: &OperationVisitorContext<'a>, name: &'a String) {
    }

    fn leave_variable_value(&mut self, ctx: &OperationVisitorContext<'a>, name: &'a String) {
    }

    fn enter_list_value(&mut self, ctx: &OperationVisitorContext<'a>, items: &'a Vec<Value>) {
    }

    fn leave_list_value(&mut self, ctx: &OperationVisitorContext<'a>, items: &'a Vec<Value>) {
    }

    fn enter_object_value(
        &mut self,
        ctx: &OperationVisitorContext<'a>,
        entries: &'a Vec<(String, Value)>,
    ) {
    }

    fn leave_object_value(
        &mut self,
        ctx: &OperationVisitorContext<'a>,
        entries: &'a Vec<(String, Value)>,
    ) {
    }

    fn enter_object_field(&mut self, ctx: &OperationVisitorContext<'a>, entry: &'a (String, Value)) {
    }

    fn leave_object_field(&mut self, ctx: &OperationVisitorContext<'a>, entry: &'a (String, Value)) {
    }
}

impl LoneAnonymousOperation {
    /// The errors that the rule reports on `operation` against `schema`:
    /// those that a walk of the document leaves in the state of the rule.
    pub open spec fn spec_errors(schema: &schema::Document, operation: &Document) -> Seq<
        ErrorView,
    > {
        walk_document::<LoneAnonymousOperation>(
            Self::initial_state(),
            ContextView::initial(schema, operation),
            operation,
        ).errors
    }
}

impl ValidationRule for LoneAnonymousOperation {
    open spec fn spec_validate(
        &self,
        schema: &schema::Document,
        operation: &Document,
    ) -> Seq<ErrorView> {
        Self::spec_errors(schema, operation)
    }

    fn validate<'a>(&self, ctx: &ValidationContext<'a>) -> (res: Vec<ValidationError>) {
        let mut visitor = LoneAnonymousOperation::new();
        let mut context = OperationVisitorContext::new(ctx.operation, ctx.schema);
        visit_document(&mut visitor, ctx.operation, &mut context);
        visitor.errors
    }
}

/// The errors for the definitions from the `i`-th on, in a document of
/// `count` operations: one for each operation without a name, where `count`
/// is more than one.
pub open spec fn spec_lone_anonymous_errors_from(
    definitions: Seq<Definition>,
    count: nat,
    i: int,
) -> Seq<ErrorView>
    decreases definitions.len() - i,
{
    if 0 <= i < definitions.len() {
        (match definitions[i] {
            Definition::Operation(operation) => if operation.spec_node_name() is None && count > 1 {
                seq![spec_not_alone_error(&operation)]
            } else {
                Seq::empty()
            },
            _ => Seq::empty(),
        }) + spec_lone_anonymous_errors_from(definitions, count, i + 1)
    } else {
        Seq::empty()
    }
}

/// The walk of the definitions from the `i`-th on adds their errors to the
/// state and nothing else.
pub proof fn lemma_lone_anonymous_definitions<'a>(
    state: LoneAnonymousOperationState,
    ctx: ContextView<'a>,
    definitions: Seq<Definition>,
    i: int,
)
    requires
        0 <= i <= definitions.len(),
    ensures
        walk_definitions::<LoneAnonymousOperation>(state, ctx, definitions, i) == (
        LoneAnonymousOperationState {
            operations_count: state.operations_count,
            errors: state.errors + spec_lone_anonymous_errors_from(
                definitions,
                state.operations_count,
                i,
            ),
        }),
    decreases definitions.len() - i,
{
    let keeps = |a: LoneAnonymousOperationState, b: LoneAnonymousOperationState| a == b;
    assert(spec_hooks_keep_below::<LoneAnonymousOperation>(keeps));
    if i < definitions.len() {
        let definition = &definitions[i];
        let inner = ctx.with_type(spec_definition_type(ctx, definition));
        let here = match definitions[i] {
            Definition::Operation(operation) => if operation.spec_node_name() is None
                && state.operations_count > 1 {
                seq![spec_not_alone_error(&operation)]
            } else {
                Seq::empty()
            },
            _ => Seq::empty(),
        };
        match definition {
            Definition::Fragment(fragment) => {
                lemma_walk_fragment_body_keeps::<LoneAnonymousOperation>(
                    keeps,
                    state,
                    inner,
                    fragment,
                );
            },
            Definition::Operation(operation) => {
                let entered = LoneAnonymousOperation::on_enter(
                    state,
                    inner,
                    Node::OperationDefinition(operation),
                );
                lemma_walk_operation_body_keeps::<LoneAnonymousOperation>(
                    keeps,
                    entered,
                    inner,
                    operation,
                );
                lemma_walk_operation_body_keeps::<LoneAnonymousOperation>(
                    keeps,
                    state,
                    inner,
                    operation,
                );
            },
        }
        let next = walk_definition::<LoneAnonymousOperation>(state, ctx, definition);
        assert(next.operations_count == state.operations_count);
        assert(next.errors =~= state.errors + here);
        lemma_lone_anonymous_definitions(next, ctx, definitions, i + 1);
        let rest = spec_lone_anonymous_errors_from(definitions, state.operations_count, i + 1);
        assert((state.errors + here) + rest =~= state.errors + (here + rest));
    } else {
        assert(state.errors + Seq::<ErrorView>::empty() =~= state.errors);
    }
}

/// The rule reports each operation without a name in a document of more
/// than one operation, in document order, and nothing else.
pub proof fn lemma_rule_reports_anonymous_operations(
    schema: &schema::Document,
    operation: &Document,
)
    ensures
        LoneAnonymousOperation::spec_errors(schema, operation) == spec_lone_anonymous_errors_from(
            operation.definitions@,
            spec_count_operations(operation.definitions@, operation.definitions@.len() as int),
            0,
        ),
{
    let ctx = ContextView::initial(schema, operation);
    let entered = LoneAnonymousOperation::on_enter(
        LoneAnonymousOperation::initial_state(),
        ctx,
        Node::Document(operation),
    );
    lemma_lone_anonymous_definitions(entered, ctx, operation.definitions@, 0);
    assert(Seq::<ErrorView>::empty() + spec_lone_anonymous_errors_from(
        operation.definitions@,
        entered.operations_count,
        0,
    ) =~= spec_lone_anonymous_errors_from(operation.definitions@, entered.operations_count, 0));
}

} // verus!
