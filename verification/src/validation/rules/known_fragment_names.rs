//! Every fragment that is spread must be defined in the document.
use vstd::prelude::*;
use crate::ast::fragment_spreads::{spec_selection_spreads, spec_spreads, spec_spreads_from};
use crate::ast::operation_visitor::{
    spec_definition_type, spec_field_arguments, spec_field_definition, spec_field_type,
    visit_document, walk_definition, walk_definitions, walk_document, walk_selection,
    walk_selection_set, walk_selections, ContextView, Node, OperationVisitor,
    OperationVisitorContext,
};
use crate::ast::walk_laws::{
    lemma_walk_arguments_keeps, lemma_walk_directives_keeps,
    lemma_walk_variable_definitions_keeps, spec_hooks_keep_input,
};
use crate::static_graphql::query::{
    Directive, Document, Field, FragmentDefinition, FragmentSpread, InlineFragment,
    OperationDefinition, SelectionSet, Value, VariableDefinition,
};
use crate::static_graphql::schema;
use crate::validation::rules::rule::ValidationRule;
use crate::validation::utils::{
    error_views, lemma_error_views_empty, report_error, ErrorView, ValidationContext,
    ValidationError,
};
use crate::static_graphql::query::{Definition, Pos, Selection, Type, TypeCondition};
use crate::validation::utils::{message_around, single_location};

verus! {

/// The error for the spread, at `position`, of the fragment `name`, which the
/// document does not define.
pub open spec fn spec_unknown_fragment_error(name: Seq<char>, position: Pos) -> ErrorView {
    ErrorView {
        message: "Unknown fragment \""@ + name + "\"."@,
        locations: seq![position],
    }
}

/// The rule that every fragment that is spread is defined in the document.
pub struct KnownFragmentNamesRule {
    errors: Vec<ValidationError>,
}

impl KnownFragmentNamesRule {
    /// Makes the rule, ready to start a walk.
    pub fn new() -> (res: Self)
        ensures
            res.state() == Seq::<ErrorView>::empty(),
    {
        proof {
            lemma_error_views_empty();
        }
        KnownFragmentNamesRule { errors: Vec::new() }
    }
}

impl<'a> OperationVisitor<'a> for KnownFragmentNamesRule {
    /// The errors found so far.
    type State = Seq<ErrorView>;

    closed spec fn state(&self) -> Seq<ErrorView> {
        error_views(self.errors@)
    }

    /// A fragment spread is checked against the fragments of the document
    /// where it is entered.
    open spec fn on_enter(state: Seq<ErrorView>, ctx: ContextView<'a>, node: Node<'a>) -> Seq<
        ErrorView,
    > {
        match node {
            Node::FragmentSpread(spread) => if ctx.operation.spec_fragment_by_name(
                spread.fragment_name@,
            ) is None {
                state.push(spec_unknown_fragment_error(spread.fragment_name@, spread.position))
            } else {
                state
            },
            _ => state,
        }
    }

    open spec fn on_leave(state: Seq<ErrorView>, ctx: ContextView<'a>, node: Node<'a>) -> Seq<
        ErrorView,
    > {
        state
    }

    fn enter_document(&mut self, _ctx: &OperationVisitorContext<'a>, _document: &'a Document) {
    }

    fn leave_document(&mut self, _ctx: &OperationVisitorContext<'a>, _document: &'a Document) {
    }

    fn enter_operation_definition(
        &mut self,
        _ctx: &OperationVisitorContext<'a>,
        _operation: &'a OperationDefinition,
    ) {
    }

    fn leave_operation_definition(
        &mut self,
        _ctx: &OperationVisitorContext<'a>,
        _operation: &'a OperationDefinition,
    ) {
    }

    fn enter_fragment_definition(
        &mut self,
        _ctx: &OperationVisitorContext<'a>,
        _fragment: &'a FragmentDefinition,
    ) {
    }

    fn leave_fragment_definition(
        &mut self,
        _ctx: &OperationVisitorContext<'a>,
        _fragment: &'a FragmentDefinition,
    ) {
    }

    fn enter_variable_definition(
        &mut self,
        _ctx: &OperationVisitorContext<'a>,
        _variable: &'a VariableDefinition,
    ) {
    }

    fn leave_variable_definition(
        &mut self,
        _ctx: &OperationVisitorContext<'a>,
        _variable: &'a VariableDefinition,
    ) {
    }

    fn enter_directive(&mut self, _ctx: &OperationVisitorContext<'a>, _directive: &'a Directive) {
    }

    fn leave_directive(&mut self, _ctx: &OperationVisitorContext<'a>, _directive: &'a Directive) {
    }

    fn enter_argument(
        &mut self,
        _ctx: &OperationVisitorContext<'a>,
        _argument: &'a (String, Value),
    ) {
    }

    fn leave_argument(
        &mut self,
        _ctx: &OperationVisitorContext<'a>,
        _argument: &'a (String, Value),
    ) {
    }

    fn enter_selection_set(
        &mut self,
        _ctx: &OperationVisitorContext<'a>,
        _selection_set: &'a SelectionSet,
    ) {
    }

    fn leave_selection_set(
        &mut self,
        _ctx: &OperationVisitorContext<'a>,
        _selection_set: &'a SelectionSet,
    ) {
    }

    fn enter_field(&mut self, _ctx: &OperationVisitorContext<'a>, _field: &'a Field) {
    }

    fn leave_field(&mut self, _ctx: &OperationVisitorContext<'a>, _field: &'a Field) {
    }

    fn enter_fragment_spread(
        &mut self,
        ctx: &OperationVisitorContext<'a>,
        fragment_spread: &'a FragmentSpread,
    ) {
        if ctx.operation().fragment_by_name(&fragment_spread.fragment_name).is_none() {
            report_error(
                &mut self.errors,
                message_around("Unknown fragment \"", &fragment_spread.fragment_name, "\"."),
                single_location(fragment_spread.position),
            );
        }
    }

    fn leave_fragment_spread(
        &mut self,
        _ctx: &OperationVisitorContext<'a>,
        _fragment_spread: &'a FragmentSpread,
    ) {
    }

    fn enter_inline_fragment(
        &mut self,
        _ctx: &OperationVisitorContext<'a>,
        _inline_fragment: &'a InlineFragment,
    ) {
    }

    fn leave_inline_fragment(
        &mut self,
        _ctx: &OperationVisitorContext<'a>,
        _inline_fragment: &'a InlineFragment,
    ) {
    }

    fn enter_null_value(&mut self, _ctx: &OperationVisitorContext<'a>) {
    }

    fn leave_null_value(&mut self, _ctx: &OperationVisitorContext<'a>) {
    }

    fn enter_scalar_value(&mut self, _ctx: &OperationVisitorContext<'a>, _value: &'a Value) {
    }

    fn leave_scalar_value(&mut self, _ctx: &OperationVisitorContext<'a>, _value: &'a Value) {
    }

    fn enter_enum_value(&mut self, _ctx: &OperationVisitorContext<'a>, _value: &'a String) {
    }

    fn leave_enum_value(&mut self, _ctx: &OperationVisitorContext<'a>, _value: &'a String) {
    }

    fn enter_variable_value(&mut self, _ctx: &OperationVisitorContext<'a>, _name: &'a String) {
    }

    fn leave_variable_value(&mut self, _ctx: &OperationVisitorContext<'a>, _name: &'a String) {
    }

    fn enter_list_value(&mut self, _ctx: &OperationVisitorContext<'a>, _items: &'a Vec<Value>) {
    }

    fn leave_list_value(&mut self, _ctx: &OperationVisitorContext<'a>, _items: &'a Vec<Value>) {
    }

    fn enter_object_value(
        &mut self,
        _ctx: &OperationVisitorContext<'a>,
        _entries: &'a Vec<(String, Value)>,
    ) {
    }

    fn leave_object_value(
        &mut self,
        _ctx: &OperationVisitorContext<'a>,
        _entries: &'a Vec<(String, Value)>,
    ) {
    }

    fn enter_object_field(
        &mut self,
        _ctx: &OperationVisitorContext<'a>,
        _entry: &'a (String, Value),
    ) {
    }

    fn leave_object_field(
        &mut self,
        _ctx: &OperationVisitorContext<'a>,
        _entry: &'a (String, Value),
    ) {
    }
}

impl KnownFragmentNamesRule {
    /// The errors that the rule reports on `operation` against `schema`:
    /// those that a walk of the document leaves in the state of the rule.
    pub open spec fn spec_errors(schema: &schema::Document, operation: &Document) -> Seq<
        ErrorView,
    > {
        walk_document::<KnownFragmentNamesRule>(
            Seq::empty(),
            ContextView::initial(schema, operation),
            operation,
        )
    }
}

impl ValidationRule for KnownFragmentNamesRule {
    open spec fn spec_validate(
        &self,
        schema: &schema::Document,
        operation: &Document,
    ) -> Seq<ErrorView> {
        Self::spec_errors(schema, operation)
    }

    fn validate<'a>(&self, ctx: &ValidationContext<'a>) -> (res: Vec<ValidationError>) {
        let mut visitor = KnownFragmentNamesRule::new();
        let mut context = OperationVisitorContext::new(ctx.operation, ctx.schema);
        visit_document(&mut visitor, ctx.operation, &mut context);
        visitor.errors
    }
}

/// The errors for the first `n` of `spreads`: one for each whose name stands
/// for no fragment of the document.
pub open spec fn spec_unknown_spread_errors(
    document: &Document,
    spreads: Seq<&FragmentSpread>,
    n: int,
) -> Seq<ErrorView>
    decreases n,
{
    if n <= 0 || n > spreads.len() {
        Seq::empty()
    } else {
        let before = spec_unknown_spread_errors(document, spreads, n - 1);
        if document.spec_fragment_by_name(spreads[n - 1].fragment_name@) is None {
            before.push(
                spec_unknown_fragment_error(spreads[n - 1].fragment_name@, spreads[n - 1].position),
            )
        } else {
            before
        }
    }
}

/// The errors for all of `spreads`.
pub open spec fn spec_all_unknown_spread_errors(
    document: &Document,
    spreads: Seq<&FragmentSpread>,
) -> Seq<ErrorView> {
    spec_unknown_spread_errors(document, spreads, spreads.len() as int)
}

/// The fragment spreads of the definitions from the `i`-th on, in document
/// order.
pub open spec fn spec_document_spreads_from<'a>(definitions: Seq<Definition>, i: int) -> Seq<
    &'a FragmentSpread,
>
    decreases definitions.len() - i,
{
    if 0 <= i < definitions.len() {
        (match definitions[i] {
            Definition::Fragment(fragment) => spec_spreads(&fragment.selection_set),
            Definition::Operation(operation) => spec_spreads(operation.spec_selection_set()),
        }) + spec_document_spreads_from(definitions, i + 1)
    } else {
        Seq::empty()
    }
}

/// The errors for two lists of spreads, one after the other, are the errors
/// for the one and then the errors for the other.
pub proof fn lemma_unknown_spread_errors_add(
    document: &Document,
    a: Seq<&FragmentSpread>,
    b: Seq<&FragmentSpread>,
    n: int,
)
    requires
        0 <= n <= b.len(),
    ensures
        spec_unknown_spread_errors(document, a + b, a.len() + n) == spec_all_unknown_spread_errors(
            document,
            a,
        ) + spec_unknown_spread_errors(document, b, n),
    decreases n,
{
    let left = spec_all_unknown_spread_errors(document, a);
    if n == 0 {
        lemma_unknown_spread_errors_prefix(document, a, a + b, a.len() as int);
        assert(left + Seq::<ErrorView>::empty() =~= left);
    } else {
        lemma_unknown_spread_errors_add(document, a, b, n - 1);
        assert((a + b)[a.len() + n - 1] == b[n - 1]);
        let before = spec_unknown_spread_errors(document, b, n - 1);
        let error = spec_unknown_fragment_error(b[n - 1].fragment_name@, b[n - 1].position);
        assert((left + before).push(error) =~= left + before.push(error));
    }
}

/// The errors for the first `n` spreads do not depend on the spreads behind
/// them.
pub proof fn lemma_unknown_spread_errors_prefix(
    document: &Document,
    a: Seq<&FragmentSpread>,
    longer: Seq<&FragmentSpread>,
    n: int,
)
    requires
        0 <= n <= a.len() <= longer.len(),
        forall|i: int| 0 <= i < a.len() ==> a[i] == longer[i],
    ensures
        spec_unknown_spread_errors(document, a, n) == spec_unknown_spread_errors(
            document,
            longer,
            n,
        ),
    decreases n,
{
    if n > 0 {
        lemma_unknown_spread_errors_prefix(document, a, longer, n - 1);
    }
}

/// The walk of a selection set adds the errors for its spreads to the state
/// and nothing else.
pub proof fn lemma_unknown_in_selection_set<'a>(
    state: Seq<ErrorView>,
    ctx: ContextView<'a>,
    selection_set: &'a SelectionSet,
)
    ensures
        walk_selection_set::<KnownFragmentNamesRule>(state, ctx, selection_set) == state
            + spec_all_unknown_spread_errors(ctx.operation, spec_spreads(selection_set)),
    decreases selection_set, 1nat, 0nat,
{
    lemma_unknown_in_selections(state, ctx.with_parent_type(), selection_set, 0);
}

/// The walk of the selections from the `i`-th on adds the errors for their
/// spreads to the state and nothing else.
pub proof fn lemma_unknown_in_selections<'a>(
    state: Seq<ErrorView>,
    ctx: ContextView<'a>,
    selection_set: &'a SelectionSet,
    i: int,
)
    requires
        0 <= i <= selection_set.items.len(),
    ensures
        walk_selections::<KnownFragmentNamesRule>(state, ctx, selection_set, i) == state
            + spec_all_unknown_spread_errors(ctx.operation, spec_spreads_from(selection_set, i)),
    decreases selection_set, 0nat, selection_set.items.len() - i,
{
    if i < selection_set.items.len() {
        let here = spec_selection_spreads(&selection_set.items[i]);
        let rest = spec_spreads_from(selection_set, i + 1);
        lemma_unknown_in_selection(state, ctx, &selection_set.items[i]);
        let next = walk_selection::<KnownFragmentNamesRule>(state, ctx, &selection_set.items[i]);
        lemma_unknown_in_selections(next, ctx, selection_set, i + 1);
        lemma_unknown_spread_errors_add(ctx.operation, here, rest, rest.len() as int);
        let first = spec_all_unknown_spread_errors(ctx.operation, here);
        let second = spec_all_unknown_spread_errors(ctx.operation, rest);
        assert((state + first) + second =~= state + (first + second));
    } else {
        assert(state + Seq::<ErrorView>::empty() =~= state);
    }
}

/// The walk of a selection adds the errors for its spreads to the state and
/// nothing else.
pub proof fn lemma_unknown_in_selection<'a>(
    state: Seq<ErrorView>,
    ctx: ContextView<'a>,
    selection: &'a Selection,
)
    ensures
        walk_selection::<KnownFragmentNamesRule>(state, ctx, selection) == state
            + spec_all_unknown_spread_errors(ctx.operation, spec_selection_spreads(selection)),
    decreases selection, 0nat, 0nat,
{
    let keeps = |a: Seq<ErrorView>, b: Seq<ErrorView>| a == b;
    assert(spec_hooks_keep_input::<KnownFragmentNamesRule>(keeps));
    match selection {
        Selection::Field(field) => {
            let def = spec_field_definition(ctx, field.name@);
            let inner = ctx.with_type(spec_field_type(def));
            lemma_walk_arguments_keeps::<KnownFragmentNamesRule>(
                keeps,
                state,
                inner,
                spec_field_arguments(def),
                field.arguments@,
                0,
            );
            lemma_walk_directives_keeps::<KnownFragmentNamesRule>(
                keeps,
                state,
                inner,
                field.directives@,
                0,
            );
            lemma_unknown_in_selection_set(state, inner, &field.selection_set);
        },
        Selection::FragmentSpread(spread) => {
            let entered = KnownFragmentNamesRule::on_enter(
                state,
                ctx,
                Node::FragmentSpread(spread),
            );
            lemma_walk_directives_keeps::<KnownFragmentNamesRule>(
                keeps,
                entered,
                ctx,
                spread.directives@,
                0,
            );
            let spreads = seq![spread];
            assert(spec_unknown_spread_errors(ctx.operation, spreads, 0) == Seq::<
                ErrorView,
            >::empty());
            assert(entered =~= state + spec_all_unknown_spread_errors(ctx.operation, spreads));
        },
        Selection::InlineFragment(inline) => {
            let inner = match inline.type_condition {
                Some(TypeCondition::On(name)) => ctx.with_type(Some(Type::NamedType(name))),
                None => ctx,
            };
            lemma_walk_directives_keeps::<KnownFragmentNamesRule>(
                keeps,
                state,
                inner,
                inline.directives@,
                0,
            );
            lemma_unknown_in_selection_set(state, inner, &inline.selection_set);
        },
    }
}

/// The walk of the definitions from the `i`-th on adds the errors for their
/// spreads to the state and nothing else.
pub proof fn lemma_unknown_in_definitions<'a>(
    state: Seq<ErrorView>,
    ctx: ContextView<'a>,
    definitions: Seq<Definition>,
    i: int,
)
    requires
        0 <= i <= definitions.len(),
    ensures
        walk_definitions::<KnownFragmentNamesRule>(state, ctx, definitions, i) == state
            + spec_all_unknown_spread_errors(
            ctx.operation,
            spec_document_spreads_from(definitions, i),
        ),
    decreases definitions.len() - i,
{
    let keeps = |a: Seq<ErrorView>, b: Seq<ErrorView>| a == b;
    assert(spec_hooks_keep_input::<KnownFragmentNamesRule>(keeps));
    if i < definitions.len() {
        let definition = &definitions[i];
        let inner = ctx.with_type(spec_definition_type(ctx, definition));
        let here = match definitions[i] {
            Definition::Fragment(fragment) => spec_spreads(&fragment.selection_set),
            Definition::Operation(operation) => spec_spreads(operation.spec_selection_set()),
        };
        let rest = spec_document_spreads_from(definitions, i + 1);
        match definition {
            Definition::Fragment(fragment) => {
                lemma_walk_directives_keeps::<KnownFragmentNamesRule>(
                    keeps,
                    state,
                    inner,
                    fragment.directives@,
                    0,
                );
                lemma_unknown_in_selection_set(state, inner, &fragment.selection_set);
            },
            Definition::Operation(operation) => {
                lemma_walk_variable_definitions_keeps::<KnownFragmentNamesRule>(
                    keeps,
                    state,
                    inner,
                    operation.spec_variable_definitions(),
                    0,
                );
                lemma_walk_directives_keeps::<KnownFragmentNamesRule>(
                    keeps,
                    state,
                    inner,
                    operation.spec_directives(),
                    0,
                );
                lemma_unknown_in_selection_set(state, inner, operation.spec_selection_set());
            },
        }
        let first = spec_all_unknown_spread_errors(ctx.operation, here);
        let next = walk_definition::<KnownFragmentNamesRule>(state, ctx, definition);
        assert(next == state + first);
        lemma_unknown_in_definitions(next, ctx, definitions, i + 1);
        lemma_unknown_spread_errors_add(ctx.operation, here, rest, rest.len() as int);
        let second = spec_all_unknown_spread_errors(ctx.operation, rest);
        assert((state + first) + second =~= state + (first + second));
    } else {
        assert(state + Seq::<ErrorView>::empty() =~= state);
    }
}

/// The rule reports each fragment spread of the document whose name stands
/// for no fragment, in document order, and nothing else.
pub proof fn lemma_rule_reports_unknown_spreads(schema: &schema::Document, operation: &Document)
    ensures
        KnownFragmentNamesRule::spec_errors(schema, operation) == spec_all_unknown_spread_errors(
            operation,
            spec_document_spreads_from(operation.definitions@, 0),
        ),
{
    let ctx = ContextView::initial(schema, operation);
    lemma_unknown_in_definitions(Seq::empty(), ctx, operation.definitions@, 0);
    let all = spec_all_unknown_spread_errors(
        operation,
        spec_document_spreads_from(operation.definitions@, 0),
    );
    assert(Seq::<ErrorView>::empty() + all =~= all);
}

} // verus!
