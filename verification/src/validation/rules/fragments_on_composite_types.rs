//! A fragment can only condition on an object, interface or union type.
use vstd::prelude::*;
use crate::ast::operation_visitor::{
    spec_definition_type, spec_field_arguments, spec_field_definition, spec_field_type,
    visit_document, walk_definition, walk_definitions, walk_document, walk_selection,
    walk_selection_set, walk_selections, ContextView, Node, OperationVisitor,
    OperationVisitorContext,
};
use crate::ast::walk_laws::{
    lemma_walk_arguments_keeps, lemma_walk_directives_keeps,
    lemma_walk_variable_definitions_keeps, spec_hooks_keep_input,
};
use crate::static_graphql::query::{
    Directive, Document, Field, FragmentDefinition, FragmentSpread, InlineFragment,
    OperationDefinition, SelectionSet, Value, VariableDefinition,
};
use crate::static_graphql::schema;
use crate::validation::rules::rule::ValidationRule;
use crate::validation::utils::{
    error_views, lemma_error_views_empty, report_error, ErrorView, ValidationContext,
    ValidationError,
};
use crate::static_graphql::query::{Definition, Pos, Selection, Type, TypeCondition};
use crate::validation::utils::{message_around, message_around_two, single_location};

verus! {

/// The error for the fragment definition `fragment`, at `position`, whose
/// type condition names the type `target`, which is not composite.
pub open spec fn spec_fragment_on_non_composite_error(
    fragment: Seq<char>,
    target: Seq<char>,
    position: Pos,
) -> ErrorView {
    ErrorView {
        message: "Fragment \""@ + fragment + "\" cannot condition on non composite type \""@
            + target + "\"."@,
        locations: seq![position],
    }
}

/// The error for an inline fragment, at `position`, whose type condition
/// names the type `target`, which is not composite.
pub open spec fn spec_inline_fragment_on_non_composite_error(
    target: Seq<char>,
    position: Pos,
) -> ErrorView {
    ErrorView {
        message: "Fragment cannot condition on non composite type \""@ + target + "\"."@,
        locations: seq![position],
    }
}

/// The rule that a fragment conditions on a composite type.
pub struct FragmentsOnCompositeTypes {
    errors: Vec<ValidationError>,
}

impl FragmentsOnCompositeTypes {
    /// Makes the rule, ready to start a walk.
    pub fn new() -> (res: Self)
        ensures
            res.state() == Seq::<ErrorView>::empty(),
    {
        proof {
            lemma_error_views_empty();
        }
        FragmentsOnCompositeTypes { errors: Vec::new() }
    }
}

impl<'a> OperationVisitor<'a> for FragmentsOnCompositeTypes {
    /// The errors found so far.
    type State = Seq<ErrorView>;

    closed spec fn state(&self) -> Seq<ErrorView> {
        error_views(self.errors@)
    }

    /// The type condition of a fragment definition or of an inline fragment
    /// is checked where the node is entered. A condition on a name that
    /// names no type is not reported here.
    open spec fn on_enter(state: Seq<ErrorView>, ctx: ContextView<'a>, node: Node<'a>) -> Seq<
        ErrorView,
    > {
        match node {
            Node::FragmentDefinition(fragment) => match fragment.type_condition {
                TypeCondition::On(name) => if ctx.schema.spec_is_non_composite_type_name(name@) {
                    state.push(
                        spec_fragment_on_non_composite_error(
                            fragment.name@,
                            name@,
                            fragment.position,
                        ),
                    )
                } else {
                    state
                },
            },
            Node::InlineFragment(inline_fragment) => match inline_fragment.type_condition {
                Some(TypeCondition::On(name)) => if ctx.schema.spec_is_non_composite_type_name(
                    name@,
                ) {
                    state.push(
                        spec_inline_fragment_on_non_composite_error(
                            name@,
                            inline_fragment.position,
                        ),
                    )
                } else {
                    state
                },
                None => state,
            },
            _ => state,
        }
    }

    open spec fn on_leave(state: Seq<ErrorView>, ctx: ContextView<'a>, node: Node<'a>) -> Seq<
        ErrorView,
    > {
        state
    }

    fn enter_document(&mut self, _ctx: &OperationVisitorContext<'a>, _document: &'a Document) {
    }

    fn leave_document(&mut self, _ctx: &OperationVisitorContext<'a>, _document: &'a Document) {
    }

    fn enter_operation_definition(
        &mut self,
        _ctx: &OperationVisitorContext<'a>,
        _operation: &'a OperationDefinition,
    ) {
    }

    fn leave_operation_definition(
        &mut self,
        _ctx: &OperationVisitorContext<'a>,
        _operation: &'a OperationDefinition,
    ) {
    }

    fn enter_fragment_definition(
        &mut self,
        ctx: &OperationVisitorContext<'a>,
        fragment: &'a FragmentDefinition,
    ) {
        match &fragment.type_condition {
            TypeCondition::On(name) => {
                if ctx.schema().is_non_composite_type_name(name) {
                    report_error(
                        &mut self.errors,
                        message_around_two(
                            "Fragment \"",
                            &fragment.name,
                            "\" cannot condition on non composite type \"",
                            name,
                            "\".",
                        ),
                        single_location(fragment.position),
                    );
                }
            },
        }
    }

    fn leave_fragment_definition(
        &mut self,
        _ctx: &OperationVisitorContext<'a>,
        _fragment: &'a FragmentDefinition,
    ) {
    }

    fn enter_variable_definition(
        &mut self,
        _ctx: &OperationVisitorContext<'a>,
        _variable: &'a VariableDefinition,
    ) {
    }

    fn leave_variable_definition(
        &mut self,
        _ctx: &OperationVisitorContext<'a>,
        _variable: &'a VariableDefinition,
    ) {
    }

    fn enter_directive(&mut self, _ctx: &OperationVisitorContext<'a>, _directive: &'a Directive) {
    }

    fn leave_directive(&mut self, _ctx: &OperationVisitorContext<'a>, _directive: &'a Directive) {
    }

    fn enter_argument(
        &mut self,
        _ctx: &OperationVisitorContext<'a>,
        _argument: &'a (String, Value),
    ) {
    }

    fn leave_argument(
        &mut self,
        _ctx: &OperationVisitorContext<'a>,
        _argument: &'a (String, Value),
    ) {
    }

    fn enter_selection_set(
        &mut self,
        _ctx: &OperationVisitorContext<'a>,
        _selection_set: &'a SelectionSet,
    ) {
    }

    fn leave_selection_set(
        &mut self,
        _ctx: &OperationVisitorContext<'a>,
        _selection_set: &'a SelectionSet,
    ) {
    }

    fn enter_field(&mut self, _ctx: &OperationVisitorContext<'a>, _field: &'a Field) {
    }

    fn leave_field(&mut self, _ctx: &OperationVisitorContext<'a>, _field: &'a Field) {
    }

    fn enter_fragment_spread(
        &mut self,
        _ctx: &OperationVisitorContext<'a>,
        _fragment_spread: &'a FragmentSpread,
    ) {
    }

    fn leave_fragment_spread(
        &mut self,
        _ctx: &OperationVisitorContext<'a>,
        _fragment_spread: &'a FragmentSpread,
    ) {
    }

    fn enter_inline_fragment(
        &mut self,
        ctx: &OperationVisitorContext<'a>,
        inline_fragment: &'a InlineFragment,
    ) {
        match &inline_fragment.type_condition {
            Some(TypeCondition::On(name)) => {
                if ctx.schema().is_non_composite_type_name(name) {
                    report_error(
                        &mut self.errors,
                        message_around(
                            "Fragment cannot condition on non composite type \"",
                            name,
                            "\".",
                        ),
                        single_location(inline_fragment.position),
                    );
                }
            },
            None => {},
        }
    }

    fn leave_inline_fragment(
        &mut self,
        _ctx: &OperationVisitorContext<'a>,
        _inline_fragment: &'a InlineFragment,
    ) {
    }

    fn enter_null_value(&mut self, _ctx: &OperationVisitorContext<'a>) {
    }

    fn leave_null_value(&mut self, _ctx: &OperationVisitorContext<'a>) {
    }

    fn enter_scalar_value(&mut self, _ctx: &OperationVisitorContext<'a>, _value: &'a Value) {
    }

    fn leave_scalar_value(&mut self, _ctx: &OperationVisitorContext<'a>, _value: &'a Value) {
    }

    fn enter_enum_value(&mut self, _ctx: &OperationVisitorContext<'a>, _value: &'a String) {
    }

    fn leave_enum_value(&mut self, _ctx: &OperationVisitorContext<'a>, _value: &'a String) {
    }

    fn enter_variable_value(&mut self, _ctx: &OperationVisitorContext<'a>, _name: &'a String) {
    }

    fn leave_variable_value(&mut self, _ctx: &OperationVisitorContext<'a>, _name: &'a String) {
    }

    fn enter_list_value(&mut self, _ctx: &OperationVisitorContext<'a>, _items: &'a Vec<Value>) {
    }

    fn leave_list_value(&mut self, _ctx: &OperationVisitorContext<'a>, _items: &'a Vec<Value>) {
    }

    fn enter_object_value(
        &mut self,
        _ctx: &OperationVisitorContext<'a>,
        _entries: &'a Vec<(String, Value)>,
    ) {
    }

    fn leave_object_value(
        &mut self,
        _ctx: &OperationVisitorContext<'a>,
        _entries: &'a Vec<(String, Value)>,
    ) {
    }

    fn enter_object_field(
        &mut self,
        _ctx: &OperationVisitorContext<'a>,
        _entry: &'a (String, Value),
    ) {
    }

    fn leave_object_field(
        &mut self,
        _ctx: &OperationVisitorContext<'a>,
        _entry: &'a (String, Value),
    ) {
    }
}

impl FragmentsOnCompositeTypes {
    /// The errors that the rule reports on `operation` against `schema`:
    /// those that a walk of the document leaves in the state of the rule.
    pub open spec fn spec_errors(schema: &schema::Document, operation: &Document) -> Seq<
        ErrorView,
    > {
        walk_document::<FragmentsOnCompositeTypes>(
            Seq::empty(),
            ContextView::initial(schema, operation),
            operation,
        )
    }
}

impl ValidationRule for FragmentsOnCompositeTypes {
    open spec fn spec_validate(
        &self,
        schema: &schema::Document,
        operation: &Document,
    ) -> Seq<ErrorView> {
        Self::spec_errors(schema, operation)
    }

    fn validate<'a>(&self, ctx: &ValidationContext<'a>) -> (res: Vec<ValidationError>) {
        let mut visitor = FragmentsOnCompositeTypes::new();
        let mut context = OperationVisitorContext::new(ctx.operation, ctx.schema);
        visit_document(&mut visitor, ctx.operation, &mut context);
        visitor.errors
    }
}

/// The errors for the type condition of a fragment definition.
pub open spec fn spec_fragment_condition_errors(
    schema: &schema::Document,
    fragment: &FragmentDefinition,
) -> Seq<ErrorView> {
    match fragment.type_condition {
        TypeCondition::On(name) => if schema.spec_is_non_composite_type_name(name@) {
            seq![spec_fragment_on_non_composite_error(fragment.name@, name@, fragment.position)]
        } else {
            Seq::empty()
        },
    }
}

/// The errors for the type condition of an inline fragment.
pub open spec fn spec_inline_condition_errors(
    schema: &schema::Document,
    inline: &InlineFragment,
) -> Seq<ErrorView> {
    match inline.type_condition {
        Some(TypeCondition::On(name)) => if schema.spec_is_non_composite_type_name(name@) {
            seq![spec_inline_fragment_on_non_composite_error(name@, inline.position)]
        } else {
            Seq::empty()
        },
        None => Seq::empty(),
    }
}

/// The errors for the inline fragments in and under a selection set, in
/// document order.
pub open spec fn spec_condition_errors_in_set(
    schema: &schema::Document,
    selection_set: &SelectionSet,
) -> Seq<ErrorView>
    decreases selection_set, 1nat, 0nat,
{
    spec_condition_errors_in_selections(schema, selection_set, 0)
}

/// The errors for the inline fragments in and under the selections from the
/// `i`-th on.
pub open spec fn spec_condition_errors_in_selections(
    schema: &schema::Document,
    selection_set: &SelectionSet,
    i: int,
) -> Seq<ErrorView>
    decreases selection_set, 0nat, selection_set.items.len() - i,
{
    if 0 <= i < selection_set.items.len() {
        spec_condition_errors_in_selection(schema, &selection_set.items[i])
            + spec_condition_errors_in_selections(schema, selection_set, i + 1)
    } else {
        Seq::empty()
    }
}

/// The errors for the inline fragments in and under one selection: an inline
/// fragment comes before those under it.
pub open spec fn spec_condition_errors_in_selection(
    schema: &schema::Document,
    selection: &Selection,
) -> Seq<ErrorView>
    decreases selection, 0nat, 0nat,
{
    match selection {
        Selection::Field(field) => spec_condition_errors_in_set(schema, &field.selection_set),
        Selection::FragmentSpread(_) => Seq::empty(),
        Selection::InlineFragment(inline) => spec_inline_condition_errors(schema, inline)
            + spec_condition_errors_in_set(schema, &inline.selection_set),
    }
}

/// The errors for the definitions from the `i`-th on: for a fragment
/// definition those of its type condition and then those of its inline
/// fragments, for an operation those of its inline fragments.
pub open spec fn spec_condition_errors_in_definitions(
    schema: &schema::Document,
    definitions: Seq<Definition>,
    i: int,
) -> Seq<ErrorView>
    decreases definitions.len() - i,
{
    if 0 <= i < definitions.len() {
        (match definitions[i] {
            Definition::Fragment(fragment) => spec_fragment_condition_errors(schema, &fragment)
                + spec_condition_errors_in_set(schema, &fragment.selection_set),
            Definition::Operation(operation) => spec_condition_errors_in_set(
                schema,
                operation.spec_selection_set(),
            ),
        }) + spec_condition_errors_in_definitions(schema, definitions, i + 1)
    } else {
        Seq::empty()
    }
}

/// The walk of a selection set adds the errors for its inline fragments to
/// the state and nothing else.
pub proof fn lemma_condition_errors_in_set<'a>(
    state: Seq<ErrorView>,
    ctx: ContextView<'a>,
    selection_set: &'a SelectionSet,
)
    ensures
        walk_selection_set::<FragmentsOnCompositeTypes>(state, ctx, selection_set) == state
            + spec_condition_errors_in_set(ctx.schema, selection_set),
    decreases selection_set, 1nat, 0nat,
{
    lemma_condition_errors_in_selections(state, ctx.with_parent_type(), selection_set, 0);
}

/// The walk of the selections from the `i`-th on adds the errors for their
/// inline fragments to the state and nothing else.
pub proof fn lemma_condition_errors_in_selections<'a>(
    state: Seq<ErrorView>,
    ctx: ContextView<'a>,
    selection_set: &'a SelectionSet,
    i: int,
)
    requires
        0 <= i <= selection_set.items.len(),
    ensures
        walk_selections::<FragmentsOnCompositeTypes>(state, ctx, selection_set, i) == state
            + spec_condition_errors_in_selections(ctx.schema, selection_set, i),
    decreases selection_set, 0nat, selection_set.items.len() - i,
{
    if i < selection_set.items.len() {
        lemma_condition_errors_in_selection(state, ctx, &selection_set.items[i]);
        let next = walk_selection::<FragmentsOnCompositeTypes>(state, ctx, &selection_set.items[i]);
        lemma_condition_errors_in_selections(next, ctx, selection_set, i + 1);
        let first = spec_condition_errors_in_selection(ctx.schema, &selection_set.items[i]);
        let second = spec_condition_errors_in_selections(ctx.schema, selection_set, i + 1);
        assert((state + first) + second =~= state + (first + second));
    } else {
        assert(state + Seq::<ErrorView>::empty() =~= state);
    }
}

/// The walk of a selection adds the errors for its inline fragments to the
/// state and nothing else.
pub proof fn lemma_condition_errors_in_selection<'a>(
    state: Seq<ErrorView>,
    ctx: ContextView<'a>,
    selection: &'a Selection,
)
    ensures
        walk_selection::<FragmentsOnCompositeTypes>(state, ctx, selection) == state
            + spec_condition_errors_in_selection(ctx.schema, selection),
    decreases selection, 0nat, 0nat,
{
    let keeps = |a: Seq<ErrorView>, b: Seq<ErrorView>| a == b;
    assert(spec_hooks_keep_input::<FragmentsOnCompositeTypes>(keeps));
    match selection {
        Selection::Field(field) => {
            let def = spec_field_definition(ctx, field.name@);
            let inner = ctx.with_type(spec_field_type(def));
            lemma_walk_arguments_keeps::<FragmentsOnCompositeTypes>(
                keeps,
                state,
                inner,
                spec_field_arguments(def),
                field.arguments@,
                0,
            );
            lemma_walk_directives_keeps::<FragmentsOnCompositeTypes>(
                keeps,
                state,
                inner,
                field.directives@,
                0,
            );
            lemma_condition_errors_in_set(state, inner, &field.selection_set);
        },
        Selection::FragmentSpread(spread) => {
            lemma_walk_directives_keeps::<FragmentsOnCompositeTypes>(
                keeps,
                state,
                ctx,
                spread.directives@,
                0,
            );
            assert(state + Seq::<ErrorView>::empty() =~= state);
        },
        Selection::InlineFragment(inline) => {
            let inner = match inline.type_condition {
                Some(TypeCondition::On(name)) => ctx.with_type(Some(Type::NamedType(name))),
                None => ctx,
            };
            let entered = FragmentsOnCompositeTypes::on_enter(
                state,
                inner,
                Node::InlineFragment(inline),
            );
            let here = spec_inline_condition_errors(ctx.schema, inline);
            assert(entered =~= state + here);
            lemma_walk_directives_keeps::<FragmentsOnCompositeTypes>(
                keeps,
                entered,
                inner,
                inline.directives@,
                0,
            );
            lemma_condition_errors_in_set(entered, inner, &inline.selection_set);
            let below = spec_condition_errors_in_set(ctx.schema, &inline.selection_set);
            assert((state + here) + below =~= state + (here + below));
        },
    }
}

/// The walk of the definitions from the `i`-th on adds their errors to the
/// state and nothing else.
pub proof fn lemma_condition_errors_in_definitions<'a>(
    state: Seq<ErrorView>,
    ctx: ContextView<'a>,
    definitions: Seq<Definition>,
    i: int,
)
    requires
        0 <= i <= definitions.len(),
    ensures
        walk_definitions::<FragmentsOnCompositeTypes>(state, ctx, definitions, i) == state
            + spec_condition_errors_in_definitions(ctx.schema, definitions, i),
    decreases definitions.len() - i,
{
    let keeps = |a: Seq<ErrorView>, b: Seq<ErrorView>| a == b;
    assert(spec_hooks_keep_input::<FragmentsOnCompositeTypes>(keeps));
    if i < definitions.len() {
        let definition = &definitions[i];
        let inner = ctx.with_type(spec_definition_type(ctx, definition));
        match definition {
            Definition::Fragment(fragment) => {
                let entered = FragmentsOnCompositeTypes::on_enter(
                    state,
                    inner,
                    Node::FragmentDefinition(fragment),
                );
                let here = spec_fragment_condition_errors(ctx.schema, fragment);
                assert(entered =~= state + here);
                lemma_walk_directives_keeps::<FragmentsOnCompositeTypes>(
                    keeps,
                    entered,
                    inner,
                    fragment.directives@,
                    0,
                );
                lemma_condition_errors_in_set(entered, inner, &fragment.selection_set);
                let below = spec_condition_errors_in_set(ctx.schema, &fragment.selection_set);
                assert((state + here) + below =~= state + (here + below));
            },
            Definition::Operation(operation) => {
                lemma_walk_variable_definitions_keeps::<FragmentsOnCompositeTypes>(
                    keeps,
                    state,
                    inner,
                    operation.spec_variable_definitions(),
                    0,
                );
                lemma_walk_directives_keeps::<FragmentsOnCompositeTypes>(
                    keeps,
                    state,
                    inner,
                    operation.spec_directives(),
                    0,
                );
                lemma_condition_errors_in_set(state, inner, operation.spec_selection_set());
            },
        }
        let next = walk_definition::<FragmentsOnCompositeTypes>(state, ctx, definition);
        lemma_condition_errors_in_definitions(next, ctx, definitions, i + 1);
        let first = next.subrange(state.len() as int, next.len() as int);
        let second = spec_condition_errors_in_definitions(ctx.schema, definitions, i + 1);
        assert(next =~= state + first);
        assert((state + first) + second =~= state + (first + second));
        assert(first + second =~= spec_condition_errors_in_definitions(
            ctx.schema,
            definitions,
            i,
        ));
    } else {
        assert(state + Seq::<ErrorView>::empty() =~= state);
    }
}

/// The rule reports each fragment definition and each inline fragment of the
/// document whose type condition names a type that is not composite, in
/// document order, and nothing else.
pub proof fn lemma_rule_reports_conditions(schema: &schema::Document, operation: &Document)
    ensures
        FragmentsOnCompositeTypes::spec_errors(schema, operation)
            == spec_condition_errors_in_definitions(schema, operation.definitions@, 0),
{
    let ctx = ContextView::initial(schema, operation);
    lemma_condition_errors_in_definitions(Seq::empty(), ctx, operation.definitions@, 0);
    let all = spec_condition_errors_in_definitions(schema, operation.definitions@, 0);
    assert(Seq::<ErrorView>::empty() + all =~= all);
}

} // verus!
