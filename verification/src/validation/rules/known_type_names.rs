//! Every type that a document names must be a type of the schema.
use vstd::prelude::*;
use crate::ast::operation_visitor::{
    spec_definition_type, spec_field_arguments, spec_field_definition, spec_field_type,
    visit_document, walk_definition, walk_definitions, walk_document, walk_selection,
    walk_selection_set, walk_selections, walk_variable_definitions, ContextView, Node, OperationVisitor,
    OperationVisitorContext,
};
use crate::ast::walk_laws::{
    lemma_walk_arguments_keeps, lemma_walk_directives_keeps, lemma_walk_input_value_keeps,
    spec_hooks_keep_values,
};
use crate::static_graphql::query::{
    Directive, Document, Field, FragmentDefinition, FragmentSpread, InlineFragment,
    OperationDefinition, SelectionSet, Value, VariableDefinition,
};
use crate::static_graphql::schema;
use crate::validation::rules::rule::ValidationRule;
use crate::validation::utils::{
    error_views, lemma_error_views_empty, report_error, ErrorView, ValidationContext,
    ValidationError,
};
use crate::static_graphql::query::{Definition, Pos, Selection, Type, TypeCondition};
use crate::validation::utils::{message_around, single_location};

verus! {

/// The error for the name `name`, at `position`, that names no type.
pub open spec fn spec_unknown_type_error(name: Seq<char>, position: Pos) -> ErrorView {
    ErrorView {
        message: "Unknown type \""@ + name + "\"."@,
        locations: seq![position],
    }
}

/// The errors after the check of the type name `name` at `position`: one more
/// where the schema has no type of that name.
pub open spec fn spec_check_type_name(
    state: Seq<ErrorView>,
    schema: &schema::Document,
    name: Seq<char>,
    position: Pos,
) -> Seq<ErrorView> {
    if schema.spec_is_known_type(name) {
        state
    } else {
        state.push(spec_unknown_type_error(name, position))
    }
}

/// The rule that every type named in a document is a type of the schema.
pub struct KnownTypeNames {
    errors: Vec<ValidationError>,
}

impl KnownTypeNames {
    /// Makes the rule, ready to start a walk.
    pub fn new() -> (res: Self)
        ensures
            res.state() == Seq::<ErrorView>::empty(),
    {
        proof {
            lemma_error_views_empty();
        }
        KnownTypeNames { errors: Vec::new() }
    }

    /// Reports `name` where the schema has no type of that name.
    fn check_type_name(&mut self, schema: &schema::Document, name: &String, position: Pos)
        ensures
            final(self).state() == spec_check_type_name(old(self).state(), schema, name@, position),
    {
        if !schema.is_known_type(name) {
            report_error(
                &mut self.errors,
                message_around("Unknown type \"", name, "\"."),
                single_location(position),
            );
        }
    }
}

impl<'a> OperationVisitor<'a> for KnownTypeNames {
    /// The errors found so far.
    type State = Seq<ErrorView>;

    closed spec fn state(&self) -> Seq<ErrorView> {
        error_views(self.errors@)
    }

    /// The type condition of a fragment definition or of an inline fragment
    /// and the declared type of a variable are checked where the node is
    /// entered.
    open spec fn on_enter(state: Seq<ErrorView>, ctx: ContextView<'a>, node: Node<'a>) -> Seq<
        ErrorView,
    > {
        match node {
            Node::FragmentDefinition(fragment) => match fragment.type_condition {
                TypeCondition::On(name) => spec_check_type_name(
                    state,
                    ctx.schema,
                    name@,
                    fragment.position,
                ),
            },
            Node::InlineFragment(inline_fragment) => match inline_fragment.type_condition {
                Some(TypeCondition::On(name)) => spec_check_type_name(
                    state,
                    ctx.schema,
                    name@,
                    inline_fragment.position,
                ),
                None => state,
            },
            Node::VariableDefinition(variable) => spec_check_type_name(
                state,
                ctx.schema,
                variable.var_type.spec_inner_type()@,
                variable.position,
            ),
            _ => state,
        }
    }

    open spec fn on_leave(state: Seq<ErrorView>, ctx: ContextView<'a>, node: Node<'a>) -> Seq<
        ErrorView,
    > {
        state
    }

    fn enter_document(&mut self, _ctx: &OperationVisitorContext<'a>, _document: &'a Document) {
    }

    fn leave_document(&mut self, _ctx: &OperationVisitorContext<'a>, _document: &'a Document) {
    }

    fn enter_operation_definition(
        &mut self,
        _ctx: &OperationVisitorContext<'a>,
        _operation: &'a OperationDefinition,
    ) {
    }

    fn leave_operation_definition(
        &mut self,
        _ctx: &OperationVisitorContext<'a>,
        _operation: &'a OperationDefinition,
    ) {
    }

    fn enter_fragment_definition(
        &mut self,
        ctx: &OperationVisitorContext<'a>,
        fragment: &'a FragmentDefinition,
    ) {
        match &fragment.type_condition {
            TypeCondition::On(name) => self.check_type_name(ctx.schema(), name, fragment.position),
        }
    }

    fn leave_fragment_definition(
        &mut self,
        _ctx: &OperationVisitorContext<'a>,
        _fragment: &'a FragmentDefinition,
    ) {
    }

    fn enter_variable_definition(
        &mut self,
        ctx: &OperationVisitorContext<'a>,
        variable: &'a VariableDefinition,
    ) {
        self.check_type_name(ctx.schema(), variable.var_type.inner_type(), variable.position);
    }

    fn leave_variable_definition(
        &mut self,
        _ctx: &OperationVisitorContext<'a>,
        _variable: &'a VariableDefinition,
    ) {
    }

    fn enter_directive(&mut self, _ctx: &OperationVisitorContext<'a>, _directive: &'a Directive) {
    }

    fn leave_directive(&mut self, _ctx: &OperationVisitorContext<'a>, _directive: &'a Directive) {
    }

    fn enter_argument(
        &mut self,
        _ctx: &OperationVisitorContext<'a>,
        _argument: &'a (String, Value),
    ) {
    }

    fn leave_argument(
        &mut self,
        _ctx: &OperationVisitorContext<'a>,
        _argument: &'a (String, Value),
    ) {
    }

    fn enter_selection_set(
        &mut self,
        _ctx: &OperationVisitorContext<'a>,
        _selection_set: &'a SelectionSet,
    ) {
    }

    fn leave_selection_set(
        &mut self,
        _ctx: &OperationVisitorContext<'a>,
        _selection_set: &'a SelectionSet,
    ) {
    }

    fn enter_field(&mut self, _ctx: &OperationVisitorContext<'a>, _field: &'a Field) {
    }

    fn leave_field(&mut self, _ctx: &OperationVisitorContext<'a>, _field: &'a Field) {
    }

    fn enter_fragment_spread(
        &mut self,
        _ctx: &OperationVisitorContext<'a>,
        _fragment_spread: &'a FragmentSpread,
    ) {
    }

    fn leave_fragment_spread(
        &mut self,
        _ctx: &OperationVisitorContext<'a>,
        _fragment_spread: &'a FragmentSpread,
    ) {
    }

    fn enter_inline_fragment(
        &mut self,
        ctx: &OperationVisitorContext<'a>,
        inline_fragment: &'a InlineFragment,
    ) {
        match &inline_fragment.type_condition {
            Some(TypeCondition::On(name)) => self.check_type_name(
                ctx.schema(),
                name,
                inline_fragment.position,
            ),
            None => {},
        }
    }

    fn leave_inline_fragment(
        &mut self,
        _ctx: &OperationVisitorContext<'a>,
        _inline_fragment: &'a InlineFragment,
    ) {
    }

    fn enter_null_value(&mut self, _ctx: &OperationVisitorContext<'a>) {
    }

    fn leave_null_value(&mut self, _ctx: &OperationVisitorContext<'a>) {
    }

    fn enter_scalar_value(&mut self, _ctx: &OperationVisitorContext<'a>, _value: &'a Value) {
    }

    fn leave_scalar_value(&mut self, _ctx: &OperationVisitorContext<'a>, _value: &'a Value) {
    }

    fn enter_enum_value(&mut self, _ctx: &OperationVisitorContext<'a>, _value: &'a String) {
    }

    fn leave_enum_value(&mut self, _ctx: &OperationVisitorContext<'a>, _value: &'a String) {
    }

    fn enter_variable_value(&mut self, _ctx: &OperationVisitorContext<'a>, _name: &'a String) {
    }

    fn leave_variable_value(&mut self, _ctx: &OperationVisitorContext<'a>, _name: &'a String) {
    }

    fn enter_list_value(&mut self, _ctx: &OperationVisitorContext<'a>, _items: &'a Vec<Value>) {
    }

    fn leave_list_value(&mut self, _ctx: &OperationVisitorContext<'a>, _items: &'a Vec<Value>) {
    }

    fn enter_object_value(
        &mut self,
        _ctx: &OperationVisitorContext<'a>,
        _entries: &'a Vec<(String, Value)>,
    ) {
    }

    fn leave_object_value(
        &mut self,
        _ctx: &OperationVisitorContext<'a>,
        _entries: &'a Vec<(String, Value)>,
    ) {
    }

    fn enter_object_field(
        &mut self,
        _ctx: &OperationVisitorContext<'a>,
        _entry: &'a (String, Value),
    ) {
    }

    fn leave_object_field(
        &mut self,
        _ctx: &OperationVisitorContext<'a>,
        _entry: &'a (String, Value),
    ) {
    }
}

impl KnownTypeNames {
    /// The errors that the rule reports on `operation` against `schema`:
    /// those that a walk of the document leaves in the state of the rule.
    pub open spec fn spec_errors(schema: &schema::Document, operation: &Document) -> Seq<
        ErrorView,
    > {
        walk_document::<KnownTypeNames>(
            Seq::empty(),
            ContextView::initial(schema, operation),
            operation,
        )
    }
}

impl ValidationRule for KnownTypeNames {
    open spec fn spec_validate(
        &self,
        schema: &schema::Document,
        operation: &Document,
    ) -> Seq<ErrorView> {
        Self::spec_errors(schema, operation)
    }

    fn validate<'a>(&self, ctx: &ValidationContext<'a>) -> (res: Vec<ValidationError>) {
        let mut visitor = KnownTypeNames::new();
        let mut context = OperationVisitorContext::new(ctx.operation, ctx.schema);
        visit_document(&mut visitor, ctx.operation, &mut context);
        visitor.errors
    }
}

/// The errors for the type name `name` at `position`: one where the schema
/// has no type of that name.
pub open spec fn spec_type_name_errors(
    schema: &schema::Document,
    name: Seq<char>,
    position: Pos,
) -> Seq<ErrorView> {
    spec_check_type_name(Seq::empty(), schema, name, position)
}

/// The check of a type name adds its errors behind those found before.
pub proof fn lemma_check_type_name_adds(
    state: Seq<ErrorView>,
    schema: &schema::Document,
    name: Seq<char>,
    position: Pos,
)
    ensures
        spec_check_type_name(state, schema, name, position) == state + spec_type_name_errors(
            schema,
            name,
            position,
        ),
{
    assert(spec_check_type_name(state, schema, name, position) =~= state + spec_type_name_errors(
        schema,
        name,
        position,
    ));
}

/// The errors for the type condition of an inline fragment.
pub open spec fn spec_inline_type_errors(
    schema: &schema::Document,
    inline: &InlineFragment,
) -> Seq<ErrorView> {
    match inline.type_condition {
        Some(TypeCondition::On(name)) => spec_type_name_errors(schema, name@, inline.position),
        None => Seq::empty(),
    }
}

/// The errors for the inline fragments in and under a selection set, in
/// document order.
pub open spec fn spec_type_errors_in_set(
    schema: &schema::Document,
    selection_set: &SelectionSet,
) -> Seq<ErrorView>
    decreases selection_set, 1nat, 0nat,
{
    spec_type_errors_in_selections(schema, selection_set, 0)
}

/// The errors for the inline fragments in and under the selections from the
/// `i`-th on.
pub open spec fn spec_type_errors_in_selections(
    schema: &schema::Document,
    selection_set: &SelectionSet,
    i: int,
) -> Seq<ErrorView>
    decreases selection_set, 0nat, selection_set.items.len() - i,
{
    if 0 <= i < selection_set.items.len() {
        spec_type_errors_in_selection(schema, &selection_set.items[i])
            + spec_type_errors_in_selections(schema, selection_set, i + 1)
    } else {
        Seq::empty()
    }
}

/// The errors for the inline fragments in and under one selection: an inline
/// fragment comes before those under it.
pub open spec fn spec_type_errors_in_selection(
    schema: &schema::Document,
    selection: &Selection,
) -> Seq<ErrorView>
    decreases selection, 0nat, 0nat,
{
    match selection {
        Selection::Field(field) => spec_type_errors_in_set(schema, &field.selection_set),
        Selection::FragmentSpread(_) => Seq::empty(),
        Selection::InlineFragment(inline) => spec_inline_type_errors(schema, inline)
            + spec_type_errors_in_set(schema, &inline.selection_set),
    }
}

/// The errors for the declared types of the variable definitions from the
/// `i`-th on.
pub open spec fn spec_variable_type_errors(
    schema: &schema::Document,
    variables: Seq<VariableDefinition>,
    i: int,
) -> Seq<ErrorView>
    decreases variables.len() - i,
{
    if 0 <= i < variables.len() {
        spec_type_name_errors(
            schema,
            variables[i].var_type.spec_inner_type()@,
            variables[i].position,
        ) + spec_variable_type_errors(schema, variables, i + 1)
    } else {
        Seq::empty()
    }
}

/// The errors for the definitions from the `i`-th on: for a fragment
/// definition those of its type condition and then those of its inline
/// fragments, for an operation those of its variables and then those of its
/// inline fragments.
pub open spec fn spec_type_errors_in_definitions(
    schema: &schema::Document,
    definitions: Seq<Definition>,
    i: int,
) -> Seq<ErrorView>
    decreases definitions.len() - i,
{
    if 0 <= i < definitions.len() {
        (match definitions[i] {
            Definition::Fragment(fragment) => (match fragment.type_condition {
                TypeCondition::On(name) => spec_type_name_errors(schema, name@, fragment.position),
            }) + spec_type_errors_in_set(schema, &fragment.selection_set),
            Definition::Operation(operation) => spec_variable_type_errors(
                schema,
                operation.spec_variable_definitions(),
                0,
            ) + spec_type_errors_in_set(schema, operation.spec_selection_set()),
        }) + spec_type_errors_in_definitions(schema, definitions, i + 1)
    } else {
        Seq::empty()
    }
}

/// The walk of a selection set adds the errors for its inline fragments to
/// the state and nothing else.
pub proof fn lemma_type_errors_in_set<'a>(
    state: Seq<ErrorView>,
    ctx: ContextView<'a>,
    selection_set: &'a SelectionSet,
)
    ensures
        walk_selection_set::<KnownTypeNames>(state, ctx, selection_set) == state
            + spec_type_errors_in_set(ctx.schema, selection_set),
    decreases selection_set, 1nat, 0nat,
{
    lemma_type_errors_in_selections(state, ctx.with_parent_type(), selection_set, 0);
}

/// The walk of the selections from the `i`-th on adds the errors for their
/// inline fragments to the state and nothing else.
pub proof fn lemma_type_errors_in_selections<'a>(
    state: Seq<ErrorView>,
    ctx: ContextView<'a>,
    selection_set: &'a SelectionSet,
    i: int,
)
    requires
        0 <= i <= selection_set.items.len(),
    ensures
        walk_selections::<KnownTypeNames>(state, ctx, selection_set, i) == state
            + spec_type_errors_in_selections(ctx.schema, selection_set, i),
    decreases selection_set, 0nat, selection_set.items.len() - i,
{
    if i < selection_set.items.len() {
        lemma_type_errors_in_selection(state, ctx, &selection_set.items[i]);
        let next = walk_selection::<KnownTypeNames>(state, ctx, &selection_set.items[i]);
        lemma_type_errors_in_selections(next, ctx, selection_set, i + 1);
        let first = spec_type_errors_in_selection(ctx.schema, &selection_set.items[i]);
        let second = spec_type_errors_in_selections(ctx.schema, selection_set, i + 1);
        assert((state + first) + second =~= state + (first + second));
    } else {
        assert(state + Seq::<ErrorView>::empty() =~= state);
    }
}

/// The walk of a selection adds the errors for its inline fragments to the
/// state and nothing else.
pub proof fn lemma_type_errors_in_selection<'a>(
    state: Seq<ErrorView>,
    ctx: ContextView<'a>,
    selection: &'a Selection,
)
    ensures
        walk_selection::<KnownTypeNames>(state, ctx, selection) == state
            + spec_type_errors_in_selection(ctx.schema, selection),
    decreases selection, 0nat, 0nat,
{
    let keeps = |a: Seq<ErrorView>, b: Seq<ErrorView>| a == b;
    assert(spec_hooks_keep_values::<KnownTypeNames>(keeps));
    match selection {
        Selection::Field(field) => {
            let def = spec_field_definition(ctx, field.name@);
            let inner = ctx.with_type(spec_field_type(def));
            lemma_walk_arguments_keeps::<KnownTypeNames>(
                keeps,
                state,
                inner,
                spec_field_arguments(def),
                field.arguments@,
                0,
            );
            lemma_walk_directives_keeps::<KnownTypeNames>(
                keeps,
                state,
                inner,
                field.directives@,
                0,
            );
            lemma_type_errors_in_set(state, inner, &field.selection_set);
        },
        Selection::FragmentSpread(spread) => {
            lemma_walk_directives_keeps::<KnownTypeNames>(
                keeps,
                state,
                ctx,
                spread.directives@,
                0,
            );
            assert(state + Seq::<ErrorView>::empty() =~= state);
        },
        Selection::InlineFragment(inline) => {
            let inner = match inline.type_condition {
                Some(TypeCondition::On(name)) => ctx.with_type(Some(Type::NamedType(name))),
                None => ctx,
            };
            let entered = KnownTypeNames::on_enter(state, inner, Node::InlineFragment(inline));
            let here = spec_inline_type_errors(ctx.schema, inline);
            match inline.type_condition {
                Some(TypeCondition::On(name)) => {
                    lemma_check_type_name_adds(state, ctx.schema, name@, inline.position);
                },
                None => {
                    assert(state + here =~= state);
                },
            }
            assert(entered == state + here);
            lemma_walk_directives_keeps::<KnownTypeNames>(
                keeps,
                entered,
                inner,
                inline.directives@,
                0,
            );
            lemma_type_errors_in_set(entered, inner, &inline.selection_set);
            let below = spec_type_errors_in_set(ctx.schema, &inline.selection_set);
            assert((state + here) + below =~= state + (here + below));
        },
    }
}

/// The walk of the variable definitions from the `i`-th on adds the errors
/// for their declared types to the state and nothing else.
pub proof fn lemma_variable_type_errors<'a>(
    state: Seq<ErrorView>,
    ctx: ContextView<'a>,
    variables: Seq<VariableDefinition>,
    i: int,
)
    requires
        0 <= i <= variables.len(),
    ensures
        walk_variable_definitions::<KnownTypeNames>(state, ctx, variables, i) == state
            + spec_variable_type_errors(ctx.schema, variables, i),
    decreases variables.len() - i,
{
    let keeps = |a: Seq<ErrorView>, b: Seq<ErrorView>| a == b;
    assert(spec_hooks_keep_values::<KnownTypeNames>(keeps));
    if i < variables.len() {
        let variable = &variables[i];
        let inner = ctx.with_input_type(Some(variable.var_type));
        let entered = KnownTypeNames::on_enter(state, inner, Node::VariableDefinition(variable));
        let here = spec_type_name_errors(
            ctx.schema,
            variable.var_type.spec_inner_type()@,
            variable.position,
        );
        lemma_check_type_name_adds(
            state,
            ctx.schema,
            variable.var_type.spec_inner_type()@,
            variable.position,
        );
        match variable.default_value {
            Some(default_value) => {
                lemma_walk_input_value_keeps::<KnownTypeNames>(
                    keeps,
                    entered,
                    inner,
                    &default_value,
                );
            },
            None => {},
        }
        lemma_variable_type_errors(entered, ctx, variables, i + 1);
        let rest = spec_variable_type_errors(ctx.schema, variables, i + 1);
        assert((state + here) + rest =~= state + (here + rest));
    } else {
        assert(state + Seq::<ErrorView>::empty() =~= state);
    }
}

/// The walk of the definitions from the `i`-th on adds their errors to the
/// state and nothing else.
pub proof fn lemma_type_errors_in_definitions<'a>(
    state: Seq<ErrorView>,
    ctx: ContextView<'a>,
    definitions: Seq<Definition>,
    i: int,
)
    requires
        0 <= i <= definitions.len(),
    ensures
        walk_definitions::<KnownTypeNames>(state, ctx, definitions, i) == state
            + spec_type_errors_in_definitions(ctx.schema, definitions, i),
    decreases definitions.len() - i,
{
    let keeps = |a: Seq<ErrorView>, b: Seq<ErrorView>| a == b;
    assert(spec_hooks_keep_values::<KnownTypeNames>(keeps));
    if i < definitions.len() {
        let definition = &definitions[i];
        let inner = ctx.with_type(spec_definition_type(ctx, definition));
        match definition {
            Definition::Fragment(fragment) => {
                let entered = KnownTypeNames::on_enter(
                    state,
                    inner,
                    Node::FragmentDefinition(fragment),
                );
                let here = match fragment.type_condition {
                    TypeCondition::On(name) => spec_type_name_errors(
                        ctx.schema,
                        name@,
                        fragment.position,
                    ),
                };
                match fragment.type_condition {
                    TypeCondition::On(name) => {
                        lemma_check_type_name_adds(state, ctx.schema, name@, fragment.position);
                    },
                }
                assert(entered == state + here);
                lemma_walk_directives_keeps::<KnownTypeNames>(
                    keeps,
                    entered,
                    inner,
                    fragment.directives@,
                    0,
                );
                lemma_type_errors_in_set(entered, inner, &fragment.selection_set);
                let below = spec_type_errors_in_set(ctx.schema, &fragment.selection_set);
                assert((state + here) + below =~= state + (here + below));
            },
            Definition::Operation(operation) => {
                lemma_variable_type_errors(
                    state,
                    inner,
                    operation.spec_variable_definitions(),
                    0,
                );
                let here = spec_variable_type_errors(
                    ctx.schema,
                    operation.spec_variable_definitions(),
                    0,
                );
                lemma_walk_directives_keeps::<KnownTypeNames>(
                    keeps,
                    state + here,
                    inner,
                    operation.spec_directives(),
                    0,
                );
                lemma_type_errors_in_set(state + here, inner, operation.spec_selection_set());
                let below = spec_type_errors_in_set(ctx.schema, operation.spec_selection_set());
                assert((state + here) + below =~= state + (here + below));
            },
        }
        let next = walk_definition::<KnownTypeNames>(state, ctx, definition);
        lemma_type_errors_in_definitions(next, ctx, definitions, i + 1);
        let first = next.subrange(state.len() as int, next.len() as int);
        let second = spec_type_errors_in_definitions(ctx.schema, definitions, i + 1);
        assert(next =~= state + first);
        assert((state + first) + second =~= state + (first + second));
        assert(first + second =~= spec_type_errors_in_definitions(ctx.schema, definitions, i));
    } else {
        assert(state + Seq::<ErrorView>::empty() =~= state);
    }
}

/// The rule reports each type condition and each declared type of a
/// variable that names no type of the schema, in document order, and nothing
/// else.
pub proof fn lemma_rule_reports_unknown_types(schema: &schema::Document, operation: &Document)
    ensures
        KnownTypeNames::spec_errors(schema, operation) == spec_type_errors_in_definitions(
            schema,
            operation.definitions@,
            0,
        ),
{
    let ctx = ContextView::initial(schema, operation);
    lemma_type_errors_in_definitions(Seq::empty(), ctx, operation.definitions@, 0);
    let all = spec_type_errors_in_definitions(schema, operation.definitions@, 0);
    assert(Seq::<ErrorView>::empty() + all =~= all);
}

} // verus!
