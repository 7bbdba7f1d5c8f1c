//! What holds of every walk, whatever the visitor: a relation between states
//! that every hook keeps is kept by the walk of any part of a document.
use vstd::prelude::*;
use crate::ast::operation_visitor::{
    spec_argument_type, spec_definition_type, spec_directive_arguments, spec_field_arguments,
    spec_field_definition, spec_field_type, spec_list_item_type, spec_object_field_type,
    walk_arguments, walk_definition, walk_definitions, walk_directives, walk_fragment_definition,
    walk_input_value, walk_list_items, walk_object_entries, walk_operation_definition,
    walk_selection, walk_selection_set, walk_selections, walk_variable_definitions, ContextView,
    Node, OperationVisitor,
};
use crate::static_graphql::query::{
    Definition, Directive, FragmentDefinition, OperationDefinition, Selection, SelectionSet, Type,
    TypeCondition, Value, VariableDefinition,
};
use crate::static_graphql::schema;

verus! {

/// Whether the node is a document or one of its definitions.
pub open spec fn spec_is_definition_node(node: Node) -> bool {
    node is Document || node is OperationDefinition || node is FragmentDefinition
}

/// Whether the node is a selection set or a selection.
pub open spec fn spec_is_selection_node(node: Node) -> bool {
    node is SelectionSet || node is Field || node is FragmentSpread || node is InlineFragment
}

/// Whether the node belongs to the input of an operation: a variable
/// definition, a directive, an argument or a value.
pub open spec fn spec_is_input_node(node: Node) -> bool {
    !spec_is_definition_node(node) && !spec_is_selection_node(node)
}

/// Whether the node is a directive, an argument or a value.
pub open spec fn spec_is_value_node(node: Node) -> bool {
    spec_is_input_node(node) && !(node is VariableDefinition)
}

/// Whether the relation `keeps` holds between every state and itself, holds
/// between two states where it holds between each and a state in between, and
/// holds between the state before and the state after each hook of the
/// visitor, at every directive, argument and value.
pub open spec fn spec_hooks_keep_values<'a, V: OperationVisitor<'a>>(
    keeps: spec_fn(V::State, V::State) -> bool,
) -> bool {
    &&& forall|s: V::State| #[trigger] keeps(s, s)
    &&& forall|a: V::State, b: V::State, c: V::State|
        #[trigger] keeps(a, b) && #[trigger] keeps(b, c) ==> keeps(a, c)
    &&& forall|s: V::State, ctx: ContextView<'a>, node: Node<'a>|
        spec_is_value_node(node) ==> keeps(s, #[trigger] V::on_enter(s, ctx, node))
    &&& forall|s: V::State, ctx: ContextView<'a>, node: Node<'a>|
        spec_is_value_node(node) ==> keeps(s, #[trigger] V::on_leave(s, ctx, node))
}

/// Whether the relation `keeps` holds as `spec_hooks_keep_values` says, and
/// also at the variable definitions: at every node that belongs to the input
/// of an operation.
pub open spec fn spec_hooks_keep_input<'a, V: OperationVisitor<'a>>(
    keeps: spec_fn(V::State, V::State) -> bool,
) -> bool {
    &&& spec_hooks_keep_values::<V>(keeps)
    &&& forall|s: V::State, ctx: ContextView<'a>, node: Node<'a>|
        spec_is_input_node(node) ==> keeps(s, #[trigger] V::on_enter(s, ctx, node))
    &&& forall|s: V::State, ctx: ContextView<'a>, node: Node<'a>|
        spec_is_input_node(node) ==> keeps(s, #[trigger] V::on_leave(s, ctx, node))
}

/// Whether the relation `keeps` holds as `spec_hooks_keep_input` says, and
/// also at the selections: at every node below the definitions of a document.
pub open spec fn spec_hooks_keep_below<'a, V: OperationVisitor<'a>>(
    keeps: spec_fn(V::State, V::State) -> bool,
) -> bool {
    &&& spec_hooks_keep_input::<V>(keeps)
    &&& forall|s: V::State, ctx: ContextView<'a>, node: Node<'a>|
        !spec_is_definition_node(node) ==> keeps(s, #[trigger] V::on_enter(s, ctx, node))
    &&& forall|s: V::State, ctx: ContextView<'a>, node: Node<'a>|
        !spec_is_definition_node(node) ==> keeps(s, #[trigger] V::on_leave(s, ctx, node))
}

/// Whether the relation `keeps` holds as `spec_hooks_keep_below` says, and
/// also at the definitions of a document: at every node but the document.
pub open spec fn spec_hooks_keep<'a, V: OperationVisitor<'a>>(
    keeps: spec_fn(V::State, V::State) -> bool,
) -> bool {
    &&& spec_hooks_keep_below::<V>(keeps)
    &&& forall|s: V::State, ctx: ContextView<'a>, node: Node<'a>|
        !(node is Document) ==> keeps(s, #[trigger] V::on_enter(s, ctx, node))
    &&& forall|s: V::State, ctx: ContextView<'a>, node: Node<'a>|
        !(node is Document) ==> keeps(s, #[trigger] V::on_leave(s, ctx, node))
}

/// The walk of an input value keeps what the hooks keep.
pub proof fn lemma_walk_input_value_keeps<'a, V: OperationVisitor<'a>>(
    keeps: spec_fn(V::State, V::State) -> bool,
    state: V::State,
    ctx: ContextView<'a>,
    value: &'a Value,
)
    requires
        spec_hooks_keep_values::<V>(keeps),
    ensures
        keeps(state, walk_input_value::<V>(state, ctx, value)),
    decreases value, 1nat, 0nat,
{
    match value {
        Value::Null => {
            let s1 = V::on_enter(state, ctx, Node::NullValue);
            assert(keeps(s1, V::on_leave(s1, ctx, Node::NullValue)));
        },
        Value::Enum(v) => {
            let s1 = V::on_enter(state, ctx, Node::EnumValue(v));
            assert(keeps(s1, V::on_leave(s1, ctx, Node::EnumValue(v))));
        },
        Value::Variable(v) => {
            let s1 = V::on_enter(state, ctx, Node::VariableValue(v));
            assert(keeps(s1, V::on_leave(s1, ctx, Node::VariableValue(v))));
        },
        Value::List(items) => {
            let inner = ctx.with_input_type(spec_list_item_type(ctx.current_input_type_literal()));
            let s1 = V::on_enter(state, ctx, Node::ListValue(items));
            lemma_walk_list_items_keeps::<V>(keeps, s1, inner, value, 0);
            let s2 = walk_list_items::<V>(s1, inner, value, 0);
            assert(keeps(s2, V::on_leave(s2, ctx, Node::ListValue(items))));
            assert(keeps(state, s2));
        },
        Value::Object(entries) => {
            let s1 = V::on_enter(state, ctx, Node::ObjectValue(entries));
            lemma_walk_object_entries_keeps::<V>(keeps, s1, ctx, value, 0);
            let s2 = walk_object_entries::<V>(s1, ctx, value, 0);
            assert(keeps(s2, V::on_leave(s2, ctx, Node::ObjectValue(entries))));
            assert(keeps(state, s2));
        },
        _ => {
            let s1 = V::on_enter(state, ctx, Node::ScalarValue(value));
            assert(keeps(s1, V::on_leave(s1, ctx, Node::ScalarValue(value))));
        },
    }
}

/// The walk of the items of a list keeps what the hooks keep.
pub proof fn lemma_walk_list_items_keeps<'a, V: OperationVisitor<'a>>(
    keeps: spec_fn(V::State, V::State) -> bool,
    state: V::State,
    ctx: ContextView<'a>,
    value: &'a Value,
    i: int,
)
    requires
        spec_hooks_keep_values::<V>(keeps),
    ensures
        keeps(state, walk_list_items::<V>(state, ctx, value, i)),
    decreases value, 0nat, value->List_0.len() - i,
{
    if value is List && 0 <= i < value->List_0.len() {
        lemma_walk_input_value_keeps::<V>(keeps, state, ctx, &value->List_0[i]);
        let s1 = walk_input_value::<V>(state, ctx, &value->List_0[i]);
        lemma_walk_list_items_keeps::<V>(keeps, s1, ctx, value, i + 1);
        assert(keeps(s1, walk_list_items::<V>(s1, ctx, value, i + 1)));
    }
}

/// The walk of the entries of an object keeps what the hooks keep.
pub proof fn lemma_walk_object_entries_keeps<'a, V: OperationVisitor<'a>>(
    keeps: spec_fn(V::State, V::State) -> bool,
    state: V::State,
    ctx: ContextView<'a>,
    value: &'a Value,
    i: int,
)
    requires
        spec_hooks_keep_values::<V>(keeps),
    ensures
        keeps(state, walk_object_entries::<V>(state, ctx, value, i)),
    decreases value, 0nat, value->Object_0.len() - i,
{
    if value is Object && 0 <= i < value->Object_0.len() {
        let entry = &value->Object_0[i];
        let inner = ctx.with_input_type(spec_object_field_type(ctx, entry.0@));
        let s1 = V::on_enter(state, inner, Node::ObjectField(entry));
        lemma_walk_input_value_keeps::<V>(keeps, s1, inner, &entry.1);
        let s2 = walk_input_value::<V>(s1, inner, &entry.1);
        let s3 = V::on_leave(s2, inner, Node::ObjectField(entry));
        lemma_walk_object_entries_keeps::<V>(keeps, s3, ctx, value, i + 1);
        let s4 = walk_object_entries::<V>(s3, ctx, value, i + 1);
        assert(keeps(state, s1));
        assert(keeps(s1, s2));
        assert(keeps(s2, s3));
        assert(keeps(s3, s4));
        assert(keeps(state, s2));
        assert(keeps(state, s3));
    }
}

/// The walk of arguments keeps what the hooks keep.
pub proof fn lemma_walk_arguments_keeps<'a, V: OperationVisitor<'a>>(
    keeps: spec_fn(V::State, V::State) -> bool,
    state: V::State,
    ctx: ContextView<'a>,
    defs: Option<Seq<schema::InputValue>>,
    arguments: Seq<(String, Value)>,
    i: int,
)
    requires
        spec_hooks_keep_values::<V>(keeps),
    ensures
        keeps(state, walk_arguments::<V>(state, ctx, defs, arguments, i)),
    decreases arguments.len() - i,
{
    if 0 <= i < arguments.len() {
        let argument = &arguments[i];
        let inner = ctx.with_input_type(spec_argument_type(defs, argument.0@));
        let s1 = V::on_enter(state, inner, Node::Argument(argument));
        lemma_walk_input_value_keeps::<V>(keeps, s1, inner, &argument.1);
        let s2 = walk_input_value::<V>(s1, inner, &argument.1);
        let s3 = V::on_leave(s2, inner, Node::Argument(argument));
        lemma_walk_arguments_keeps::<V>(keeps, s3, ctx, defs, arguments, i + 1);
        let s4 = walk_arguments::<V>(s3, ctx, defs, arguments, i + 1);
        assert(keeps(state, s1));
        assert(keeps(s1, s2));
        assert(keeps(s2, s3));
        assert(keeps(s3, s4));
        assert(keeps(state, s2));
        assert(keeps(state, s3));
    }
}

/// The walk of directives keeps what the hooks keep.
pub proof fn lemma_walk_directives_keeps<'a, V: OperationVisitor<'a>>(
    keeps: spec_fn(V::State, V::State) -> bool,
    state: V::State,
    ctx: ContextView<'a>,
    directives: Seq<Directive>,
    i: int,
)
    requires
        spec_hooks_keep_values::<V>(keeps),
    ensures
        keeps(state, walk_directives::<V>(state, ctx, directives, i)),
    decreases directives.len() - i,
{
    if 0 <= i < directives.len() {
        let directive = &directives[i];
        let s1 = V::on_enter(state, ctx, Node::Directive(directive));
        let defs = spec_directive_arguments(ctx, directive.name@);
        lemma_walk_arguments_keeps::<V>(keeps, s1, ctx, defs, directive.arguments@, 0);
        let s2 = walk_arguments::<V>(s1, ctx, defs, directive.arguments@, 0);
        let s3 = V::on_leave(s2, ctx, Node::Directive(directive));
        lemma_walk_directives_keeps::<V>(keeps, s3, ctx, directives, i + 1);
        let s4 = walk_directives::<V>(s3, ctx, directives, i + 1);
        assert(keeps(state, s1));
        assert(keeps(s1, s2));
        assert(keeps(s2, s3));
        assert(keeps(s3, s4));
        assert(keeps(state, s2));
        assert(keeps(state, s3));
    }
}

/// The walk of variable definitions keeps what the hooks keep.
pub proof fn lemma_walk_variable_definitions_keeps<'a, V: OperationVisitor<'a>>(
    keeps: spec_fn(V::State, V::State) -> bool,
    state: V::State,
    ctx: ContextView<'a>,
    variables: Seq<VariableDefinition>,
    i: int,
)
    requires
        spec_hooks_keep_input::<V>(keeps),
    ensures
        keeps(state, walk_variable_definitions::<V>(state, ctx, variables, i)),
    decreases variables.len() - i,
{
    if 0 <= i < variables.len() {
        let variable = &variables[i];
        let inner = ctx.with_input_type(Some(variable.var_type));
        let s1 = V::on_enter(state, inner, Node::VariableDefinition(variable));
        let s2 = match variable.default_value {
            Some(default_value) => walk_input_value::<V>(s1, inner, &default_value),
            None => s1,
        };
        match variable.default_value {
            Some(default_value) => {
                lemma_walk_input_value_keeps::<V>(keeps, s1, inner, &default_value);
            },
            None => {},
        }
        let s3 = V::on_leave(s2, inner, Node::VariableDefinition(variable));
        lemma_walk_variable_definitions_keeps::<V>(keeps, s3, ctx, variables, i + 1);
        let s4 = walk_variable_definitions::<V>(s3, ctx, variables, i + 1);
        assert(keeps(state, s1));
        assert(keeps(s1, s2));
        assert(keeps(s2, s3));
        assert(keeps(s3, s4));
        assert(keeps(state, s2));
        assert(keeps(state, s3));
    }
}

/// The walk of a selection set keeps what the hooks keep.
pub proof fn lemma_walk_selection_set_keeps<'a, V: OperationVisitor<'a>>(
    keeps: spec_fn(V::State, V::State) -> bool,
    state: V::State,
    ctx: ContextView<'a>,
    selection_set: &'a SelectionSet,
)
    requires
        spec_hooks_keep_below::<V>(keeps),
    ensures
        keeps(state, walk_selection_set::<V>(state, ctx, selection_set)),
    decreases selection_set, 1nat, 0nat,
{
    let inner = ctx.with_parent_type();
    let s1 = V::on_enter(state, inner, Node::SelectionSet(selection_set));
    lemma_walk_selections_keeps::<V>(keeps, s1, inner, selection_set, 0);
    let s2 = walk_selections::<V>(s1, inner, selection_set, 0);
    let s3 = V::on_leave(s2, inner, Node::SelectionSet(selection_set));
    assert(keeps(state, s1));
    assert(keeps(s1, s2));
    assert(keeps(s2, s3));
    assert(keeps(state, s2));
}

/// The walk of the selections of a set keeps what the hooks keep.
pub proof fn lemma_walk_selections_keeps<'a, V: OperationVisitor<'a>>(
    keeps: spec_fn(V::State, V::State) -> bool,
    state: V::State,
    ctx: ContextView<'a>,
    selection_set: &'a SelectionSet,
    i: int,
)
    requires
        spec_hooks_keep_below::<V>(keeps),
    ensures
        keeps(state, walk_selections::<V>(state, ctx, selection_set, i)),
    decreases selection_set, 0nat, selection_set.items.len() - i,
{
    if 0 <= i < selection_set.items.len() {
        lemma_walk_selection_keeps::<V>(keeps, state, ctx, &selection_set.items[i]);
        let s1 = walk_selection::<V>(state, ctx, &selection_set.items[i]);
        lemma_walk_selections_keeps::<V>(keeps, s1, ctx, selection_set, i + 1);
        assert(keeps(s1, walk_selections::<V>(s1, ctx, selection_set, i + 1)));
    }
}

/// The walk of a selection keeps what the hooks keep.
pub proof fn lemma_walk_selection_keeps<'a, V: OperationVisitor<'a>>(
    keeps: spec_fn(V::State, V::State) -> bool,
    state: V::State,
    ctx: ContextView<'a>,
    selection: &'a Selection,
)
    requires
        spec_hooks_keep_below::<V>(keeps),
    ensures
        keeps(state, walk_selection::<V>(state, ctx, selection)),
    decreases selection, 0nat, 0nat,
{
    match selection {
        Selection::Field(field) => {
            let def = spec_field_definition(ctx, field.name@);
            let inner = ctx.with_type(spec_field_type(def));
            let s1 = V::on_enter(state, inner, Node::Field(field));
            lemma_walk_arguments_keeps::<V>(
                keeps,
                s1,
                inner,
                spec_field_arguments(def),
                field.arguments@,
                0,
            );
            let s2 = walk_arguments::<V>(s1, inner, spec_field_arguments(def), field.arguments@, 0);
            lemma_walk_directives_keeps::<V>(keeps, s2, inner, field.directives@, 0);
            let s3 = walk_directives::<V>(s2, inner, field.directives@, 0);
            lemma_walk_selection_set_keeps::<V>(keeps, s3, inner, &field.selection_set);
            let s4 = walk_selection_set::<V>(s3, inner, &field.selection_set);
            let s5 = V::on_leave(s4, inner, Node::Field(field));
            assert(keeps(state, s1));
            assert(keeps(s1, s2));
            assert(keeps(s2, s3));
            assert(keeps(s3, s4));
            assert(keeps(s4, s5));
            assert(keeps(state, s2));
            assert(keeps(state, s3));
            assert(keeps(state, s4));
        },
        Selection::FragmentSpread(spread) => {
            let s1 = V::on_enter(state, ctx, Node::FragmentSpread(spread));
            lemma_walk_directives_keeps::<V>(keeps, s1, ctx, spread.directives@, 0);
            let s2 = walk_directives::<V>(s1, ctx, spread.directives@, 0);
            let s3 = V::on_leave(s2, ctx, Node::FragmentSpread(spread));
            assert(keeps(state, s1));
            assert(keeps(s1, s2));
            assert(keeps(s2, s3));
            assert(keeps(state, s2));
        },
        Selection::InlineFragment(inline) => {
            let inner = match inline.type_condition {
                Some(TypeCondition::On(name)) => ctx.with_type(Some(Type::NamedType(name))),
                None => ctx,
            };
            let s1 = V::on_enter(state, inner, Node::InlineFragment(inline));
            lemma_walk_directives_keeps::<V>(keeps, s1, inner, inline.directives@, 0);
            let s2 = walk_directives::<V>(s1, inner, inline.directives@, 0);
            lemma_walk_selection_set_keeps::<V>(keeps, s2, inner, &inline.selection_set);
            let s3 = walk_selection_set::<V>(s2, inner, &inline.selection_set);
            let s4 = V::on_leave(s3, inner, Node::InlineFragment(inline));
            assert(keeps(state, s1));
            assert(keeps(s1, s2));
            assert(keeps(s2, s3));
            assert(keeps(s3, s4));
            assert(keeps(state, s2));
            assert(keeps(state, s3));
        },
    }
}

/// The state after the walk of what stands in an operation definition: its
/// variable definitions, its directives and its selection set.
pub open spec fn walk_operation_body<'a, V: OperationVisitor<'a>>(
    state: V::State,
    ctx: ContextView<'a>,
    operation: &'a OperationDefinition,
) -> V::State {
    let s1 = walk_variable_definitions::<V>(state, ctx, operation.spec_variable_definitions(), 0);
    let s2 = walk_directives::<V>(s1, ctx, operation.spec_directives(), 0);
    walk_selection_set::<V>(s2, ctx, operation.spec_selection_set())
}

/// The state after the walk of what stands in a fragment definition: its
/// directives and its selection set.
pub open spec fn walk_fragment_body<'a, V: OperationVisitor<'a>>(
    state: V::State,
    ctx: ContextView<'a>,
    fragment: &'a FragmentDefinition,
) -> V::State {
    let s1 = walk_directives::<V>(state, ctx, fragment.directives@, 0);
    walk_selection_set::<V>(s1, ctx, &fragment.selection_set)
}

/// The walk of what stands in an operation definition keeps what the hooks
/// below the definitions keep.
pub proof fn lemma_walk_operation_body_keeps<'a, V: OperationVisitor<'a>>(
    keeps: spec_fn(V::State, V::State) -> bool,
    state: V::State,
    ctx: ContextView<'a>,
    operation: &'a OperationDefinition,
)
    requires
        spec_hooks_keep_below::<V>(keeps),
    ensures
        keeps(state, walk_operation_body::<V>(state, ctx, operation)),
        walk_operation_definition::<V>(state, ctx, operation) == V::on_leave(
            walk_operation_body::<V>(
                V::on_enter(state, ctx, Node::OperationDefinition(operation)),
                ctx,
                operation,
            ),
            ctx,
            Node::OperationDefinition(operation),
        ),
{
    lemma_walk_variable_definitions_keeps::<V>(
        keeps,
        state,
        ctx,
        operation.spec_variable_definitions(),
        0,
    );
    let s1 = walk_variable_definitions::<V>(state, ctx, operation.spec_variable_definitions(), 0);
    lemma_walk_directives_keeps::<V>(keeps, s1, ctx, operation.spec_directives(), 0);
    let s2 = walk_directives::<V>(s1, ctx, operation.spec_directives(), 0);
    lemma_walk_selection_set_keeps::<V>(keeps, s2, ctx, operation.spec_selection_set());
    let s3 = walk_selection_set::<V>(s2, ctx, operation.spec_selection_set());
    assert(keeps(state, s1));
    assert(keeps(s1, s2));
    assert(keeps(s2, s3));
    assert(keeps(state, s2));
}

/// The walk of what stands in a fragment definition keeps what the hooks
/// below the definitions keep.
pub proof fn lemma_walk_fragment_body_keeps<'a, V: OperationVisitor<'a>>(
    keeps: spec_fn(V::State, V::State) -> bool,
    state: V::State,
    ctx: ContextView<'a>,
    fragment: &'a FragmentDefinition,
)
    requires
        spec_hooks_keep_below::<V>(keeps),
    ensures
        keeps(state, walk_fragment_body::<V>(state, ctx, fragment)),
        walk_fragment_definition::<V>(state, ctx, fragment) == V::on_leave(
            walk_fragment_body::<V>(
                V::on_enter(state, ctx, Node::FragmentDefinition(fragment)),
                ctx,
                fragment,
            ),
            ctx,
            Node::FragmentDefinition(fragment),
        ),
{
    lemma_walk_directives_keeps::<V>(keeps, state, ctx, fragment.directives@, 0);
    let s1 = walk_directives::<V>(state, ctx, fragment.directives@, 0);
    lemma_walk_selection_set_keeps::<V>(keeps, s1, ctx, &fragment.selection_set);
    let s2 = walk_selection_set::<V>(s1, ctx, &fragment.selection_set);
    assert(keeps(state, s1));
    assert(keeps(s1, s2));
}

/// The walk of a fragment definition keeps what the hooks keep.
pub proof fn lemma_walk_fragment_definition_keeps<'a, V: OperationVisitor<'a>>(
    keeps: spec_fn(V::State, V::State) -> bool,
    state: V::State,
    ctx: ContextView<'a>,
    fragment: &'a FragmentDefinition,
)
    requires
        spec_hooks_keep::<V>(keeps),
    ensures
        keeps(state, walk_fragment_definition::<V>(state, ctx, fragment)),
{
    let s1 = V::on_enter(state, ctx, Node::FragmentDefinition(fragment));
    lemma_walk_directives_keeps::<V>(keeps, s1, ctx, fragment.directives@, 0);
    let s2 = walk_directives::<V>(s1, ctx, fragment.directives@, 0);
    lemma_walk_selection_set_keeps::<V>(keeps, s2, ctx, &fragment.selection_set);
    let s3 = walk_selection_set::<V>(s2, ctx, &fragment.selection_set);
    let s4 = V::on_leave(s3, ctx, Node::FragmentDefinition(fragment));
    assert(keeps(state, s1));
    assert(keeps(s1, s2));
    assert(keeps(s2, s3));
    assert(keeps(s3, s4));
    assert(keeps(state, s2));
    assert(keeps(state, s3));
}

/// The walk of an operation definition keeps what the hooks keep.
pub proof fn lemma_walk_operation_definition_keeps<'a, V: OperationVisitor<'a>>(
    keeps: spec_fn(V::State, V::State) -> bool,
    state: V::State,
    ctx: ContextView<'a>,
    operation: &'a OperationDefinition,
)
    requires
        spec_hooks_keep::<V>(keeps),
    ensures
        keeps(state, walk_operation_definition::<V>(state, ctx, operation)),
{
    let s1 = V::on_enter(state, ctx, Node::OperationDefinition(operation));
    lemma_walk_variable_definitions_keeps::<V>(
        keeps,
        s1,
        ctx,
        operation.spec_variable_definitions(),
        0,
    );
    let s2 = walk_variable_definitions::<V>(s1, ctx, operation.spec_variable_definitions(), 0);
    lemma_walk_directives_keeps::<V>(keeps, s2, ctx, operation.spec_directives(), 0);
    let s3 = walk_directives::<V>(s2, ctx, operation.spec_directives(), 0);
    lemma_walk_selection_set_keeps::<V>(keeps, s3, ctx, operation.spec_selection_set());
    let s4 = walk_selection_set::<V>(s3, ctx, operation.spec_selection_set());
    let s5 = V::on_leave(s4, ctx, Node::OperationDefinition(operation));
    assert(keeps(state, s1));
    assert(keeps(s1, s2));
    assert(keeps(s2, s3));
    assert(keeps(s3, s4));
    assert(keeps(s4, s5));
    assert(keeps(state, s2));
    assert(keeps(state, s3));
    assert(keeps(state, s4));
}

/// The walk of the definitions of a document keeps what the hooks keep.
pub proof fn lemma_walk_definitions_keeps<'a, V: OperationVisitor<'a>>(
    keeps: spec_fn(V::State, V::State) -> bool,
    state: V::State,
    ctx: ContextView<'a>,
    definitions: Seq<Definition>,
    i: int,
)
    requires
        spec_hooks_keep::<V>(keeps),
    ensures
        keeps(state, walk_definitions::<V>(state, ctx, definitions, i)),
    decreases definitions.len() - i,
{
    if 0 <= i < definitions.len() {
        let definition = &definitions[i];
        let inner = ctx.with_type(spec_definition_type(ctx, definition));
        match definition {
            Definition::Fragment(fragment) => {
                lemma_walk_fragment_definition_keeps::<V>(keeps, state, inner, fragment);
            },
            Definition::Operation(operation) => {
                lemma_walk_operation_definition_keeps::<V>(keeps, state, inner, operation);
            },
        }
        let s1 = walk_definition::<V>(state, ctx, definition);
        lemma_walk_definitions_keeps::<V>(keeps, s1, ctx, definitions, i + 1);
        assert(keeps(s1, walk_definitions::<V>(s1, ctx, definitions, i + 1)));
    }
}

} // verus!
