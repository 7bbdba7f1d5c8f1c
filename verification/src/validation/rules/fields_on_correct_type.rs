//! A field that is selected on a composite type must be a field of that type.
use vstd::prelude::*;
use crate::ast::operation_visitor::{
    spec_definition_type, spec_field_arguments, spec_field_definition, spec_field_type,
    visit_document, walk_definition, walk_definitions, walk_document, walk_selection,
    walk_selection_set, walk_selections, ContextView, Node, OperationVisitor,
    OperationVisitorContext,
};
use crate::ast::walk_laws::{
    lemma_walk_arguments_keeps, lemma_walk_directives_keeps,
    lemma_walk_variable_definitions_keeps, spec_hooks_keep_input,
};
use crate::static_graphql::query::{
    Directive, Document, Field, FragmentDefinition, FragmentSpread, InlineFragment,
    OperationDefinition, SelectionSet, Value, VariableDefinition,
};
use crate::static_graphql::schema;
use crate::validation::rules::rule::ValidationRule;
use crate::validation::utils::{
    error_views, lemma_error_views_empty, report_error, ErrorView, ValidationContext,
    ValidationError,
};
use crate::ast::schema_index::name_is;
use crate::static_graphql::query::{Definition, Pos, Selection, Type, TypeCondition};
use crate::validation::utils::{message_around_two, single_location};

verus! {

/// The error for the field `field`, selected at `position` on the type
/// `parent`, which has no such field.
pub open spec fn spec_unknown_field_error(
    field: Seq<char>,
    parent: Seq<char>,
    position: Pos,
) -> ErrorView {
    ErrorView {
        message: "Cannot query field \""@ + field + "\" on type \""@ + parent + "\"."@,
        locations: seq![position],
    }
}

/// Whether the selection of the field `name` on the parent type `parent` is
/// an error: the parent is an object, an interface or a union, the field is
/// not the meta field `__typename`, and the parent defines no field of that
/// name. A union defines none.
pub open spec fn spec_field_is_misplaced(parent: &schema::TypeDefinition, name: Seq<char>) -> bool {
    &&& parent is Object || parent is Interface || parent is Union
    &&& name != "__typename"@
    &&& parent.spec_field_by_name(name) is None
}

/// The rule that a field selected on a composite type is a field of that type.
pub struct FieldsOnCorrectType {
    errors: Vec<ValidationError>,
}

impl FieldsOnCorrectType {
    /// Makes the rule, ready to start a walk.
    pub fn new() -> (res: Self)
        ensures
            res.state() == Seq::<ErrorView>::empty(),
    {
        proof {
            lemma_error_views_empty();
        }
        FieldsOnCorrectType { errors: Vec::new() }
    }
}

impl<'a> OperationVisitor<'a> for FieldsOnCorrectType {
    /// The errors found so far.
    type State = Seq<ErrorView>;

    closed spec fn state(&self) -> Seq<ErrorView> {
        error_views(self.errors@)
    }

    /// A field is checked against the parent type where it is entered.
    open spec fn on_enter(state: Seq<ErrorView>, ctx: ContextView<'a>, node: Node<'a>) -> Seq<
        ErrorView,
    > {
        match node {
            Node::Field(field) => match ctx.current_parent_type() {
                Some(parent) => if spec_field_is_misplaced(parent, field.name@) {
                    state.push(
                        spec_unknown_field_error(field.name@, parent.spec_name()@, field.position),
                    )
                } else {
                    state
                },
                None => state,
            },
            _ => state,
        }
    }

    open spec fn on_leave(state: Seq<ErrorView>, ctx: ContextView<'a>, node: Node<'a>) -> Seq<
        ErrorView,
    > {
        state
    }

    fn enter_document(&mut self, _ctx: &OperationVisitorContext<'a>, _document: &'a Document) {
    }

    fn leave_document(&mut self, _ctx: &OperationVisitorContext<'a>, _document: &'a Document) {
    }

    fn enter_operation_definition(
        &mut self,
        _ctx: &OperationVisitorContext<'a>,
        _operation: &'a OperationDefinition,
    ) {
    }

    fn leave_operation_definition(
        &mut self,
        _ctx: &OperationVisitorContext<'a>,
        _operation: &'a OperationDefinition,
    ) {
    }

    fn enter_fragment_definition(
        &mut self,
        _ctx: &OperationVisitorContext<'a>,
        _fragment: &'a FragmentDefinition,
    ) {
    }

    fn leave_fragment_definition(
        &mut self,
        _ctx: &OperationVisitorContext<'a>,
        _fragment: &'a FragmentDefinition,
    ) {
    }

    fn enter_variable_definition(
        &mut self,
        _ctx: &OperationVisitorContext<'a>,
        _variable: &'a VariableDefinition,
    ) {
    }

    fn leave_variable_definition(
        &mut self,
        _ctx: &OperationVisitorContext<'a>,
        _variable: &'a VariableDefinition,
    ) {
    }

    fn enter_directive(&mut self, _ctx: &OperationVisitorContext<'a>, _directive: &'a Directive) {
    }

    fn leave_directive(&mut self, _ctx: &OperationVisitorContext<'a>, _directive: &'a Directive) {
    }

    fn enter_argument(
        &mut self,
        _ctx: &OperationVisitorContext<'a>,
        _argument: &'a (String, Value),
    ) {
    }

    fn leave_argument(
        &mut self,
        _ctx: &OperationVisitorContext<'a>,
        _argument: &'a (String, Value),
    ) {
    }

    fn enter_selection_set(
        &mut self,
        _ctx: &OperationVisitorContext<'a>,
        _selection_set: &'a SelectionSet,
    ) {
    }

    fn leave_selection_set(
        &mut self,
        _ctx: &OperationVisitorContext<'a>,
        _selection_set: &'a SelectionSet,
    ) {
    }

    fn enter_field(&mut self, ctx: &OperationVisitorContext<'a>, field: &'a Field) {
        if let Some(parent) = ctx.current_parent_type() {
            let composite = match parent {
                schema::TypeDefinition::Object(_) => true,
                schema::TypeDefinition::Interface(_) => true,
                schema::TypeDefinition::Union(_) => true,
                _ => false,
            };
            if composite && !name_is(&field.name, "__typename") && parent.field_by_name(
                &field.name,
            ).is_none() {
                report_error(
                    &mut self.errors,
                    message_around_two(
                        "Cannot query field \"",
                        &field.name,
                        "\" on type \"",
                        parent.name_ref(),
                        "\".",
                    ),
                    single_location(field.position),
                );
            }
        }
    }

    fn leave_field(&mut self, _ctx: &OperationVisitorContext<'a>, _field: &'a Field) {
    }

    fn enter_fragment_spread(
        &mut self,
        _ctx: &OperationVisitorContext<'a>,
        _fragment_spread: &'a FragmentSpread,
    ) {
    }

    fn leave_fragment_spread(
        &mut self,
        _ctx: &OperationVisitorContext<'a>,
        _fragment_spread: &'a FragmentSpread,
    ) {
    }

    fn enter_inline_fragment(
        &mut self,
        _ctx: &OperationVisitorContext<'a>,
        _inline_fragment: &'a InlineFragment,
    ) {
    }

    fn leave_inline_fragment(
        &mut self,
        _ctx: &OperationVisitorContext<'a>,
        _inline_fragment: &'a InlineFragment,
    ) {
    }

    fn enter_null_value(&mut self, _ctx: &OperationVisitorContext<'a>) {
    }

    fn leave_null_value(&mut self, _ctx: &OperationVisitorContext<'a>) {
    }

    fn enter_scalar_value(&mut self, _ctx: &OperationVisitorContext<'a>, _value: &'a Value) {
    }

    fn leave_scalar_value(&mut self, _ctx: &OperationVisitorContext<'a>, _value: &'a Value) {
    }

    fn enter_enum_value(&mut self, _ctx: &OperationVisitorContext<'a>, _value: &'a String) {
    }

    fn leave_enum_value(&mut self, _ctx: &OperationVisitorContext<'a>, _value: &'a String) {
    }

    fn enter_variable_value(&mut self, _ctx: &OperationVisitorContext<'a>, _name: &'a String) {
    }

    fn leave_variable_value(&mut self, _ctx: &OperationVisitorContext<'a>, _name: &'a String) {
    }

    fn enter_list_value(&mut self, _ctx: &OperationVisitorContext<'a>, _items: &'a Vec<Value>) {
    }

    fn leave_list_value(&mut self, _ctx: &OperationVisitorContext<'a>, _items: &'a Vec<Value>) {
    }

    fn enter_object_value(
        &mut self,
        _ctx: &OperationVisitorContext<'a>,
        _entries: &'a Vec<(String, Value)>,
    ) {
    }

    fn leave_object_value(
        &mut self,
        _ctx: &OperationVisitorContext<'a>,
        _entries: &'a Vec<(String, Value)>,
    ) {
    }

    fn enter_object_field(
        &mut self,
        _ctx: &OperationVisitorContext<'a>,
        _entry: &'a (String, Value),
    ) {
    }

    fn leave_object_field(
        &mut self,
        _ctx: &OperationVisitorContext<'a>,
        _entry: &'a (String, Value),
    ) {
    }
}

impl FieldsOnCorrectType {
    /// The errors that the rule reports on `operation` against `schema`:
    /// those that a walk of the document leaves in the state of the rule.
    pub open spec fn spec_errors(schema: &schema::Document, operation: &Document) -> Seq<
        ErrorView,
    > {
        walk_document::<FieldsOnCorrectType>(
            Seq::empty(),
            ContextView::initial(schema, operation),
            operation,
        )
    }
}

impl ValidationRule for FieldsOnCorrectType {
    open spec fn spec_validate(
        &self,
        schema: &schema::Document,
        operation: &Document,
    ) -> Seq<ErrorView> {
        Self::spec_errors(schema, operation)
    }

    fn validate<'a>(&self, ctx: &ValidationContext<'a>) -> (res: Vec<ValidationError>) {
        let mut visitor = FieldsOnCorrectType::new();
        let mut context = OperationVisitorContext::new(ctx.operation, ctx.schema);
        visit_document(&mut visitor, ctx.operation, &mut context);
        visitor.errors
    }
}

/// The type that the selections of a field are selected on: the type that
/// the definition of the field on `parent` returns.
pub open spec fn spec_selected_type<'a>(
    schema: &'a schema::Document,
    parent: Option<&'a schema::TypeDefinition>,
    name: Seq<char>,
) -> Option<&'a schema::TypeDefinition> {
    match parent {
        Some(t) => match t.spec_field_by_name(name) {
            Some(definition) => schema.spec_type_by_name(definition.field_type.spec_inner_type()@),
            None => None,
        },
        None => None,
    }
}

/// The errors for the fields in and under a selection set that is selected
/// on the type `parent`, in document order.
pub open spec fn spec_misplaced_in_set<'a>(
    schema: &'a schema::Document,
    selection_set: &'a SelectionSet,
    parent: Option<&'a schema::TypeDefinition>,
) -> Seq<ErrorView>
    decreases selection_set, 1nat, 0nat,
{
    spec_misplaced_in_selections(schema, selection_set, parent, 0)
}

/// The errors for the fields in and under the selections from the `i`-th on.
pub open spec fn spec_misplaced_in_selections<'a>(
    schema: &'a schema::Document,
    selection_set: &'a SelectionSet,
    parent: Option<&'a schema::TypeDefinition>,
    i: int,
) -> Seq<ErrorView>
    decreases selection_set, 0nat, selection_set.items.len() - i,
{
    if 0 <= i < selection_set.items.len() {
        spec_misplaced_in_selection(schema, &selection_set.items[i], parent)
            + spec_misplaced_in_selections(schema, selection_set, parent, i + 1)
    } else {
        Seq::empty()
    }
}

/// The errors for the fields in and under one selection. A field is checked
/// against `parent`, and its selections against the type that its definition
/// returns. The selections of an inline fragment are checked against the
/// type of its type condition, and against `parent` where it has none. A
/// fragment spread has no fields.
pub open spec fn spec_misplaced_in_selection<'a>(
    schema: &'a schema::Document,
    selection: &'a Selection,
    parent: Option<&'a schema::TypeDefinition>,
) -> Seq<ErrorView>
    decreases selection, 0nat, 0nat,
{
    match selection {
        Selection::Field(field) => (match parent {
            Some(t) => if spec_field_is_misplaced(t, field.name@) {
                seq![spec_unknown_field_error(field.name@, t.spec_name()@, field.position)]
            } else {
                Seq::empty()
            },
            None => Seq::empty(),
        }) + spec_misplaced_in_set(
            schema,
            &field.selection_set,
            spec_selected_type(schema, parent, field.name@),
        ),
        Selection::FragmentSpread(_) => Seq::empty(),
        Selection::InlineFragment(inline) => spec_misplaced_in_set(
            schema,
            &inline.selection_set,
            match inline.type_condition {
                Some(TypeCondition::On(name)) => schema.spec_type_by_name(name@),
                None => parent,
            },
        ),
    }
}

/// The walk of a selection set adds the errors for its fields to the state
/// and nothing else. The type that is current where the set is entered is
/// the type that its fields are checked against.
pub proof fn lemma_misplaced_in_set<'a>(
    state: Seq<ErrorView>,
    ctx: ContextView<'a>,
    selection_set: &'a SelectionSet,
)
    ensures
        walk_selection_set::<FieldsOnCorrectType>(state, ctx, selection_set) == state
            + spec_misplaced_in_set(ctx.schema, selection_set, ctx.current_type()),
    decreases selection_set, 1nat, 0nat,
{
    lemma_misplaced_in_selections(
        state,
        ctx.with_parent_type(),
        selection_set,
        ctx.current_type(),
        0,
    );
}

/// The walk of the selections from the `i`-th on adds the errors for their
/// fields to the state and nothing else.
pub proof fn lemma_misplaced_in_selections<'a>(
    state: Seq<ErrorView>,
    ctx: ContextView<'a>,
    selection_set: &'a SelectionSet,
    parent: Option<&'a schema::TypeDefinition>,
    i: int,
)
    requires
        0 <= i <= selection_set.items.len(),
        ctx.current_type() == parent,
        ctx.current_parent_type() == parent,
    ensures
        walk_selections::<FieldsOnCorrectType>(state, ctx, selection_set, i) == state
            + spec_misplaced_in_selections(ctx.schema, selection_set, parent, i),
    decreases selection_set, 0nat, selection_set.items.len() - i,
{
    if i < selection_set.items.len() {
        lemma_misplaced_in_selection(state, ctx, &selection_set.items[i], parent);
        let next = walk_selection::<FieldsOnCorrectType>(state, ctx, &selection_set.items[i]);
        lemma_misplaced_in_selections(next, ctx, selection_set, parent, i + 1);
        let first = spec_misplaced_in_selection(ctx.schema, &selection_set.items[i], parent);
        let second = spec_misplaced_in_selections(ctx.schema, selection_set, parent, i + 1);
        assert((state + first) + second =~= state + (first + second));
    } else {
        assert(state + Seq::<ErrorView>::empty() =~= state);
    }
}

/// The walk of a selection adds the errors for its fields to the state and
/// nothing else.
pub proof fn lemma_misplaced_in_selection<'a>(
    state: Seq<ErrorView>,
    ctx: ContextView<'a>,
    selection: &'a Selection,
    parent: Option<&'a schema::TypeDefinition>,
)
    requires
        ctx.current_type() == parent,
        ctx.current_parent_type() == parent,
    ensures
        walk_selection::<FieldsOnCorrectType>(state, ctx, selection) == state
            + spec_misplaced_in_selection(ctx.schema, selection, parent),
    decreases selection, 0nat, 0nat,
{
    let keeps = |a: Seq<ErrorView>, b: Seq<ErrorView>| a == b;
    assert(spec_hooks_keep_input::<FieldsOnCorrectType>(keeps));
    match selection {
        Selection::Field(field) => {
            let def = spec_field_definition(ctx, field.name@);
            let inner = ctx.with_type(spec_field_type(def));
            let entered = FieldsOnCorrectType::on_enter(state, inner, Node::Field(field));
            let here = match parent {
                Some(t) => if spec_field_is_misplaced(t, field.name@) {
                    seq![spec_unknown_field_error(field.name@, t.spec_name()@, field.position)]
                } else {
                    Seq::empty()
                },
                None => Seq::empty(),
            };
            assert(inner.current_parent_type() == parent);
            assert(entered =~= state + here);
            lemma_walk_arguments_keeps::<FieldsOnCorrectType>(
                keeps,
                entered,
                inner,
                spec_field_arguments(def),
                field.arguments@,
                0,
            );
            lemma_walk_directives_keeps::<FieldsOnCorrectType>(
                keeps,
                entered,
                inner,
                field.directives@,
                0,
            );
            lemma_misplaced_in_set(entered, inner, &field.selection_set);
            assert(inner.current_type() == spec_selected_type(ctx.schema, parent, field.name@));
            let below = spec_misplaced_in_set(
                ctx.schema,
                &field.selection_set,
                spec_selected_type(ctx.schema, parent, field.name@),
            );
            assert((state + here) + below =~= state + (here + below));
        },
        Selection::FragmentSpread(spread) => {
            lemma_walk_directives_keeps::<FieldsOnCorrectType>(
                keeps,
                state,
                ctx,
                spread.directives@,
                0,
            );
            assert(state + Seq::<ErrorView>::empty() =~= state);
        },
        Selection::InlineFragment(inline) => {
            let inner = match inline.type_condition {
                Some(TypeCondition::On(name)) => ctx.with_type(Some(Type::NamedType(name))),
                None => ctx,
            };
            lemma_walk_directives_keeps::<FieldsOnCorrectType>(
                keeps,
                state,
                inner,
                inline.directives@,
                0,
            );
            lemma_misplaced_in_set(state, inner, &inline.selection_set);
        },
    }
}

/// The errors for the fields of the definitions from the `i`-th on. The
/// fields of a fragment are checked against the type of its type condition,
/// those of an operation against its root type.
pub open spec fn spec_misplaced_in_definitions<'a>(
    schema: &'a schema::Document,
    definitions: Seq<Definition>,
    i: int,
) -> Seq<ErrorView>
    decreases definitions.len() - i,
{
    if 0 <= i < definitions.len() {
        (match definitions[i] {
            Definition::Fragment(fragment) => spec_misplaced_in_set(
                schema,
                &fragment.selection_set,
                match fragment.type_condition {
                    TypeCondition::On(name) => schema.spec_type_by_name(name@),
                },
            ),
            Definition::Operation(operation) => spec_misplaced_in_set(
                schema,
                operation.spec_selection_set(),
                match schema.spec_root_type(operation.spec_root_kind()) {
                    Some(root) => schema.spec_type_by_name(root.name@),
                    None => None,
                },
            ),
        }) + spec_misplaced_in_definitions(schema, definitions, i + 1)
    } else {
        Seq::empty()
    }
}

/// The walk of the definitions from the `i`-th on adds the errors for their
/// fields to the state and nothing else.
pub proof fn lemma_misplaced_in_definitions<'a>(
    state: Seq<ErrorView>,
    ctx: ContextView<'a>,
    definitions: Seq<Definition>,
    i: int,
)
    requires
        0 <= i <= definitions.len(),
    ensures
        walk_definitions::<FieldsOnCorrectType>(state, ctx, definitions, i) == state
            + spec_misplaced_in_definitions(ctx.schema, definitions, i),
    decreases definitions.len() - i,
{
    let keeps = |a: Seq<ErrorView>, b: Seq<ErrorView>| a == b;
    assert(spec_hooks_keep_input::<FieldsOnCorrectType>(keeps));
    if i < definitions.len() {
        let definition = &definitions[i];
        let inner = ctx.with_type(spec_definition_type(ctx, definition));
        match definition {
            Definition::Fragment(fragment) => {
                lemma_walk_directives_keeps::<FieldsOnCorrectType>(
                    keeps,
                    state,
                    inner,
                    fragment.directives@,
                    0,
                );
                lemma_misplaced_in_set(state, inner, &fragment.selection_set);
            },
            Definition::Operation(operation) => {
                lemma_walk_variable_definitions_keeps::<FieldsOnCorrectType>(
                    keeps,
                    state,
                    inner,
                    operation.spec_variable_definitions(),
                    0,
                );
                lemma_walk_directives_keeps::<FieldsOnCorrectType>(
                    keeps,
                    state,
                    inner,
                    operation.spec_directives(),
                    0,
                );
                lemma_misplaced_in_set(state, inner, operation.spec_selection_set());
            },
        }
        let next = walk_definition::<FieldsOnCorrectType>(state, ctx, definition);
        lemma_misplaced_in_definitions(next, ctx, definitions, i + 1);
        let first = next.subrange(state.len() as int, next.len() as int);
        let second = spec_misplaced_in_definitions(ctx.schema, definitions, i + 1);
        assert(next =~= state + first);
        assert((state + first) + second =~= state + (first + second));
        assert(first + second =~= spec_misplaced_in_definitions(ctx.schema, definitions, i));
    } else {
        assert(state + Seq::<ErrorView>::empty() =~= state);
    }
}

/// The rule reports each field of the document that the type it is selected
/// on does not have, in document order, and nothing else.
pub proof fn lemma_rule_reports_misplaced_fields(schema: &schema::Document, operation: &Document)
    ensures
        FieldsOnCorrectType::spec_errors(schema, operation) == spec_misplaced_in_definitions(
            schema,
            operation.definitions@,
            0,
        ),
{
    let ctx = ContextView::initial(schema, operation);
    lemma_misplaced_in_definitions(Seq::empty(), ctx, operation.definitions@, 0);
    let all = spec_misplaced_in_definitions(schema, operation.definitions@, 0);
    assert(Seq::<ErrorView>::empty() + all =~= all);
}

} // verus!
