//! No two operations of a document have the same name.
use vstd::prelude::*;
use crate::ast::operation_visitor::{
    spec_definition_type, visit_document, walk_definition, walk_definitions, walk_document,
    ContextView, Node, OperationVisitor, OperationVisitorContext,
};
use crate::ast::walk_laws::{
    lemma_walk_fragment_body_keeps, lemma_walk_operation_body_keeps, spec_hooks_keep_below,
};
use crate::static_graphql::query::{
    Directive, Document, Field, FragmentDefinition, FragmentSpread, InlineFragment,
    OperationDefinition, SelectionSet, Value, VariableDefinition,
};
use crate::static_graphql::schema;
use crate::validation::rules::rule::ValidationRule;
use crate::validation::utils::{
    error_views, lemma_error_views_empty, report_error, ErrorView, ValidationContext,
    ValidationError,
};
use crate::ast::ext::AstNodeWithName;
use crate::ast::lookup::{first_index, lemma_first_index_is, lemma_no_index};
use crate::static_graphql::query::{Definition, Pos};
use crate::validation::utils::message_around;

verus! {

/// The entry records the name `name`.
pub open spec fn is_seen_as(name: Seq<char>) -> spec_fn((String, Pos)) -> bool {
    |entry: (String, Pos)| entry.0@ == name
}

/// What the rule knows in the middle of a walk.
pub struct UniqueOperationNamesState {
    /// The names of the operations entered so far, each once, with the
    /// position of the first operation of that name.
    pub seen: Seq<(String, Pos)>,
    /// The errors found so far.
    pub errors: Seq<ErrorView>,
}

/// The error for a second operation named `name`: it points at the first
/// operation of that name and at the second.
pub open spec fn spec_duplicate_operation_error(
    name: Seq<char>,
    first: Pos,
    second: Pos,
) -> ErrorView {
    ErrorView {
        message: "There can be only one operation named \""@ + name + "\"."@,
        locations: seq![first, second],
    }
}

/// The rule that no two operations of a document have the same name.
pub struct UniqueOperationNames {
    seen: Vec<(String, Pos)>,
    errors: Vec<ValidationError>,
}

impl UniqueOperationNames {
    /// The state in which the rule starts a walk.
    pub open spec fn initial_state() -> UniqueOperationNamesState {
        UniqueOperationNamesState { seen: Seq::empty(), errors: Seq::empty() }
    }

    /// Makes the rule, ready to start a walk.
    pub fn new() -> (res: Self)
        ensures
            res.state() == Self::initial_state(),
    {
        proof {
            lemma_error_views_empty();
        }
        UniqueOperationNames { seen: Vec::new(), errors: Vec::new() }
    }

    /// Returns the position of the first operation named `name` that was
    /// entered, if there was one.
    fn first_seen(&self, name: &String) -> (res: Option<Pos>)
        ensures
            match first_index(self.state().seen, is_seen_as(name@)) {
                Some(i) => res == Some(self.state().seen[i].1),
                None => res is None,
            },
    {
        let mut i: usize = 0;
        while i < self.seen.len()
            invariant
                i <= self.seen.len(),
                forall|j: int| 0 <= j < i ==> !is_seen_as(name@)(#[trigger] self.seen@[j]),
            decreases self.seen.len() - i,
        {
            if self.seen[i].0 == *name {
                proof {
                    lemma_first_index_is(self.seen@, is_seen_as(name@), i as int);
                }
                return Some(self.seen[i].1);
            }
            i += 1;
        }
        proof {
            lemma_no_index(self.seen@, is_seen_as(name@));
        }
        None
    }
}

impl<'a> OperationVisitor<'a> for UniqueOperationNames {
    type State = UniqueOperationNamesState;

    closed spec fn state(&self) -> UniqueOperationNamesState {
        UniqueOperationNamesState { seen: self.seen@, errors: error_views(self.errors@) }
    }

    /// Entering an operation with a name reports it where an operation of
    /// that name was entered before, and else records the name with the
    /// position of the operation. What was recorded first stays.
    open spec fn on_enter(
        state: UniqueOperationNamesState,
        ctx: ContextView<'a>,
        node: Node<'a>,
    ) -> UniqueOperationNamesState {
        match node {
            Node::OperationDefinition(operation) => match operation.spec_node_name() {
                Some(name) => match first_index(state.seen, is_seen_as(name@)) {
                    Some(i) => UniqueOperationNamesState {
                        errors: state.errors.push(
                            spec_duplicate_operation_error(
                                name@,
                                state.seen[i].1,
                                operation.spec_position(),
                            ),
                        ),
                        ..state
                    },
                    None => UniqueOperationNamesState {
                        seen: state.seen.push((name, operation.spec_position())),
                        ..state
                    },
                },
                None => state,
            },
            _ => state,
        }
    }

    open spec fn on_leave(
        state: UniqueOperationNamesState,
        ctx: ContextView<'a>,
        node: Node<'a>,
    ) -> UniqueOperationNamesState {
        state
    }

    fn enter_document(&mut self, _ctx: &OperationVisitorContext<'a>, _document: &'a Document) {
    }

    fn leave_document(&mut self, _ctx: &OperationVisitorContext<'a>, _document: &'a Document) {
    }

    fn enter_operation_definition(
        &mut self,
        _ctx: &OperationVisitorContext<'a>,
        operation: &'a OperationDefinition,
    ) {
        if let Some(name) = operation.name_ref() {
            match self.first_seen(name) {
                Some(first) => {
                    let mut locations: Vec<Pos> = Vec::new();
                    locations.push(first);
                    locations.push(operation.position());
                    assert(locations@ =~= seq![first, operation.spec_position()]);
                    report_error(
                        &mut self.errors,
                        message_around("There can be only one operation named \"", name, "\"."),
                        locations,
                    );
                },
                None => {
                    self.seen.push((name.clone(), operation.position()));
                },
            }
        }
    }

    fn leave_operation_definition(
        &mut self,
        _ctx: &OperationVisitorContext<'a>,
        _operation: &'a OperationDefinition,
    ) {
    }

    fn enter_fragment_definition(
        &mut self,
        _ctx: &OperationVisitorContext<'a>,
        _fragment: &'a FragmentDefinition,
    ) {
    }

    fn leave_fragment_definition(
        &mut self,
        _ctx: &OperationVisitorContext<'a>,
        _fragment: &'a FragmentDefinition,
    ) {
    }

    fn enter_variable_definition(
        &mut self,
        _ctx: &OperationVisitorContext<'a>,
        _variable: &'a VariableDefinition,
    ) {
    }

    fn leave_variable_definition(
        &mut self,
        _ctx: &OperationVisitorContext<'a>,
        _variable: &'a VariableDefinition,
    ) {
    }

    fn enter_directive(&mut self, _ctx: &OperationVisitorContext<'a>, _directive: &'a Directive) {
    }

    fn leave_directive(&mut self, _ctx: &OperationVisitorContext<'a>, _directive: &'a Directive) {
    }

    fn enter_argument(
        &mut self,
        _ctx: &OperationVisitorContext<'a>,
        _argument: &'a (String, Value),
    ) {
    }

    fn leave_argument(
        &mut self,
        _ctx: &OperationVisitorContext<'a>,
        _argument: &'a (String, Value),
    ) {
    }

    fn enter_selection_set(
        &mut self,
        _ctx: &OperationVisitorContext<'a>,
        _selection_set: &'a SelectionSet,
    ) {
    }

    fn leave_selection_set(
        &mut self,
        _ctx: &OperationVisitorContext<'a>,
        _selection_set: &'a SelectionSet,
    ) {
    }

    fn enter_field(&mut self, _ctx: &OperationVisitorContext<'a>, _field: &'a Field) {
    }

    fn leave_field(&mut self, _ctx: &OperationVisitorContext<'a>, _field: &'a Field) {
    }

    fn enter_fragment_spread(
        &mut self,
        _ctx: &OperationVisitorContext<'a>,
        _fragment_spread: &'a FragmentSpread,
    ) {
    }

    fn leave_fragment_spread(
        &mut self,
        _ctx: &OperationVisitorContext<'a>,
        _fragment_spread: &'a FragmentSpread,
    ) {
    }

    fn enter_inline_fragment(
        &mut self,
        _ctx: &OperationVisitorContext<'a>,
        _inline_fragment: &'a InlineFragment,
    ) {
    }

    fn leave_inline_fragment(
        &mut self,
        _ctx: &OperationVisitorContext<'a>,
        _inline_fragment: &'a InlineFragment,
    ) {
    }

    fn enter_null_value(&mut self, _ctx: &OperationVisitorContext<'a>) {
    }

    fn leave_null_value(&mut self, _ctx: &OperationVisitorContext<'a>) {
    }

    fn enter_scalar_value(&mut self, _ctx: &OperationVisitorContext<'a>, _value: &'a Value) {
    }

    fn leave_scalar_value(&mut self, _ctx: &OperationVisitorContext<'a>, _value: &'a Value) {
    }

    fn enter_enum_value(&mut self, _ctx: &OperationVisitorContext<'a>, _value: &'a String) {
    }

    fn leave_enum_value(&mut self, _ctx: &OperationVisitorContext<'a>, _value: &'a String) {
    }

    fn enter_variable_value(&mut self, _ctx: &OperationVisitorContext<'a>, _name: &'a String) {
    }

    fn leave_variable_value(&mut self, _ctx: &OperationVisitorContext<'a>, _name: &'a String) {
    }

    fn enter_list_value(&mut self, _ctx: &OperationVisitorContext<'a>, _items: &'a Vec<Value>) {
    }

    fn leave_list_value(&mut self, _ctx: &OperationVisitorContext<'a>, _items: &'a Vec<Value>) {
    }

    fn enter_object_value(
        &mut self,
        _ctx: &OperationVisitorContext<'a>,
        _entries: &'a Vec<(String, Value)>,
    ) {
    }

    fn leave_object_value(
        &mut self,
        _ctx: &OperationVisitorContext<'a>,
        _entries: &'a Vec<(String, Value)>,
    ) {
    }

    fn enter_object_field(
        &mut self,
        _ctx: &OperationVisitorContext<'a>,
        _entry: &'a (String, Value),
    ) {
    }

    fn leave_object_field(
        &mut self,
        _ctx: &OperationVisitorContext<'a>,
        _entry: &'a (String, Value),
    ) {
    }
}

impl UniqueOperationNames {
    /// The errors that the rule reports on `operation` against `schema`:
    /// those that a walk of the document leaves in the state of the rule.
    pub open spec fn spec_errors(schema: &schema::Document, operation: &Document) -> Seq<
        ErrorView,
    > {
        walk_document::<UniqueOperationNames>(
            Self::initial_state(),
            ContextView::initial(schema, operation),
            operation,
        ).errors
    }
}

impl ValidationRule for UniqueOperationNames {
    open spec fn spec_validate(
        &self,
        schema: &schema::Document,
        operation: &Document,
    ) -> Seq<ErrorView> {
        Self::spec_errors(schema, operation)
    }

    fn validate<'a>(&self, ctx: &ValidationContext<'a>) -> (res: Vec<ValidationError>) {
        let mut visitor = UniqueOperationNames::new();
        let mut context = OperationVisitorContext::new(ctx.operation, ctx.schema);
        visit_document(&mut visitor, ctx.operation, &mut context);
        visitor.errors
    }
}

/// The errors for the definitions from the `i`-th on, where `seen` holds the
/// names of the operations before them: one for each operation whose name
/// one of the operations before it has. The error points at the first
/// operation of that name.
pub open spec fn spec_duplicate_errors_from(
    definitions: Seq<Definition>,
    seen: Seq<(String, Pos)>,
    i: int,
) -> Seq<ErrorView>
    decreases definitions.len() - i,
{
    if 0 <= i < definitions.len() {
        match definitions[i] {
            Definition::Operation(operation) => match operation.spec_node_name() {
                Some(name) => match first_index(seen, is_seen_as(name@)) {
                    Some(k) => seq![
                        spec_duplicate_operation_error(
                            name@,
                            seen[k].1,
                            operation.spec_position(),
                        ),
                    ] + spec_duplicate_errors_from(definitions, seen, i + 1),
                    None => spec_duplicate_errors_from(
                        definitions,
                        seen.push((name, operation.spec_position())),
                        i + 1,
                    ),
                },
                None => spec_duplicate_errors_from(definitions, seen, i + 1),
            },
            _ => spec_duplicate_errors_from(definitions, seen, i + 1),
        }
    } else {
        Seq::empty()
    }
}

/// The walk of the definitions from the `i`-th on adds their errors to the
/// state.
pub proof fn lemma_duplicate_definitions<'a>(
    state: UniqueOperationNamesState,
    ctx: ContextView<'a>,
    definitions: Seq<Definition>,
    i: int,
)
    requires
        0 <= i <= definitions.len(),
    ensures
        walk_definitions::<UniqueOperationNames>(state, ctx, definitions, i).errors == state.errors
            + spec_duplicate_errors_from(definitions, state.seen, i),
    decreases definitions.len() - i,
{
    let keeps = |a: UniqueOperationNamesState, b: UniqueOperationNamesState| a == b;
    assert(spec_hooks_keep_below::<UniqueOperationNames>(keeps));
    if i < definitions.len() {
        let definition = &definitions[i];
        let inner = ctx.with_type(spec_definition_type(ctx, definition));
        match definition {
            Definition::Fragment(fragment) => {
                lemma_walk_fragment_body_keeps::<UniqueOperationNames>(
                    keeps,
                    state,
                    inner,
                    fragment,
                );
            },
            Definition::Operation(operation) => {
                let entered = UniqueOperationNames::on_enter(
                    state,
                    inner,
                    Node::OperationDefinition(operation),
                );
                lemma_walk_operation_body_keeps::<UniqueOperationNames>(
                    keeps,
                    entered,
                    inner,
                    operation,
                );
                lemma_walk_operation_body_keeps::<UniqueOperationNames>(
                    keeps,
                    state,
                    inner,
                    operation,
                );
            },
        }
        let next = walk_definition::<UniqueOperationNames>(state, ctx, definition);
        lemma_duplicate_definitions(next, ctx, definitions, i + 1);
        let rest = spec_duplicate_errors_from(definitions, next.seen, i + 1);
        if next.errors != state.errors {
            let name = definitions[i]->Operation_0.spec_node_name()->Some_0;
            let k = first_index(state.seen, is_seen_as(name@))->Some_0;
            let here = seq![
                spec_duplicate_operation_error(
                    name@,
                    state.seen[k].1,
                    definitions[i]->Operation_0.spec_position(),
                ),
            ];
            assert(next.errors =~= state.errors + here);
            assert((state.errors + here) + rest =~= state.errors + (here + rest));
        }
    } else {
        assert(state.errors + Seq::<ErrorView>::empty() =~= state.errors);
    }
}

/// The rule reports each operation whose name an operation before it has, in
/// document order, and nothing else.
pub proof fn lemma_rule_reports_duplicate_names(schema: &schema::Document, operation: &Document)
    ensures
        UniqueOperationNames::spec_errors(schema, operation) == spec_duplicate_errors_from(
            operation.definitions@,
            Seq::empty(),
            0,
        ),
{
    let ctx = ContextView::initial(schema, operation);
    lemma_duplicate_definitions(
        UniqueOperationNames::initial_state(),
        ctx,
        operation.definitions@,
        0,
    );
    assert(Seq::<ErrorView>::empty() + spec_duplicate_errors_from(
        operation.definitions@,
        Seq::empty(),
        0,
    ) =~= spec_duplicate_errors_from(operation.definitions@, Seq::empty(), 0));
}

} // verus!
