//! A subscription selects exactly one field at its top level.
use vstd::prelude::*;
use crate::ast::operation_visitor::{
    spec_definition_type, visit_document, walk_definition, walk_definitions, walk_document,
    ContextView, Node, OperationVisitor, OperationVisitorContext,
};
use crate::ast::walk_laws::{
    lemma_walk_fragment_body_keeps, lemma_walk_operation_body_keeps, spec_hooks_keep_below,
};
use crate::static_graphql::query::{
    Directive, Document, Field, FragmentDefinition, FragmentSpread, InlineFragment,
    OperationDefinition, SelectionSet, Value, VariableDefinition,
};
use crate::static_graphql::schema;
use crate::validation::rules::rule::ValidationRule;
use crate::validation::utils::{
    error_views, lemma_error_views_empty, report_error, ErrorView, ValidationContext,
    ValidationError,
};
use crate::static_graphql::query::{Definition, Selection, Subscription};
use crate::validation::utils::{message_around, single_location};

verus! {

/// How many selections a top-level selection of a subscription stands for: a
/// field for itself, an inline fragment for the selections it holds, a
/// fragment spread for the selections that its fragment holds. A spread of a
/// fragment that the document does not define stands for itself.
pub open spec fn spec_selection_width(document: &Document, selection: &Selection) -> nat {
    match selection {
        Selection::Field(_) => 1,
        Selection::InlineFragment(inline_fragment) => inline_fragment.selection_set.items@.len(),
        Selection::FragmentSpread(spread) => match document.spec_fragment_by_name(
            spread.fragment_name@,
        ) {
            Some(fragment) => fragment.selection_set.items@.len(),
            None => 1,
        },
    }
}

/// The number of selections that the first `n` of `items` stand for.
pub open spec fn spec_top_level_count(document: &Document, items: Seq<Selection>, n: int) -> nat
    decreases n,
{
    if n <= 0 || n > items.len() {
        0
    } else {
        spec_top_level_count(document, items, n - 1) + spec_selection_width(
            document,
            &items[n - 1],
        )
    }
}

/// The error for the subscription `subscription`, which does not select
/// exactly one field at its top level.
pub open spec fn spec_subscription_error(subscription: &Subscription) -> ErrorView {
    ErrorView {
        message: match subscription.name {
            Some(name) => "Subscription \""@ + name@
                + "\" must select only one top-level field."@,
            None => "Anonymous Subscription must select only one top-level field."@,
        },
        locations: seq![subscription.position],
    }
}

/// Returns the number of selections that `selection` stands for, or 2 where
/// it stands for more.
fn selection_width(document: &Document, selection: &Selection) -> (res: usize)
    ensures
        res <= 2,
        res == 2 <==> spec_selection_width(document, selection) >= 2,
        res < 2 ==> res == spec_selection_width(document, selection),
{
    let width = match selection {
        Selection::Field(_) => 1,
        Selection::InlineFragment(inline_fragment) => inline_fragment.selection_set.items.len(),
        Selection::FragmentSpread(spread) => match document.fragment_by_name(
            &spread.fragment_name,
        ) {
            Some(fragment) => fragment.selection_set.items.len(),
            None => 1,
        },
    };
    if width > 2 {
        2
    } else {
        width
    }
}

/// Tells whether the selections `items` stand for exactly one selection.
pub fn selects_one_field(document: &Document, items: &Vec<Selection>) -> (res: bool)
    ensures
        res == (spec_top_level_count(document, items@, items@.len() as int) == 1),
{
    let mut count: usize = 0;
    let mut i: usize = 0;
    while i < items.len()
        invariant
            i <= items.len(),
            count <= 2,
            count == 2 <==> spec_top_level_count(document, items@, i as int) >= 2,
            count < 2 ==> count == spec_top_level_count(document, items@, i as int),
        decreases items.len() - i,
    {
        let width = selection_width(document, &items[i]);
        count = if count + width > 2 {
            2
        } else {
            count + width
        };
        i += 1;
    }
    count == 1
}

/// The rule that a subscription selects exactly one field at its top level.
pub struct SingleFieldSubscriptions {
    errors: Vec<ValidationError>,
}

impl SingleFieldSubscriptions {
    /// Makes the rule, ready to start a walk.
    pub fn new() -> (res: Self)
        ensures
            res.state() == Seq::<ErrorView>::empty(),
    {
        proof {
            lemma_error_views_empty();
        }
        SingleFieldSubscriptions { errors: Vec::new() }
    }
}

impl<'a> OperationVisitor<'a> for SingleFieldSubscriptions {
    /// The errors found so far.
    type State = Seq<ErrorView>;

    closed spec fn state(&self) -> Seq<ErrorView> {
        error_views(self.errors@)
    }

    /// Entering a subscription reports it unless its top-level selections,
    /// with fragments opened one level, stand for exactly one selection.
    open spec fn on_enter(state: Seq<ErrorView>, ctx: ContextView<'a>, node: Node<'a>) -> Seq<
        ErrorView,
    > {
        match node {
            Node::OperationDefinition(OperationDefinition::Subscription(subscription)) => {
                if spec_top_level_count(
                    ctx.operation,
                    subscription.selection_set.items@,
                    subscription.selection_set.items@.len() as int,
                ) == 1 {
                    state
                } else {
                    state.push(spec_subscription_error(subscription))
                }
            },
            _ => state,
        }
    }

    open spec fn on_leave(state: Seq<ErrorView>, ctx: ContextView<'a>, node: Node<'a>) -> Seq<
        ErrorView,
    > {
        state
    }

    fn enter_document(&mut self, _ctx: &OperationVisitorContext<'a>, _document: &'a Document) {
    }

    fn leave_document(&mut self, _ctx: &OperationVisitorContext<'a>, _document: &'a Document) {
    }

    fn enter_operation_definition(
        &mut self,
        ctx: &OperationVisitorContext<'a>,
        operation: &'a OperationDefinition,
    ) {
        if let OperationDefinition::Subscription(subscription) = operation {
            if !selects_one_field(ctx.operation(), &subscription.selection_set.items) {
                let message = match &subscription.name {
                    Some(name) => message_around(
                        "Subscription \"",
                        name,
                        "\" must select only one top-level field.",
                    ),
                    None => String::from_str(
                        "Anonymous Subscription must select only one top-level field.",
                    ),
                };
                report_error(&mut self.errors, message, single_location(subscription.position));
            }
        }
    }

    fn leave_operation_definition(
        &mut self,
        _ctx: &OperationVisitorContext<'a>,
        _operation: &'a OperationDefinition,
    ) {
    }

    fn enter_fragment_definition(
        &mut self,
        _ctx: &OperationVisitorContext<'a>,
        _fragment: &'a FragmentDefinition,
    ) {
    }

    fn leave_fragment_definition(
        &mut self,
        _ctx: &OperationVisitorContext<'a>,
        _fragment: &'a FragmentDefinition,
    ) {
    }

    fn enter_variable_definition(
        &mut self,
        _ctx: &OperationVisitorContext<'a>,
        _variable: &'a VariableDefinition,
    ) {
    }

    fn leave_variable_definition(
        &mut self,
        _ctx: &OperationVisitorContext<'a>,
        _variable: &'a VariableDefinition,
    ) {
    }

    fn enter_directive(&mut self, _ctx: &OperationVisitorContext<'a>, _directive: &'a Directive) {
    }

    fn leave_directive(&mut self, _ctx: &OperationVisitorContext<'a>, _directive: &'a Directive) {
    }

    fn enter_argument(
        &mut self,
        _ctx: &OperationVisitorContext<'a>,
        _argument: &'a (String, Value),
    ) {
    }

    fn leave_argument(
        &mut self,
        _ctx: &OperationVisitorContext<'a>,
        _argument: &'a (String, Value),
    ) {
    }

    fn enter_selection_set(
        &mut self,
        _ctx: &OperationVisitorContext<'a>,
        _selection_set: &'a SelectionSet,
    ) {
    }

    fn leave_selection_set(
        &mut self,
        _ctx: &OperationVisitorContext<'a>,
        _selection_set: &'a SelectionSet,
    ) {
    }

    fn enter_field(&mut self, _ctx: &OperationVisitorContext<'a>, _field: &'a Field) {
    }

    fn leave_field(&mut self, _ctx: &OperationVisitorContext<'a>, _field: &'a Field) {
    }

    fn enter_fragment_spread(
        &mut self,
        _ctx: &OperationVisitorContext<'a>,
        _fragment_spread: &'a FragmentSpread,
    ) {
    }

    fn leave_fragment_spread(
        &mut self,
        _ctx: &OperationVisitorContext<'a>,
        _fragment_spread: &'a FragmentSpread,
    ) {
    }

    fn enter_inline_fragment(
        &mut self,
        _ctx: &OperationVisitorContext<'a>,
        _inline_fragment: &'a InlineFragment,
    ) {
    }

    fn leave_inline_fragment(
        &mut self,
        _ctx: &OperationVisitorContext<'a>,
        _inline_fragment: &'a InlineFragment,
    ) {
    }

    fn enter_null_value(&mut self, _ctx: &OperationVisitorContext<'a>) {
    }

    fn leave_null_value(&mut self, _ctx: &OperationVisitorContext<'a>) {
    }

    fn enter_scalar_value(&mut self, _ctx: &OperationVisitorContext<'a>, _value: &'a Value) {
    }

    fn leave_scalar_value(&mut self, _ctx: &OperationVisitorContext<'a>, _value: &'a Value) {
    }

    fn enter_enum_value(&mut self, _ctx: &OperationVisitorContext<'a>, _value: &'a String) {
    }

    fn leave_enum_value(&mut self, _ctx: &OperationVisitorContext<'a>, _value: &'a String) {
    }

    fn enter_variable_value(&mut self, _ctx: &OperationVisitorContext<'a>, _name: &'a String) {
    }

    fn leave_variable_value(&mut self, _ctx: &OperationVisitorContext<'a>, _name: &'a String) {
    }

    fn enter_list_value(&mut self, _ctx: &OperationVisitorContext<'a>, _items: &'a Vec<Value>) {
    }

    fn leave_list_value(&mut self, _ctx: &OperationVisitorContext<'a>, _items: &'a Vec<Value>) {
    }

    fn enter_object_value(
        &mut self,
        _ctx: &OperationVisitorContext<'a>,
        _entries: &'a Vec<(String, Value)>,
    ) {
    }

    fn leave_object_value(
        &mut self,
        _ctx: &OperationVisitorContext<'a>,
        _entries: &'a Vec<(String, Value)>,
    ) {
    }

    fn enter_object_field(
        &mut self,
        _ctx: &OperationVisitorContext<'a>,
        _entry: &'a (String, Value),
    ) {
    }

    fn leave_object_field(
        &mut self,
        _ctx: &OperationVisitorContext<'a>,
        _entry: &'a (String, Value),
    ) {
    }
}

impl SingleFieldSubscriptions {
    /// The errors that the rule reports on `operation` against `schema`:
    /// those that a walk of the document leaves in the state of the rule.
    pub open spec fn spec_errors(schema: &schema::Document, operation: &Document) -> Seq<
        ErrorView,
    > {
        walk_document::<SingleFieldSubscriptions>(
            Seq::empty(),
            ContextView::initial(schema, operation),
            operation,
        )
    }
}

impl ValidationRule for SingleFieldSubscriptions {
    open spec fn spec_validate(
        &self,
        schema: &schema::Document,
        operation: &Document,
    ) -> Seq<ErrorView> {
        Self::spec_errors(schema, operation)
    }

    fn validate<'a>(&self, ctx: &ValidationContext<'a>) -> (res: Vec<ValidationError>) {
        let mut visitor = SingleFieldSubscriptions::new();
        let mut context = OperationVisitorContext::new(ctx.operation, ctx.schema);
        visit_document(&mut visitor, ctx.operation, &mut context);
        visitor.errors
    }
}

/// The errors for one definition: one where it is a subscription that does
/// not select exactly one field at its top level.
pub open spec fn spec_subscription_errors_of(
    document: &Document,
    definition: Definition,
) -> Seq<ErrorView> {
    match definition {
        Definition::Operation(OperationDefinition::Subscription(subscription)) => {
            if spec_top_level_count(
                document,
                subscription.selection_set.items@,
                subscription.selection_set.items@.len() as int,
            ) == 1 {
                Seq::empty()
            } else {
                seq![spec_subscription_error(&subscription)]
            }
        },
        _ => Seq::empty(),
    }
}

/// The errors for the definitions from the `i`-th on.
pub open spec fn spec_subscription_errors_from(
    document: &Document,
    definitions: Seq<Definition>,
    i: int,
) -> Seq<ErrorView>
    decreases definitions.len() - i,
{
    if 0 <= i < definitions.len() {
        spec_subscription_errors_of(document, definitions[i]) + spec_subscription_errors_from(
            document,
            definitions,
            i + 1,
        )
    } else {
        Seq::empty()
    }
}

/// The walk of the definitions from the `i`-th on adds their errors to the
/// state and nothing else.
pub proof fn lemma_subscription_definitions<'a>(
    state: Seq<ErrorView>,
    ctx: ContextView<'a>,
    definitions: Seq<Definition>,
    i: int,
)
    requires
        0 <= i <= definitions.len(),
    ensures
        walk_definitions::<SingleFieldSubscriptions>(state, ctx, definitions, i) == state
            + spec_subscription_errors_from(ctx.operation, definitions, i),
    decreases definitions.len() - i,
{
    let keeps = |a: Seq<ErrorView>, b: Seq<ErrorView>| a == b;
    assert(spec_hooks_keep_below::<SingleFieldSubscriptions>(keeps));
    if i < definitions.len() {
        let definition = &definitions[i];
        let inner = ctx.with_type(spec_definition_type(ctx, definition));
        let here = spec_subscription_errors_of(ctx.operation, definitions[i]);
        match definition {
            Definition::Fragment(fragment) => {
                lemma_walk_fragment_body_keeps::<SingleFieldSubscriptions>(
                    keeps,
                    state,
                    inner,
                    fragment,
                );
                assert(state + here =~= state);
            },
            Definition::Operation(operation) => {
                let entered = SingleFieldSubscriptions::on_enter(
                    state,
                    inner,
                    Node::OperationDefinition(operation),
                );
                lemma_walk_operation_body_keeps::<SingleFieldSubscriptions>(
                    keeps,
                    entered,
                    inner,
                    operation,
                );
                lemma_walk_operation_body_keeps::<SingleFieldSubscriptions>(
                    keeps,
                    state,
                    inner,
                    operation,
                );
                assert(entered =~= state + here);
            },
        }
        let next = walk_definition::<SingleFieldSubscriptions>(state, ctx, definition);
        assert(next == state + here);
        lemma_subscription_definitions(next, ctx, definitions, i + 1);
        let rest = spec_subscription_errors_from(ctx.operation, definitions, i + 1);
        assert((state + here) + rest =~= state + (here + rest));
    } else {
        assert(state + Seq::<ErrorView>::empty() =~= state);
    }
}

/// The rule reports each subscription of the document that does not select
/// exactly one field at its top level, in document order, and nothing else.
pub proof fn lemma_rule_reports_subscriptions(schema: &schema::Document, operation: &Document)
    ensures
        SingleFieldSubscriptions::spec_errors(schema, operation) == spec_subscription_errors_from(
            operation,
            operation.definitions@,
            0,
        ),
{
    let ctx = ContextView::initial(schema, operation);
    lemma_subscription_definitions(Seq::empty(), ctx, operation.definitions@, 0);
    assert(Seq::<ErrorView>::empty() + spec_subscription_errors_from(
        operation,
        operation.definitions@,
        0,
    ) =~= spec_subscription_errors_from(operation, operation.definitions@, 0));
}

} // verus!
