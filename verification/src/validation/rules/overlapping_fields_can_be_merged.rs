//! Fields that appear under one key in the response must be mergeable, and
//! no fragment may spread itself.
//!
//! Two field selections of a selection set that share a response key are in
//! conflict where they select different fields, where they pass different
//! arguments, where their definitions return types that cannot stand for one
//! another, or where two of the fields that they select in turn are in
//! conflict. The selections of a set are taken with its fragments opened.
use vstd::prelude::*;
use crate::ast::operation_visitor::{
    spec_definition_type, spec_field_arguments, spec_field_definition, spec_field_type,
    visit_document, walk_definition, walk_definitions, walk_document, walk_selection,
    walk_selection_set, walk_selections, ContextView, Node, OperationVisitor,
    OperationVisitorContext,
};
use crate::static_graphql::query::{
    Directive, Document, Field, FragmentDefinition, FragmentSpread, InlineFragment,
    OperationDefinition, SelectionSet, Value, VariableDefinition,
};
use crate::static_graphql::schema;
use crate::validation::rules::rule::ValidationRule;
use crate::validation::utils::{
    error_views, lemma_error_views_empty, report_error, ErrorView, ValidationContext,
    ValidationError,
};
use crate::ast::fragment_spreads::{new_marks, spec_count_unmarked};
use crate::ast::walk_laws::{
    lemma_walk_arguments_keeps, lemma_walk_directives_keeps,
    lemma_walk_variable_definitions_keeps, spec_hooks_keep_input,
};
use crate::validation::rules::fields_on_correct_type::spec_selected_type;
use crate::validation::rules::fragment_cycles_proof::{
    lemma_cycle_is_reported, spec_is_fragment_cycle,
};
use crate::static_graphql::query::{Definition, Pos, Selection, Type, TypeCondition};
use crate::validation::rules::field_records::{
    collect_records, copy_marks, lemma_collect_set, record_views, response_key,
    spec_collect_set, spec_record_within, spec_records_within, spec_response_key, spec_set_size,
    FieldRecord, RecordView,
};
use crate::validation::rules::fragment_cycles::{
    detect_fragment_cycles, spec_fragment_cycle_errors,
};
use crate::validation::rules::values::{same_arguments, spec_same_arguments};
use crate::validation::utils::{
    lemma_error_views_add, message_around, message_around_two, spec_type_text, type_text,
};

verus! {

/// Whether two records are selected on one and the same object type.
pub open spec fn spec_same_object_parent(a: RecordView, b: RecordView) -> bool {
    match (a.parent, b.parent) {
        (Some(schema::TypeDefinition::Object(x)), Some(schema::TypeDefinition::Object(y))) => x.name@
            == y.name@,
        _ => false,
    }
}

/// Tells whether two records are selected on one and the same object type.
pub fn same_object_parent(a: &FieldRecord, b: &FieldRecord) -> (res: bool)
    ensures
        res == spec_same_object_parent(a@, b@),
{
    match (a.parent, b.parent) {
        (Some(schema::TypeDefinition::Object(x)), Some(schema::TypeDefinition::Object(y))) => x.name
            == y.name,
        _ => false,
    }
}

/// Whether two result types cannot stand for one another. A non-null type
/// agrees only with a non-null type, a list only with a list, each with
/// agreeing inner types. Two named types of which one is a leaf agree where
/// they have one name. Two other named types disagree only where their names
/// differ and both fields are selected on the same object type.
pub open spec fn spec_types_conflict(
    schema: &schema::Document,
    a: Type,
    b: Type,
    same_parent: bool,
) -> bool
    decreases a,
{
    match (a, b) {
        (Type::NonNullType(x), Type::NonNullType(y)) => spec_types_conflict(
            schema,
            *x,
            *y,
            same_parent,
        ),
        (Type::NonNullType(_), _) => true,
        (_, Type::NonNullType(_)) => true,
        (Type::ListType(x), Type::ListType(y)) => spec_types_conflict(schema, *x, *y, same_parent),
        (Type::ListType(_), _) => true,
        (_, Type::ListType(_)) => true,
        (Type::NamedType(x), Type::NamedType(y)) => if schema.spec_is_leaf_type_name(x@)
            || schema.spec_is_leaf_type_name(y@) {
            x@ != y@
        } else {
            x@ != y@ && same_parent
        },
    }
}

/// Tells whether two result types cannot stand for one another.
pub fn types_conflict(schema: &schema::Document, a: &Type, b: &Type, same_parent: bool) -> (res:
    bool)
    ensures
        res == spec_types_conflict(schema, *a, *b, same_parent),
    decreases a,
{
    match (a, b) {
        (Type::NonNullType(x), Type::NonNullType(y)) => types_conflict(schema, x, y, same_parent),
        (Type::NonNullType(_), _) => true,
        (_, Type::NonNullType(_)) => true,
        (Type::ListType(x), Type::ListType(y)) => types_conflict(schema, x, y, same_parent),
        (Type::ListType(_), _) => true,
        (_, Type::ListType(_)) => true,
        (Type::NamedType(x), Type::NamedType(y)) => {
            if schema.is_leaf_type_name(x) || schema.is_leaf_type_name(y) {
                !(*x == *y)
            } else {
                !(*x == *y) && same_parent
            }
        },
    }
}

/// Whether both records have a definition and the two definitions return
/// types that cannot stand for one another.
pub open spec fn spec_definitions_conflict(
    schema: &schema::Document,
    a: RecordView,
    b: RecordView,
) -> bool {
    match (a.definition, b.definition) {
        (Some(x), Some(y)) => spec_types_conflict(
            schema,
            x.field_type,
            y.field_type,
            spec_same_object_parent(a, b),
        ),
        _ => false,
    }
}

/// The type whose fields the selections of a record's field select: the type
/// that the definition of the field returns.
pub open spec fn spec_record_type<'a>(
    schema: &'a schema::Document,
    record: RecordView<'a>,
) -> Option<&'a schema::TypeDefinition> {
    match record.definition {
        Some(definition) => schema.spec_type_by_name(definition.field_type.spec_inner_type()@),
        None => None,
    }
}

/// The records of the selection set of a record's field.
pub open spec fn spec_sub_records<'a>(
    schema: &'a schema::Document,
    document: &'a Document,
    record: RecordView<'a>,
) -> Seq<RecordView<'a>> {
    spec_collect_set(
        schema,
        document,
        &record.field.selection_set,
        spec_record_type(schema, record),
        record.expanded,
    )
}

/// The reason that two selections under one key select different fields.
pub open spec fn spec_different_fields_reason(a: Seq<char>, b: Seq<char>) -> Seq<char> {
    "\""@ + a + "\" and \""@ + b + "\" are different fields"@
}

/// The reason that two selections under one key return types that cannot
/// stand for one another.
pub open spec fn spec_conflicting_types_reason(a: Type, b: Type) -> Seq<char> {
    "they return conflicting types \""@ + spec_type_text(a) + "\" and \""@ + spec_type_text(b)
        + "\""@
}

/// The reason that two selections under one key select, under the key `key`,
/// fields that are in conflict for the reason `reason`.
pub open spec fn spec_subfields_reason(key: Seq<char>, reason: Seq<char>) -> Seq<char> {
    "subfields \""@ + key + "\" conflict because "@ + reason
}

/// How many fragments are not open at a record.
pub open spec fn spec_closed_count(record: RecordView) -> nat {
    spec_count_unmarked(record.expanded, record.expanded.len() as int)
}

/// Why two selections under one key are in conflict, if they are: the first
/// of these that holds. They select fields of different names. They pass
/// different arguments. Their definitions return types that cannot stand for
/// one another. Two of the fields that they select in turn, one under each,
/// share a key and are in conflict.
pub open spec fn spec_pair_reason<'a>(
    schema: &'a schema::Document,
    document: &'a Document,
    a: RecordView<'a>,
    b: RecordView<'a>,
) -> Option<Seq<char>>
    decreases spec_closed_count(a) + spec_closed_count(b), spec_set_size(&a.field.selection_set)
        + spec_set_size(&b.field.selection_set), 1nat, 0nat, 0nat,
{
    if a.field.name@ != b.field.name@ {
        Some(spec_different_fields_reason(a.field.name@, b.field.name@))
    } else if !spec_same_arguments(a.field.arguments@, b.field.arguments@) {
        Some("they have differing arguments"@)
    } else if spec_definitions_conflict(schema, a, b) {
        Some(
            spec_conflicting_types_reason(
                a.definition->Some_0.field_type,
                b.definition->Some_0.field_type,
            ),
        )
    } else {
        spec_cross_reason(schema, document, a, b, 0, 0)
    }
}

/// The reason for the first conflict between a field selected under `a` and
/// one selected under `b`, among the pairs from the `i`-th under `a` and the
/// `j`-th under `b` on.
pub open spec fn spec_cross_reason<'a>(
    schema: &'a schema::Document,
    document: &'a Document,
    a: RecordView<'a>,
    b: RecordView<'a>,
    i: int,
    j: int,
) -> Option<Seq<char>>
    decreases spec_closed_count(a) + spec_closed_count(b), spec_set_size(&a.field.selection_set)
        + spec_set_size(&b.field.selection_set), 0nat, spec_sub_records(schema, document, a).len()
        - i, spec_sub_records(schema, document, b).len() - j,
{
    let xs = spec_sub_records(schema, document, a);
    let ys = spec_sub_records(schema, document, b);
    if 0 <= i < xs.len() {
        if 0 <= j < ys.len() {
            let inner = if spec_response_key(xs[i].field) == spec_response_key(ys[j].field) {
                proof {
                    lemma_sub_records_within(schema, document, a);
                    lemma_sub_records_within(schema, document, b);
                }
                spec_pair_reason(schema, document, xs[i], ys[j])
            } else {
                None
            };
            match inner {
                Some(reason) => Some(spec_subfields_reason(spec_response_key(xs[i].field), reason)),
                None => spec_cross_reason(schema, document, a, b, i, j + 1),
            }
        } else {
            spec_cross_reason(schema, document, a, b, i + 1, 0)
        }
    } else {
        None
    }
}

/// The records under a record lie within it.
pub proof fn lemma_sub_records_within<'a>(
    schema: &'a schema::Document,
    document: &'a Document,
    record: RecordView<'a>,
)
    ensures
        spec_records_within(
            spec_sub_records(schema, document, record),
            record.expanded,
            spec_set_size(&record.field.selection_set),
        ),
{
    lemma_collect_set(
        schema,
        document,
        &record.field.selection_set,
        spec_record_type(schema, record),
        record.expanded,
    );
}

/// The error for two selections under the key `key` that are in conflict for
/// the reason `reason`. It points at both.
pub open spec fn spec_conflict_error(
    key: Seq<char>,
    reason: Seq<char>,
    first: Pos,
    second: Pos,
) -> ErrorView {
    ErrorView {
        message: "Fields \""@ + key + "\" conflict because "@ + reason + "."@,
        locations: seq![first, second],
    }
}

/// The errors for the pair of the `i`-th and the `j`-th record: one where
/// the two share a key and are in conflict.
pub open spec fn spec_pair_errors<'a>(
    schema: &'a schema::Document,
    document: &'a Document,
    records: Seq<RecordView<'a>>,
    i: int,
    j: int,
) -> Seq<ErrorView> {
    if spec_response_key(records[i].field) == spec_response_key(records[j].field) {
        match spec_pair_reason(schema, document, records[i], records[j]) {
            Some(reason) => seq![
                spec_conflict_error(
                    spec_response_key(records[i].field),
                    reason,
                    records[i].field.position,
                    records[j].field.position,
                ),
            ],
            None => Seq::empty(),
        }
    } else {
        Seq::empty()
    }
}

/// The errors for the pairs of records from the pair of the `i`-th and the
/// `j`-th on: each record with each that follows it.
pub open spec fn spec_conflicts_from<'a>(
    schema: &'a schema::Document,
    document: &'a Document,
    records: Seq<RecordView<'a>>,
    i: int,
    j: int,
) -> Seq<ErrorView>
    decreases records.len() - i, records.len() - j,
{
    if 0 <= i < records.len() {
        if i < j < records.len() {
            spec_pair_errors(schema, document, records, i, j) + spec_conflicts_from(
                schema,
                document,
                records,
                i,
                j + 1,
            )
        } else {
            spec_conflicts_from(schema, document, records, i + 1, i + 2)
        }
    } else {
        Seq::empty()
    }
}

/// The errors for the conflicts in a selection set that is selected on the
/// type `parent`.
pub open spec fn spec_set_conflicts<'a>(
    schema: &'a schema::Document,
    document: &'a Document,
    selection_set: &'a SelectionSet,
    parent: &'a schema::TypeDefinition,
) -> Seq<ErrorView> {
    spec_conflicts_from(
        schema,
        document,
        spec_collect_set(
            schema,
            document,
            selection_set,
            Some(parent),
            Seq::new(document.definitions@.len(), |i: int| false),
        ),
        0,
        1,
    )
}

/// Collects the records of the selection set of a record's field.
pub fn sub_records<'a>(
    schema: &'a schema::Document,
    document: &'a Document,
    record: &FieldRecord<'a>,
) -> (res: Vec<FieldRecord<'a>>)
    requires
        record@.expanded.len() == document.definitions@.len(),
    ensures
        record_views(res@) == spec_sub_records(schema, document, record@),
{
    let inner = match record.definition {
        Some(definition) => schema.type_by_name(definition.field_type.inner_type()),
        None => None,
    };
    let mut marks = copy_marks(&record.expanded);
    let mut out: Vec<FieldRecord<'a>> = Vec::new();
    assert(record_views(out@) =~= Seq::<RecordView<'a>>::empty());
    collect_records(schema, document, &record.field.selection_set, inner, &mut marks, &mut out);
    assert(Seq::<RecordView<'a>>::empty() + spec_sub_records(schema, document, record@)
        =~= spec_sub_records(schema, document, record@));
    out
}

/// Returns why two selections under one key are in conflict, if they are.
pub fn pair_reason<'a>(
    schema: &'a schema::Document,
    document: &'a Document,
    a: &FieldRecord<'a>,
    b: &FieldRecord<'a>,
) -> (res: Option<String>)
    requires
        a@.expanded.len() == document.definitions@.len(),
        b@.expanded.len() == document.definitions@.len(),
    ensures
        match res {
            Some(reason) => spec_pair_reason(schema, document, a@, b@) == Some(reason@),
            None => spec_pair_reason(schema, document, a@, b@) is None,
        },
    decreases spec_closed_count(a@) + spec_closed_count(b@), spec_set_size(
            &a@.field.selection_set,
        ) + spec_set_size(&b@.field.selection_set),
{
    if !(a.field.name == b.field.name) {
        return Some(
            message_around_two("\"", &a.field.name, "\" and \"", &b.field.name, "\" are different fields"),
        );
    }
    if !same_arguments(&a.field.arguments, &b.field.arguments) {
        return Some(String::from_str("they have differing arguments"));
    }
    match (a.definition, b.definition) {
        (Some(x), Some(y)) => {
            if types_conflict(schema, &x.field_type, &y.field_type, same_object_parent(a, b)) {
                let first = type_text(&x.field_type);
                let second = type_text(&y.field_type);
                return Some(
                    message_around_two(
                        "they return conflicting types \"",
                        &first,
                        "\" and \"",
                        &second,
                        "\"",
                    ),
                );
            }
        },
        _ => {},
    }
    let xs = sub_records(schema, document, a);
    let ys = sub_records(schema, document, b);
    proof {
        lemma_sub_records_within(schema, document, a@);
        lemma_sub_records_within(schema, document, b@);
    }
    let ghost whole = spec_pair_reason(schema, document, a@, b@);
    assert(whole == spec_cross_reason(schema, document, a@, b@, 0, 0));
    let mut i: usize = 0;
    while i < xs.len()
        invariant
            i <= xs.len(),
            a@.expanded.len() == document.definitions@.len(),
            b@.expanded.len() == document.definitions@.len(),
            record_views(xs@) == spec_sub_records(schema, document, a@),
            record_views(ys@) == spec_sub_records(schema, document, b@),
            spec_records_within(
                record_views(xs@),
                a@.expanded,
                spec_set_size(&a@.field.selection_set),
            ),
            spec_records_within(
                record_views(ys@),
                b@.expanded,
                spec_set_size(&b@.field.selection_set),
            ),
            spec_cross_reason(schema, document, a@, b@, i as int, 0) == whole,
            whole == spec_pair_reason(schema, document, a@, b@),
        decreases xs.len() - i,
    {
        let mut j: usize = 0;
        while j < ys.len()
            invariant
                i < xs.len(),
                j <= ys.len(),
                a@.expanded.len() == document.definitions@.len(),
                b@.expanded.len() == document.definitions@.len(),
                record_views(xs@) == spec_sub_records(schema, document, a@),
                record_views(ys@) == spec_sub_records(schema, document, b@),
                spec_records_within(
                    record_views(xs@),
                    a@.expanded,
                    spec_set_size(&a@.field.selection_set),
                ),
                spec_records_within(
                    record_views(ys@),
                    b@.expanded,
                    spec_set_size(&b@.field.selection_set),
                ),
                spec_cross_reason(schema, document, a@, b@, i as int, j as int) == whole,
                whole == spec_pair_reason(schema, document, a@, b@),
            decreases ys.len() - j,
        {
            let x = &xs[i];
            let y = &ys[j];
            assert(record_views(xs@)[i as int] == x@);
            assert(record_views(ys@)[j as int] == y@);
            assert(spec_record_within(x@, a@.expanded, spec_set_size(&a@.field.selection_set)));
            assert(spec_record_within(y@, b@.expanded, spec_set_size(&b@.field.selection_set)));
            if *response_key(x.field) == *response_key(y.field) {
                if let Some(reason) = pair_reason(schema, document, x, y) {
                    let mut message = message_around(
                        "subfields \"",
                        response_key(x.field),
                        "\" conflict because ",
                    );
                    message.append(reason.as_str());
                    return Some(message);
                }
            }
            j += 1;
        }
        i += 1;
    }
    None
}

/// Adds to `errors` the errors for the conflicts in a selection set that is
/// selected on the type `parent`.
pub fn report_conflicts<'a>(
    schema: &'a schema::Document,
    document: &'a Document,
    selection_set: &'a SelectionSet,
    parent: &'a schema::TypeDefinition,
    errors: &mut Vec<ValidationError>,
)
    ensures
        error_views(final(errors)@) == error_views(old(errors)@) + spec_set_conflicts(
            schema,
            document,
            selection_set,
            parent,
        ),
{
    let mut marks = new_marks(document.definitions.len());
    assert(marks@ =~= Seq::new(document.definitions@.len(), |i: int| false));
    let ghost start = marks@;
    let mut records: Vec<FieldRecord<'a>> = Vec::new();
    assert(record_views(records@) =~= Seq::<RecordView<'a>>::empty());
    collect_records(schema, document, selection_set, Some(parent), &mut marks, &mut records);
    let ghost views = record_views(records@);
    proof {
        assert(Seq::<RecordView<'a>>::empty() + views =~= views);
        lemma_collect_set(schema, document, selection_set, Some(parent), start);
    }
    let ghost all = spec_conflicts_from(schema, document, views, 0, 1);
    let n = records.len();
    let mut i: usize = 0;
    while i < n
        invariant
            i <= n,
            n == records@.len(),
            views == record_views(records@),
            spec_records_within(views, start, spec_set_size(selection_set)),
            start.len() == document.definitions@.len(),
            error_views(errors@) + spec_conflicts_from(schema, document, views, i as int, i + 1)
                == error_views(old(errors)@) + all,
        decreases n - i,
    {
        let mut j: usize = i + 1;
        while j < n
            invariant
                i < n,
                i < j <= n,
                n == records@.len(),
                views == record_views(records@),
                spec_records_within(views, start, spec_set_size(selection_set)),
                start.len() == document.definitions@.len(),
                error_views(errors@) + spec_conflicts_from(
                    schema,
                    document,
                    views,
                    i as int,
                    j as int,
                ) == error_views(old(errors)@) + all,
            decreases n - j,
        {
            let a = &records[i];
            let b = &records[j];
            let ghost before = error_views(errors@);
            let ghost here = spec_pair_errors(schema, document, views, i as int, j as int);
            let ghost rest = spec_conflicts_from(schema, document, views, i as int, j + 1);
            assert(views[i as int] == a@);
            assert(views[j as int] == b@);
            assert(spec_record_within(a@, start, spec_set_size(selection_set)));
            assert(spec_record_within(b@, start, spec_set_size(selection_set)));
            if *response_key(a.field) == *response_key(b.field) {
                if let Some(reason) = pair_reason(schema, document, a, b) {
                    let mut message = message_around_two(
                        "Fields \"",
                        response_key(a.field),
                        "\" conflict because ",
                        &reason,
                        ".",
                    );
                    let mut locations: Vec<Pos> = Vec::new();
                    locations.push(a.field.position);
                    locations.push(b.field.position);
                    assert(locations@ =~= seq![a.field.position, b.field.position]);
                    report_error(errors, message, locations);
                    assert(error_views(errors@) =~= before + here);
                }
            }
            assert(error_views(errors@) =~= before + here);
            assert((before + here) + rest =~= before + (here + rest));
            j += 1;
        }
        i += 1;
    }
    assert(error_views(errors@) + Seq::<ErrorView>::empty() =~= error_views(errors@));
}

/// The rule that fields under one response key can be merged and that no
/// fragment spreads itself.
pub struct OverlappingFieldsCanBeMerged {
    errors: Vec<ValidationError>,
}

impl OverlappingFieldsCanBeMerged {
    /// Makes the rule, ready to start a walk.
    pub fn new() -> (res: Self)
        ensures
            res.state() == Seq::<ErrorView>::empty(),
    {
        proof {
            lemma_error_views_empty();
        }
        OverlappingFieldsCanBeMerged { errors: Vec::new() }
    }
}

impl<'a> OperationVisitor<'a> for OverlappingFieldsCanBeMerged {
    /// The errors found so far.
    type State = Seq<ErrorView>;

    closed spec fn state(&self) -> Seq<ErrorView> {
        error_views(self.errors@)
    }

    /// Entering the document reports its fragment cycles. Entering a
    /// selection set that is selected on an object, interface or union type
    /// reports the conflicts among its fields.
    open spec fn on_enter(state: Seq<ErrorView>, ctx: ContextView<'a>, node: Node<'a>) -> Seq<
        ErrorView,
    > {
        match node {
            Node::Document(document) => state + spec_fragment_cycle_errors(document),
            Node::SelectionSet(selection_set) => match ctx.current_parent_type() {
                Some(parent) => if parent is Object || parent is Interface || parent is Union {
                    state + spec_set_conflicts(ctx.schema, ctx.operation, selection_set, parent)
                } else {
                    state
                },
                None => state,
            },
            _ => state,
        }
    }

    open spec fn on_leave(state: Seq<ErrorView>, ctx: ContextView<'a>, node: Node<'a>) -> Seq<
        ErrorView,
    > {
        state
    }

    fn enter_document(&mut self, _ctx: &OperationVisitorContext<'a>, document: &'a Document) {
        let mut found = detect_fragment_cycles(document);
        proof {
            lemma_error_views_add(self.errors@, found@);
        }
        self.errors.append(&mut found);
    }

    fn leave_document(&mut self, _ctx: &OperationVisitorContext<'a>, _document: &'a Document) {
    }

    fn enter_operation_definition(
        &mut self,
        _ctx: &OperationVisitorContext<'a>,
        _operation: &'a OperationDefinition,
    ) {
    }

    fn leave_operation_definition(
        &mut self,
        _ctx: &OperationVisitorContext<'a>,
        _operation: &'a OperationDefinition,
    ) {
    }

    fn enter_fragment_definition(
        &mut self,
        _ctx: &OperationVisitorContext<'a>,
        _fragment: &'a FragmentDefinition,
    ) {
    }

    fn leave_fragment_definition(
        &mut self,
        _ctx: &OperationVisitorContext<'a>,
        _fragment: &'a FragmentDefinition,
    ) {
    }

    fn enter_variable_definition(
        &mut self,
        _ctx: &OperationVisitorContext<'a>,
        _variable: &'a VariableDefinition,
    ) {
    }

    fn leave_variable_definition(
        &mut self,
        _ctx: &OperationVisitorContext<'a>,
        _variable: &'a VariableDefinition,
    ) {
    }

    fn enter_directive(&mut self, _ctx: &OperationVisitorContext<'a>, _directive: &'a Directive) {
    }

    fn leave_directive(&mut self, _ctx: &OperationVisitorContext<'a>, _directive: &'a Directive) {
    }

    fn enter_argument(
        &mut self,
        _ctx: &OperationVisitorContext<'a>,
        _argument: &'a (String, Value),
    ) {
    }

    fn leave_argument(
        &mut self,
        _ctx: &OperationVisitorContext<'a>,
        _argument: &'a (String, Value),
    ) {
    }

    fn enter_selection_set(
        &mut self,
        ctx: &OperationVisitorContext<'a>,
        selection_set: &'a SelectionSet,
    ) {
        if let Some(parent) = ctx.current_parent_type() {
            let composite = match parent {
                schema::TypeDefinition::Object(_) => true,
                schema::TypeDefinition::Interface(_) => true,
                schema::TypeDefinition::Union(_) => true,
                _ => false,
            };
            if composite {
                report_conflicts(ctx.schema(), ctx.operation(), selection_set, parent, &mut self.errors);
            }
        }
    }

    fn leave_selection_set(
        &mut self,
        _ctx: &OperationVisitorContext<'a>,
        _selection_set: &'a SelectionSet,
    ) {
    }

    fn enter_field(&mut self, _ctx: &OperationVisitorContext<'a>, _field: &'a Field) {
    }

    fn leave_field(&mut self, _ctx: &OperationVisitorContext<'a>, _field: &'a Field) {
    }

    fn enter_fragment_spread(
        &mut self,
        _ctx: &OperationVisitorContext<'a>,
        _fragment_spread: &'a FragmentSpread,
    ) {
    }

    fn leave_fragment_spread(
        &mut self,
        _ctx: &OperationVisitorContext<'a>,
        _fragment_spread: &'a FragmentSpread,
    ) {
    }

    fn enter_inline_fragment(
        &mut self,
        _ctx: &OperationVisitorContext<'a>,
        _inline_fragment: &'a InlineFragment,
    ) {
    }

    fn leave_inline_fragment(
        &mut self,
        _ctx: &OperationVisitorContext<'a>,
        _inline_fragment: &'a InlineFragment,
    ) {
    }

    fn enter_null_value(&mut self, _ctx: &OperationVisitorContext<'a>) {
    }

    fn leave_null_value(&mut self, _ctx: &OperationVisitorContext<'a>) {
    }

    fn enter_scalar_value(&mut self, _ctx: &OperationVisitorContext<'a>, _value: &'a Value) {
    }

    fn leave_scalar_value(&mut self, _ctx: &OperationVisitorContext<'a>, _value: &'a Value) {
    }

    fn enter_enum_value(&mut self, _ctx: &OperationVisitorContext<'a>, _value: &'a String) {
    }

    fn leave_enum_value(&mut self, _ctx: &OperationVisitorContext<'a>, _value: &'a String) {
    }

    fn enter_variable_value(&mut self, _ctx: &OperationVisitorContext<'a>, _name: &'a String) {
    }

    fn leave_variable_value(&mut self, _ctx: &OperationVisitorContext<'a>, _name: &'a String) {
    }

    fn enter_list_value(&mut self, _ctx: &OperationVisitorContext<'a>, _items: &'a Vec<Value>) {
    }

    fn leave_list_value(&mut self, _ctx: &OperationVisitorContext<'a>, _items: &'a Vec<Value>) {
    }

    fn enter_object_value(
        &mut self,
        _ctx: &OperationVisitorContext<'a>,
        _entries: &'a Vec<(String, Value)>,
    ) {
    }

    fn leave_object_value(
        &mut self,
        _ctx: &OperationVisitorContext<'a>,
        _entries: &'a Vec<(String, Value)>,
    ) {
    }

    fn enter_object_field(
        &mut self,
        _ctx: &OperationVisitorContext<'a>,
        _entry: &'a (String, Value),
    ) {
    }

    fn leave_object_field(
        &mut self,
        _ctx: &OperationVisitorContext<'a>,
        _entry: &'a (String, Value),
    ) {
    }
}

impl OverlappingFieldsCanBeMerged {
    /// The errors that the rule reports on `operation` against `schema`:
    /// those that a walk of the document leaves in the state of the rule.
    pub open spec fn spec_errors(schema: &schema::Document, operation: &Document) -> Seq<
        ErrorView,
    > {
        walk_document::<OverlappingFieldsCanBeMerged>(
            Seq::empty(),
            ContextView::initial(schema, operation),
            operation,
        )
    }
}

impl ValidationRule for OverlappingFieldsCanBeMerged {
    open spec fn spec_validate(
        &self,
        schema: &schema::Document,
        operation: &Document,
    ) -> Seq<ErrorView> {
        Self::spec_errors(schema, operation)
    }

    fn validate<'a>(&self, ctx: &ValidationContext<'a>) -> (res: Vec<ValidationError>) {
        let mut visitor = OverlappingFieldsCanBeMerged::new();
        let mut context = OperationVisitorContext::new(ctx.operation, ctx.schema);
        visit_document(&mut visitor, ctx.operation, &mut context);
        visitor.errors
    }
}

/// Where the fragments of a document form a cycle, the rule reports at least
/// one error.
pub proof fn lemma_rule_reports_a_cycle(
    schema: &schema::Document,
    operation: &Document,
    names: Seq<Seq<char>>,
)
    requires
        spec_is_fragment_cycle(operation, names),
    ensures
        OverlappingFieldsCanBeMerged::spec_errors(schema, operation).len() >= 1,
{
    lemma_cycle_is_reported(operation, names);
    lemma_rule_reports_cycles_and_conflicts(schema, operation);
}

/// The errors for a selection set that is selected on the type `parent`
/// and for the selection sets under it, in document order: for each set that
/// is selected on an object, interface or union type, the conflicts among
/// its fields.
pub open spec fn spec_conflicts_in_set<'a>(
    schema: &'a schema::Document,
    document: &'a Document,
    selection_set: &'a SelectionSet,
    parent: Option<&'a schema::TypeDefinition>,
) -> Seq<ErrorView>
    decreases selection_set, 1nat, 0nat,
{
    spec_conflicts_of_set(schema, document, selection_set, parent) + spec_conflicts_in_selections(
        schema,
        document,
        selection_set,
        parent,
        0,
    )
}

/// The errors for a selection set itself, selected on the type `parent`.
pub open spec fn spec_conflicts_of_set<'a>(
    schema: &'a schema::Document,
    document: &'a Document,
    selection_set: &'a SelectionSet,
    parent: Option<&'a schema::TypeDefinition>,
) -> Seq<ErrorView> {
    match parent {
        Some(t) => if t is Object || t is Interface || t is Union {
            spec_set_conflicts(schema, document, selection_set, t)
        } else {
            Seq::empty()
        },
        None => Seq::empty(),
    }
}

/// The errors for the selection sets under the selections from the `i`-th
/// on.
pub open spec fn spec_conflicts_in_selections<'a>(
    schema: &'a schema::Document,
    document: &'a Document,
    selection_set: &'a SelectionSet,
    parent: Option<&'a schema::TypeDefinition>,
    i: int,
) -> Seq<ErrorView>
    decreases selection_set, 0nat, selection_set.items.len() - i,
{
    if 0 <= i < selection_set.items.len() {
        spec_conflicts_in_selection(schema, document, &selection_set.items[i], parent)
            + spec_conflicts_in_selections(schema, document, selection_set, parent, i + 1)
    } else {
        Seq::empty()
    }
}

/// The errors for the selection sets under one selection. The set of a field
/// is selected on the type that the definition of the field returns, the set
/// of an inline fragment on the type of its type condition, and on `parent`
/// where it has none.
pub open spec fn spec_conflicts_in_selection<'a>(
    schema: &'a schema::Document,
    document: &'a Document,
    selection: &'a Selection,
    parent: Option<&'a schema::TypeDefinition>,
) -> Seq<ErrorView>
    decreases selection, 0nat, 0nat,
{
    match selection {
        Selection::Field(field) => spec_conflicts_in_set(
            schema,
            document,
            &field.selection_set,
            spec_selected_type(schema, parent, field.name@),
        ),
        Selection::FragmentSpread(_) => Seq::empty(),
        Selection::InlineFragment(inline) => spec_conflicts_in_set(
            schema,
            document,
            &inline.selection_set,
            match inline.type_condition {
                Some(TypeCondition::On(name)) => schema.spec_type_by_name(name@),
                None => parent,
            },
        ),
    }
}

/// The errors for the selection sets of the definitions from the `i`-th on.
/// The set of a fragment is selected on the type of its type condition, the
/// set of an operation on its root type.
pub open spec fn spec_conflicts_in_definitions<'a>(
    schema: &'a schema::Document,
    document: &'a Document,
    definitions: Seq<Definition>,
    i: int,
) -> Seq<ErrorView>
    decreases definitions.len() - i,
{
    if 0 <= i < definitions.len() {
        (match definitions[i] {
            Definition::Fragment(fragment) => spec_conflicts_in_set(
                schema,
                document,
                &fragment.selection_set,
                match fragment.type_condition {
                    TypeCondition::On(name) => schema.spec_type_by_name(name@),
                },
            ),
            Definition::Operation(operation) => spec_conflicts_in_set(
                schema,
                document,
                operation.spec_selection_set(),
                match schema.spec_root_type(operation.spec_root_kind()) {
                    Some(root) => schema.spec_type_by_name(root.name@),
                    None => None,
                },
            ),
        }) + spec_conflicts_in_definitions(schema, document, definitions, i + 1)
    } else {
        Seq::empty()
    }
}

/// The walk of a selection set adds the errors for it and for the sets under
/// it to the state and nothing else. The type that is current where the set
/// is entered is the type that it is selected on.
pub proof fn lemma_conflicts_in_set<'a>(
    state: Seq<ErrorView>,
    ctx: ContextView<'a>,
    selection_set: &'a SelectionSet,
)
    ensures
        walk_selection_set::<OverlappingFieldsCanBeMerged>(state, ctx, selection_set) == state
            + spec_conflicts_in_set(
            ctx.schema,
            ctx.operation,
            selection_set,
            ctx.current_type(),
        ),
    decreases selection_set, 1nat, 0nat,
{
    let inner = ctx.with_parent_type();
    let parent = ctx.current_type();
    let entered = OverlappingFieldsCanBeMerged::on_enter(
        state,
        inner,
        Node::SelectionSet(selection_set),
    );
    let here = spec_conflicts_of_set(ctx.schema, ctx.operation, selection_set, parent);
    assert(inner.current_parent_type() == parent);
    assert(entered =~= state + here);
    lemma_conflicts_in_selections(entered, inner, selection_set, parent, 0);
    let below = spec_conflicts_in_selections(ctx.schema, ctx.operation, selection_set, parent, 0);
    assert((state + here) + below =~= state + (here + below));
}

/// The walk of the selections from the `i`-th on adds the errors for the
/// sets under them to the state and nothing else.
pub proof fn lemma_conflicts_in_selections<'a>(
    state: Seq<ErrorView>,
    ctx: ContextView<'a>,
    selection_set: &'a SelectionSet,
    parent: Option<&'a schema::TypeDefinition>,
    i: int,
)
    requires
        0 <= i <= selection_set.items.len(),
        ctx.current_type() == parent,
        ctx.current_parent_type() == parent,
    ensures
        walk_selections::<OverlappingFieldsCanBeMerged>(state, ctx, selection_set, i) == state
            + spec_conflicts_in_selections(ctx.schema, ctx.operation, selection_set, parent, i),
    decreases selection_set, 0nat, selection_set.items.len() - i,
{
    if i < selection_set.items.len() {
        lemma_conflicts_in_selection(state, ctx, &selection_set.items[i], parent);
        let next = walk_selection::<OverlappingFieldsCanBeMerged>(
            state,
            ctx,
            &selection_set.items[i],
        );
        lemma_conflicts_in_selections(next, ctx, selection_set, parent, i + 1);
        let first = spec_conflicts_in_selection(
            ctx.schema,
            ctx.operation,
            &selection_set.items[i],
            parent,
        );
        let second = spec_conflicts_in_selections(
            ctx.schema,
            ctx.operation,
            selection_set,
            parent,
            i + 1,
        );
        assert((state + first) + second =~= state + (first + second));
    } else {
        assert(state + Seq::<ErrorView>::empty() =~= state);
    }
}

/// The walk of a selection adds the errors for the sets under it to the
/// state and nothing else.
pub proof fn lemma_conflicts_in_selection<'a>(
    state: Seq<ErrorView>,
    ctx: ContextView<'a>,
    selection: &'a Selection,
    parent: Option<&'a schema::TypeDefinition>,
)
    requires
        ctx.current_type() == parent,
        ctx.current_parent_type() == parent,
    ensures
        walk_selection::<OverlappingFieldsCanBeMerged>(state, ctx, selection) == state
            + spec_conflicts_in_selection(ctx.schema, ctx.operation, selection, parent),
    decreases selection, 0nat, 0nat,
{
    let keeps = |a: Seq<ErrorView>, b: Seq<ErrorView>| a == b;
    assert(spec_hooks_keep_input::<OverlappingFieldsCanBeMerged>(keeps));
    match selection {
        Selection::Field(field) => {
            let def = spec_field_definition(ctx, field.name@);
            let inner = ctx.with_type(spec_field_type(def));
            lemma_walk_arguments_keeps::<OverlappingFieldsCanBeMerged>(
                keeps,
                state,
                inner,
                spec_field_arguments(def),
                field.arguments@,
                0,
            );
            lemma_walk_directives_keeps::<OverlappingFieldsCanBeMerged>(
                keeps,
                state,
                inner,
                field.directives@,
                0,
            );
            lemma_conflicts_in_set(state, inner, &field.selection_set);
            assert(inner.current_type() == spec_selected_type(ctx.schema, parent, field.name@));
        },
        Selection::FragmentSpread(spread) => {
            lemma_walk_directives_keeps::<OverlappingFieldsCanBeMerged>(
                keeps,
                state,
                ctx,
                spread.directives@,
                0,
            );
            assert(state + Seq::<ErrorView>::empty() =~= state);
        },
        Selection::InlineFragment(inline) => {
            let inner = match inline.type_condition {
                Some(TypeCondition::On(name)) => ctx.with_type(Some(Type::NamedType(name))),
                None => ctx,
            };
            lemma_walk_directives_keeps::<OverlappingFieldsCanBeMerged>(
                keeps,
                state,
                inner,
                inline.directives@,
                0,
            );
            lemma_conflicts_in_set(state, inner, &inline.selection_set);
        },
    }
}

/// The walk of the definitions from the `i`-th on adds the errors for their
/// selection sets to the state and nothing else.
pub proof fn lemma_conflicts_in_definitions<'a>(
    state: Seq<ErrorView>,
    ctx: ContextView<'a>,
    definitions: Seq<Definition>,
    i: int,
)
    requires
        0 <= i <= definitions.len(),
    ensures
        walk_definitions::<OverlappingFieldsCanBeMerged>(state, ctx, definitions, i) == state
            + spec_conflicts_in_definitions(ctx.schema, ctx.operation, definitions, i),
    decreases definitions.len() - i,
{
    let keeps = |a: Seq<ErrorView>, b: Seq<ErrorView>| a == b;
    assert(spec_hooks_keep_input::<OverlappingFieldsCanBeMerged>(keeps));
    if i < definitions.len() {
        let definition = &definitions[i];
        let inner = ctx.with_type(spec_definition_type(ctx, definition));
        match definition {
            Definition::Fragment(fragment) => {
                lemma_walk_directives_keeps::<OverlappingFieldsCanBeMerged>(
                    keeps,
                    state,
                    inner,
                    fragment.directives@,
                    0,
                );
                lemma_conflicts_in_set(state, inner, &fragment.selection_set);
            },
            Definition::Operation(operation) => {
                lemma_walk_variable_definitions_keeps::<OverlappingFieldsCanBeMerged>(
                    keeps,
                    state,
                    inner,
                    operation.spec_variable_definitions(),
                    0,
                );
                lemma_walk_directives_keeps::<OverlappingFieldsCanBeMerged>(
                    keeps,
                    state,
                    inner,
                    operation.spec_directives(),
                    0,
                );
                lemma_conflicts_in_set(state, inner, operation.spec_selection_set());
            },
        }
        let next = walk_definition::<OverlappingFieldsCanBeMerged>(state, ctx, definition);
        lemma_conflicts_in_definitions(next, ctx, definitions, i + 1);
        let first = next.subrange(state.len() as int, next.len() as int);
        let second = spec_conflicts_in_definitions(ctx.schema, ctx.operation, definitions, i + 1);
        assert(next =~= state + first);
        assert((state + first) + second =~= state + (first + second));
        assert(first + second =~= spec_conflicts_in_definitions(
            ctx.schema,
            ctx.operation,
            definitions,
            i,
        ));
    } else {
        assert(state + Seq::<ErrorView>::empty() =~= state);
    }
}

/// The rule reports the fragment cycles of the document, then the conflicts
/// of each of its selection sets in document order, and nothing else.
pub proof fn lemma_rule_reports_cycles_and_conflicts(
    schema: &schema::Document,
    operation: &Document,
)
    ensures
        OverlappingFieldsCanBeMerged::spec_errors(schema, operation) == spec_fragment_cycle_errors(
            operation,
        ) + spec_conflicts_in_definitions(schema, operation, operation.definitions@, 0),
{
    let ctx = ContextView::initial(schema, operation);
    let cycles = spec_fragment_cycle_errors(operation);
    assert(Seq::<ErrorView>::empty() + cycles =~= cycles);
    lemma_conflicts_in_definitions(cycles, ctx, operation.definitions@, 0);
}

} // verus!
