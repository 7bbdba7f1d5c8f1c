//! The fields that a selection set selects, with its fragments opened.
//!
//! A record stands for one field selection. The records of a selection set
//! are those of its fields, of the selections of its inline fragments, and of
//! the selections of the fragments that it spreads, in document order. A
//! fragment is opened at most once on the way to a field: a spread of a
//! fragment that is open already adds nothing.
use vstd::prelude::*;
use crate::ast::fragment_spreads::{
    fragment_index, lemma_mark_one, spec_count_unmarked, spec_fragment_index,
};
use crate::ast::lookup::lemma_last_index_below;
use crate::ast::operation_visitor::is_fragment_named;
use crate::static_graphql::query::{
    Definition, Document, Field, FragmentDefinition, Selection, SelectionSet, TypeCondition,
};
use crate::static_graphql::schema;

verus! {

/// A field selection as mathematical values: the field, the type on which
/// it is selected, its definition on that type, and, for each definition of
/// the document, whether it is a fragment that was opened on the way to the
/// field.
pub struct RecordView<'a> {
    pub field: &'a Field,
    pub parent: Option<&'a schema::TypeDefinition>,
    pub definition: Option<&'a schema::Field>,
    pub expanded: Seq<bool>,
}

/// A field selection with what is known of it.
pub struct FieldRecord<'a> {
    pub field: &'a Field,
    pub parent: Option<&'a schema::TypeDefinition>,
    pub definition: Option<&'a schema::Field>,
    pub expanded: Vec<bool>,
}

impl<'a> View for FieldRecord<'a> {
    type V = RecordView<'a>;

    open spec fn view(&self) -> RecordView<'a> {
        RecordView {
            field: self.field,
            parent: self.parent,
            definition: self.definition,
            expanded: self.expanded@,
        }
    }
}

/// The views of a sequence of records, in order.
pub open spec fn record_views<'a>(records: Seq<FieldRecord<'a>>) -> Seq<RecordView<'a>> {
    records.map_values(|r: FieldRecord<'a>| r@)
}

/// The key under which a field appears in the response: its alias where it
/// has one, and else its name.
pub open spec fn spec_response_key(field: &Field) -> Seq<char> {
    match field.alias {
        Some(alias) => alias@,
        None => field.name@,
    }
}

/// Returns the key under which a field appears in the response.
pub fn response_key(field: &Field) -> (res: &String)
    ensures
        res@ == spec_response_key(field),
{
    match &field.alias {
        Some(alias) => alias,
        None => &field.name,
    }
}

/// The number of selection sets and selections in and under a selection
/// set.
pub open spec fn spec_set_size(selection_set: &SelectionSet) -> nat
    decreases selection_set, 1nat, 0nat,
{
    1 + spec_items_size(selection_set, 0)
}

/// The number of selection sets and selections in and under the selections
/// of `selection_set` from the `i`-th on.
pub open spec fn spec_items_size(selection_set: &SelectionSet, i: int) -> nat
    decreases selection_set, 0nat, selection_set.items.len() - i,
{
    if 0 <= i < selection_set.items.len() {
        spec_selection_size(&selection_set.items[i]) + spec_items_size(selection_set, i + 1)
    } else {
        0
    }
}

/// The number of selection sets and selections in and under one selection.
pub open spec fn spec_selection_size(selection: &Selection) -> nat
    decreases selection, 0nat, 0nat,
{
    match selection {
        Selection::Field(field) => 1 + spec_set_size(&field.selection_set),
        Selection::FragmentSpread(_) => 1,
        Selection::InlineFragment(inline_fragment) => 1 + spec_set_size(
            &inline_fragment.selection_set,
        ),
    }
}

/// The type that the selections of a fragment are selected on: the type that
/// its type condition names.
pub open spec fn spec_fragment_type<'a>(
    schema: &'a schema::Document,
    fragment: &FragmentDefinition,
) -> Option<&'a schema::TypeDefinition> {
    match fragment.type_condition {
        TypeCondition::On(name) => schema.spec_type_by_name(name@),
    }
}

/// The definition of the field `name` on the type `parent`.
pub open spec fn spec_definition_on<'a>(
    parent: Option<&'a schema::TypeDefinition>,
    name: Seq<char>,
) -> Option<&'a schema::Field> {
    match parent {
        Some(t) => t.spec_field_by_name(name),
        None => None,
    }
}

/// The records of a selection set that is selected on the type `parent`,
/// where `expanded` marks the fragments that are open.
pub open spec fn spec_collect_set<'a>(
    schema: &'a schema::Document,
    document: &'a Document,
    selection_set: &'a SelectionSet,
    parent: Option<&'a schema::TypeDefinition>,
    expanded: Seq<bool>,
) -> Seq<RecordView<'a>>
    decreases spec_count_unmarked(expanded, expanded.len() as int), selection_set, 1nat, 0nat,
{
    spec_collect_items(schema, document, selection_set, parent, expanded, 0)
}

/// The records of the selections of `selection_set` from the `i`-th on.
pub open spec fn spec_collect_items<'a>(
    schema: &'a schema::Document,
    document: &'a Document,
    selection_set: &'a SelectionSet,
    parent: Option<&'a schema::TypeDefinition>,
    expanded: Seq<bool>,
    i: int,
) -> Seq<RecordView<'a>>
    decreases spec_count_unmarked(expanded, expanded.len() as int), selection_set, 0nat,
        selection_set.items.len() - i,
{
    if 0 <= i < selection_set.items.len() {
        spec_collect_selection(schema, document, &selection_set.items[i], parent, expanded)
            + spec_collect_items(schema, document, selection_set, parent, expanded, i + 1)
    } else {
        Seq::empty()
    }
}

/// The records of one selection. A field gives one record. An inline fragment
/// gives the records of its selections, on the type of its type condition
/// where it has one. A fragment spread gives the records of the selections of
/// its fragment, on the type of the fragment's type condition, with the
/// fragment marked as open; it gives none where its name stands for no
/// fragment or the fragment is open already.
pub open spec fn spec_collect_selection<'a>(
    schema: &'a schema::Document,
    document: &'a Document,
    selection: &'a Selection,
    parent: Option<&'a schema::TypeDefinition>,
    expanded: Seq<bool>,
) -> Seq<RecordView<'a>>
    decreases spec_count_unmarked(expanded, expanded.len() as int), selection, 0nat, 0nat,
{
    match selection {
        Selection::Field(field) => seq![
            RecordView {
                field,
                parent,
                definition: spec_definition_on(parent, field.name@),
                expanded,
            },
        ],
        Selection::InlineFragment(inline_fragment) => spec_collect_set(
            schema,
            document,
            &inline_fragment.selection_set,
            match inline_fragment.type_condition {
                Some(TypeCondition::On(name)) => schema.spec_type_by_name(name@),
                None => parent,
            },
            expanded,
        ),
        Selection::FragmentSpread(spread) => match spec_fragment_index(
            document,
            spread.fragment_name@,
        ) {
            Some(t) => if 0 <= t < expanded.len() && t < document.definitions@.len()
                && document.definitions@[t] is Fragment && !expanded[t] {
                proof {
                    lemma_mark_one(expanded, t, expanded.len() as int);
                }
                spec_collect_set(
                    schema,
                    document,
                    &document.definitions@[t]->Fragment_0.selection_set,
                    spec_fragment_type(schema, &document.definitions@[t]->Fragment_0),
                    expanded.update(t, true),
                )
            } else {
                Seq::empty()
            },
            None => Seq::empty(),
        },
    }
}

/// Whether a record lies within what was collected from a selection set of
/// size `size` with the fragments `expanded` open: it has no fewer fragments
/// open, and where it has no more, the selection set of its field is smaller
/// than `size`.
pub open spec fn spec_record_within(record: RecordView, expanded: Seq<bool>, size: nat) -> bool {
    &&& record.expanded.len() == expanded.len()
    &&& spec_count_unmarked(record.expanded, record.expanded.len() as int) <= spec_count_unmarked(
        expanded,
        expanded.len() as int,
    )
    &&& spec_count_unmarked(record.expanded, record.expanded.len() as int) == spec_count_unmarked(
        expanded,
        expanded.len() as int,
    ) ==> spec_set_size(&record.field.selection_set) < size
}

/// Whether all records lie within what was collected from a selection set of
/// size `size` with the fragments `expanded` open.
pub open spec fn spec_records_within(
    records: Seq<RecordView>,
    expanded: Seq<bool>,
    size: nat,
) -> bool {
    forall|i: int| 0 <= i < records.len() ==> spec_record_within(#[trigger] records[i], expanded, size)
}

/// The records of a selection set lie within it.
pub proof fn lemma_collect_set<'a>(
    schema: &'a schema::Document,
    document: &'a Document,
    selection_set: &'a SelectionSet,
    parent: Option<&'a schema::TypeDefinition>,
    expanded: Seq<bool>,
)
    ensures
        spec_records_within(
            spec_collect_set(schema, document, selection_set, parent, expanded),
            expanded,
            spec_set_size(selection_set),
        ),
    decreases spec_count_unmarked(expanded, expanded.len() as int), selection_set, 1nat, 0nat,
{
    lemma_collect_items(schema, document, selection_set, parent, expanded, 0);
}

/// The records of the selections from the `i`-th on lie within these
/// selections.
pub proof fn lemma_collect_items<'a>(
    schema: &'a schema::Document,
    document: &'a Document,
    selection_set: &'a SelectionSet,
    parent: Option<&'a schema::TypeDefinition>,
    expanded: Seq<bool>,
    i: int,
)
    requires
        0 <= i <= selection_set.items.len(),
    ensures
        spec_records_within(
            spec_collect_items(schema, document, selection_set, parent, expanded, i),
            expanded,
            1 + spec_items_size(selection_set, i),
        ),
    decreases spec_count_unmarked(expanded, expanded.len() as int), selection_set, 0nat,
        selection_set.items.len() - i,
{
    if i < selection_set.items.len() {
        let head = spec_collect_selection(
            schema,
            document,
            &selection_set.items[i],
            parent,
            expanded,
        );
        let tail = spec_collect_items(schema, document, selection_set, parent, expanded, i + 1);
        lemma_collect_selection(schema, document, &selection_set.items[i], parent, expanded);
        lemma_collect_items(schema, document, selection_set, parent, expanded, i + 1);
        let all = head + tail;
        assert forall|q: int| 0 <= q < all.len() implies spec_record_within(
            #[trigger] all[q],
            expanded,
            1 + spec_items_size(selection_set, i),
        ) by {
            if q < head.len() {
                assert(all[q] == head[q]);
            } else {
                assert(all[q] == tail[q - head.len()]);
            }
        }
    }
}

/// The records of one selection lie within it.
pub proof fn lemma_collect_selection<'a>(
    schema: &'a schema::Document,
    document: &'a Document,
    selection: &'a Selection,
    parent: Option<&'a schema::TypeDefinition>,
    expanded: Seq<bool>,
)
    ensures
        spec_records_within(
            spec_collect_selection(schema, document, selection, parent, expanded),
            expanded,
            spec_selection_size(selection),
        ),
    decreases spec_count_unmarked(expanded, expanded.len() as int), selection, 0nat, 0nat,
{
    match selection {
        Selection::Field(field) => {},
        Selection::InlineFragment(inline_fragment) => {
            lemma_collect_set(
                schema,
                document,
                &inline_fragment.selection_set,
                match inline_fragment.type_condition {
                    Some(TypeCondition::On(name)) => schema.spec_type_by_name(name@),
                    None => parent,
                },
                expanded,
            );
        },
        Selection::FragmentSpread(spread) => match spec_fragment_index(
            document,
            spread.fragment_name@,
        ) {
            Some(t) => if 0 <= t < expanded.len() && t < document.definitions@.len()
                && document.definitions@[t] is Fragment && !expanded[t] {
                lemma_mark_one(expanded, t, expanded.len() as int);
                lemma_collect_set(
                    schema,
                    document,
                    &document.definitions@[t]->Fragment_0.selection_set,
                    spec_fragment_type(schema, &document.definitions@[t]->Fragment_0),
                    expanded.update(t, true),
                );
            },
            None => {},
        },
    }
}

/// Copies a list of marks.
pub fn copy_marks(marks: &Vec<bool>) -> (res: Vec<bool>)
    ensures
        res@ == marks@,
{
    let mut res: Vec<bool> = Vec::new();
    let mut i: usize = 0;
    while i < marks.len()
        invariant
            i <= marks.len(),
            res@ == marks@.take(i as int),
        decreases marks.len() - i,
    {
        res.push(marks[i]);
        assert(marks@.take(i as int).push(marks@[i as int]) =~= marks@.take(i + 1));
        i += 1;
    }
    assert(marks@.take(marks@.len() as int) =~= marks@);
    res
}

/// The views of a sequence of records grow with the sequence.
pub proof fn lemma_record_views_push<'a>(records: Seq<FieldRecord<'a>>, record: FieldRecord<'a>)
    ensures
        record_views(records.push(record)) == record_views(records).push(record@),
{
    assert(record_views(records.push(record)) =~= record_views(records).push(record@));
}

/// Adds the records of `selection_set`, selected on the type `parent`, to
/// `out`. The marks in `expanded` say which fragments are open; they come back
/// as they went in.
pub fn collect_records<'a>(
    schema: &'a schema::Document,
    document: &'a Document,
    selection_set: &'a SelectionSet,
    parent: Option<&'a schema::TypeDefinition>,
    expanded: &mut Vec<bool>,
    out: &mut Vec<FieldRecord<'a>>,
)
    requires
        old(expanded)@.len() == document.definitions@.len(),
    ensures
        final(expanded)@ == old(expanded)@,
        record_views(final(out)@) == record_views(old(out)@) + spec_collect_set(
            schema,
            document,
            selection_set,
            parent,
            old(expanded)@,
        ),
    decreases spec_count_unmarked(old(expanded)@, old(expanded)@.len() as int), selection_set,
{
    let ghost marks = expanded@;
    let ghost all = spec_collect_set(schema, document, selection_set, parent, marks);
    let mut i: usize = 0;
    while i < selection_set.items.len()
        invariant
            i <= selection_set.items.len(),
            expanded@ == marks,
            marks == old(expanded)@,
            marks.len() == document.definitions@.len(),
            all == spec_collect_set(schema, document, selection_set, parent, marks),
            record_views(out@) + spec_collect_items(
                schema,
                document,
                selection_set,
                parent,
                marks,
                i as int,
            ) == record_views(old(out)@) + all,
        decreases selection_set.items.len() - i,
    {
        let ghost before = record_views(out@);
        let ghost here = spec_collect_selection(
            schema,
            document,
            &selection_set.items[i as int],
            parent,
            marks,
        );
        let ghost rest = spec_collect_items(schema, document, selection_set, parent, marks, i + 1);
        match &selection_set.items[i] {
            Selection::Field(field) => {
                let definition = match parent {
                    Some(t) => t.field_by_name(&field.name),
                    None => None,
                };
                let record = FieldRecord {
                    field,
                    parent,
                    definition,
                    expanded: copy_marks(expanded),
                };
                proof {
                    lemma_record_views_push(out@, record);
                }
                out.push(record);
                assert(record_views(out@) =~= before + here);
            },
            Selection::InlineFragment(inline_fragment) => {
                let inner = match &inline_fragment.type_condition {
                    Some(TypeCondition::On(name)) => schema.type_by_name(name),
                    None => parent,
                };
                collect_records(
                    schema,
                    document,
                    &inline_fragment.selection_set,
                    inner,
                    expanded,
                    out,
                );
            },
            Selection::FragmentSpread(spread) => {
                match fragment_index(document, &spread.fragment_name) {
                    Some(t) => {
                        proof {
                            lemma_last_index_below(
                                document.definitions@,
                                is_fragment_named(spread.fragment_name@),
                                document.definitions@.len() as int,
                            );
                        }
                        if !expanded[t] {
                            if let Definition::Fragment(fragment) = &document.definitions[t] {
                                let inner = match &fragment.type_condition {
                                    TypeCondition::On(name) => schema.type_by_name(name),
                                };
                                proof {
                                    lemma_mark_one(marks, t as int, marks.len() as int);
                                }
                                expanded.set(t, true);
                                collect_records(
                                    schema,
                                    document,
                                    &fragment.selection_set,
                                    inner,
                                    expanded,
                                    out,
                                );
                                expanded.set(t, false);
                                assert(expanded@ =~= marks);
                            }
                        } else {
                            assert(before + here =~= before);
                        }
                    },
                    None => {
                        assert(before + here =~= before);
                    },
                }
            },
        }
        assert(record_views(out@) == before + here);
        assert((before + here) + rest =~= before + (here + rest));
        i += 1;
    }
    assert(record_views(out@) + Seq::<RecordView<'a>>::empty() =~= record_views(out@));
}

} // verus!
