//! The fragment spreads of a selection set, and marks on the definitions of a
//! document.
use vstd::prelude::*;
use crate::ast::lookup::{last_index, lemma_last_index_is, lemma_no_index};
use crate::ast::operation_visitor::is_fragment_named;
use crate::static_graphql::query::{
    Definition, Document, FragmentSpread, Selection, SelectionSet,
};

verus! {

/// The fragment spreads that stand anywhere in a selection set, in document
/// order: directly in it, or under its fields and inline fragments.
pub open spec fn spec_spreads<'a>(selection_set: &'a SelectionSet) -> Seq<&'a FragmentSpread>
    decreases selection_set, 1nat, 0nat,
{
    spec_spreads_from(selection_set, 0)
}

/// The fragment spreads that stand in or under the selections of
/// `selection_set` from the `i`-th on.
pub open spec fn spec_spreads_from<'a>(selection_set: &'a SelectionSet, i: int) -> Seq<
    &'a FragmentSpread,
>
    decreases selection_set, 0nat, selection_set.items.len() - i,
{
    if 0 <= i < selection_set.items.len() {
        spec_selection_spreads(&selection_set.items[i]) + spec_spreads_from(selection_set, i + 1)
    } else {
        Seq::empty()
    }
}

/// The fragment spreads that stand in or under one selection.
pub open spec fn spec_selection_spreads<'a>(selection: &'a Selection) -> Seq<&'a FragmentSpread>
    decreases selection, 0nat, 0nat,
{
    match selection {
        Selection::Field(field) => spec_spreads(&field.selection_set),
        Selection::FragmentSpread(spread) => seq![spread],
        Selection::InlineFragment(inline_fragment) => spec_spreads(&inline_fragment.selection_set),
    }
}

/// Adds the fragment spreads of `selection_set` to `out`, in document order.
pub fn collect_spreads<'a>(selection_set: &'a SelectionSet, out: &mut Vec<&'a FragmentSpread>)
    ensures
        final(out)@ == old(out)@ + spec_spreads(selection_set),
    decreases selection_set,
{
    let mut i: usize = 0;
    assert(out@ + spec_spreads_from(selection_set, 0) == old(out)@ + spec_spreads(selection_set));
    while i < selection_set.items.len()
        invariant
            i <= selection_set.items.len(),
            out@ + spec_spreads_from(selection_set, i as int) == old(out)@ + spec_spreads(
                selection_set,
            ),
        decreases selection_set.items.len() - i,
    {
        let ghost before = out@;
        let ghost here = spec_selection_spreads(&selection_set.items[i as int]);
        let ghost rest = spec_spreads_from(selection_set, i + 1);
        match &selection_set.items[i] {
            Selection::Field(field) => {
                collect_spreads(&field.selection_set, out);
            },
            Selection::FragmentSpread(spread) => {
                out.push(spread);
                assert(out@ =~= before + here);
            },
            Selection::InlineFragment(inline_fragment) => {
                collect_spreads(&inline_fragment.selection_set, out);
            },
        }
        assert((before + here) + rest =~= before + (here + rest));
        i += 1;
    }
    assert(out@ + Seq::<&'a FragmentSpread>::empty() =~= out@);
}

/// Whether one of `spreads` names the fragment `name`.
pub open spec fn spreads_name(spreads: Seq<&FragmentSpread>, name: Seq<char>) -> bool {
    exists|i: int| 0 <= i < spreads.len() && (#[trigger] spreads[i]).fragment_name@ == name
}

/// The index, among the definitions of a document, of the fragment definition
/// that the name `name` stands for: the last one, where several share the
/// name.
pub open spec fn spec_fragment_index(document: &Document, name: Seq<char>) -> Option<int> {
    last_index(document.definitions@, is_fragment_named(name))
}

/// Returns the index of the fragment definition that `name` stands for.
pub fn fragment_index(document: &Document, name: &String) -> (res: Option<usize>)
    ensures
        match res {
            Some(i) => spec_fragment_index(document, name@) == Some(i as int),
            None => spec_fragment_index(document, name@) is None,
        },
{
    let mut i: usize = document.definitions.len();
    while i > 0
        invariant
            i <= document.definitions.len(),
            forall|j: int|
                i <= j < document.definitions.len() ==> !is_fragment_named(name@)(
                    #[trigger] document.definitions@[j],
                ),
        decreases i,
    {
        i -= 1;
        if let Definition::Fragment(f) = &document.definitions[i] {
            if f.name == *name {
                proof {
                    lemma_last_index_is(document.definitions@, is_fragment_named(name@), i as int);
                }
                return Some(i);
            }
        }
    }
    proof {
        lemma_no_index(document.definitions@, is_fragment_named(name@));
    }
    None
}

/// The number of `false` entries among the first `n` marks.
pub open spec fn spec_count_unmarked(marks: Seq<bool>, n: int) -> nat
    decreases n,
{
    if n <= 0 || n > marks.len() {
        0
    } else if marks[n - 1] {
        spec_count_unmarked(marks, n - 1)
    } else {
        spec_count_unmarked(marks, n - 1) + 1
    }
}

/// Marking an unmarked entry leaves one unmarked entry less.
pub proof fn lemma_mark_one(marks: Seq<bool>, i: int, n: int)
    requires
        0 <= i < marks.len(),
        0 <= n <= marks.len(),
        !marks[i],
    ensures
        spec_count_unmarked(marks.update(i, true), n) + (if i < n {
            1nat
        } else {
            0nat
        }) == spec_count_unmarked(marks, n),
    decreases n,
{
    if n > 0 {
        lemma_mark_one(marks, i, n - 1);
    }
}

/// Where every mark that was set is still set, no more entries are unmarked
/// than before.
pub proof fn lemma_marks_grow(before: Seq<bool>, after: Seq<bool>, n: int)
    requires
        before.len() == after.len(),
        0 <= n <= before.len(),
        forall|i: int| 0 <= i < before.len() && before[i] ==> after[i],
    ensures
        spec_count_unmarked(after, n) <= spec_count_unmarked(before, n),
    decreases n,
{
    if n > 0 {
        lemma_marks_grow(before, after, n - 1);
    }
}

/// Makes `n` marks, none of them set.
pub fn new_marks(n: usize) -> (res: Vec<bool>)
    ensures
        res@.len() == n,
        forall|i: int| 0 <= i < n ==> !res@[i],
{
    let mut marks: Vec<bool> = Vec::new();
    let mut i: usize = 0;
    while i < n
        invariant
            i <= n,
            marks@.len() == i,
            forall|j: int| 0 <= j < i ==> !marks@[j],
        decreases n - i,
    {
        marks.push(false);
        i += 1;
    }
    marks
}

} // verus!
