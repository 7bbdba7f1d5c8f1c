//! Every fragment that a document defines is used by one of its operations.
//!
//! A fragment is used where an operation spreads it, or a used fragment
//! spreads it. A spread counts wherever it stands in a selection set: directly
//! in it, or under its fields and inline fragments.
use vstd::prelude::*;
use crate::ast::operation_visitor::{
    visit_document, walk_document, ContextView, Node, OperationVisitor, OperationVisitorContext,
};
use crate::static_graphql::query::{
    Directive, Document, Field, FragmentDefinition, FragmentSpread, InlineFragment,
    OperationDefinition, SelectionSet, Value, VariableDefinition,
};
use crate::static_graphql::schema;
use crate::validation::rules::rule::ValidationRule;
use crate::validation::utils::{
    error_views, lemma_error_views_empty, report_error, ErrorView, ValidationContext,
    ValidationError,
};
use crate::ast::fragment_spreads::{
    collect_spreads, fragment_index, lemma_mark_one, new_marks, spec_count_unmarked,
    spec_fragment_index, spec_spreads, spreads_name,
};
use crate::ast::lookup::lemma_last_index_below;
use crate::ast::operation_visitor::is_fragment_named;
use crate::ast::walk_laws::{lemma_walk_definitions_keeps, spec_hooks_keep};
use crate::static_graphql::query::Definition;
use crate::validation::utils::{message_around, single_location};

verus! {

/// Whether one of the first `n` definitions is an operation that spreads the
/// fragment `name`.
pub open spec fn spec_operation_spreads_upto(document: &Document, name: Seq<char>, n: int) -> bool {
    exists|j: int|
        0 <= j < n && j < document.definitions@.len() && spec_definition_roots(
            #[trigger] document.definitions@[j],
            name,
        )
}

/// Whether the definition is an operation that spreads the fragment `name`.
pub open spec fn spec_definition_roots(definition: Definition, name: Seq<char>) -> bool {
    definition matches Definition::Operation(operation) && spreads_name(
        spec_spreads(operation.spec_selection_set()),
        name,
    )
}

/// Whether some operation of the document spreads the fragment `name`.
pub open spec fn spec_operation_spreads(document: &Document, name: Seq<char>) -> bool {
    spec_operation_spreads_upto(document, name, document.definitions@.len() as int)
}

/// Whether the fragment that `via` stands for spreads the fragment `name`.
pub open spec fn spec_fragment_spreads(
    document: &Document,
    via: Seq<char>,
    name: Seq<char>,
) -> bool {
    document.spec_fragment_by_name(via) matches Some(fragment) && spreads_name(
        spec_spreads(&fragment.selection_set),
        name,
    )
}

/// Whether `path` leads from an operation to a fragment name: an operation
/// spreads its first name, and the fragment that each name stands for spreads
/// the next.
pub open spec fn spec_is_spread_path(document: &Document, path: Seq<Seq<char>>) -> bool {
    &&& path.len() > 0
    &&& spec_operation_spreads(document, path[0])
    &&& forall|q: int|
        0 <= q < path.len() - 1 ==> spec_fragment_spreads(document, #[trigger] path[q], path[q + 1])
}

/// Whether the fragment name `name` is reached from some operation of the
/// document through spreads.
pub open spec fn spec_reachable(document: &Document, name: Seq<char>) -> bool {
    exists|path: Seq<Seq<char>>| #[trigger]
        spec_is_spread_path(document, path) && path.last() == name
}

/// The error for the fragment definition `fragment`, which no operation
/// reaches.
pub open spec fn spec_unused_fragment_error(fragment: &FragmentDefinition) -> ErrorView {
    ErrorView {
        message: "Fragment \""@ + fragment.name@ + "\" is never used."@,
        locations: seq![fragment.position],
    }
}

/// The errors for the fragment definitions among the first `n` definitions:
/// one for each whose name no operation reaches, in document order.
pub open spec fn spec_unused_fragment_errors_upto(document: &Document, n: int) -> Seq<ErrorView>
    decreases n,
{
    if n <= 0 || n > document.definitions@.len() {
        Seq::empty()
    } else {
        let before = spec_unused_fragment_errors_upto(document, n - 1);
        match document.definitions@[n - 1] {
            Definition::Fragment(fragment) => if spec_reachable(document, fragment.name@) {
                before
            } else {
                before.push(spec_unused_fragment_error(&fragment))
            },
            _ => before,
        }
    }
}

/// The errors for the fragment definitions of a document that no operation
/// reaches, in document order.
pub open spec fn spec_unused_fragment_errors(document: &Document) -> Seq<ErrorView> {
    spec_unused_fragment_errors_upto(document, document.definitions@.len() as int)
}

/// A fragment definition whose name no operation reaches is reported among
/// the errors for the definitions up to and past it.
pub proof fn lemma_unreachable_is_reported(document: &Document, j: int, n: int)
    requires
        0 <= j < n <= document.definitions@.len(),
        document.definitions@[j] is Fragment,
        !spec_reachable(document, document.definitions@[j]->Fragment_0.name@),
    ensures
        spec_unused_fragment_errors_upto(document, n).contains(
            spec_unused_fragment_error(&document.definitions@[j]->Fragment_0),
        ),
    decreases n,
{
    let error = spec_unused_fragment_error(&document.definitions@[j]->Fragment_0);
    let before = spec_unused_fragment_errors_upto(document, n - 1);
    let all = spec_unused_fragment_errors_upto(document, n);
    if j < n - 1 {
        lemma_unreachable_is_reported(document, j, n - 1);
        let i = choose|i: int| 0 <= i < before.len() && before[i] == error;
        match document.definitions@[n - 1] {
            Definition::Fragment(fragment) => {
                if !spec_reachable(document, fragment.name@) {
                    assert(all[i] == error);
                }
            },
            _ => {},
        }
    } else {
        assert(all == before.push(error));
        assert(all[all.len() - 1] == error);
    }
}

/// Every error among those for the first `n` definitions is the error for
/// one of these definitions: a fragment whose name no operation reaches.
pub proof fn lemma_reported_is_unreachable(document: &Document, n: int, error: ErrorView)
    requires
        0 <= n <= document.definitions@.len(),
        spec_unused_fragment_errors_upto(document, n).contains(error),
    ensures
        exists|q: int|
            0 <= q < n && (#[trigger] document.definitions@[q]) is Fragment && !spec_reachable(
                document,
                document.definitions@[q]->Fragment_0.name@,
            ) && error == spec_unused_fragment_error(&document.definitions@[q]->Fragment_0),
    decreases n,
{
    let before = spec_unused_fragment_errors_upto(document, n - 1);
    let all = spec_unused_fragment_errors_upto(document, n);
    let i = choose|i: int| 0 <= i < all.len() && all[i] == error;
    if n > 0 {
        if i < before.len() {
            assert(before[i] == error);
            lemma_reported_is_unreachable(document, n - 1, error);
        } else {
            assert(document.definitions@[n - 1] is Fragment);
        }
    }
}

/// A fragment definition is reported as unused exactly when no operation
/// reaches its name through spreads.
pub proof fn lemma_unused_is_unreachable(document: &Document, j: int)
    requires
        0 <= j < document.definitions@.len(),
        document.definitions@[j] is Fragment,
    ensures
        spec_unused_fragment_errors(document).contains(
            spec_unused_fragment_error(&document.definitions@[j]->Fragment_0),
        ) <==> !spec_reachable(document, document.definitions@[j]->Fragment_0.name@),
{
    let n = document.definitions@.len() as int;
    let fragment = &document.definitions@[j]->Fragment_0;
    let error = spec_unused_fragment_error(fragment);
    if !spec_reachable(document, fragment.name@) {
        lemma_unreachable_is_reported(document, j, n);
    }
    if spec_unused_fragment_errors(document).contains(error) {
        lemma_reported_is_unreachable(document, n, error);
        let q = choose|q: int|
            0 <= q < n && (#[trigger] document.definitions@[q]) is Fragment && !spec_reachable(
                document,
                document.definitions@[q]->Fragment_0.name@,
            ) && error == spec_unused_fragment_error(&document.definitions@[q]->Fragment_0);
        lemma_error_names_fragment(&document.definitions@[q]->Fragment_0, fragment);
    }
}

/// The message of an error for an unused fragment shows the name of the
/// fragment: two names that give the same message are the same name.
pub proof fn lemma_message_names_fragment(message: Seq<char>, name: Seq<char>)
    ensures
        message == "Fragment \""@ + name + "\" is never used."@ ==> name == message.subrange(
            10,
            message.len() - 16,
        ),
{
    reveal_strlit("Fragment \"");
    reveal_strlit("\" is never used.");
    if message == "Fragment \""@ + name + "\" is never used."@ {
        assert(name =~= message.subrange(10, message.len() - 16));
    }
}

/// Two fragments with the same error for being unused have the same name.
pub proof fn lemma_error_names_fragment(a: &FragmentDefinition, b: &FragmentDefinition)
    requires
        spec_unused_fragment_error(a) == spec_unused_fragment_error(b),
    ensures
        a.name@ == b.name@,
{
    lemma_message_names_fragment(spec_unused_fragment_error(a).message, a.name@);
    lemma_message_names_fragment(spec_unused_fragment_error(a).message, b.name@);
}

/// Whether the name `name` needs no more work: it stands for no fragment, or
/// the fragment that it stands for is marked.
pub open spec fn spec_settled(document: &Document, marks: Seq<bool>, name: Seq<char>) -> bool {
    match spec_fragment_index(document, name) {
        Some(i) => 0 <= i < marks.len() && marks[i],
        None => true,
    }
}

/// Whether the `i`-th definition is the fragment that its name stands for,
/// and an operation reaches that name.
pub open spec fn spec_reachable_fragment_at(document: &Document, i: int) -> bool {
    &&& 0 <= i < document.definitions@.len()
    &&& document.definitions@[i] is Fragment
    &&& spec_fragment_index(document, document.definitions@[i]->Fragment_0.name@) == Some(i)
    &&& spec_reachable(document, document.definitions@[i]->Fragment_0.name@)
}

/// Every mark stands on a fragment that is reached.
pub open spec fn spec_marks_sound(document: &Document, marks: Seq<bool>) -> bool {
    forall|i: int|
        0 <= i < marks.len() && #[trigger] marks[i] ==> spec_reachable_fragment_at(document, i)
}

/// Every spread that waits names a fragment that is reached.
pub open spec fn spec_worklist_sound(document: &Document, worklist: Seq<&FragmentSpread>) -> bool {
    forall|i: int|
        0 <= i < worklist.len() ==> spec_reachable(
            document,
            (#[trigger] worklist[i]).fragment_name@,
        )
}

/// Every name that one of the first `n` definitions spreads as an operation
/// is settled or waits.
pub open spec fn spec_roots_covered(
    document: &Document,
    marks: Seq<bool>,
    worklist: Seq<&FragmentSpread>,
    n: int,
) -> bool {
    forall|name: Seq<char>| #[trigger]
        spec_operation_spreads_upto(document, name, n) ==> spec_settled(document, marks, name)
            || spreads_name(worklist, name)
}

/// Every name that a marked fragment spreads is settled or waits.
pub open spec fn spec_marked_covered(
    document: &Document,
    marks: Seq<bool>,
    worklist: Seq<&FragmentSpread>,
) -> bool {
    forall|i: int, name: Seq<char>|
        0 <= i < marks.len() && i < document.definitions@.len() && marks[i]
            && document.definitions@[i] is Fragment && #[trigger] spreads_name(
            spec_spreads(&document.definitions@[i]->Fragment_0.selection_set),
            name,
        ) ==> spec_settled(document, marks, name) || spreads_name(worklist, name)
}

/// A name is spread by one of two lists put together exactly when one of the
/// two spreads it.
pub proof fn lemma_spreads_name_add(
    a: Seq<&FragmentSpread>,
    b: Seq<&FragmentSpread>,
    name: Seq<char>,
)
    ensures
        spreads_name(a + b, name) <==> spreads_name(a, name) || spreads_name(b, name),
{
    if spreads_name(a, name) {
        let i = choose|i: int| 0 <= i < a.len() && (#[trigger] a[i]).fragment_name@ == name;
        assert((a + b)[i].fragment_name@ == name);
    }
    if spreads_name(b, name) {
        let i = choose|i: int| 0 <= i < b.len() && (#[trigger] b[i]).fragment_name@ == name;
        assert((a + b)[a.len() + i].fragment_name@ == name);
    }
    if spreads_name(a + b, name) {
        let i = choose|i: int|
            0 <= i < (a + b).len() && (#[trigger] (a + b)[i]).fragment_name@ == name;
        if i < a.len() {
            assert(a[i].fragment_name@ == name);
        } else {
            assert(b[i - a.len()].fragment_name@ == name);
        }
    }
}

/// A name that a list spreads is spread by the list without its last entry,
/// or is the name of that entry.
pub proof fn lemma_spreads_name_drop_last(w: Seq<&FragmentSpread>, name: Seq<char>)
    requires
        w.len() > 0,
    ensures
        spreads_name(w, name) <==> spreads_name(w.drop_last(), name) || w.last().fragment_name@
            == name,
{
    if spreads_name(w, name) {
        let i = choose|i: int| 0 <= i < w.len() && (#[trigger] w[i]).fragment_name@ == name;
        if i < w.len() - 1 {
            assert(w.drop_last()[i].fragment_name@ == name);
        }
    }
    if spreads_name(w.drop_last(), name) {
        let i = choose|i: int|
            0 <= i < w.drop_last().len() && (#[trigger] w.drop_last()[i]).fragment_name@ == name;
        assert(w[i].fragment_name@ == name);
    }
    if w.last().fragment_name@ == name {
        assert(w[w.len() - 1].fragment_name@ == name);
    }
}

/// A name that an operation spreads is reached.
pub proof fn lemma_reachable_root(document: &Document, name: Seq<char>)
    requires
        spec_operation_spreads(document, name),
    ensures
        spec_reachable(document, name),
{
    let path = seq![name];
    assert(spec_is_spread_path(document, path) && path.last() == name);
}

/// A name that a reached fragment spreads is reached.
pub proof fn lemma_reachable_step(document: &Document, via: Seq<char>, name: Seq<char>)
    requires
        spec_reachable(document, via),
        spec_fragment_spreads(document, via, name),
    ensures
        spec_reachable(document, name),
{
    let path = choose|path: Seq<Seq<char>>| #[trigger]
        spec_is_spread_path(document, path) && path.last() == via;
    let longer = path.push(name);
    assert forall|q: int| 0 <= q < longer.len() - 1 implies spec_fragment_spreads(
        document,
        #[trigger] longer[q],
        longer[q + 1],
    ) by {
        if q < path.len() - 1 {
            assert(longer[q] == path[q]);
            assert(longer[q + 1] == path[q + 1]);
        }
    }
    assert(longer[0] == path[0]);
    assert(spec_is_spread_path(document, longer) && longer.last() == name);
}

/// Where every name that an operation or a marked fragment spreads is
/// settled, every name on a path from an operation is settled.
pub proof fn lemma_path_settled(
    document: &Document,
    marks: Seq<bool>,
    path: Seq<Seq<char>>,
    q: int,
)
    requires
        marks.len() == document.definitions@.len(),
        spec_roots_covered(document, marks, Seq::empty(), document.definitions@.len() as int),
        spec_marked_covered(document, marks, Seq::empty()),
        spec_is_spread_path(document, path),
        0 <= q < path.len(),
    ensures
        spec_settled(document, marks, path[q]),
    decreases q,
{
    let none = Seq::<&FragmentSpread>::empty();
    let name = path[q];
    assert(!spreads_name(none, name));
    if q == 0 {
        assert(spec_operation_spreads_upto(document, name, document.definitions@.len() as int));
    } else {
        let via = path[q - 1];
        lemma_path_settled(document, marks, path, q - 1);
        assert(spec_fragment_spreads(document, via, name));
        lemma_last_index_below(
            document.definitions@,
            is_fragment_named(via),
            document.definitions@.len() as int,
        );
        let i = spec_fragment_index(document, via)->Some_0;
        assert(document.spec_fragment_by_name(via) == Some(&document.definitions@[i]->Fragment_0));
        assert(spreads_name(
            spec_spreads(&document.definitions@[i]->Fragment_0.selection_set),
            name,
        ));
    }
}

/// Marks the fragment definitions that the operations of a document reach.
/// A mark stands at the index of a definition exactly when the definition is
/// the fragment that its name stands for and some operation reaches that name
/// through spreads.
pub fn reachable_fragments<'a>(document: &'a Document) -> (marks: Vec<bool>)
    ensures
        marks@.len() == document.definitions@.len(),
        forall|i: int|
            0 <= i < marks@.len() ==> (#[trigger] marks@[i] <==> spec_reachable_fragment_at(
                document,
                i,
            )),
{
    let n = document.definitions.len();
    let mut marks = new_marks(n);
    let mut worklist: Vec<&'a FragmentSpread> = Vec::new();
    let mut j: usize = 0;
    while j < n
        invariant
            j <= n,
            n == document.definitions@.len(),
            marks@.len() == n,
            forall|i: int| 0 <= i < n ==> !marks@[i],
            spec_worklist_sound(document, worklist@),
            spec_roots_covered(document, marks@, worklist@, j as int),
        decreases n - j,
    {
        let ghost before = worklist@;
        if let Definition::Operation(operation) = &document.definitions[j] {
            collect_spreads(operation.selection_set(), &mut worklist);
            proof {
                let added = spec_spreads(operation.spec_selection_set());
                assert forall|i: int| 0 <= i < worklist@.len() implies spec_reachable(
                    document,
                    (#[trigger] worklist@[i]).fragment_name@,
                ) by {
                    if i >= before.len() {
                        let name = worklist@[i].fragment_name@;
                        assert(added[i - before.len()].fragment_name@ == name);
                        assert(spreads_name(added, name));
                        assert(spec_definition_roots(document.definitions@[j as int], name));
                        assert(spec_operation_spreads_upto(document, name, n as int));
                        lemma_reachable_root(document, name);
                    } else {
                        assert(worklist@[i] == before[i]);
                    }
                }
            }
        }
        proof {
            assert forall|name: Seq<char>| #[trigger]
                spec_operation_spreads_upto(document, name, j + 1) implies spec_settled(
                document,
                marks@,
                name,
            ) || spreads_name(worklist@, name) by {
                let q = choose|q: int|
                    0 <= q < j + 1 && q < document.definitions@.len() && spec_definition_roots(
                        #[trigger] document.definitions@[q],
                        name,
                    );
                if q < j {
                    assert(spec_operation_spreads_upto(document, name, j as int));
                    if spreads_name(before, name) {
                        if worklist@ != before {
                            lemma_spreads_name_add(
                                before,
                                spec_spreads(
                                    document.definitions@[j as int]->Operation_0.spec_selection_set(),
                                ),
                                name,
                            );
                        }
                    }
                } else {
                    lemma_spreads_name_add(
                        before,
                        spec_spreads(
                            document.definitions@[j as int]->Operation_0.spec_selection_set(),
                        ),
                        name,
                    );
                }
            }
        }
        j += 1;
    }
    while worklist.len() > 0
        invariant
            n == document.definitions@.len(),
            marks@.len() == n,
            spec_marks_sound(document, marks@),
            spec_worklist_sound(document, worklist@),
            spec_roots_covered(document, marks@, worklist@, n as int),
            spec_marked_covered(document, marks@, worklist@),
        decreases spec_count_unmarked(marks@, n as int), worklist@.len(),
    {
        let ghost old_marks = marks@;
        let ghost old_worklist = worklist@;
        let spread = worklist.pop().unwrap();
        let ghost popped = worklist@;
        let ghost target = spread.fragment_name@;
        assert(popped == old_worklist.drop_last());
        assert(spread == old_worklist.last());
        assert(spec_reachable(document, target)) by {
            assert(old_worklist[old_worklist.len() - 1] == spread);
        }
        let mut added: Ghost<Seq<&FragmentSpread>> = Ghost(Seq::empty());
        match fragment_index(document, &spread.fragment_name) {
            Some(i) => {
                proof {
                    lemma_last_index_below(
                        document.definitions@,
                        is_fragment_named(target),
                        n as int,
                    );
                }
                if !marks[i] {
                    if let Definition::Fragment(fragment) = &document.definitions[i] {
                        proof {
                            lemma_mark_one(marks@, i as int, n as int);
                            added@ = spec_spreads(&fragment.selection_set);
                        }
                        marks.set(i, true);
                        collect_spreads(&fragment.selection_set, &mut worklist);
                        proof {
                            assert(document.spec_fragment_by_name(target) == Some(fragment));
                            assert forall|q: int|
                                0 <= q < worklist@.len() implies spec_reachable(
                                document,
                                (#[trigger] worklist@[q]).fragment_name@,
                            ) by {
                                if q >= popped.len() {
                                    let name = worklist@[q].fragment_name@;
                                    assert(added@[q - popped.len()].fragment_name@ == name);
                                    assert(spreads_name(added@, name));
                                    lemma_reachable_step(document, target, name);
                                } else {
                                    assert(worklist@[q] == old_worklist[q]);
                                }
                            }
                        }
                    }
                }
            },
            None => {},
        }
        proof {
            assert(worklist@ == popped + added@) by {
                assert(popped + Seq::<&FragmentSpread>::empty() =~= popped);
            }
            assert(spec_settled(document, marks@, target));
            assert forall|i: int| 0 <= i < n && old_marks[i] implies marks@[i] by {}
            assert forall|name: Seq<char>|
                spec_settled(document, old_marks, name) implies spec_settled(
                document,
                marks@,
                name,
            ) by {}
            assert forall|i: int| 0 <= i < marks@.len() && #[trigger] marks@[i]
                implies spec_reachable_fragment_at(document, i) by {
                if !old_marks[i] {
                    assert(spec_fragment_index(document, target) == Some(i));
                }
            }
            assert forall|name: Seq<char>| #[trigger]
                spec_operation_spreads_upto(document, name, n as int) implies spec_settled(
                document,
                marks@,
                name,
            ) || spreads_name(worklist@, name) by {
                lemma_spreads_name_drop_last(old_worklist, name);
                lemma_spreads_name_add(popped, added@, name);
            }
            assert forall|i: int, name: Seq<char>|
                0 <= i < marks@.len() && i < document.definitions@.len() && marks@[i]
                    && document.definitions@[i] is Fragment && #[trigger] spreads_name(
                    spec_spreads(&document.definitions@[i]->Fragment_0.selection_set),
                    name,
                ) implies spec_settled(document, marks@, name) || spreads_name(
                worklist@,
                name,
            ) by {
                lemma_spreads_name_drop_last(old_worklist, name);
                lemma_spreads_name_add(popped, added@, name);
                if !old_marks[i] {
                    assert(added@ == spec_spreads(
                        &document.definitions@[i]->Fragment_0.selection_set,
                    ));
                }
            }
        }
    }
    proof {
        assert(worklist@ =~= Seq::<&FragmentSpread>::empty());
        assert forall|i: int| 0 <= i < marks@.len() implies (#[trigger] marks@[i]
            <==> spec_reachable_fragment_at(document, i)) by {
            if spec_reachable_fragment_at(document, i) {
                let name = document.definitions@[i]->Fragment_0.name@;
                let path = choose|path: Seq<Seq<char>>| #[trigger]
                    spec_is_spread_path(document, path) && path.last() == name;
                lemma_path_settled(document, marks@, path, path.len() - 1);
            }
        }
    }
    marks
}

/// Adds to `errors` an error for each fragment definition of the document
/// that no operation reaches, in document order.
pub fn report_unused_fragments(document: &Document, errors: &mut Vec<ValidationError>)
    ensures
        error_views(final(errors)@) == error_views(old(errors)@) + spec_unused_fragment_errors(
            document,
        ),
{
    let marks = reachable_fragments(document);
    let n = document.definitions.len();
    let mut j: usize = 0;
    assert(error_views(errors@) + Seq::<ErrorView>::empty() =~= error_views(errors@));
    while j < n
        invariant
            j <= n,
            n == document.definitions@.len(),
            marks@.len() == n,
            forall|i: int|
                0 <= i < marks@.len() ==> (#[trigger] marks@[i] <==> spec_reachable_fragment_at(
                    document,
                    i,
                )),
            error_views(errors@) == error_views(old(errors)@)
                + spec_unused_fragment_errors_upto(document, j as int),
        decreases n - j,
    {
        let ghost before = error_views(errors@);
        let ghost found = spec_unused_fragment_errors_upto(document, j as int);
        if let Definition::Fragment(fragment) = &document.definitions[j] {
            proof {
                lemma_last_index_below(
                    document.definitions@,
                    is_fragment_named(fragment.name@),
                    n as int,
                );
            }
            let used = match fragment_index(document, &fragment.name) {
                Some(i) => marks[i],
                None => false,
            };
            assert(used == spec_reachable(document, fragment.name@));
            if !used {
                report_error(
                    errors,
                    message_around("Fragment \"", &fragment.name, "\" is never used."),
                    single_location(fragment.position),
                );
                assert(error_views(errors@) =~= error_views(old(errors)@) + found.push(
                    spec_unused_fragment_error(fragment),
                ));
            }
        }
        j += 1;
    }
}

/// The rule that every fragment of a document is used by one of its
/// operations.
pub struct NoUnusedFragments {
    errors: Vec<ValidationError>,
}

impl NoUnusedFragments {
    /// Makes the rule, ready to start a walk.
    pub fn new() -> (res: Self)
        ensures
            res.state() == Seq::<ErrorView>::empty(),
    {
        proof {
            lemma_error_views_empty();
        }
        NoUnusedFragments { errors: Vec::new() }
    }
}

impl<'a> OperationVisitor<'a> for NoUnusedFragments {
    /// The errors found so far.
    type State = Seq<ErrorView>;

    closed spec fn state(&self) -> Seq<ErrorView> {
        error_views(self.errors@)
    }

    open spec fn on_enter(state: Seq<ErrorView>, ctx: ContextView<'a>, node: Node<'a>) -> Seq<
        ErrorView,
    > {
        state
    }

    /// Leaving the document reports each of its fragment definitions that no
    /// operation reaches.
    open spec fn on_leave(state: Seq<ErrorView>, ctx: ContextView<'a>, node: Node<'a>) -> Seq<
        ErrorView,
    > {
        match node {
            Node::Document(document) => state + spec_unused_fragment_errors(document),
            _ => state,
        }
    }

    fn enter_document(&mut self, _ctx: &OperationVisitorContext<'a>, _document: &'a Document) {
    }

    fn leave_document(&mut self, _ctx: &OperationVisitorContext<'a>, document: &'a Document) {
        report_unused_fragments(document, &mut self.errors);
    }

    fn enter_operation_definition(
        &mut self,
        _ctx: &OperationVisitorContext<'a>,
        _operation: &'a OperationDefinition,
    ) {
    }

    fn leave_operation_definition(
        &mut self,
        _ctx: &OperationVisitorContext<'a>,
        _operation: &'a OperationDefinition,
    ) {
    }

    fn enter_fragment_definition(
        &mut self,
        _ctx: &OperationVisitorContext<'a>,
        _fragment: &'a FragmentDefinition,
    ) {
    }

    fn leave_fragment_definition(
        &mut self,
        _ctx: &OperationVisitorContext<'a>,
        _fragment: &'a FragmentDefinition,
    ) {
    }

    fn enter_variable_definition(
        &mut self,
        _ctx: &OperationVisitorContext<'a>,
        _variable: &'a VariableDefinition,
    ) {
    }

    fn leave_variable_definition(
        &mut self,
        _ctx: &OperationVisitorContext<'a>,
        _variable: &'a VariableDefinition,
    ) {
    }

    fn enter_directive(&mut self, _ctx: &OperationVisitorContext<'a>, _directive: &'a Directive) {
    }

    fn leave_directive(&mut self, _ctx: &OperationVisitorContext<'a>, _directive: &'a Directive) {
    }

    fn enter_argument(
        &mut self,
        _ctx: &OperationVisitorContext<'a>,
        _argument: &'a (String, Value),
    ) {
    }

    fn leave_argument(
        &mut self,
        _ctx: &OperationVisitorContext<'a>,
        _argument: &'a (String, Value),
    ) {
    }

    fn enter_selection_set(
        &mut self,
        _ctx: &OperationVisitorContext<'a>,
        _selection_set: &'a SelectionSet,
    ) {
    }

    fn leave_selection_set(
        &mut self,
        _ctx: &OperationVisitorContext<'a>,
        _selection_set: &'a SelectionSet,
    ) {
    }

    fn enter_field(&mut self, _ctx: &OperationVisitorContext<'a>, _field: &'a Field) {
    }

    fn leave_field(&mut self, _ctx: &OperationVisitorContext<'a>, _field: &'a Field) {
    }

    fn enter_fragment_spread(
        &mut self,
        _ctx: &OperationVisitorContext<'a>,
        _fragment_spread: &'a FragmentSpread,
    ) {
    }

    fn leave_fragment_spread(
        &mut self,
        _ctx: &OperationVisitorContext<'a>,
        _fragment_spread: &'a FragmentSpread,
    ) {
    }

    fn enter_inline_fragment(
        &mut self,
        _ctx: &OperationVisitorContext<'a>,
        _inline_fragment: &'a InlineFragment,
    ) {
    }

    fn leave_inline_fragment(
        &mut self,
        _ctx: &OperationVisitorContext<'a>,
        _inline_fragment: &'a InlineFragment,
    ) {
    }

    fn enter_null_value(&mut self, _ctx: &OperationVisitorContext<'a>) {
    }

    fn leave_null_value(&mut self, _ctx: &OperationVisitorContext<'a>) {
    }

    fn enter_scalar_value(&mut self, _ctx: &OperationVisitorContext<'a>, _value: &'a Value) {
    }

    fn leave_scalar_value(&mut self, _ctx: &OperationVisitorContext<'a>, _value: &'a Value) {
    }

    fn enter_enum_value(&mut self, _ctx: &OperationVisitorContext<'a>, _value: &'a String) {
    }

    fn leave_enum_value(&mut self, _ctx: &OperationVisitorContext<'a>, _value: &'a String) {
    }

    fn enter_variable_value(&mut self, _ctx: &OperationVisitorContext<'a>, _name: &'a String) {
    }

    fn leave_variable_value(&mut self, _ctx: &OperationVisitorContext<'a>, _name: &'a String) {
    }

    fn enter_list_value(&mut self, _ctx: &OperationVisitorContext<'a>, _items: &'a Vec<Value>) {
    }

    fn leave_list_value(&mut self, _ctx: &OperationVisitorContext<'a>, _items: &'a Vec<Value>) {
    }

    fn enter_object_value(
        &mut self,
        _ctx: &OperationVisitorContext<'a>,
        _entries: &'a Vec<(String, Value)>,
    ) {
    }

    fn leave_object_value(
        &mut self,
        _ctx: &OperationVisitorContext<'a>,
        _entries: &'a Vec<(String, Value)>,
    ) {
    }

    fn enter_object_field(
        &mut self,
        _ctx: &OperationVisitorContext<'a>,
        _entry: &'a (String, Value),
    ) {
    }

    fn leave_object_field(
        &mut self,
        _ctx: &OperationVisitorContext<'a>,
        _entry: &'a (String, Value),
    ) {
    }
}

impl NoUnusedFragments {
    /// The errors that the rule reports on `operation` against `schema`:
    /// those that a walk of the document leaves in the state of the rule.
    pub open spec fn spec_errors(schema: &schema::Document, operation: &Document) -> Seq<
        ErrorView,
    > {
        walk_document::<NoUnusedFragments>(
            Seq::empty(),
            ContextView::initial(schema, operation),
            operation,
        )
    }
}

impl ValidationRule for NoUnusedFragments {
    open spec fn spec_validate(
        &self,
        schema: &schema::Document,
        operation: &Document,
    ) -> Seq<ErrorView> {
        Self::spec_errors(schema, operation)
    }

    fn validate<'a>(&self, ctx: &ValidationContext<'a>) -> (res: Vec<ValidationError>) {
        let mut visitor = NoUnusedFragments::new();
        let mut context = OperationVisitorContext::new(ctx.operation, ctx.schema);
        visit_document(&mut visitor, ctx.operation, &mut context);
        visitor.errors
    }
}

/// The rule reports the unused fragments of the document and nothing else.
pub proof fn lemma_rule_reports_unused_fragments(schema: &schema::Document, operation: &Document)
    ensures
        NoUnusedFragments::spec_errors(schema, operation) == spec_unused_fragment_errors(operation),
{
    let keeps = |a: Seq<ErrorView>, b: Seq<ErrorView>| a == b;
    let ctx = ContextView::initial(schema, operation);
    let none = Seq::<ErrorView>::empty();
    assert(spec_hooks_keep::<NoUnusedFragments>(keeps));
    lemma_walk_definitions_keeps::<NoUnusedFragments>(keeps, none, ctx, operation.definitions@, 0);
    assert(none + spec_unused_fragment_errors(operation) =~= spec_unused_fragment_errors(operation));
}

/// The rule reports a fragment definition as unused exactly when no operation
/// reaches its name through spreads.
pub proof fn lemma_rule_reports_exactly_the_unreachable(
    schema: &schema::Document,
    operation: &Document,
    j: int,
)
    requires
        0 <= j < operation.definitions@.len(),
        operation.definitions@[j] is Fragment,
    ensures
        NoUnusedFragments::spec_errors(schema, operation).contains(
            spec_unused_fragment_error(&operation.definitions@[j]->Fragment_0),
        ) <==> !spec_reachable(operation, operation.definitions@[j]->Fragment_0.name@),
{
    lemma_rule_reports_unused_fragments(schema, operation);
    lemma_unused_is_unreachable(operation, j);
}

} // verus!
