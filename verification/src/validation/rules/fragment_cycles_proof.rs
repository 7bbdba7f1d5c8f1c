//! The search for fragment cycles reports an error exactly when the fragments
//! of a document form a cycle.
//!
//! That no cycle is missed is proved along the search. A fragment is finished when it was opened and
//! closed again. As long as nothing is reported, every fragment that a
//! finished fragment spreads is finished too, and was finished before it. So
//! the finished fragments hold no cycle, and at the end of the search every
//! fragment is finished.
use vstd::prelude::*;
use crate::ast::fragment_spreads::{
    lemma_mark_one, lemma_marks_grow, spec_count_unmarked, spec_fragment_index, spec_spreads,
    spreads_name,
};
use crate::ast::lookup::{first_index, lemma_first_index_from, lemma_last_index_below};
use crate::ast::operation_visitor::is_fragment_named;
use crate::static_graphql::query::{Definition, Document, FragmentSpread, Pos};
use crate::validation::rules::fragment_cycles::{
    is_path_entry, lemma_count_unmarked_bound, lemma_count_unmarked_positive,
    spec_fragment_cycle_errors, spec_fragment_name_at, spec_search_fragment, spec_search_spread,
    spec_search_spreads, spec_search_start, spec_search_upto, CycleSearch,
};
use crate::validation::rules::no_unused_fragments::spec_fragment_spreads;

verus! {

/// Whether the names form a cycle of fragments: each stands for a fragment
/// that spreads the next, and the last for one that spreads the first.
pub open spec fn spec_is_fragment_cycle(document: &Document, names: Seq<Seq<char>>) -> bool {
    &&& names.len() > 0
    &&& forall|q: int|
        0 <= q < names.len() - 1 ==> spec_fragment_spreads(
            document,
            #[trigger] names[q],
            names[q + 1],
        )
    &&& spec_fragment_spreads(document, names.last(), names[0])
}

/// The place that follows the place `q` on a cycle of `count` places.
pub open spec fn spec_next_place(q: int, count: int) -> int {
    if q + 1 < count {
        q + 1
    } else {
        0
    }
}

/// The fragment that the spread names, as an index among the definitions.
pub open spec fn spec_spread_target(document: &Document, spread: &FragmentSpread) -> Option<int> {
    spec_fragment_index(document, spread.fragment_name@)
}

/// The spreads of the fragment at index `a`.
pub open spec fn spec_spreads_at(document: &Document, a: int) -> Seq<&FragmentSpread> {
    spec_spreads(&document.definitions@[a]->Fragment_0.selection_set)
}

/// Whether the fragment at index `a` spreads the fragment at index `b`.
pub open spec fn spec_spreads_into(document: &Document, a: int, b: int) -> bool {
    &&& 0 <= a < document.definitions@.len()
    &&& document.definitions@[a] is Fragment
    &&& exists|k: int|
        0 <= k < spec_spreads_at(document, a).len() && spec_spread_target(
            document,
            #[trigger] spec_spreads_at(document, a)[k],
        ) == Some(b)
}

/// Whether the fragment at index `b` stands on the path.
pub open spec fn spec_on_path(search: CycleSearch, b: int) -> bool {
    first_index(search.path, is_path_entry(b)) is Some
}

/// Whether the fragment at index `b` is finished: it was opened and is
/// closed again.
pub open spec fn spec_finished(search: CycleSearch, b: int) -> bool {
    &&& 0 <= b < search.visited.len()
    &&& search.visited[b]
    &&& !spec_on_path(search, b)
}

/// The search is in order: it has a mark for each definition, and every
/// entry of its path is a definition that was opened.
pub open spec fn spec_search_wf(document: &Document, search: CycleSearch) -> bool {
    &&& search.visited.len() == document.definitions@.len()
    &&& forall|q: int|
        0 <= q < search.path.len() ==> (#[trigger] search.path[q]).0 < search.visited.len()
            && search.visited[search.path[q].0 as int]
}

/// Every fragment that a finished fragment spreads is finished and has a
/// lower rank, and every rank of a finished fragment is below `next`.
pub open spec fn spec_ranked(
    document: &Document,
    search: CycleSearch,
    rank: spec_fn(int) -> nat,
    next: nat,
) -> bool {
    &&& forall|b: int, t: int|
        spec_finished(search, b) && #[trigger] spec_spreads_into(document, b, t) ==> spec_finished(
            search,
            t,
        ) && rank(t) < rank(b)
    &&& forall|b: int| #[trigger] spec_finished(search, b) ==> rank(b) < next
}

/// Something was reported, or the finished fragments are ranked.
pub open spec fn spec_search_inv(
    document: &Document,
    search: CycleSearch,
    rank: spec_fn(int) -> nat,
    next: nat,
) -> bool {
    search.errors.len() > 0 || spec_ranked(document, search, rank, next)
}

/// What a part of the search does to the state: it keeps the path and all
/// marks and errors, and it keeps the ranks of the fragments that were
/// finished.
pub open spec fn spec_search_step(
    document: &Document,
    before: CycleSearch,
    after: CycleSearch,
    rank: spec_fn(int) -> nat,
    next: nat,
    new_rank: spec_fn(int) -> nat,
    new_next: nat,
) -> bool {
    &&& spec_search_wf(document, after)
    &&& after.path == before.path
    &&& forall|q: int| 0 <= q < before.visited.len() && before.visited[q] ==> after.visited[q]
    &&& after.errors.len() >= before.errors.len()
    &&& spec_search_inv(document, after, new_rank, new_next)
    &&& forall|b: int| #[trigger] spec_finished(before, b) ==> new_rank(b) == rank(b)
    &&& new_next >= next
}

/// Whether the spreads before the `k`-th are dealt with: something was
/// reported, or the fragment of each is finished.
pub open spec fn spec_spreads_done(
    document: &Document,
    search: CycleSearch,
    spreads: Seq<&FragmentSpread>,
    k: int,
) -> bool {
    forall|q: int|
        0 <= q < k && q < spreads.len() && (#[trigger] spec_spread_target(
            document,
            spreads[q],
        )) is Some ==> search.errors.len() > 0 || spec_finished(
            search,
            spec_spread_target(document, spreads[q])->Some_0,
        )
}

/// A fragment stands on a path with one more entry exactly when it stands on
/// the path or is the new entry.
pub proof fn lemma_on_path_push(path: Seq<(usize, Pos)>, entry: (usize, Pos), b: int)
    ensures
        first_index(path.push(entry), is_path_entry(b)) is Some <==> (first_index(
            path,
            is_path_entry(b),
        ) is Some || entry.0 as int == b),
{
    let longer = path.push(entry);
    lemma_first_index_from(path, is_path_entry(b), 0);
    lemma_first_index_from(longer, is_path_entry(b), 0);
    if first_index(path, is_path_entry(b)) is Some {
        let i = first_index(path, is_path_entry(b))->Some_0;
        assert(longer[i] == path[i]);
    }
    if entry.0 as int == b {
        assert(longer[path.len() as int] == entry);
    }
    if first_index(longer, is_path_entry(b)) is Some {
        let i = first_index(longer, is_path_entry(b))->Some_0;
        if i < path.len() {
            assert(longer[i] == path[i]);
        }
    }
}

/// The search of one spread keeps the search in order and deals with the
/// spread.
pub proof fn lemma_search_spread(
    document: &Document,
    fuel: nat,
    search: CycleSearch,
    spread: &FragmentSpread,
    rank: spec_fn(int) -> nat,
    next: nat,
) -> (r: (spec_fn(int) -> nat, nat))
    requires
        spec_search_wf(document, search),
        spec_count_unmarked(search.visited, search.visited.len() as int) < fuel,
        spec_search_inv(document, search, rank, next),
    ensures
        spec_search_step(
            document,
            search,
            spec_search_spread(document, fuel, search, spread),
            rank,
            next,
            r.0,
            r.1,
        ),
        spec_spread_target(document, spread) matches Some(t) ==> spec_search_spread(
            document,
            fuel,
            search,
            spread,
        ).errors.len() > 0 || spec_finished(spec_search_spread(document, fuel, search, spread), t),
    decreases fuel, 0nat, 0nat,
{
    let n = document.definitions@.len() as int;
    match spec_fragment_index(document, spread.fragment_name@) {
        None => (rank, next),
        Some(t) => {
            lemma_last_index_below(document.definitions@, is_fragment_named(spread.fragment_name@), n);
            match first_index(search.path, is_path_entry(t)) {
                Some(p) => (rank, next),
                None => {
                    if !search.visited[t] {
                        lemma_count_unmarked_positive(search.visited, t, n);
                        let r = lemma_search_fragment(
                            document,
                            (fuel - 1) as nat,
                            search,
                            t,
                            spread.position,
                            rank,
                            next,
                        );
                        r
                    } else {
                        (rank, next)
                    }
                },
            }
        },
    }
}

/// The search of the spreads from the `k`-th on keeps the search in order
/// and deals with all spreads.
pub proof fn lemma_search_spreads(
    document: &Document,
    fuel: nat,
    search: CycleSearch,
    spreads: Seq<&FragmentSpread>,
    k: int,
    rank: spec_fn(int) -> nat,
    next: nat,
) -> (r: (spec_fn(int) -> nat, nat))
    requires
        0 <= k <= spreads.len(),
        spec_search_wf(document, search),
        spec_count_unmarked(search.visited, search.visited.len() as int) < fuel,
        spec_search_inv(document, search, rank, next),
        spec_spreads_done(document, search, spreads, k),
    ensures
        spec_search_step(
            document,
            search,
            spec_search_spreads(document, fuel, search, spreads, k),
            rank,
            next,
            r.0,
            r.1,
        ),
        spec_spreads_done(
            document,
            spec_search_spreads(document, fuel, search, spreads, k),
            spreads,
            spreads.len() as int,
        ),
    decreases fuel, 1nat, spreads.len() - k,
{
    if k < spreads.len() {
        let n = document.definitions@.len() as int;
        let r1 = lemma_search_spread(document, fuel, search, spreads[k], rank, next);
        let after = spec_search_spread(document, fuel, search, spreads[k]);
        lemma_marks_grow(search.visited, after.visited, n);
        assert forall|q: int|
            0 <= q < k + 1 && q < spreads.len() && (#[trigger] spec_spread_target(
                document,
                spreads[q],
            )) is Some implies after.errors.len() > 0 || spec_finished(
            after,
            spec_spread_target(document, spreads[q])->Some_0,
        ) by {
            if q < k {
                let t = spec_spread_target(document, spreads[q])->Some_0;
                if search.errors.len() == 0 {
                    assert(spec_finished(search, t));
                }
            }
        }
        let r2 = lemma_search_spreads(document, fuel, after, spreads, k + 1, r1.0, r1.1);
        let last = spec_search_spreads(document, fuel, after, spreads, k + 1);
        assert forall|b: int| #[trigger] spec_finished(search, b) implies r2.0(b) == rank(b) by {
            assert(spec_finished(after, b));
        }
        r2
    } else {
        (rank, next)
    }
}

/// The search of a fragment keeps the search in order and finishes the
/// fragment.
pub proof fn lemma_search_fragment(
    document: &Document,
    fuel: nat,
    search: CycleSearch,
    i: int,
    at: Pos,
    rank: spec_fn(int) -> nat,
    next: nat,
) -> (r: (spec_fn(int) -> nat, nat))
    requires
        spec_search_wf(document, search),
        0 <= i < document.definitions@.len(),
        document.definitions@[i] is Fragment,
        !search.visited[i],
        spec_count_unmarked(search.visited, search.visited.len() as int) <= fuel,
        spec_search_inv(document, search, rank, next),
    ensures
        spec_search_step(
            document,
            search,
            spec_search_fragment(document, fuel, search, i, at),
            rank,
            next,
            r.0,
            r.1,
        ),
        spec_search_fragment(document, fuel, search, i, at).visited[i],
    decreases fuel, 2nat, 0nat,
{
    let n = document.definitions@.len() as int;
    assert(n == document.definitions.len());
    let entry = (i as usize, at);
    let started = CycleSearch {
        visited: search.visited.update(i, true),
        path: search.path.push(entry),
        errors: search.errors,
    };
    let spreads = spec_spreads_at(document, i);
    lemma_mark_one(search.visited, i, n);
    lemma_count_unmarked_positive(search.visited, i, n);
    lemma_first_index_from(search.path, is_path_entry(i), 0);
    assert(!spec_on_path(search, i)) by {
        if first_index(search.path, is_path_entry(i)) is Some {
            let p = first_index(search.path, is_path_entry(i))->Some_0;
            assert(search.visited[search.path[p].0 as int]);
        }
    }
    assert(spec_search_wf(document, started)) by {
        assert forall|q: int| 0 <= q < started.path.len() implies (#[trigger] started.path[q]).0
            < started.visited.len() && started.visited[started.path[q].0 as int] by {
            if q < search.path.len() {
                assert(started.path[q] == search.path[q]);
            }
        }
    }
    assert forall|b: int| spec_finished(started, b) <==> spec_finished(search, b) by {
        lemma_on_path_push(search.path, entry, b);
    }
    assert(spec_search_inv(document, started, rank, next)) by {
        if started.errors.len() == 0 {
            assert forall|b: int, t: int|
                spec_finished(started, b) && #[trigger] spec_spreads_into(
                    document,
                    b,
                    t,
                ) implies spec_finished(started, t) && rank(t) < rank(b) by {
                assert(spec_finished(search, b));
            }
            assert forall|b: int| #[trigger] spec_finished(started, b) implies rank(b) < next by {
                assert(spec_finished(search, b));
            }
        }
    }
    assert(spec_spreads_done(document, started, spreads, 0));
    let r1 = lemma_search_spreads(document, fuel, started, spreads, 0, rank, next);
    let done = spec_search_spreads(document, fuel, started, spreads, 0);
    let closed = CycleSearch { path: done.path.drop_last(), ..done };
    assert(closed == spec_search_fragment(document, fuel, search, i, at));
    assert(done.path.drop_last() =~= search.path);
    let new_rank = |x: int| if x == i { r1.1 } else { r1.0(x) };
    let new_next = r1.1 + 1;
    assert(done.visited[i]);
    assert(spec_search_wf(document, closed)) by {
        assert forall|q: int| 0 <= q < closed.path.len() implies (#[trigger] closed.path[q]).0
            < closed.visited.len() && closed.visited[closed.path[q].0 as int] by {
            assert(closed.path[q] == search.path[q]);
        }
    }
    assert forall|b: int| spec_finished(closed, b) <==> (spec_finished(done, b) || b == i) by {
        lemma_on_path_push(search.path, entry, b);
    }
    assert(!spec_finished(done, i)) by {
        lemma_on_path_push(search.path, entry, i);
    }
    if closed.errors.len() == 0 {
        assert(spec_ranked(document, done, r1.0, r1.1));
        assert forall|b: int, t: int|
            spec_finished(closed, b) && #[trigger] spec_spreads_into(
                document,
                b,
                t,
            ) implies spec_finished(closed, t) && new_rank(t) < new_rank(b) by {
            if b == i {
                let k = choose|k: int|
                    0 <= k < spec_spreads_at(document, i).len() && spec_spread_target(
                        document,
                        #[trigger] spec_spreads_at(document, i)[k],
                    ) == Some(t);
                assert(spec_spread_target(document, spreads[k]) is Some);
                assert(spec_finished(done, t));
            } else {
                assert(spec_finished(done, b));
                assert(spec_finished(done, t));
            }
        }
        assert forall|b: int| #[trigger] spec_finished(closed, b) implies new_rank(b)
            < new_next by {
            if b != i {
                assert(spec_finished(done, b));
            }
        }
    }
    assert forall|b: int| #[trigger] spec_finished(search, b) implies new_rank(b) == rank(b) by {
        assert(spec_finished(started, b));
    }
    assert forall|q: int| 0 <= q < search.visited.len() && search.visited[q] implies closed.visited[q] by {
        assert(started.visited[q]);
    }
    (new_rank, new_next)
}

/// Whether the fragments that the names of the fragment definitions among the
/// first `n` definitions stand for were all opened.
pub open spec fn spec_all_opened(document: &Document, search: CycleSearch, n: int) -> bool {
    forall|j: int|
        0 <= j < n && j < document.definitions@.len() && (
        #[trigger] document.definitions@[j]) is Fragment ==> (spec_fragment_index(
            document,
            document.definitions@[j]->Fragment_0.name@,
        ) matches Some(t) && 0 <= t < search.visited.len() && search.visited[t])
}

/// After the search has gone through the first `n` definitions it is in
/// order, its path is empty, and the fragments of these definitions were
/// opened.
pub proof fn lemma_search_upto(document: &Document, n: int) -> (r: (spec_fn(int) -> nat, nat))
    requires
        0 <= n <= document.definitions@.len(),
    ensures
        spec_search_wf(document, spec_search_upto(document, n)),
        spec_search_upto(document, n).path.len() == 0,
        spec_search_inv(document, spec_search_upto(document, n), r.0, r.1),
        spec_all_opened(document, spec_search_upto(document, n), n),
    decreases n,
{
    let len = document.definitions@.len() as int;
    if n == 0 {
        let start = spec_search_start(document);
        let rank = |x: int| 0nat;
        assert forall|b: int| !spec_finished(start, b) by {}
        (rank, 0nat)
    } else {
        let r0 = lemma_search_upto(document, n - 1);
        let search = spec_search_upto(document, n - 1);
        let after = spec_search_upto(document, n);
        match document.definitions@[n - 1] {
            Definition::Fragment(fragment) => {
                lemma_last_index_below(
                    document.definitions@,
                    is_fragment_named(fragment.name@),
                    len,
                );
                let t = spec_fragment_index(document, fragment.name@)->Some_0;
                if !search.visited[t] {
                    lemma_count_unmarked_bound(search.visited, len);
                    let r = lemma_search_fragment(
                        document,
                        len as nat,
                        search,
                        t,
                        fragment.position,
                        r0.0,
                        r0.1,
                    );
                    assert(spec_all_opened(document, after, n));
                    r
                } else {
                    r0
                }
            },
            _ => r0,
        }
    }
}

/// Along a cycle of finished, ranked fragments the rank falls with every
/// step.
pub proof fn lemma_rank_falls(
    document: &Document,
    search: CycleSearch,
    rank: spec_fn(int) -> nat,
    next: nat,
    names: Seq<Seq<char>>,
    q: int,
)
    requires
        spec_ranked(document, search, rank, next),
        spec_is_fragment_cycle(document, names),
        0 <= q < names.len(),
        forall|j: int|
            0 <= j < names.len() ==> (#[trigger] spec_fragment_index(document, names[j])) is Some
                && spec_finished(search, spec_fragment_index(document, names[j])->Some_0),
    ensures
        rank(spec_fragment_index(document, names[q])->Some_0) + q <= rank(
            spec_fragment_index(document, names[0])->Some_0,
        ),
    decreases q,
{
    if q > 0 {
        lemma_rank_falls(document, search, rank, next, names, q - 1);
        lemma_cycle_step(document, names, q - 1);
        let a = spec_fragment_index(document, names[q - 1])->Some_0;
        let b = spec_fragment_index(document, names[q])->Some_0;
        assert(spec_finished(search, a));
        assert(spec_spreads_into(document, a, b));
    }
}

/// Each fragment of a cycle spreads the next, as indices among the
/// definitions.
pub proof fn lemma_cycle_step(document: &Document, names: Seq<Seq<char>>, q: int)
    requires
        spec_is_fragment_cycle(document, names),
        0 <= q < names.len(),
    ensures
        spec_fragment_index(document, names[q]) is Some,
        spec_fragment_index(document, names[spec_next_place(q, names.len() as int)]) is Some,
        spec_spreads_into(
            document,
            spec_fragment_index(document, names[q])->Some_0,
            spec_fragment_index(document, names[spec_next_place(q, names.len() as int)])->Some_0,
        ),
{
    let len = document.definitions@.len() as int;
    let count = names.len() as int;
    let succ = spec_next_place(q, count);
    let after = spec_next_place(succ, count);
    lemma_cycle_edge(document, names, q);
    lemma_cycle_edge(document, names, succ);
    lemma_last_index_below(document.definitions@, is_fragment_named(names[q]), len);
    lemma_last_index_below(document.definitions@, is_fragment_named(names[succ]), len);
    let a = spec_fragment_index(document, names[q])->Some_0;
    let spreads = spec_spreads_at(document, a);
    assert(spreads_name(spreads, names[succ]));
    let k = choose|k: int|
        0 <= k < spreads.len() && (#[trigger] spreads[k]).fragment_name@ == names[succ];
    assert(spec_spread_target(document, spec_spreads_at(document, a)[k]) == spec_fragment_index(
        document,
        names[succ],
    ));
}

/// Each name of a cycle stands for a fragment that spreads the next name.
pub proof fn lemma_cycle_edge(document: &Document, names: Seq<Seq<char>>, q: int)
    requires
        spec_is_fragment_cycle(document, names),
        0 <= q < names.len(),
    ensures
        spec_fragment_spreads(document, names[q], names[spec_next_place(q, names.len() as int)]),
{
    if q + 1 < names.len() {
        assert(spec_fragment_spreads(document, #[trigger] names[q], names[q + 1]));
    }
}

/// Where the fragments of a document form a cycle, the search for cycles
/// reports at least one error.
pub proof fn lemma_cycle_is_reported(document: &Document, names: Seq<Seq<char>>)
    requires
        spec_is_fragment_cycle(document, names),
    ensures
        spec_fragment_cycle_errors(document).len() >= 1,
{
    let len = document.definitions@.len() as int;
    let r = lemma_search_upto(document, len);
    let search = spec_search_upto(document, len);
    if search.errors.len() == 0 {
        let count = names.len() as int;
        assert forall|j: int| 0 <= j < names.len() implies (#[trigger] spec_fragment_index(
            document,
            names[j],
        )) is Some && spec_finished(search, spec_fragment_index(document, names[j])->Some_0) by {
            lemma_cycle_step(document, names, j);
            lemma_last_index_below(document.definitions@, is_fragment_named(names[j]), len);
            let c = spec_fragment_index(document, names[j])->Some_0;
            assert(document.definitions@[c] is Fragment);
            lemma_first_index_from(search.path, is_path_entry(c), 0);
        }
        lemma_rank_falls(document, search, r.0, r.1, names, count - 1);
        lemma_cycle_step(document, names, count - 1);
        let a = spec_fragment_index(document, names[count - 1])->Some_0;
        let b = spec_fragment_index(document, names[0])->Some_0;
        assert(spec_finished(search, a));
        assert(spec_spreads_into(document, a, b));
    }
}

/// Whether the fragments of the document form a cycle.
pub open spec fn spec_has_fragment_cycle(document: &Document) -> bool {
    exists|names: Seq<Seq<char>>| spec_is_fragment_cycle(document, names)
}

/// Whether the `i`-th definition is the fragment that its name stands for.
pub open spec fn spec_is_named_fragment(document: &Document, i: int) -> bool {
    &&& 0 <= i < document.definitions@.len()
    &&& document.definitions@[i] is Fragment
    &&& spec_fragment_index(document, spec_fragment_name_at(document, i)) == Some(i)
}

/// Whether the path is a chain of spreads: each entry is the fragment that
/// its name stands for, and spreads the next.
pub open spec fn spec_path_is_chain(document: &Document, path: Seq<(usize, Pos)>) -> bool {
    &&& forall|q: int| 0 <= q < path.len() ==> spec_is_named_fragment(document, (#[trigger] path[q]).0 as int)
    &&& forall|q: int|
        0 <= q < path.len() - 1 ==> spec_fragment_spreads(
            document,
            spec_fragment_name_at(document, (#[trigger] path[q]).0 as int),
            spec_fragment_name_at(document, path[q + 1].0 as int),
        )
}

/// Whether each of the spreads from the `k`-th on stands in the fragment
/// named `name`.
pub open spec fn spec_spreads_of(
    document: &Document,
    name: Seq<char>,
    spreads: Seq<&FragmentSpread>,
    k: int,
) -> bool {
    forall|q: int|
        k <= q < spreads.len() ==> spec_fragment_spreads(
            document,
            name,
            (#[trigger] spreads[q]).fragment_name@,
        )
}

/// The search of a fragment leaves the path as it was.
pub proof fn lemma_fragment_keeps_path(
    document: &Document,
    fuel: nat,
    search: CycleSearch,
    i: int,
    at: Pos,
)
    ensures
        spec_search_fragment(document, fuel, search, i, at).path == search.path,
    decreases fuel, 2nat, 0nat,
{
    if 0 <= i < search.visited.len() && i < document.definitions@.len()
        && document.definitions@[i] is Fragment {
        let started = CycleSearch {
            visited: search.visited.update(i, true),
            path: search.path.push((i as usize, at)),
            errors: search.errors,
        };
        lemma_spreads_keep_path(document, fuel, started, spec_spreads_at(document, i), 0);
        assert(started.path.drop_last() =~= search.path);
    }
}

/// The search of spreads leaves the path as it was.
pub proof fn lemma_spreads_keep_path(
    document: &Document,
    fuel: nat,
    search: CycleSearch,
    spreads: Seq<&FragmentSpread>,
    k: int,
)
    ensures
        spec_search_spreads(document, fuel, search, spreads, k).path == search.path,
    decreases fuel, 1nat, spreads.len() - k,
{
    if 0 <= k < spreads.len() {
        lemma_spread_keeps_path(document, fuel, search, spreads[k]);
        lemma_spreads_keep_path(
            document,
            fuel,
            spec_search_spread(document, fuel, search, spreads[k]),
            spreads,
            k + 1,
        );
    }
}

/// The search of one spread leaves the path as it was.
pub proof fn lemma_spread_keeps_path(
    document: &Document,
    fuel: nat,
    search: CycleSearch,
    spread: &FragmentSpread,
)
    ensures
        spec_search_spread(document, fuel, search, spread).path == search.path,
    decreases fuel, 0nat, 0nat,
{
    match spec_fragment_index(document, spread.fragment_name@) {
        None => {},
        Some(t) => match first_index(search.path, is_path_entry(t)) {
            Some(p) => {},
            None => {
                if 0 <= t < search.visited.len() && !search.visited[t] && fuel > 0 {
                    lemma_fragment_keeps_path(
                        document,
                        (fuel - 1) as nat,
                        search,
                        t,
                        spread.position,
                    );
                }
            },
        },
    }
}

/// A spread of a fragment that stands on a chain of spreads, in the last
/// fragment of the chain, closes a cycle.
pub proof fn lemma_chain_closes_cycle(
    document: &Document,
    path: Seq<(usize, Pos)>,
    p: int,
    spread: &FragmentSpread,
)
    requires
        spec_path_is_chain(document, path),
        0 <= p < path.len(),
        spec_fragment_index(document, spread.fragment_name@) == Some(path[p].0 as int),
        spec_fragment_spreads(
            document,
            spec_fragment_name_at(document, path.last().0 as int),
            spread.fragment_name@,
        ),
    ensures
        spec_has_fragment_cycle(document),
{
    let count = path.len() - p;
    let names = Seq::new(
        count as nat,
        |q: int| spec_fragment_name_at(document, path[p + q].0 as int),
    );
    lemma_last_index_below(
        document.definitions@,
        is_fragment_named(spread.fragment_name@),
        document.definitions@.len() as int,
    );
    assert(spec_is_named_fragment(document, path[p].0 as int));
    assert(names[0] == spread.fragment_name@);
    assert forall|q: int| 0 <= q < names.len() - 1 implies spec_fragment_spreads(
        document,
        #[trigger] names[q],
        names[q + 1],
    ) by {
        assert(spec_fragment_spreads(
            document,
            spec_fragment_name_at(document, (#[trigger] path[p + q]).0 as int),
            spec_fragment_name_at(document, path[p + q + 1].0 as int),
        ));
    }
    assert(names.last() == spec_fragment_name_at(document, path.last().0 as int));
    assert(spec_is_fragment_cycle(document, names));
}

/// The search of one spread reports nothing unless the fragments form a
/// cycle.
pub proof fn lemma_spread_is_sound(
    document: &Document,
    fuel: nat,
    search: CycleSearch,
    spread: &FragmentSpread,
)
    requires
        spec_path_is_chain(document, search.path),
        search.path.len() > 0,
        spec_fragment_spreads(
            document,
            spec_fragment_name_at(document, search.path.last().0 as int),
            spread.fragment_name@,
        ),
        search.errors.len() > 0 ==> spec_has_fragment_cycle(document),
    ensures
        spec_search_spread(document, fuel, search, spread).errors.len() > 0
            ==> spec_has_fragment_cycle(document),
    decreases fuel, 0nat, 0nat,
{
    match spec_fragment_index(document, spread.fragment_name@) {
        None => {},
        Some(t) => {
            lemma_last_index_below(
                document.definitions@,
                is_fragment_named(spread.fragment_name@),
                document.definitions@.len() as int,
            );
            match first_index(search.path, is_path_entry(t)) {
                Some(p) => {
                    lemma_first_index_from(search.path, is_path_entry(t), 0);
                    lemma_chain_closes_cycle(document, search.path, p, spread);
                },
                None => {
                    if 0 <= t < search.visited.len() && !search.visited[t] && fuel > 0 {
                        lemma_fragment_is_sound(
                            document,
                            (fuel - 1) as nat,
                            search,
                            t,
                            spread.position,
                        );
                    }
                },
            }
        },
    }
}

/// The search of the spreads of the last fragment of the path reports
/// nothing unless the fragments form a cycle.
pub proof fn lemma_spreads_are_sound(
    document: &Document,
    fuel: nat,
    search: CycleSearch,
    spreads: Seq<&FragmentSpread>,
    k: int,
)
    requires
        0 <= k <= spreads.len(),
        spec_path_is_chain(document, search.path),
        search.path.len() > 0,
        spec_spreads_of(
            document,
            spec_fragment_name_at(document, search.path.last().0 as int),
            spreads,
            k,
        ),
        search.errors.len() > 0 ==> spec_has_fragment_cycle(document),
    ensures
        spec_search_spreads(document, fuel, search, spreads, k).errors.len() > 0
            ==> spec_has_fragment_cycle(document),
    decreases fuel, 1nat, spreads.len() - k,
{
    if k < spreads.len() {
        lemma_spread_is_sound(document, fuel, search, spreads[k]);
        lemma_spread_keeps_path(document, fuel, search, spreads[k]);
        lemma_spreads_are_sound(
            document,
            fuel,
            spec_search_spread(document, fuel, search, spreads[k]),
            spreads,
            k + 1,
        );
    }
}

/// The search of a fragment reports nothing unless the fragments form a
/// cycle.
pub proof fn lemma_fragment_is_sound(
    document: &Document,
    fuel: nat,
    search: CycleSearch,
    i: int,
    at: Pos,
)
    requires
        spec_path_is_chain(document, search.path),
        spec_is_named_fragment(document, i),
        search.path.len() > 0 ==> spec_fragment_spreads(
            document,
            spec_fragment_name_at(document, search.path.last().0 as int),
            spec_fragment_name_at(document, i),
        ),
        search.errors.len() > 0 ==> spec_has_fragment_cycle(document),
    ensures
        spec_search_fragment(document, fuel, search, i, at).errors.len() > 0
            ==> spec_has_fragment_cycle(document),
    decreases fuel, 2nat, 0nat,
{
    if 0 <= i < search.visited.len() {
        assert(document.definitions@.len() == document.definitions.len());
        let entry = (i as usize, at);
        let started = CycleSearch {
            visited: search.visited.update(i, true),
            path: search.path.push(entry),
            errors: search.errors,
        };
        let spreads = spec_spreads_at(document, i);
        assert(spec_path_is_chain(document, started.path)) by {
            assert forall|q: int| 0 <= q < started.path.len() implies spec_is_named_fragment(
                document,
                (#[trigger] started.path[q]).0 as int,
            ) by {
                if q < search.path.len() {
                    assert(started.path[q] == search.path[q]);
                }
            }
            assert forall|q: int| 0 <= q < started.path.len() - 1 implies spec_fragment_spreads(
                document,
                spec_fragment_name_at(document, (#[trigger] started.path[q]).0 as int),
                spec_fragment_name_at(document, started.path[q + 1].0 as int),
            ) by {
                assert(started.path[q] == search.path[q]);
                if q < search.path.len() - 1 {
                    assert(started.path[q + 1] == search.path[q + 1]);
                }
            }
        }
        assert(spec_spreads_of(document, spec_fragment_name_at(document, i), spreads, 0)) by {
            assert(document.spec_fragment_by_name(spec_fragment_name_at(document, i)) == Some(
                &document.definitions@[i]->Fragment_0,
            ));
            assert forall|q: int| 0 <= q < spreads.len() implies spec_fragment_spreads(
                document,
                spec_fragment_name_at(document, i),
                (#[trigger] spreads[q]).fragment_name@,
            ) by {
                assert(spreads_name(spreads, spreads[q].fragment_name@));
            }
        }
        lemma_spreads_are_sound(document, fuel, started, spreads, 0);
    }
}

/// The search through the first `n` definitions reports nothing unless the
/// fragments form a cycle.
pub proof fn lemma_search_upto_is_sound(document: &Document, n: int)
    requires
        0 <= n <= document.definitions@.len(),
    ensures
        spec_search_upto(document, n).errors.len() > 0 ==> spec_has_fragment_cycle(document),
        spec_search_upto(document, n).path.len() == 0,
    decreases n,
{
    if n > 0 {
        lemma_search_upto_is_sound(document, n - 1);
        let search = spec_search_upto(document, n - 1);
        match document.definitions@[n - 1] {
            Definition::Fragment(fragment) => {
                lemma_last_index_below(
                    document.definitions@,
                    is_fragment_named(fragment.name@),
                    document.definitions@.len() as int,
                );
                match spec_fragment_index(document, fragment.name@) {
                    Some(t) => {
                        if 0 <= t < search.visited.len() && !search.visited[t] {
                            lemma_fragment_is_sound(
                                document,
                                document.definitions@.len(),
                                search,
                                t,
                                fragment.position,
                            );
                            lemma_fragment_keeps_path(
                                document,
                                document.definitions@.len(),
                                search,
                                t,
                                fragment.position,
                            );
                        }
                    },
                    None => {},
                }
            },
            _ => {},
        }
    }
}

/// The search for cycles reports an error exactly when the fragments of the
/// document form a cycle.
pub proof fn lemma_cycle_errors_exactly_for_cycles(document: &Document)
    ensures
        spec_fragment_cycle_errors(document).len() > 0 <==> spec_has_fragment_cycle(document),
{
    lemma_search_upto_is_sound(document, document.definitions@.len() as int);
    if spec_has_fragment_cycle(document) {
        let names = choose|names: Seq<Seq<char>>| spec_is_fragment_cycle(document, names);
        lemma_cycle_is_reported(document, names);
    }
}

/// Whether the search `after` has every mark of the search `before`, and as
/// many entries for marks.
pub open spec fn spec_marks_kept(before: CycleSearch, after: CycleSearch) -> bool {
    &&& after.visited.len() == before.visited.len()
    &&& forall|q: int| 0 <= q < before.visited.len() && before.visited[q] ==> after.visited[q]
}

/// The search of one spread does not depend on the fuel, as long as there is
/// more fuel than fragments that were not opened.
pub proof fn lemma_spread_whatever_fuel(
    document: &Document,
    fuel: nat,
    other: nat,
    search: CycleSearch,
    spread: &FragmentSpread,
)
    requires
        search.visited.len() == document.definitions@.len(),
        spec_count_unmarked(search.visited, search.visited.len() as int) < fuel,
        spec_count_unmarked(search.visited, search.visited.len() as int) < other,
    ensures
        spec_search_spread(document, fuel, search, spread) == spec_search_spread(
            document,
            other,
            search,
            spread,
        ),
        spec_marks_kept(search, spec_search_spread(document, fuel, search, spread)),
    decreases fuel, 0nat, 0nat,
{
    match spec_fragment_index(document, spread.fragment_name@) {
        None => {},
        Some(t) => {
            lemma_last_index_below(
                document.definitions@,
                is_fragment_named(spread.fragment_name@),
                document.definitions@.len() as int,
            );
            match first_index(search.path, is_path_entry(t)) {
                Some(p) => {},
                None => {
                    if !search.visited[t] {
                        lemma_fragment_whatever_fuel(
                            document,
                            (fuel - 1) as nat,
                            (other - 1) as nat,
                            search,
                            t,
                            spread.position,
                        );
                    }
                },
            }
        },
    }
}

/// The search of spreads does not depend on the fuel, as long as there is
/// more fuel than fragments that were not opened.
pub proof fn lemma_spreads_whatever_fuel(
    document: &Document,
    fuel: nat,
    other: nat,
    search: CycleSearch,
    spreads: Seq<&FragmentSpread>,
    k: int,
)
    requires
        0 <= k <= spreads.len(),
        search.visited.len() == document.definitions@.len(),
        spec_count_unmarked(search.visited, search.visited.len() as int) < fuel,
        spec_count_unmarked(search.visited, search.visited.len() as int) < other,
    ensures
        spec_search_spreads(document, fuel, search, spreads, k) == spec_search_spreads(
            document,
            other,
            search,
            spreads,
            k,
        ),
        spec_marks_kept(search, spec_search_spreads(document, fuel, search, spreads, k)),
    decreases fuel, 1nat, spreads.len() - k,
{
    if k < spreads.len() {
        lemma_spread_whatever_fuel(document, fuel, other, search, spreads[k]);
        let after = spec_search_spread(document, fuel, search, spreads[k]);
        lemma_marks_grow(search.visited, after.visited, search.visited.len() as int);
        lemma_spreads_whatever_fuel(document, fuel, other, after, spreads, k + 1);
    }
}

/// The search of a fragment does not depend on the fuel, as long as there is
/// as much fuel as fragments that were not opened.
pub proof fn lemma_fragment_whatever_fuel(
    document: &Document,
    fuel: nat,
    other: nat,
    search: CycleSearch,
    i: int,
    at: Pos,
)
    requires
        search.visited.len() == document.definitions@.len(),
        0 <= i < document.definitions@.len(),
        !search.visited[i],
        spec_count_unmarked(search.visited, search.visited.len() as int) <= fuel,
        spec_count_unmarked(search.visited, search.visited.len() as int) <= other,
    ensures
        spec_search_fragment(document, fuel, search, i, at) == spec_search_fragment(
            document,
            other,
            search,
            i,
            at,
        ),
        spec_marks_kept(search, spec_search_fragment(document, fuel, search, i, at)),
    decreases fuel, 2nat, 0nat,
{
    if document.definitions@[i] is Fragment {
        let n = document.definitions@.len() as int;
        assert(n == document.definitions.len());
        let started = CycleSearch {
            visited: search.visited.update(i, true),
            path: search.path.push((i as usize, at)),
            errors: search.errors,
        };
        lemma_mark_one(search.visited, i, n);
        lemma_count_unmarked_positive(search.visited, i, n);
        lemma_spreads_whatever_fuel(
            document,
            fuel,
            other,
            started,
            spec_spreads_at(document, i),
            0,
        );
    }
}

} // verus!
