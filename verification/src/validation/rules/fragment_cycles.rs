//! A fragment must not spread itself, directly or through other fragments.
//!
//! The search goes through the fragment definitions in document order and
//! opens each fragment once. While a fragment is open it stands on the path;
//! its spreads are followed in document order, each into the fragment that its
//! name stands for. A spread of a fragment that stands on the path closes a
//! cycle and is reported; it is not followed.
use vstd::prelude::*;
use crate::ast::fragment_spreads::{
    collect_spreads, fragment_index, lemma_mark_one, lemma_marks_grow, new_marks,
    spec_count_unmarked, spec_fragment_index, spec_spreads,
};
use crate::ast::lookup::{
    first_index, lemma_first_index_is, lemma_last_index_below, lemma_no_index,
};
use crate::ast::operation_visitor::is_fragment_named;
use crate::static_graphql::query::{Definition, Document, FragmentSpread, Pos};
use crate::validation::utils::{
    error_views, lemma_error_views_empty, report_error, ErrorView, ValidationError,
};

verus! {

/// The state of a search for cycles, as mathematical values.
pub struct CycleSearch {
    /// For each definition of the document, whether it is a fragment that
    /// was opened.
    pub visited: Seq<bool>,
    /// The fragments that are open, outermost first: the index of each among
    /// the definitions, and the position of the spread that led into it.
    pub path: Seq<(usize, Pos)>,
    /// The errors found so far.
    pub errors: Seq<ErrorView>,
}

/// The entry of a path is the fragment at index `t`.
pub open spec fn is_path_entry(t: int) -> spec_fn((usize, Pos)) -> bool {
    |entry: (usize, Pos)| entry.0 as int == t
}

/// The name of the fragment at index `i` of the definitions.
pub open spec fn spec_fragment_name_at(document: &Document, i: int) -> Seq<char> {
    if 0 <= i < document.definitions@.len() && document.definitions@[i] is Fragment {
        document.definitions@[i]->Fragment_0.name@
    } else {
        Seq::empty()
    }
}

/// The names of the fragments at the entries `from` to `to` of the path, each
/// in double quotes, with a comma and a blank between two of them.
pub open spec fn spec_via_text(
    document: &Document,
    path: Seq<(usize, Pos)>,
    from: int,
    to: int,
) -> Seq<char>
    decreases to - from,
{
    if to <= from || to > path.len() || from < 0 {
        Seq::empty()
    } else {
        spec_via_text(document, path, from, to - 1) + (if to - 1 > from {
            ", "@
        } else {
            Seq::empty()
        }) + "\""@ + spec_fragment_name_at(document, path[to - 1].0 as int) + "\""@
    }
}

/// The positions of the spreads that led into the entries `from` to `to` of
/// the path.
pub open spec fn spec_path_positions(path: Seq<(usize, Pos)>, from: int, to: int) -> Seq<Pos>
    decreases to - from,
{
    if to <= from || to > path.len() || from < 0 {
        Seq::empty()
    } else {
        spec_path_positions(path, from, to - 1).push(path[to - 1].1)
    }
}

/// The error for the spread `spread` of the fragment that stands at entry `p`
/// of the path. Its message names the fragment and, where the cycle goes
/// through others, the fragments that stand behind entry `p` on the path. It
/// points at the spreads of the cycle: those that led into the entries behind
/// `p`, and `spread`.
pub open spec fn spec_cycle_error(
    document: &Document,
    path: Seq<(usize, Pos)>,
    p: int,
    spread: &FragmentSpread,
) -> ErrorView {
    ErrorView {
        message: "Cannot spread fragment \""@ + spread.fragment_name@ + "\" within itself"@ + (
        if p + 1 < path.len() {
            " via "@ + spec_via_text(document, path, p + 1, path.len() as int)
        } else {
            Seq::empty()
        }) + "."@,
        locations: spec_path_positions(path, p + 1, path.len() as int).push(spread.position),
    }
}

/// The search after it has opened the fragment at index `i`, which the spread
/// at `at` led into, has followed its spreads, and has closed it again.
///
/// `fuel` says how many fragments may still be opened one inside the other.
/// Every fragment is opened at most once, so a search that starts with as
/// much fuel as the document has definitions never runs out of it.
pub open spec fn spec_search_fragment(
    document: &Document,
    fuel: nat,
    search: CycleSearch,
    i: int,
    at: Pos,
) -> CycleSearch
    decreases fuel, 2nat, 0nat,
{
    if 0 <= i < search.visited.len() && i < document.definitions@.len()
        && document.definitions@[i] is Fragment {
        let started = CycleSearch {
            visited: search.visited.update(i, true),
            path: search.path.push((i as usize, at)),
            errors: search.errors,
        };
        let done = spec_search_spreads(
            document,
            fuel,
            started,
            spec_spreads(&document.definitions@[i]->Fragment_0.selection_set),
            0,
        );
        CycleSearch { path: done.path.drop_last(), ..done }
    } else {
        search
    }
}

/// The search after it has dealt with the spreads from the `k`-th on.
pub open spec fn spec_search_spreads(
    document: &Document,
    fuel: nat,
    search: CycleSearch,
    spreads: Seq<&FragmentSpread>,
    k: int,
) -> CycleSearch
    decreases fuel, 1nat, spreads.len() - k,
{
    if 0 <= k < spreads.len() {
        spec_search_spreads(
            document,
            fuel,
            spec_search_spread(document, fuel, search, spreads[k]),
            spreads,
            k + 1,
        )
    } else {
        search
    }
}

/// The search after it has dealt with one spread. A spread of a name that
/// stands for no fragment is passed over. A spread of a fragment that stands
/// on the path is reported. Any other spread is followed, unless its fragment
/// was opened before.
pub open spec fn spec_search_spread(
    document: &Document,
    fuel: nat,
    search: CycleSearch,
    spread: &FragmentSpread,
) -> CycleSearch
    decreases fuel, 0nat, 0nat,
{
    match spec_fragment_index(document, spread.fragment_name@) {
        None => search,
        Some(t) => match first_index(search.path, is_path_entry(t)) {
            Some(p) => CycleSearch {
                errors: search.errors.push(spec_cycle_error(document, search.path, p, spread)),
                ..search
            },
            None => if 0 <= t < search.visited.len() && !search.visited[t] && fuel > 0 {
                spec_search_fragment(document, (fuel - 1) as nat, search, t, spread.position)
            } else {
                search
            },
        },
    }
}

/// The search before anything was opened.
pub open spec fn spec_search_start(document: &Document) -> CycleSearch {
    CycleSearch {
        visited: Seq::new(document.definitions@.len(), |i: int| false),
        path: Seq::empty(),
        errors: Seq::empty(),
    }
}

/// The search after it has gone through the first `n` definitions: for each
/// fragment definition, the fragment that its name stands for is opened,
/// unless it was opened before.
pub open spec fn spec_search_upto(document: &Document, n: int) -> CycleSearch
    decreases n,
{
    if n <= 0 || n > document.definitions@.len() {
        spec_search_start(document)
    } else {
        let search = spec_search_upto(document, n - 1);
        match document.definitions@[n - 1] {
            Definition::Fragment(fragment) => match spec_fragment_index(document, fragment.name@) {
                Some(t) => if 0 <= t < search.visited.len() && !search.visited[t] {
                    spec_search_fragment(
                        document,
                        document.definitions@.len(),
                        search,
                        t,
                        fragment.position,
                    )
                } else {
                    search
                },
                None => search,
            },
            _ => search,
        }
    }
}

/// The errors for the fragment cycles of a document.
pub open spec fn spec_fragment_cycle_errors(document: &Document) -> Seq<ErrorView> {
    spec_search_upto(document, document.definitions@.len() as int).errors
}

/// The state of a search for cycles.
pub struct CycleSearchState {
    visited: Vec<bool>,
    path: Vec<(usize, Pos)>,
    errors: Vec<ValidationError>,
}

impl View for CycleSearchState {
    type V = CycleSearch;

    closed spec fn view(&self) -> CycleSearch {
        CycleSearch {
            visited: self.visited@,
            path: self.path@,
            errors: error_views(self.errors@),
        }
    }
}

/// No more entries are unmarked than there are entries.
pub proof fn lemma_count_unmarked_bound(marks: Seq<bool>, n: int)
    requires
        0 <= n <= marks.len(),
    ensures
        spec_count_unmarked(marks, n) <= n,
    decreases n,
{
    if n > 0 {
        lemma_count_unmarked_bound(marks, n - 1);
    }
}

/// Where an entry is unmarked, at least one entry is unmarked.
pub proof fn lemma_count_unmarked_positive(marks: Seq<bool>, i: int, n: int)
    requires
        0 <= i < n <= marks.len(),
        !marks[i],
    ensures
        spec_count_unmarked(marks, n) >= 1,
    decreases n,
{
    if i < n - 1 {
        lemma_count_unmarked_positive(marks, i, n - 1);
    }
}

impl CycleSearchState {
    /// Returns the entry of the path at which the fragment at index `t`
    /// stands, if it stands on the path.
    fn position_on_path(&self, t: usize) -> (res: Option<usize>)
        ensures
            match res {
                Some(p) => first_index(self@.path, is_path_entry(t as int)) == Some(p as int) && p
                    < self@.path.len(),
                None => first_index(self@.path, is_path_entry(t as int)) is None,
            },
    {
        let mut p: usize = 0;
        while p < self.path.len()
            invariant
                p <= self.path.len(),
                forall|q: int| 0 <= q < p ==> !is_path_entry(t as int)(#[trigger] self.path@[q]),
            decreases self.path.len() - p,
        {
            if self.path[p].0 == t {
                proof {
                    lemma_first_index_is(self.path@, is_path_entry(t as int), p as int);
                }
                return Some(p);
            }
            p += 1;
        }
        proof {
            lemma_no_index(self.path@, is_path_entry(t as int));
        }
        None
    }

    /// Reports the spread `spread`, which closes a cycle at entry `p` of the
    /// path.
    fn report_cycle(&mut self, document: &Document, p: usize, spread: &FragmentSpread)
        requires
            p < old(self)@.path.len(),
            forall|q: int|
                0 <= q < old(self)@.path.len() ==> (#[trigger] old(self)@.path[q]).0
                    < document.definitions@.len(),
        ensures
            final(self)@ == (CycleSearch {
                errors: old(self)@.errors.push(
                    spec_cycle_error(document, old(self)@.path, p as int, spread),
                ),
                ..old(self)@
            }),
    {
        let mut message = String::from_str("Cannot spread fragment \"");
        message.append(spread.fragment_name.as_str());
        message.append("\" within itself");
        let mut locations: Vec<Pos> = Vec::new();
        let n = self.path.len();
        if p + 1 < n {
            let mut through = String::from_str(" via ");
            let ghost head = through@;
            let mut q: usize = p + 1;
            assert(through@ + Seq::<char>::empty() =~= through@);
            while q < n
                invariant
                    p + 1 <= q <= n,
                    n == self.path@.len(),
                    self.path@ == old(self)@.path,
                    forall|r: int|
                        0 <= r < self.path@.len() ==> (#[trigger] self.path@[r]).0
                            < document.definitions@.len(),
                    through@ == head + spec_via_text(document, self.path@, p + 1, q as int),
                    locations@ == spec_path_positions(self.path@, p + 1, q as int),
                decreases n - q,
            {
                let ghost before = spec_via_text(document, self.path@, p + 1, q as int);
                let ghost name = spec_fragment_name_at(document, self.path@[q as int].0 as int);
                if q > p + 1 {
                    through.append(", ");
                }
                through.append("\"");
                if let Definition::Fragment(fragment) = &document.definitions[self.path[q].0] {
                    through.append(fragment.name.as_str());
                }
                through.append("\"");
                locations.push(self.path[q].1);
                assert(through@ =~= head + (before + (if q > p + 1 {
                    ", "@
                } else {
                    Seq::empty()
                }) + "\""@ + name + "\""@));
                q += 1;
            }
            message.append(through.as_str());
        }
        message.append(".");
        locations.push(spread.position);
        assert(message@ =~= spec_cycle_error(document, self@.path, p as int, spread).message);
        report_error(&mut self.errors, message, locations);
    }

    /// Opens the fragment at index `i`, follows its spreads, and closes it.
    fn search_fragment(&mut self, document: &Document, i: usize, at: Pos, Ghost(fuel): Ghost<nat>)
        requires
            i < document.definitions@.len(),
            document.definitions@[i as int] is Fragment,
            old(self)@.visited.len() == document.definitions@.len(),
            !old(self)@.visited[i as int],
            spec_count_unmarked(old(self)@.visited, old(self)@.visited.len() as int) <= fuel,
            forall|q: int|
                0 <= q < old(self)@.path.len() ==> (#[trigger] old(self)@.path[q]).0
                    < document.definitions@.len(),
        ensures
            final(self)@ == spec_search_fragment(document, fuel, old(self)@, i as int, at),
            final(self)@.visited.len() == old(self)@.visited.len(),
            final(self)@.path == old(self)@.path,
            forall|q: int|
                0 <= q < old(self)@.visited.len() && old(self)@.visited[q]
                    ==> final(self)@.visited[q],
        decreases fuel, 2nat, 0nat,
    {
        let ghost n = document.definitions@.len() as int;
        proof {
            lemma_mark_one(self.visited@, i as int, n);
            lemma_count_unmarked_positive(self.visited@, i as int, n);
        }
        self.visited.set(i, true);
        self.path.push((i, at));
        let ghost started = self@;
        proof {
            assert(started.path == old(self)@.path.push((i, at)));
            assert forall|q: int| 0 <= q < started.path.len() implies (#[trigger] started.path[q]).0
                < n by {
                if q < old(self)@.path.len() {
                    assert(started.path[q] == old(self)@.path[q]);
                }
            }
        }
        let mut spreads: Vec<&FragmentSpread> = Vec::new();
        if let Definition::Fragment(fragment) = &document.definitions[i] {
            collect_spreads(&fragment.selection_set, &mut spreads);
            assert(spreads@ =~= spec_spreads(&fragment.selection_set));
        }
        let mut k: usize = 0;
        while k < spreads.len()
            invariant
                k <= spreads.len(),
                n == document.definitions@.len(),
                self@.visited.len() == n,
                self@.path == started.path,
                i < n,
                old(self)@.visited.len() == n,
                started.visited == old(self)@.visited.update(i as int, true),
                started.visited.len() == n,
                fuel > 0,
                spec_count_unmarked(self@.visited, n) < fuel,
                forall|q: int| 0 <= q < n && started.visited[q] ==> self@.visited[q],
                forall|q: int|
                    0 <= q < self@.path.len() ==> (#[trigger] self@.path[q]).0 < n,
                spec_search_spreads(document, fuel, self@, spreads@, k as int)
                    == spec_search_spreads(document, fuel, started, spreads@, 0),
            decreases fuel, 1nat, spreads.len() - k,
        {
            let spread = spreads[k];
            let ghost before = self@;
            match fragment_index(document, &spread.fragment_name) {
                None => {},
                Some(t) => {
                    proof {
                        lemma_last_index_below(
                            document.definitions@,
                            is_fragment_named(spread.fragment_name@),
                            n,
                        );
                    }
                    match self.position_on_path(t) {
                        Some(p) => {
                            self.report_cycle(document, p, spread);
                        },
                        None => {
                            if !self.visited[t] {
                                self.search_fragment(
                                    document,
                                    t,
                                    spread.position,
                                    Ghost((fuel - 1) as nat),
                                );
                                proof {
                                    lemma_marks_grow(before.visited, self@.visited, n);
                                }
                            }
                        },
                    }
                },
            }
            assert(self@ == spec_search_spread(document, fuel, before, spreads@[k as int]));
            k += 1;
        }
        self.path.pop();
        assert(self@.path =~= old(self)@.path);
        assert forall|q: int|
            0 <= q < old(self)@.visited.len() && old(self)@.visited[q] implies self@.visited[q] by {
            assert(started.visited[q]);
        }
    }
}

/// Finds the fragment cycles of a document.
pub fn detect_fragment_cycles(document: &Document) -> (res: Vec<ValidationError>)
    ensures
        error_views(res@) == spec_fragment_cycle_errors(document),
{
    let n = document.definitions.len();
    let mut state = CycleSearchState {
        visited: new_marks(n),
        path: Vec::new(),
        errors: Vec::new(),
    };
    proof {
        lemma_error_views_empty();
        assert(state@.visited =~= spec_search_start(document).visited);
    }
    let mut j: usize = 0;
    while j < n
        invariant
            j <= n,
            n == document.definitions@.len(),
            state@.visited.len() == n,
            state@.path.len() == 0,
            state@ == spec_search_upto(document, j as int),
        decreases n - j,
    {
        if let Definition::Fragment(fragment) = &document.definitions[j] {
            match fragment_index(document, &fragment.name) {
                Some(t) => {
                    proof {
                        lemma_last_index_below(
                            document.definitions@,
                            is_fragment_named(fragment.name@),
                            n as int,
                        );
                        lemma_count_unmarked_bound(state@.visited, n as int);
                    }
                    if !state.visited[t] {
                        state.search_fragment(document, t, fragment.position, Ghost(n as nat));
                    }
                },
                None => {},
            }
        }
        j += 1;
    }
    state.errors
}

} // verus!
