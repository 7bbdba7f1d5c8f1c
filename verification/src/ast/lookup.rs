//! Searching a sequence for the first or the last element with a property.
use vstd::prelude::*;

verus! {

/// The least index at or after `from` whose element satisfies `p`, if any.
pub open spec fn first_index_from<T>(s: Seq<T>, p: spec_fn(T) -> bool, from: int) -> Option<int>
    decreases s.len() - from,
{
    if from < 0 || from >= s.len() {
        None
    } else if p(s[from]) {
        Some(from)
    } else {
        first_index_from(s, p, from + 1)
    }
}

/// The least index whose element satisfies `p`, if any.
pub open spec fn first_index<T>(s: Seq<T>, p: spec_fn(T) -> bool) -> Option<int> {
    first_index_from(s, p, 0)
}

/// The greatest index below `below` whose element satisfies `p`, if any.
pub open spec fn last_index_below<T>(s: Seq<T>, p: spec_fn(T) -> bool, below: int) -> Option<int>
    decreases below,
{
    if below <= 0 || below > s.len() {
        None
    } else if p(s[below - 1]) {
        Some(below - 1)
    } else {
        last_index_below(s, p, below - 1)
    }
}

/// The greatest index whose element satisfies `p`, if any.
pub open spec fn last_index<T>(s: Seq<T>, p: spec_fn(T) -> bool) -> Option<int> {
    last_index_below(s, p, s.len() as int)
}

/// `first_index_from` returns exactly the least matching index at or after
/// `from`.
pub proof fn lemma_first_index_from<T>(s: Seq<T>, p: spec_fn(T) -> bool, from: int)
    requires
        0 <= from <= s.len(),
    ensures
        match first_index_from(s, p, from) {
            Some(i) => from <= i < s.len() && p(s[i]) && forall|j: int| from <= j < i ==> !p(s[j]),
            None => forall|j: int| from <= j < s.len() ==> !p(s[j]),
        },
    decreases s.len() - from,
{
    if from < s.len() && !p(s[from]) {
        lemma_first_index_from(s, p, from + 1);
    }
}

/// `last_index_below` returns exactly the greatest matching index below
/// `below`.
pub proof fn lemma_last_index_below<T>(s: Seq<T>, p: spec_fn(T) -> bool, below: int)
    requires
        0 <= below <= s.len(),
    ensures
        match last_index_below(s, p, below) {
            Some(i) => 0 <= i < below && p(s[i]) && forall|j: int| i < j < below ==> !p(s[j]),
            None => forall|j: int| 0 <= j < below ==> !p(s[j]),
        },
    decreases below,
{
    if below > 0 && !p(s[below - 1]) {
        lemma_last_index_below(s, p, below - 1);
    }
}

/// An index whose element matches, with no match before it, is the first
/// index.
pub proof fn lemma_first_index_is<T>(s: Seq<T>, p: spec_fn(T) -> bool, i: int)
    requires
        0 <= i < s.len(),
        p(s[i]),
        forall|j: int| 0 <= j < i ==> !p(s[j]),
    ensures
        first_index(s, p) == Some(i),
{
    lemma_first_index_from(s, p, 0);
}

/// An index whose element matches, with no match after it, is the last index.
pub proof fn lemma_last_index_is<T>(s: Seq<T>, p: spec_fn(T) -> bool, i: int)
    requires
        0 <= i < s.len(),
        p(s[i]),
        forall|j: int| i < j < s.len() ==> !p(s[j]),
    ensures
        last_index(s, p) == Some(i),
{
    lemma_last_index_below(s, p, s.len() as int);
}

/// Where no element matches there is no first and no last index.
pub proof fn lemma_no_index<T>(s: Seq<T>, p: spec_fn(T) -> bool)
    requires
        forall|j: int| 0 <= j < s.len() ==> !p(s[j]),
    ensures
        first_index(s, p) is None,
        last_index(s, p) is None,
{
    lemma_first_index_from(s, p, 0);
    lemma_last_index_below(s, p, s.len() as int);
}

/// Whether some element of `names` reads `name`.
pub open spec fn names_contain(names: Seq<String>, name: Seq<char>) -> bool {
    exists|i: int| 0 <= i < names.len() && (#[trigger] names[i])@ == name
}

/// Tells whether some element of `names` reads `name`.
pub fn contains_name(names: &Vec<String>, name: &String) -> (res: bool)
    ensures
        res == names_contain(names@, name@),
{
    let mut i: usize = 0;
    while i < names.len()
        invariant
            i <= names.len(),
            forall|j: int| 0 <= j < i ==> (#[trigger] names@[j])@ != name@,
        decreases names.len() - i,
    {
        if names[i] == *name {
            return true;
        }
        i += 1;
    }
    false
}

} // verus!
