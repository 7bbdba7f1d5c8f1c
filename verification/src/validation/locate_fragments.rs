//! The pass that finds the fragment definitions of a document.
use vstd::prelude::*;
use crate::ast::operation_visitor::spec_fragments_upto;
use crate::static_graphql::query::{Definition, Document, FragmentDefinition};

verus! {

/// Finds the fragment definitions of a document before it is validated.
pub struct LocateFragments {}

impl LocateFragments {
    /// Makes the locator.
    pub fn new() -> (res: Self) {
        LocateFragments {  }
    }

    /// Returns the fragment definitions of `operation`, in document order.
    pub fn locate_fragments<'a>(&mut self, operation: &'a Document) -> (res: Vec<
        &'a FragmentDefinition,
    >)
        ensures
            res@ == operation.spec_fragments(),
    {
        let mut located: Vec<&'a FragmentDefinition> = Vec::new();
        let mut i: usize = 0;
        while i < operation.definitions.len()
            invariant
                i <= operation.definitions.len(),
                located@ == spec_fragments_upto::<'a>(operation.definitions@, i as int),
            decreases operation.definitions.len() - i,
        {
            if let Definition::Fragment(fragment) = &operation.definitions[i] {
                located.push(fragment);
            }
            i += 1;
        }
        located
    }
}

} // verus!
