//! The index of a schema: its type definitions, and its three root types.
use vstd::prelude::*;
use crate::ast::lookup::{
    last_index, last_index_below, lemma_last_index_below, lemma_last_index_is, lemma_no_index,
};
use crate::ast::schema_index::{is_type_named, RootKind};
use crate::static_graphql::schema;

verus! {

/// The type definitions among the first `n` definitions of a schema, in
/// document order.
pub open spec fn spec_type_definitions_upto<'a>(defs: Seq<schema::Definition>, n: int) -> Seq<
    &'a schema::TypeDefinition,
>
    decreases n,
{
    if n <= 0 || n > defs.len() {
        Seq::empty()
    } else {
        match defs[n - 1] {
            schema::Definition::TypeDefinition(t) => spec_type_definitions_upto(defs, n - 1).push(
                &t,
            ),
            _ => spec_type_definitions_upto(defs, n - 1),
        }
    }
}

/// The index of a schema.
pub struct TypeInfoRegistry<'a> {
    pub query_type: Option<&'a schema::ObjectType>,
    pub mutation_type: Option<&'a schema::ObjectType>,
    pub subscription_type: Option<&'a schema::ObjectType>,
    pub type_definitions: Vec<&'a schema::TypeDefinition>,
}

impl<'a> TypeInfoRegistry<'a> {
    /// Whether the registry is the index of `schema`: it holds the type
    /// definitions of the schema in document order, and its three root types.
    pub open spec fn indexes(&self, schema: &'a schema::Document) -> bool {
        &&& self.query_type == schema.spec_root_type(RootKind::Query)
        &&& self.mutation_type == schema.spec_root_type(RootKind::Mutation)
        &&& self.subscription_type == schema.spec_root_type(RootKind::Subscription)
        &&& self.type_definitions@ == spec_type_definitions_upto::<'a>(
            schema.definitions@,
            schema.definitions@.len() as int,
        )
    }

    /// Makes the index of `schema`.
    pub fn new(schema: &'a schema::Document) -> (res: Self)
        ensures
            res.indexes(schema),
    {
        let mut type_definitions: Vec<&'a schema::TypeDefinition> = Vec::new();
        let mut i: usize = 0;
        while i < schema.definitions.len()
            invariant
                i <= schema.definitions.len(),
                type_definitions@ == spec_type_definitions_upto::<'a>(
                    schema.definitions@,
                    i as int,
                ),
            decreases schema.definitions.len() - i,
        {
            if let schema::Definition::TypeDefinition(t) = &schema.definitions[i] {
                type_definitions.push(t);
            }
            i += 1;
        }
        TypeInfoRegistry {
            query_type: schema.query_type(),
            mutation_type: schema.mutation_type(),
            subscription_type: schema.subscription_type(),
            type_definitions,
        }
    }
}

/// The type definition is named `name`.
pub open spec fn is_named<'a>(name: Seq<char>) -> spec_fn(&'a schema::TypeDefinition) -> bool {
    |t: &'a schema::TypeDefinition| t.spec_name()@ == name
}

/// The last type definition named `name` in a list of type definitions.
pub open spec fn spec_last_named<'a>(
    types: Seq<&'a schema::TypeDefinition>,
    name: Seq<char>,
) -> Option<&'a schema::TypeDefinition> {
    match last_index(types, is_named(name)) {
        Some(i) => Some(types[i]),
        None => None,
    }
}

/// The last type definition named `name` among the type definitions of the
/// first `n` definitions of a schema is the last of these definitions that
/// is a type definition named `name`.
pub proof fn lemma_last_named(defs: Seq<schema::Definition>, name: Seq<char>, n: int)
    requires
        0 <= n <= defs.len(),
    ensures
        spec_last_named(spec_type_definitions_upto(defs, n), name) == (
        match last_index_below(defs, is_type_named(name), n) {
            Some(i) => Some(&defs[i]->TypeDefinition_0),
            None => None,
        }),
    decreases n,
{
    let types = spec_type_definitions_upto(defs, n);
    if n > 0 {
        lemma_last_named(defs, name, n - 1);
        let before = spec_type_definitions_upto(defs, n - 1);
        lemma_last_index_below(before, is_named(name), before.len() as int);
        match defs[n - 1] {
            schema::Definition::TypeDefinition(t) => {
                assert(types == before.push(&t));
                if t.spec_name()@ == name {
                    lemma_last_index_is(types, is_named(name), types.len() - 1);
                } else {
                    match last_index(before, is_named(name)) {
                        Some(i) => {
                            assert(types[i] == before[i]);
                            assert forall|j: int| i < j < types.len() implies !is_named(name)(
                                types[j],
                            ) by {
                                if j < before.len() {
                                    assert(types[j] == before[j]);
                                }
                            }
                            lemma_last_index_is(types, is_named(name), i);
                        },
                        None => {
                            assert forall|j: int| 0 <= j < types.len() implies !is_named(name)(
                                types[j],
                            ) by {
                                if j < before.len() {
                                    assert(types[j] == before[j]);
                                }
                            }
                            lemma_no_index(types, is_named(name));
                        },
                    }
                }
            },
            _ => {},
        }
    } else {
        lemma_no_index(types, is_named(name));
    }
}

impl<'a> TypeInfoRegistry<'a> {
    /// Returns the type definition named `name`: the last one, where several
    /// share the name.
    pub fn type_by_name(&self, name: &String) -> (res: Option<&'a schema::TypeDefinition>)
        ensures
            res == spec_last_named(self.type_definitions@, name@),
    {
        let mut i: usize = self.type_definitions.len();
        while i > 0
            invariant
                i <= self.type_definitions.len(),
                forall|j: int|
                    i <= j < self.type_definitions.len() ==> !is_named(name@)(
                        #[trigger] self.type_definitions@[j],
                    ),
            decreases i,
        {
            i -= 1;
            if *self.type_definitions[i].name_ref() == *name {
                proof {
                    lemma_last_index_is(self.type_definitions@, is_named(name@), i as int);
                }
                return Some(self.type_definitions[i]);
            }
        }
        proof {
            lemma_no_index(self.type_definitions@, is_named(name@));
        }
        None
    }

    /// A lookup in the index of a schema finds what a lookup in the schema
    /// finds.
    pub proof fn lemma_lookup_agrees(&self, schema: &'a schema::Document, name: Seq<char>)
        requires
            self.indexes(schema),
        ensures
            spec_last_named(self.type_definitions@, name) == schema.spec_type_by_name(name),
    {
        lemma_last_named(schema.definitions@, name, schema.definitions@.len() as int);
    }
}

} // verus!
