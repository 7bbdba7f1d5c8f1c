//! Lookups in a schema document: type and directive definitions by name, the
//! root operation types, and the fields of a type definition.
//!
//! Where a name is defined more than once, the last definition is the one that
//! a lookup by name finds. Fields are found by their first occurrence.
use vstd::prelude::*;
use crate::ast::lookup::{
    first_index, last_index, lemma_first_index_is, lemma_last_index_is, lemma_no_index,
};
use crate::static_graphql::schema;

verus! {

/// Which of the three root operation types is meant.
#[derive(Debug, Clone, Copy, PartialEq, Eq)]
pub enum RootKind {
    Query,
    Mutation,
    Subscription,
}

/// The definition is a type definition named `name`.
pub open spec fn is_type_named(name: Seq<char>) -> spec_fn(schema::Definition) -> bool {
    |d: schema::Definition|
        d matches schema::Definition::TypeDefinition(t) && t.spec_name()@ == name
}

/// The definition is a directive definition named `name`.
pub open spec fn is_directive_named(name: Seq<char>) -> spec_fn(schema::Definition) -> bool {
    |d: schema::Definition|
        d matches schema::Definition::DirectiveDefinition(dd) && dd.name@ == name
}

/// The definition is a `schema { ... }` block.
pub open spec fn is_schema_definition() -> spec_fn(schema::Definition) -> bool {
    |d: schema::Definition| d is SchemaDefinition
}

/// The field is named `name`.
pub open spec fn is_field_named(name: Seq<char>) -> spec_fn(schema::Field) -> bool {
    |f: schema::Field| f.name@ == name
}

/// The input value is named `name`.
pub open spec fn is_input_value_named(name: Seq<char>) -> spec_fn(schema::InputValue) -> bool {
    |v: schema::InputValue| v.name@ == name
}

/// The first field of `fields` that is named `name`.
pub open spec fn spec_find_field<'a>(fields: Seq<schema::Field>, name: Seq<char>) -> Option<
    &'a schema::Field,
> {
    match first_index(fields, is_field_named(name)) {
        Some(i) => Some(&fields[i]),
        None => None,
    }
}

/// The first input value of `values` that is named `name`.
pub open spec fn spec_find_input_value<'a>(
    values: Seq<schema::InputValue>,
    name: Seq<char>,
) -> Option<&'a schema::InputValue> {
    match first_index(values, is_input_value_named(name)) {
        Some(i) => Some(&values[i]),
        None => None,
    }
}

/// Returns the first field of `fields` that is named `name`.
pub fn find_field_in<'a>(fields: &'a Vec<schema::Field>, name: &String) -> (res: Option<
    &'a schema::Field,
>)
    ensures
        res == spec_find_field(fields@, name@),
{
    let mut i: usize = 0;
    while i < fields.len()
        invariant
            i <= fields.len(),
            forall|j: int| 0 <= j < i ==> !is_field_named(name@)(#[trigger] fields@[j]),
        decreases fields.len() - i,
    {
        if fields[i].name == *name {
            proof {
                lemma_first_index_is(fields@, is_field_named(name@), i as int);
            }
            return Some(&fields[i]);
        }
        i += 1;
    }
    proof {
        lemma_no_index(fields@, is_field_named(name@));
    }
    None
}

/// Returns the first input value of `values` that is named `name`.
pub fn find_input_value_in<'a>(values: &'a Vec<schema::InputValue>, name: &String) -> (res:
    Option<&'a schema::InputValue>)
    ensures
        res == spec_find_input_value(values@, name@),
{
    let mut i: usize = 0;
    while i < values.len()
        invariant
            i <= values.len(),
            forall|j: int| 0 <= j < i ==> !is_input_value_named(name@)(#[trigger] values@[j]),
        decreases values.len() - i,
    {
        if values[i].name == *name {
            proof {
                lemma_first_index_is(values@, is_input_value_named(name@), i as int);
            }
            return Some(&values[i]);
        }
        i += 1;
    }
    proof {
        lemma_no_index(values@, is_input_value_named(name@));
    }
    None
}

/// The five scalar types that every schema has without declaring them.
pub open spec fn spec_is_builtin_scalar(name: Seq<char>) -> bool {
    ||| name == "Int"@
    ||| name == "Float"@
    ||| name == "String"@
    ||| name == "Boolean"@
    ||| name == "ID"@
}

/// The types of the introspection system, which every schema has without
/// declaring them.
pub open spec fn spec_is_introspection_type(name: Seq<char>) -> bool {
    ||| name == "__Schema"@
    ||| name == "__Directive"@
    ||| name == "__DirectiveLocation"@
    ||| name == "__Type"@
    ||| name == "__Field"@
    ||| name == "__InputValue"@
    ||| name == "__EnumValue"@
    ||| name == "__TypeKind"@
}

/// Tells whether `name` reads `literal`.
pub fn name_is(name: &String, literal: &str) -> (res: bool)
    ensures
        res == (name@ == literal@),
{
    let other = String::from_str(literal);
    *name == other
}

/// Tells whether `name` is one of the five built-in scalar types.
pub fn is_builtin_scalar(name: &String) -> (res: bool)
    ensures
        res == spec_is_builtin_scalar(name@),
{
    name_is(name, "Int") || name_is(name, "Float") || name_is(name, "String") || name_is(
        name,
        "Boolean",
    ) || name_is(name, "ID")
}

/// Tells whether `name` is one of the introspection types.
pub fn is_introspection_type(name: &String) -> (res: bool)
    ensures
        res == spec_is_introspection_type(name@),
{
    name_is(name, "__Schema") || name_is(name, "__Directive") || name_is(
        name,
        "__DirectiveLocation",
    ) || name_is(name, "__Type") || name_is(name, "__Field") || name_is(name, "__InputValue")
        || name_is(name, "__EnumValue") || name_is(name, "__TypeKind")
}

impl schema::TypeDefinition {
    /// The name under which the type is defined.
    pub open spec fn spec_name(&self) -> &String {
        match self {
            schema::TypeDefinition::Scalar(t) => &t.name,
            schema::TypeDefinition::Object(t) => &t.name,
            schema::TypeDefinition::Interface(t) => &t.name,
            schema::TypeDefinition::Union(t) => &t.name,
            schema::TypeDefinition::Enum(t) => &t.name,
            schema::TypeDefinition::InputObject(t) => &t.name,
        }
    }

    /// Returns the name under which the type is defined.
    pub fn name_ref(&self) -> (res: &String)
        ensures
            res == self.spec_name(),
    {
        match self {
            schema::TypeDefinition::Scalar(t) => &t.name,
            schema::TypeDefinition::Object(t) => &t.name,
            schema::TypeDefinition::Interface(t) => &t.name,
            schema::TypeDefinition::Union(t) => &t.name,
            schema::TypeDefinition::Enum(t) => &t.name,
            schema::TypeDefinition::InputObject(t) => &t.name,
        }
    }

    /// The field named `name` of an object or interface type. Other kinds of
    /// type have no fields.
    pub open spec fn spec_field_by_name(&self, name: Seq<char>) -> Option<&schema::Field> {
        match self {
            schema::TypeDefinition::Object(t) => spec_find_field(t.fields@, name),
            schema::TypeDefinition::Interface(t) => spec_find_field(t.fields@, name),
            _ => None,
        }
    }

    /// Returns the field named `name` of an object or interface type.
    pub fn field_by_name(&self, name: &String) -> (res: Option<&schema::Field>)
        ensures
            res == self.spec_field_by_name(name@),
    {
        match self {
            schema::TypeDefinition::Object(t) => find_field_in(&t.fields, name),
            schema::TypeDefinition::Interface(t) => find_field_in(&t.fields, name),
            _ => None,
        }
    }

    /// The input field named `name` of an input object type. Other kinds of
    /// type have no input fields.
    pub open spec fn spec_input_field_by_name(&self, name: Seq<char>) -> Option<
        &schema::InputValue,
    > {
        match self {
            schema::TypeDefinition::InputObject(t) => spec_find_input_value(t.fields@, name),
            _ => None,
        }
    }

    /// Returns the input field named `name` of an input object type.
    pub fn input_field_by_name(&self, name: &String) -> (res: Option<&schema::InputValue>)
        ensures
            res == self.spec_input_field_by_name(name@),
    {
        match self {
            schema::TypeDefinition::InputObject(t) => find_input_value_in(&t.fields, name),
            _ => None,
        }
    }
}

impl schema::SchemaDefinition {
    /// The name that the block gives to the root type of kind `kind`.
    pub open spec fn spec_root_name(&self, kind: RootKind) -> Option<String> {
        match kind {
            RootKind::Query => self.query,
            RootKind::Mutation => self.mutation,
            RootKind::Subscription => self.subscription,
        }
    }
}

/// The name that a root type has where no `schema { ... }` block says
/// otherwise.
pub open spec fn spec_default_root_name(kind: RootKind) -> Seq<char> {
    match kind {
        RootKind::Query => "Query"@,
        RootKind::Mutation => "Mutation"@,
        RootKind::Subscription => "Subscription"@,
    }
}

impl schema::Document {
    /// The type definition named `name`.
    pub open spec fn spec_type_by_name(&self, name: Seq<char>) -> Option<&schema::TypeDefinition> {
        match last_index(self.definitions@, is_type_named(name)) {
            Some(i) => Some(&self.definitions@[i]->TypeDefinition_0),
            None => None,
        }
    }

    /// Returns the type definition named `name`.
    pub fn type_by_name(&self, name: &String) -> (res: Option<&schema::TypeDefinition>)
        ensures
            res == self.spec_type_by_name(name@),
    {
        let mut i: usize = self.definitions.len();
        while i > 0
            invariant
                i <= self.definitions.len(),
                forall|j: int|
                    i <= j < self.definitions.len() ==> !is_type_named(name@)(
                        #[trigger] self.definitions@[j],
                    ),
            decreases i,
        {
            i -= 1;
            if let schema::Definition::TypeDefinition(t) = &self.definitions[i] {
                if *t.name_ref() == *name {
                    proof {
                        lemma_last_index_is(self.definitions@, is_type_named(name@), i as int);
                    }
                    return Some(t);
                }
            }
        }
        proof {
            lemma_no_index(self.definitions@, is_type_named(name@));
        }
        None
    }

    /// The directive definition named `name`.
    pub open spec fn spec_directive_by_name(&self, name: Seq<char>) -> Option<
        &schema::DirectiveDefinition,
    > {
        match last_index(self.definitions@, is_directive_named(name)) {
            Some(i) => Some(&self.definitions@[i]->DirectiveDefinition_0),
            None => None,
        }
    }

    /// Returns the directive definition named `name`.
    pub fn directive_by_name(&self, name: &String) -> (res: Option<&schema::DirectiveDefinition>)
        ensures
            res == self.spec_directive_by_name(name@),
    {
        let mut i: usize = self.definitions.len();
        while i > 0
            invariant
                i <= self.definitions.len(),
                forall|j: int|
                    i <= j < self.definitions.len() ==> !is_directive_named(name@)(
                        #[trigger] self.definitions@[j],
                    ),
            decreases i,
        {
            i -= 1;
            if let schema::Definition::DirectiveDefinition(d) = &self.definitions[i] {
                if d.name == *name {
                    proof {
                        lemma_last_index_is(
                            self.definitions@,
                            is_directive_named(name@),
                            i as int,
                        );
                    }
                    return Some(d);
                }
            }
        }
        proof {
            lemma_no_index(self.definitions@, is_directive_named(name@));
        }
        None
    }

    /// Whether `name` names a type of the schema: one that the document
    /// defines, a built-in scalar, or an introspection type.
    pub open spec fn spec_is_known_type(&self, name: Seq<char>) -> bool {
        ||| self.spec_type_by_name(name) is Some
        ||| spec_is_builtin_scalar(name)
        ||| spec_is_introspection_type(name)
    }

    /// Tells whether `name` names a type of the schema.
    pub fn is_known_type(&self, name: &String) -> (res: bool)
        ensures
            res == self.spec_is_known_type(name@),
    {
        self.type_by_name(name).is_some() || is_builtin_scalar(name) || is_introspection_type(name)
    }

    /// Whether `name` names a leaf type: a scalar or an enum that the document
    /// defines, or a built-in scalar that it leaves undefined.
    pub open spec fn spec_is_leaf_type_name(&self, name: Seq<char>) -> bool {
        match self.spec_type_by_name(name) {
            Some(t) => t is Scalar || t is Enum,
            None => spec_is_builtin_scalar(name),
        }
    }

    /// Tells whether `name` names a leaf type.
    pub fn is_leaf_type_name(&self, name: &String) -> (res: bool)
        ensures
            res == self.spec_is_leaf_type_name(name@),
    {
        match self.type_by_name(name) {
            Some(schema::TypeDefinition::Scalar(_)) => true,
            Some(schema::TypeDefinition::Enum(_)) => true,
            Some(_) => false,
            None => is_builtin_scalar(name),
        }
    }

    /// Whether `name` names a composite type: an object, an interface or a
    /// union that the document defines.
    pub open spec fn spec_is_composite_type_name(&self, name: Seq<char>) -> bool {
        match self.spec_type_by_name(name) {
            Some(t) => t is Object || t is Interface || t is Union,
            None => false,
        }
    }

    /// Tells whether `name` names a composite type.
    pub fn is_composite_type_name(&self, name: &String) -> (res: bool)
        ensures
            res == self.spec_is_composite_type_name(name@),
    {
        match self.type_by_name(name) {
            Some(schema::TypeDefinition::Object(_)) => true,
            Some(schema::TypeDefinition::Interface(_)) => true,
            Some(schema::TypeDefinition::Union(_)) => true,
            _ => false,
        }
    }

    /// Whether `name` names a type that is not composite: a scalar, an enum
    /// or an input object that the document defines, or a built-in scalar
    /// that it leaves undefined. A name that names no type is neither.
    pub open spec fn spec_is_non_composite_type_name(&self, name: Seq<char>) -> bool {
        match self.spec_type_by_name(name) {
            Some(t) => !(t is Object || t is Interface || t is Union),
            None => spec_is_builtin_scalar(name),
        }
    }

    /// Tells whether `name` names a type that is not composite.
    pub fn is_non_composite_type_name(&self, name: &String) -> (res: bool)
        ensures
            res == self.spec_is_non_composite_type_name(name@),
    {
        match self.type_by_name(name) {
            Some(schema::TypeDefinition::Object(_)) => false,
            Some(schema::TypeDefinition::Interface(_)) => false,
            Some(schema::TypeDefinition::Union(_)) => false,
            Some(_) => true,
            None => is_builtin_scalar(name),
        }
    }

    /// The first `schema { ... }` block of the document.
    pub open spec fn spec_schema_definition(&self) -> Option<&schema::SchemaDefinition> {
        match first_index(self.definitions@, is_schema_definition()) {
            Some(i) => Some(&self.definitions@[i]->SchemaDefinition_0),
            None => None,
        }
    }

    /// Returns the first `schema { ... }` block of the document.
    pub fn schema_definition(&self) -> (res: Option<&schema::SchemaDefinition>)
        ensures
            res == self.spec_schema_definition(),
    {
        let mut i: usize = 0;
        while i < self.definitions.len()
            invariant
                i <= self.definitions.len(),
                forall|j: int| 0 <= j < i ==> !is_schema_definition()(#[trigger] self.definitions@[j]),
            decreases self.definitions.len() - i,
        {
            if let schema::Definition::SchemaDefinition(d) = &self.definitions[i] {
                proof {
                    lemma_first_index_is(self.definitions@, is_schema_definition(), i as int);
                }
                return Some(d);
            }
            i += 1;
        }
        proof {
            lemma_no_index(self.definitions@, is_schema_definition());
        }
        None
    }

    /// The object type named `name`: none where the name is undefined or
    /// names another kind of type.
    pub open spec fn spec_object_type_by_name(&self, name: Seq<char>) -> Option<
        &schema::ObjectType,
    > {
        match self.spec_type_by_name(name) {
            Some(schema::TypeDefinition::Object(o)) => Some(o),
            _ => None,
        }
    }

    /// Returns the object type named `name`.
    pub fn object_type_by_name(&self, name: &String) -> (res: Option<&schema::ObjectType>)
        ensures
            res == self.spec_object_type_by_name(name@),
    {
        match self.type_by_name(name) {
            Some(schema::TypeDefinition::Object(o)) => Some(o),
            _ => None,
        }
    }

    /// The root type of kind `kind`. Its name is the one that the
    /// `schema { ... }` block gives, where there is such a block, and else
    /// `Query`, `Mutation` or `Subscription`; the root is the object type of
    /// that name, and is absent where there is none.
    pub open spec fn spec_root_type(&self, kind: RootKind) -> Option<&schema::ObjectType> {
        match self.spec_schema_definition() {
            Some(d) => match d.spec_root_name(kind) {
                Some(name) => self.spec_object_type_by_name(name@),
                None => None,
            },
            None => self.spec_object_type_by_name(spec_default_root_name(kind)),
        }
    }

    /// Returns the root type of kind `kind`.
    pub fn root_type(&self, kind: RootKind) -> (res: Option<&schema::ObjectType>)
        ensures
            res == self.spec_root_type(kind),
    {
        match self.schema_definition() {
            Some(d) => {
                let name = match kind {
                    RootKind::Query => &d.query,
                    RootKind::Mutation => &d.mutation,
                    RootKind::Subscription => &d.subscription,
                };
                match name {
                    Some(name) => self.object_type_by_name(name),
                    None => None,
                }
            },
            None => {
                let name = match kind {
                    RootKind::Query => String::from_str("Query"),
                    RootKind::Mutation => String::from_str("Mutation"),
                    RootKind::Subscription => String::from_str("Subscription"),
                };
                self.object_type_by_name(&name)
            },
        }
    }

    /// Returns the root type of queries.
    pub fn query_type(&self) -> (res: Option<&schema::ObjectType>)
        ensures
            res == self.spec_root_type(RootKind::Query),
    {
        self.root_type(RootKind::Query)
    }

    /// Returns the root type of mutations.
    pub fn mutation_type(&self) -> (res: Option<&schema::ObjectType>)
        ensures
            res == self.spec_root_type(RootKind::Mutation),
    {
        self.root_type(RootKind::Mutation)
    }

    /// Returns the root type of subscriptions.
    pub fn subscription_type(&self) -> (res: Option<&schema::ObjectType>)
        ensures
            res == self.spec_root_type(RootKind::Subscription),
    {
        self.root_type(RootKind::Subscription)
    }
}

} // verus!
