//! Syntax tree of an executable document.
use vstd::prelude::*;

verus! {

/// One-based line and column of a node in the source text.
#[derive(Debug, Clone, Copy, PartialEq, Eq)]
pub struct Pos {
    pub line: usize,
    pub column: usize,
}

/// Start and end of a selection set in the source text.
#[derive(Debug, Clone, Copy, PartialEq, Eq)]
pub struct Span {
    pub start: Pos,
    pub end: Pos,
}

/// A type as it is written: a name, possibly wrapped in list and non-null
/// markers.
#[derive(Debug, PartialEq)]
pub enum Type {
    NamedType(String),
    ListType(Box<Type>),
    NonNullType(Box<Type>),
}

/// An input value.
///
/// `Float` holds the IEEE 754 double-precision bit pattern of the number.
/// `Object` holds its entries in ascending key order, each key once.
#[derive(Debug, PartialEq)]
pub enum Value {
    Variable(String),
    Int(i64),
    Float(u64),
    String(String),
    Boolean(bool),
    Null,
    Enum(String),
    List(Vec<Value>),
    Object(Vec<(String, Value)>),
}

#[derive(Debug, PartialEq)]
pub struct Directive {
    pub position: Pos,
    pub name: String,
    pub arguments: Vec<(String, Value)>,
}

/// Root of an executable document.
#[derive(Debug, PartialEq)]
pub struct Document {
    pub definitions: Vec<Definition>,
}

#[derive(Debug, PartialEq)]
pub enum Definition {
    Operation(OperationDefinition),
    Fragment(FragmentDefinition),
}

#[derive(Debug, PartialEq)]
pub struct FragmentDefinition {
    pub position: Pos,
    pub name: String,
    pub type_condition: TypeCondition,
    pub directives: Vec<Directive>,
    pub selection_set: SelectionSet,
}

#[derive(Debug, PartialEq)]
pub enum OperationDefinition {
    SelectionSet(SelectionSet),
    Query(Query),
    Mutation(Mutation),
    Subscription(Subscription),
}

#[derive(Debug, PartialEq)]
pub struct Query {
    pub position: Pos,
    pub name: Option<String>,
    pub variable_definitions: Vec<VariableDefinition>,
    pub directives: Vec<Directive>,
    pub selection_set: SelectionSet,
}

#[derive(Debug, PartialEq)]
pub struct Mutation {
    pub position: Pos,
    pub name: Option<String>,
    pub variable_definitions: Vec<VariableDefinition>,
    pub directives: Vec<Directive>,
    pub selection_set: SelectionSet,
}

#[derive(Debug, PartialEq)]
pub struct Subscription {
    pub position: Pos,
    pub name: Option<String>,
    pub variable_definitions: Vec<VariableDefinition>,
    pub directives: Vec<Directive>,
    pub selection_set: SelectionSet,
}

#[derive(Debug, PartialEq)]
pub struct SelectionSet {
    pub span: Span,
    pub items: Vec<Selection>,
}

#[derive(Debug, PartialEq)]
pub struct VariableDefinition {
    pub position: Pos,
    pub name: String,
    pub var_type: Type,
    pub default_value: Option<Value>,
}

#[derive(Debug, PartialEq)]
pub enum Selection {
    Field(Field),
    FragmentSpread(FragmentSpread),
    InlineFragment(InlineFragment),
}

#[derive(Debug, PartialEq)]
pub struct Field {
    pub position: Pos,
    pub alias: Option<String>,
    pub name: String,
    pub arguments: Vec<(String, Value)>,
    pub directives: Vec<Directive>,
    pub selection_set: SelectionSet,
}

#[derive(Debug, PartialEq)]
pub struct FragmentSpread {
    pub position: Pos,
    pub fragment_name: String,
    pub directives: Vec<Directive>,
}

#[derive(Debug, PartialEq)]
pub enum TypeCondition {
    On(String),
}

#[derive(Debug, PartialEq)]
pub struct InlineFragment {
    pub position: Pos,
    pub type_condition: Option<TypeCondition>,
    pub directives: Vec<Directive>,
    pub selection_set: SelectionSet,
}

impl Clone for Type {
    fn clone(&self) -> (res: Type)
        ensures
            res == *self,
        decreases self,
    {
        match self {
            Type::NamedType(name) => Type::NamedType(name.clone()),
            Type::ListType(inner) => Type::ListType(Box::new((**inner).clone())),
            Type::NonNullType(inner) => Type::NonNullType(Box::new((**inner).clone())),
        }
    }
}

impl Type {
    /// The name at the core of a type literal, under all list and non-null
    /// markers.
    pub open spec fn spec_inner_type(&self) -> &String
        decreases self,
    {
        match self {
            Type::NamedType(name) => name,
            Type::ListType(inner) => inner.spec_inner_type(),
            Type::NonNullType(inner) => inner.spec_inner_type(),
        }
    }

    /// Returns the name at the core of the literal.
    pub fn inner_type(&self) -> (res: &String)
        ensures
            res == self.spec_inner_type(),
        decreases self,
    {
        match self {
            Type::NamedType(name) => name,
            Type::ListType(inner) => inner.inner_type(),
            Type::NonNullType(inner) => inner.inner_type(),
        }
    }
}

} // verus!
