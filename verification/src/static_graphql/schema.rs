//! Syntax tree of a schema document.
use vstd::prelude::*;
use crate::static_graphql::query::{Directive, Pos, Type, Value};

verus! {

/// Root of a schema document.
#[derive(Debug, PartialEq)]
pub struct Document {
    pub definitions: Vec<Definition>,
}

#[derive(Debug, PartialEq)]
pub enum Definition {
    SchemaDefinition(SchemaDefinition),
    TypeDefinition(TypeDefinition),
    DirectiveDefinition(DirectiveDefinition),
}

/// The `schema { ... }` block, which names the root operation types.
#[derive(Debug, PartialEq)]
pub struct SchemaDefinition {
    pub position: Pos,
    pub directives: Vec<Directive>,
    pub query: Option<String>,
    pub mutation: Option<String>,
    pub subscription: Option<String>,
}

#[derive(Debug, PartialEq)]
pub enum TypeDefinition {
    Scalar(ScalarType),
    Object(ObjectType),
    Interface(InterfaceType),
    Union(UnionType),
    Enum(EnumType),
    InputObject(InputObjectType),
}

#[derive(Debug, PartialEq)]
pub struct ScalarType {
    pub position: Pos,
    pub name: String,
    pub directives: Vec<Directive>,
}

#[derive(Debug, PartialEq)]
pub struct ObjectType {
    pub position: Pos,
    pub name: String,
    pub implements_interfaces: Vec<String>,
    pub directives: Vec<Directive>,
    pub fields: Vec<Field>,
}

#[derive(Debug, PartialEq)]
pub struct Field {
    pub position: Pos,
    pub name: String,
    pub arguments: Vec<InputValue>,
    pub field_type: Type,
    pub directives: Vec<Directive>,
}

#[derive(Debug, PartialEq)]
pub struct InputValue {
    pub position: Pos,
    pub name: String,
    pub value_type: Type,
    pub default_value: Option<Value>,
    pub directives: Vec<Directive>,
}

#[derive(Debug, PartialEq)]
pub struct InterfaceType {
    pub position: Pos,
    pub name: String,
    pub implements_interfaces: Vec<String>,
    pub directives: Vec<Directive>,
    pub fields: Vec<Field>,
}

#[derive(Debug, PartialEq)]
pub struct UnionType {
    pub position: Pos,
    pub name: String,
    pub directives: Vec<Directive>,
    pub types: Vec<String>,
}

#[derive(Debug, PartialEq)]
pub struct EnumType {
    pub position: Pos,
    pub name: String,
    pub directives: Vec<Directive>,
    pub values: Vec<EnumValue>,
}

#[derive(Debug, PartialEq)]
pub struct EnumValue {
    pub position: Pos,
    pub name: String,
    pub directives: Vec<Directive>,
}

#[derive(Debug, PartialEq)]
pub struct InputObjectType {
    pub position: Pos,
    pub name: String,
    pub directives: Vec<Directive>,
    pub fields: Vec<InputValue>,
}

#[derive(Debug, PartialEq)]
pub struct DirectiveDefinition {
    pub position: Pos,
    pub name: String,
    pub arguments: Vec<InputValue>,
    pub repeatable: bool,
}

} // verus!
