//! Questions that the rules ask of schema and document nodes: the fields of a
//! type, the kind of a type, the interfaces it implements, the name of a
//! definition.
use vstd::prelude::*;
use crate::ast::lookup::{contains_name, names_contain};
use crate::ast::schema_index::{find_field_in, spec_find_field};
use crate::static_graphql::query;
use crate::static_graphql::schema::{
    self, Field, InterfaceType, ObjectType, TypeDefinition, UnionType,
};

verus! {

/// A schema node that may have fields.
pub trait AstNodeWithFields {
    /// The field named `name`, if the node has one.
    spec fn spec_find_field(&self, name: Seq<char>) -> Option<&Field>;

    /// Returns the field named `name`, if the node has one.
    fn find_field(&self, name: String) -> (res: Option<&Field>)
        ensures
            res == self.spec_find_field(name@),
    ;
}

impl AstNodeWithFields for ObjectType {
    open spec fn spec_find_field(&self, name: Seq<char>) -> Option<&Field> {
        spec_find_field(self.fields@, name)
    }

    fn find_field(&self, name: String) -> (res: Option<&Field>) {
        find_field_in(&self.fields, &name)
    }
}

impl AstNodeWithFields for InterfaceType {
    open spec fn spec_find_field(&self, name: Seq<char>) -> Option<&Field> {
        spec_find_field(self.fields@, name)
    }

    fn find_field(&self, name: String) -> (res: Option<&Field>) {
        find_field_in(&self.fields, &name)
    }
}

impl AstNodeWithFields for UnionType {
    /// A union has no fields of its own.
    open spec fn spec_find_field(&self, name: Seq<char>) -> Option<&Field> {
        None
    }

    fn find_field(&self, _name: String) -> (res: Option<&Field>) {
        None
    }
}

/// A type literal that has a name at its core.
pub trait AstTypeRef {
    /// The name at the core of the literal.
    spec fn spec_named_type(&self) -> Seq<char>;

    /// Returns the name at the core of the literal.
    fn named_type(&self) -> (res: String)
        ensures
            res@ == self.spec_named_type(),
    ;
}

impl AstTypeRef for query::Type {
    open spec fn spec_named_type(&self) -> Seq<char> {
        self.spec_inner_type()@
    }

    fn named_type(&self) -> (res: String) {
        self.inner_type().clone()
    }
}

/// A type on which a selection set is legal.
#[derive(Debug)]
pub enum CompositeType<'a> {
    Object(&'a ObjectType),
    Interface(&'a InterfaceType),
    Union(&'a UnionType),
}

/// A slot of type information that may be empty.
#[derive(Debug)]
pub enum TypeInfoElementRef<T> {
    Empty,
    Ref(T),
}

impl<'a> TypeInfoElementRef<CompositeType<'a>> {
    /// The field named `name` of the composite type in the slot; none where
    /// the slot is empty.
    pub open spec fn spec_find_field(&self, name: Seq<char>) -> Option<&'a Field> {
        match self {
            TypeInfoElementRef::Empty => None,
            TypeInfoElementRef::Ref(composite_type) => composite_type.spec_find_field(name),
        }
    }

    /// Returns the field named `name` of the composite type in the slot.
    pub fn find_field(&self, name: String) -> (res: Option<&'a Field>)
        ensures
            res == self.spec_find_field(name@),
    {
        match self {
            TypeInfoElementRef::Empty => None,
            TypeInfoElementRef::Ref(composite_type) => composite_type.find_field(name),
        }
    }
}

impl<'a> CompositeType<'a> {
    /// The field named `name` of an object or interface type; a union has
    /// none.
    pub open spec fn spec_find_field(&self, name: Seq<char>) -> Option<&'a Field> {
        match self {
            CompositeType::Object(o) => spec_find_field(o.fields@, name),
            CompositeType::Interface(i) => spec_find_field(i.fields@, name),
            CompositeType::Union(_) => None,
        }
    }

    /// Returns the field named `name` of the type.
    pub fn find_field(&self, name: String) -> (res: Option<&'a Field>)
        ensures
            res == self.spec_find_field(name@),
    {
        match self {
            CompositeType::Object(o) => find_field_in(&o.fields, &name),
            CompositeType::Interface(i) => find_field_in(&i.fields, &name),
            CompositeType::Union(_) => None,
        }
    }

    /// The composite type that a type definition is, if it is one.
    pub open spec fn spec_from_type_definition(t: &'a TypeDefinition) -> Option<CompositeType<'a>> {
        match t {
            TypeDefinition::Object(o) => Some(CompositeType::Object(o)),
            TypeDefinition::Interface(i) => Some(CompositeType::Interface(i)),
            TypeDefinition::Union(u) => Some(CompositeType::Union(u)),
            _ => None,
        }
    }

    /// Returns the composite type that `t` is: an object, interface or union
    /// type; none for a scalar, enum or input object type.
    pub fn from_type_definition(t: &'a TypeDefinition) -> (res: Option<Self>)
        ensures
            res == Self::spec_from_type_definition(t),
    {
        match t {
            TypeDefinition::Object(o) => Some(CompositeType::Object(o)),
            TypeDefinition::Interface(i) => Some(CompositeType::Interface(i)),
            TypeDefinition::Union(u) => Some(CompositeType::Union(u)),
            _ => None,
        }
    }
}

/// A node that lists the interfaces it implements.
pub trait ImplementingInterfaceExtension {
    /// The names of the interfaces that the node implements.
    spec fn spec_interfaces(&self) -> Seq<String>;

    /// Returns the names of the interfaces that the node implements.
    fn interfaces(&self) -> (res: Vec<String>)
        ensures
            res@ == self.spec_interfaces(),
    ;
}

/// Copies a list of names.
pub fn copy_names(names: &Vec<String>) -> (res: Vec<String>)
    ensures
        res@ == names@,
{
    let mut res: Vec<String> = Vec::new();
    let mut i: usize = 0;
    while i < names.len()
        invariant
            i <= names.len(),
            res@ == names@.take(i as int),
        decreases names.len() - i,
    {
        res.push(names[i].clone());
        assert(names@.take(i as int).push(names@[i as int]) =~= names@.take(i + 1));
        i += 1;
    }
    assert(names@.take(names@.len() as int) =~= names@);
    res
}

impl ImplementingInterfaceExtension for TypeDefinition {
    /// An object or interface type lists its interfaces; other types
    /// implement none.
    open spec fn spec_interfaces(&self) -> Seq<String> {
        match self {
            TypeDefinition::Object(o) => o.implements_interfaces@,
            TypeDefinition::Interface(i) => i.implements_interfaces@,
            _ => Seq::empty(),
        }
    }

    fn interfaces(&self) -> (res: Vec<String>) {
        match self {
            TypeDefinition::Object(o) => o.interfaces(),
            TypeDefinition::Interface(i) => i.interfaces(),
            _ => Vec::new(),
        }
    }
}

impl ImplementingInterfaceExtension for InterfaceType {
    open spec fn spec_interfaces(&self) -> Seq<String> {
        self.implements_interfaces@
    }

    fn interfaces(&self) -> (res: Vec<String>) {
        copy_names(&self.implements_interfaces)
    }
}

impl ImplementingInterfaceExtension for ObjectType {
    open spec fn spec_interfaces(&self) -> Seq<String> {
        self.implements_interfaces@
    }

    fn interfaces(&self) -> (res: Vec<String>) {
        copy_names(&self.implements_interfaces)
    }
}

/// An abstract type that other types may implement.
pub trait AbstractTypeDefinitionExtension {
    /// The name of the abstract type.
    spec fn spec_abstract_name(&self) -> Seq<char>;

    /// Tells whether `other_type` lists this type among the interfaces it
    /// implements.
    fn is_implemented_by(&self, other_type: &dyn ImplementingInterfaceExtension) -> (res: bool)
        ensures
            res == names_contain(other_type.spec_interfaces(), self.spec_abstract_name()),
    ;
}

impl AbstractTypeDefinitionExtension for InterfaceType {
    open spec fn spec_abstract_name(&self) -> Seq<char> {
        self.name@
    }

    fn is_implemented_by(&self, other_type: &dyn ImplementingInterfaceExtension) -> (res: bool) {
        let interfaces = other_type.interfaces();
        contains_name(&interfaces, &self.name)
    }
}

/// A union type and its members.
pub trait UnionTypeExtension {
    /// The names of the member types.
    spec fn spec_members(&self) -> Seq<String>;

    /// Tells whether the type named `other_type_name` is a member of the
    /// union.
    fn has_sub_type(&self, other_type_name: &String) -> (res: bool)
        ensures
            res == names_contain(self.spec_members(), other_type_name@),
    ;
}

impl UnionTypeExtension for UnionType {
    open spec fn spec_members(&self) -> Seq<String> {
        self.types@
    }

    fn has_sub_type(&self, other_type_name: &String) -> (res: bool) {
        contains_name(&self.types, other_type_name)
    }
}

/// The kind of a type definition.
pub trait TypeDefinitionExtension {
    /// A scalar or an enum.
    spec fn spec_is_leaf_type(&self) -> bool;

    /// An object, an interface or a union.
    spec fn spec_is_composite_type(&self) -> bool;

    /// A scalar, an enum or an input object.
    spec fn spec_is_input_type(&self) -> bool;

    /// An interface or a union.
    spec fn spec_is_abstract_type(&self) -> bool;

    /// The name under which the type is defined.
    spec fn spec_type_name(&self) -> Seq<char>;

    fn is_leaf_type(&self) -> (res: bool)
        ensures
            res == self.spec_is_leaf_type(),
    ;

    fn is_composite_type(&self) -> (res: bool)
        ensures
            res == self.spec_is_composite_type(),
    ;

    fn is_input_type(&self) -> (res: bool)
        ensures
            res == self.spec_is_input_type(),
    ;

    fn is_abstract_type(&self) -> (res: bool)
        ensures
            res == self.spec_is_abstract_type(),
    ;

    fn name(&self) -> (res: String)
        ensures
            res@ == self.spec_type_name(),
    ;
}

impl<'a> TypeDefinitionExtension for CompositeType<'a> {
    open spec fn spec_is_leaf_type(&self) -> bool {
        false
    }

    open spec fn spec_is_composite_type(&self) -> bool {
        true
    }

    open spec fn spec_is_input_type(&self) -> bool {
        false
    }

    open spec fn spec_is_abstract_type(&self) -> bool {
        self is Interface || self is Union
    }

    open spec fn spec_type_name(&self) -> Seq<char> {
        match self {
            CompositeType::Object(o) => o.name@,
            CompositeType::Interface(i) => i.name@,
            CompositeType::Union(u) => u.name@,
        }
    }

    fn is_leaf_type(&self) -> (res: bool) {
        false
    }

    fn is_composite_type(&self) -> (res: bool) {
        true
    }

    fn is_input_type(&self) -> (res: bool) {
        false
    }

    fn is_abstract_type(&self) -> (res: bool) {
        match self {
            CompositeType::Object(_o) => false,
            CompositeType::Interface(_i) => true,
            CompositeType::Union(_u) => true,
        }
    }

    fn name(&self) -> (res: String) {
        match self {
            CompositeType::Object(o) => o.name.clone(),
            CompositeType::Interface(i) => i.name.clone(),
            CompositeType::Union(u) => u.name.clone(),
        }
    }
}

impl TypeDefinitionExtension for TypeDefinition {
    open spec fn spec_is_leaf_type(&self) -> bool {
        self is Scalar || self is Enum
    }

    open spec fn spec_is_composite_type(&self) -> bool {
        self is Object || self is Interface || self is Union
    }

    open spec fn spec_is_input_type(&self) -> bool {
        self is Scalar || self is Enum || self is InputObject
    }

    open spec fn spec_is_abstract_type(&self) -> bool {
        self is Interface || self is Union
    }

    open spec fn spec_type_name(&self) -> Seq<char> {
        self.spec_name()@
    }

    fn is_leaf_type(&self) -> (res: bool) {
        match self {
            TypeDefinition::Object(_o) => false,
            TypeDefinition::Interface(_i) => false,
            TypeDefinition::Union(_u) => false,
            TypeDefinition::Scalar(_u) => true,
            TypeDefinition::Enum(_u) => true,
            TypeDefinition::InputObject(_u) => false,
        }
    }

    fn is_composite_type(&self) -> (res: bool) {
        match self {
            TypeDefinition::Object(_o) => true,
            TypeDefinition::Interface(_i) => true,
            TypeDefinition::Union(_u) => true,
            TypeDefinition::Scalar(_u) => false,
            TypeDefinition::Enum(_u) => false,
            TypeDefinition::InputObject(_u) => false,
        }
    }

    fn is_input_type(&self) -> (res: bool) {
        match self {
            TypeDefinition::Object(_o) => false,
            TypeDefinition::Interface(_i) => false,
            TypeDefinition::Union(_u) => false,
            TypeDefinition::Scalar(_u) => true,
            TypeDefinition::Enum(_u) => true,
            TypeDefinition::InputObject(_u) => true,
        }
    }

    fn is_abstract_type(&self) -> (res: bool) {
        match self {
            TypeDefinition::Object(_o) => false,
            TypeDefinition::Interface(_i) => true,
            TypeDefinition::Union(_u) => true,
            TypeDefinition::Scalar(_u) => false,
            TypeDefinition::Enum(_u) => false,
            TypeDefinition::InputObject(_u) => false,
        }
    }

    fn name(&self) -> (res: String) {
        self.name_ref().clone()
    }
}

/// A definition that may have a name.
pub trait AstNodeWithName {
    /// The name of the node, if it has one.
    spec fn spec_node_name(&self) -> Option<String>;

    /// Returns the name of the node, if it has one.
    fn node_name(&self) -> (res: Option<String>)
        ensures
            res == self.spec_node_name(),
    ;
}

impl AstNodeWithName for query::OperationDefinition {
    /// A bare selection set has no name.
    open spec fn spec_node_name(&self) -> Option<String> {
        match self {
            query::OperationDefinition::Query(q) => q.name,
            query::OperationDefinition::SelectionSet(_) => None,
            query::OperationDefinition::Mutation(m) => m.name,
            query::OperationDefinition::Subscription(s) => s.name,
        }
    }

    fn node_name(&self) -> (res: Option<String>) {
        match self.name_ref() {
            Some(name) => Some(name.clone()),
            None => None,
        }
    }
}

impl AstNodeWithName for query::FragmentDefinition {
    open spec fn spec_node_name(&self) -> Option<String> {
        Some(self.name)
    }

    fn node_name(&self) -> (res: Option<String>) {
        Some(self.name.clone())
    }
}

impl query::OperationDefinition {
    /// Returns the name of the operation without copying it.
    pub fn name_ref(&self) -> (res: Option<&String>)
        ensures
            res matches Some(name) ==> self.spec_node_name() == Some(*name),
            res is None ==> self.spec_node_name() is None,
    {
        match self {
            query::OperationDefinition::Query(q) => q.name.as_ref(),
            query::OperationDefinition::SelectionSet(_) => None,
            query::OperationDefinition::Mutation(m) => m.name.as_ref(),
            query::OperationDefinition::Subscription(s) => s.name.as_ref(),
        }
    }

    /// Where the operation stands in the source text: its own position, or
    /// the start of a bare selection set.
    pub open spec fn spec_position(&self) -> query::Pos {
        match self {
            query::OperationDefinition::Query(q) => q.position,
            query::OperationDefinition::SelectionSet(s) => s.span.start,
            query::OperationDefinition::Mutation(m) => m.position,
            query::OperationDefinition::Subscription(s) => s.position,
        }
    }

    /// Returns where the operation stands in the source text.
    pub fn position(&self) -> (res: query::Pos)
        ensures
            res == self.spec_position(),
    {
        match self {
            query::OperationDefinition::Query(q) => q.position,
            query::OperationDefinition::SelectionSet(s) => s.span.start,
            query::OperationDefinition::Mutation(m) => m.position,
            query::OperationDefinition::Subscription(s) => s.position,
        }
    }
}

} // verus!
