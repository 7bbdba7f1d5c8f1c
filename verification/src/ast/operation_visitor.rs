//! The type-info context and the depth-first walker over an executable
//! document.
//!
//! The walker visits every node of the document once, in document order. It
//! calls `enter_*` on the visitor before it descends into a node and `leave_*`
//! after, and it keeps the context's stacks of current type, parent type and
//! input type in step with the position in the document. It never follows a
//! fragment spread into the fragment's definition.
use vstd::prelude::*;
use crate::ast::lookup::{last_index, lemma_last_index_is, lemma_no_index};
use crate::ast::schema_index::{find_input_value_in, spec_find_input_value, RootKind};
use crate::static_graphql::query::{
    Definition, Directive, Document, Field, FragmentDefinition, FragmentSpread, InlineFragment,
    OperationDefinition, Selection, SelectionSet, Type, TypeCondition, Value, VariableDefinition,
};
use crate::static_graphql::schema;

verus! {

/// The definition is a fragment definition named `name`.
pub open spec fn is_fragment_named(name: Seq<char>) -> spec_fn(Definition) -> bool {
    |d: Definition| d matches Definition::Fragment(f) && f.name@ == name
}

/// The fragment definitions among the first `n` definitions, in document
/// order.
pub open spec fn spec_fragments_upto<'a>(defs: Seq<Definition>, n: int) -> Seq<
    &'a FragmentDefinition,
>
    decreases n,
{
    if n <= 0 || n > defs.len() {
        Seq::empty()
    } else {
        match defs[n - 1] {
            Definition::Fragment(f) => spec_fragments_upto(defs, n - 1).push(&f),
            _ => spec_fragments_upto(defs, n - 1),
        }
    }
}

/// The directive definitions among the first `n` definitions, in document
/// order.
pub open spec fn spec_directives_upto<'a>(defs: Seq<schema::Definition>, n: int) -> Seq<
    &'a schema::DirectiveDefinition,
>
    decreases n,
{
    if n <= 0 || n > defs.len() {
        Seq::empty()
    } else {
        match defs[n - 1] {
            schema::Definition::DirectiveDefinition(d) => spec_directives_upto(defs, n - 1).push(
                &d,
            ),
            _ => spec_directives_upto(defs, n - 1),
        }
    }
}

impl Document {
    /// The fragment definitions of the document, in document order.
    pub open spec fn spec_fragments(&self) -> Seq<&FragmentDefinition> {
        spec_fragments_upto(self.definitions@, self.definitions@.len() as int)
    }

    /// The fragment definition named `name`: the last one, where several
    /// share the name.
    pub open spec fn spec_fragment_by_name(&self, name: Seq<char>) -> Option<&FragmentDefinition> {
        match last_index(self.definitions@, is_fragment_named(name)) {
            Some(i) => Some(&self.definitions@[i]->Fragment_0),
            None => None,
        }
    }

    /// Returns the fragment definition named `name`.
    pub fn fragment_by_name(&self, name: &String) -> (res: Option<&FragmentDefinition>)
        ensures
            res == self.spec_fragment_by_name(name@),
    {
        let mut i: usize = self.definitions.len();
        while i > 0
            invariant
                i <= self.definitions.len(),
                forall|j: int|
                    i <= j < self.definitions.len() ==> !is_fragment_named(name@)(
                        #[trigger] self.definitions@[j],
                    ),
            decreases i,
        {
            i -= 1;
            if let Definition::Fragment(f) = &self.definitions[i] {
                if f.name == *name {
                    proof {
                        lemma_last_index_is(self.definitions@, is_fragment_named(name@), i as int);
                    }
                    return Some(f);
                }
            }
        }
        proof {
            lemma_no_index(self.definitions@, is_fragment_named(name@));
        }
        None
    }
}

impl schema::Document {
    /// The directive definitions of the schema, in document order.
    pub open spec fn spec_directives(&self) -> Seq<&schema::DirectiveDefinition> {
        spec_directives_upto(self.definitions@, self.definitions@.len() as int)
    }
}

/// What a context holds, as mathematical values: the two documents, the two
/// indexes made from them, and the five stacks, bottom first.
pub struct ContextView<'a> {
    pub schema: &'a schema::Document,
    pub operation: &'a Document,
    pub known_fragments: Seq<&'a FragmentDefinition>,
    pub directives: Seq<&'a schema::DirectiveDefinition>,
    pub type_stack: Seq<Option<&'a schema::TypeDefinition>>,
    pub parent_type_stack: Seq<Option<&'a schema::TypeDefinition>>,
    pub input_type_stack: Seq<Option<&'a schema::TypeDefinition>>,
    pub type_literal_stack: Seq<Option<Type>>,
    pub input_type_literal_stack: Seq<Option<Type>>,
}

/// The top of a stack of optional entries: none where the stack is empty or
/// its top entry is empty.
pub open spec fn top_of<T>(stack: Seq<Option<T>>) -> Option<T> {
    if stack.len() > 0 {
        stack.last()
    } else {
        None
    }
}

impl<'a> ContextView<'a> {
    /// The type definition that a type literal resolves to in the schema:
    /// the definition of the name at its core.
    pub open spec fn resolve(self, t: Option<Type>) -> Option<&'a schema::TypeDefinition> {
        match t {
            Some(t) => self.schema.spec_type_by_name(t.spec_inner_type()@),
            None => None,
        }
    }

    pub open spec fn current_type(self) -> Option<&'a schema::TypeDefinition> {
        top_of(self.type_stack)
    }

    pub open spec fn current_parent_type(self) -> Option<&'a schema::TypeDefinition> {
        top_of(self.parent_type_stack)
    }

    pub open spec fn current_input_type(self) -> Option<&'a schema::TypeDefinition> {
        top_of(self.input_type_stack)
    }

    pub open spec fn current_type_literal(self) -> Option<Type> {
        top_of(self.type_literal_stack)
    }

    pub open spec fn current_input_type_literal(self) -> Option<Type> {
        top_of(self.input_type_literal_stack)
    }

    /// The context inside the scope of `with_type(t, ..)`.
    pub open spec fn with_type(self, t: Option<Type>) -> ContextView<'a> {
        ContextView {
            type_stack: self.type_stack.push(self.resolve(t)),
            type_literal_stack: self.type_literal_stack.push(t),
            ..self
        }
    }

    /// The context inside the scope of `with_parent_type(..)`.
    pub open spec fn with_parent_type(self) -> ContextView<'a> {
        ContextView {
            parent_type_stack: self.parent_type_stack.push(self.current_type()),
            ..self
        }
    }

    /// The context inside the scope of `with_input_type(t, ..)`.
    pub open spec fn with_input_type(self, t: Option<Type>) -> ContextView<'a> {
        ContextView {
            input_type_stack: self.input_type_stack.push(self.resolve(t)),
            input_type_literal_stack: self.input_type_literal_stack.push(t),
            ..self
        }
    }

    /// The two indexes hold what the documents define, and each stack of
    /// resolved types is as deep as its stack of literals.
    pub open spec fn wf(self) -> bool {
        &&& self.known_fragments == self.operation.spec_fragments()
        &&& self.directives == self.schema.spec_directives()
        &&& self.type_stack.len() == self.type_literal_stack.len()
        &&& self.input_type_stack.len() == self.input_type_literal_stack.len()
    }

    /// All five stacks are empty.
    pub open spec fn stacks_empty(self) -> bool {
        &&& self.type_stack.len() == 0
        &&& self.parent_type_stack.len() == 0
        &&& self.input_type_stack.len() == 0
        &&& self.type_literal_stack.len() == 0
        &&& self.input_type_literal_stack.len() == 0
    }

    /// The context in which the walk of `operation` against `schema` starts:
    /// the indexes filled, the stacks empty.
    pub open spec fn initial(schema: &'a schema::Document, operation: &'a Document) -> ContextView<
        'a,
    > {
        ContextView {
            schema,
            operation,
            known_fragments: operation.spec_fragments(),
            directives: schema.spec_directives(),
            type_stack: Seq::empty(),
            parent_type_stack: Seq::empty(),
            input_type_stack: Seq::empty(),
            type_literal_stack: Seq::empty(),
            input_type_literal_stack: Seq::empty(),
        }
    }
}

/// The state that a walk carries: the two documents and the stacks of the
/// current type, parent type and input type.
pub struct OperationVisitorContext<'a> {
    schema: &'a schema::Document,
    operation: &'a Document,
    known_fragments: Vec<&'a FragmentDefinition>,
    directives: Vec<&'a schema::DirectiveDefinition>,
    type_stack: Vec<Option<&'a schema::TypeDefinition>>,
    parent_type_stack: Vec<Option<&'a schema::TypeDefinition>>,
    input_type_stack: Vec<Option<&'a schema::TypeDefinition>>,
    type_literal_stack: Vec<Option<Type>>,
    input_type_literal_stack: Vec<Option<Type>>,
}

impl<'a> View for OperationVisitorContext<'a> {
    type V = ContextView<'a>;

    closed spec fn view(&self) -> ContextView<'a> {
        ContextView {
            schema: self.schema,
            operation: self.operation,
            known_fragments: self.known_fragments@,
            directives: self.directives@,
            type_stack: self.type_stack@,
            parent_type_stack: self.parent_type_stack@,
            input_type_stack: self.input_type_stack@,
            type_literal_stack: self.type_literal_stack@,
            input_type_literal_stack: self.input_type_literal_stack@,
        }
    }
}

impl<'a> OperationVisitorContext<'a> {
    /// Well-formedness of the context: that of its view.
    pub open spec fn wf(&self) -> bool {
        self@.wf()
    }

    /// Returns the schema that the walk goes against.
    pub fn schema(&self) -> (res: &'a schema::Document)
        ensures
            res == self@.schema,
    {
        self.schema
    }

    /// Returns the document that is walked.
    pub fn operation(&self) -> (res: &'a Document)
        ensures
            res == self@.operation,
    {
        self.operation
    }

    /// Returns the fragment definitions of the document, in document order.
    pub fn known_fragments(&self) -> (res: &Vec<&'a FragmentDefinition>)
        ensures
            res@ == self@.known_fragments,
    {
        &self.known_fragments
    }

    /// Returns the directive definitions of the schema, in document order.
    pub fn directives(&self) -> (res: &Vec<&'a schema::DirectiveDefinition>)
        ensures
            res@ == self@.directives,
    {
        &self.directives
    }

    /// Makes the context of a walk over `operation` against `schema`, with
    /// empty stacks.
    pub fn new(operation: &'a Document, schema: &'a schema::Document) -> (res: Self)
        ensures
            res@ == ContextView::initial(schema, operation),
            res.wf(),
            res@.stacks_empty(),
    {
        let mut known_fragments: Vec<&'a FragmentDefinition> = Vec::new();
        let mut i: usize = 0;
        while i < operation.definitions.len()
            invariant
                i <= operation.definitions.len(),
                known_fragments@ == spec_fragments_upto::<'a>(operation.definitions@, i as int),
            decreases operation.definitions.len() - i,
        {
            if let Definition::Fragment(fragment) = &operation.definitions[i] {
                known_fragments.push(fragment);
            }
            i += 1;
        }
        let mut directives: Vec<&'a schema::DirectiveDefinition> = Vec::new();
        let mut j: usize = 0;
        while j < schema.definitions.len()
            invariant
                j <= schema.definitions.len(),
                directives@ == spec_directives_upto::<'a>(schema.definitions@, j as int),
            decreases schema.definitions.len() - j,
        {
            if let schema::Definition::DirectiveDefinition(directive_def) = &schema.definitions[j] {
                directives.push(directive_def);
            }
            j += 1;
        }
        OperationVisitorContext {
            schema,
            operation,
            known_fragments,
            directives,
            type_stack: Vec::new(),
            parent_type_stack: Vec::new(),
            input_type_stack: Vec::new(),
            type_literal_stack: Vec::new(),
            input_type_literal_stack: Vec::new(),
        }
    }

    /// Opens the scope of a current type: pushes the literal `t` and the
    /// definition it resolves to.
    pub(crate) fn push_type(&mut self, t: Option<Type>)
        ensures
            final(self)@ == old(self)@.with_type(t),
    {
        let resolved = match &t {
            Some(t) => self.schema.type_by_name(t.inner_type()),
            None => None,
        };
        self.type_stack.push(resolved);
        self.type_literal_stack.push(t);
    }

    /// Closes the scope that `push_type` opened.
    pub(crate) fn pop_type(&mut self)
        requires
            old(self)@.type_stack.len() > 0,
            old(self)@.type_literal_stack.len() > 0,
        ensures
            final(self)@ == (ContextView {
                type_stack: old(self)@.type_stack.drop_last(),
                type_literal_stack: old(self)@.type_literal_stack.drop_last(),
                ..old(self)@
            }),
    {
        self.type_literal_stack.pop();
        self.type_stack.pop();
    }

    /// Opens the scope of a parent type: pushes the current type.
    pub(crate) fn push_parent_type(&mut self)
        ensures
            final(self)@ == old(self)@.with_parent_type(),
    {
        let current = self.current_type();
        self.parent_type_stack.push(current);
    }

    /// Closes the scope that `push_parent_type` opened.
    pub(crate) fn pop_parent_type(&mut self)
        requires
            old(self)@.parent_type_stack.len() > 0,
        ensures
            final(self)@ == (ContextView {
                parent_type_stack: old(self)@.parent_type_stack.drop_last(),
                ..old(self)@
            }),
    {
        self.parent_type_stack.pop();
    }

    /// Opens the scope of an input type: pushes the literal `t` and the
    /// definition it resolves to.
    pub(crate) fn push_input_type(&mut self, t: Option<Type>)
        ensures
            final(self)@ == old(self)@.with_input_type(t),
    {
        let resolved = match &t {
            Some(t) => self.schema.type_by_name(t.inner_type()),
            None => None,
        };
        self.input_type_stack.push(resolved);
        self.input_type_literal_stack.push(t);
    }

    /// Closes the scope that `push_input_type` opened.
    pub(crate) fn pop_input_type(&mut self)
        requires
            old(self)@.input_type_stack.len() > 0,
            old(self)@.input_type_literal_stack.len() > 0,
        ensures
            final(self)@ == (ContextView {
                input_type_stack: old(self)@.input_type_stack.drop_last(),
                input_type_literal_stack: old(self)@.input_type_literal_stack.drop_last(),
                ..old(self)@
            }),
    {
        self.input_type_literal_stack.pop();
        self.input_type_stack.pop();
    }

    /// Runs `func` with `t` as the current type: inside, the current type is
    /// the definition that `t` resolves to and the current type literal is
    /// `t`; afterwards the context is as it was before. `func` must leave
    /// the context as it finds it.
    pub fn with_type<Func>(&mut self, t: Option<Type>, func: Func) where
        Func: FnOnce(&mut OperationVisitorContext<'a>) -> (),

        requires
            forall|c: &mut OperationVisitorContext<'a>|
                c@ == old(self)@.with_type(t) ==> #[trigger] call_requires(func, (c,)),
            forall|c: &mut OperationVisitorContext<'a>|
                #[trigger] call_ensures(func, (c,), ()) ==> final(c)@ == c@,
        ensures
            final(self)@ == old(self)@,
            exists|c: &mut OperationVisitorContext<'a>|
                c@ == old(self)@.with_type(t) && #[trigger] call_ensures(func, (c,), ()),
    {
        self.push_type(t);
        func(self);
        self.pop_type();
        proof {
            lemma_push_drop_last(old(self)@.type_stack, old(self)@.resolve(t));
            lemma_push_drop_last(old(self)@.type_literal_stack, t);
        }
    }

    /// Runs `func` with the current type as the parent type; afterwards the
    /// context is as it was before.
    pub fn with_parent_type<Func>(&mut self, func: Func) where
        Func: FnOnce(&mut OperationVisitorContext<'a>) -> (),

        requires
            forall|c: &mut OperationVisitorContext<'a>|
                c@ == old(self)@.with_parent_type() ==> #[trigger] call_requires(func, (c,)),
            forall|c: &mut OperationVisitorContext<'a>|
                #[trigger] call_ensures(func, (c,), ()) ==> final(c)@ == c@,
        ensures
            final(self)@ == old(self)@,
            exists|c: &mut OperationVisitorContext<'a>|
                c@ == old(self)@.with_parent_type() && #[trigger] call_ensures(func, (c,), ()),
    {
        self.push_parent_type();
        func(self);
        self.pop_parent_type();
        proof {
            lemma_push_drop_last(old(self)@.parent_type_stack, old(self)@.current_type());
        }
    }

    /// Runs `func` with `t` as the current input type: inside, the current
    /// input type is the definition that `t` resolves to and the current
    /// input type literal is `t`; afterwards the context is as it was before.
    pub fn with_input_type<Func>(&mut self, t: Option<Type>, func: Func) where
        Func: FnOnce(&mut OperationVisitorContext<'a>) -> (),

        requires
            forall|c: &mut OperationVisitorContext<'a>|
                c@ == old(self)@.with_input_type(t) ==> #[trigger] call_requires(func, (c,)),
            forall|c: &mut OperationVisitorContext<'a>|
                #[trigger] call_ensures(func, (c,), ()) ==> final(c)@ == c@,
        ensures
            final(self)@ == old(self)@,
            exists|c: &mut OperationVisitorContext<'a>|
                c@ == old(self)@.with_input_type(t) && #[trigger] call_ensures(func, (c,), ()),
    {
        self.push_input_type(t);
        func(self);
        self.pop_input_type();
        proof {
            lemma_push_drop_last(old(self)@.input_type_stack, old(self)@.resolve(t));
            lemma_push_drop_last(old(self)@.input_type_literal_stack, t);
        }
    }

    /// Returns the type definition on top of the type stack.
    pub fn current_type(&self) -> (res: Option<&'a schema::TypeDefinition>)
        ensures
            res == self@.current_type(),
    {
        if self.type_stack.len() > 0 {
            self.type_stack[self.type_stack.len() - 1]
        } else {
            None
        }
    }

    /// Returns the type definition on top of the parent-type stack.
    pub fn current_parent_type(&self) -> (res: Option<&'a schema::TypeDefinition>)
        ensures
            res == self@.current_parent_type(),
    {
        if self.parent_type_stack.len() > 0 {
            self.parent_type_stack[self.parent_type_stack.len() - 1]
        } else {
            None
        }
    }

    /// Returns the type definition on top of the input-type stack.
    pub fn current_input_type(&self) -> (res: Option<&'a schema::TypeDefinition>)
        ensures
            res == self@.current_input_type(),
    {
        if self.input_type_stack.len() > 0 {
            self.input_type_stack[self.input_type_stack.len() - 1]
        } else {
            None
        }
    }

    /// Returns the literal on top of the type-literal stack.
    pub fn current_type_literal(&self) -> (res: Option<&Type>)
        ensures
            res matches Some(t) ==> self@.current_type_literal() == Some(*t),
            res is None ==> self@.current_type_literal() is None,
    {
        if self.type_literal_stack.len() > 0 {
            self.type_literal_stack[self.type_literal_stack.len() - 1].as_ref()
        } else {
            None
        }
    }

    /// Returns the literal on top of the input-type-literal stack.
    pub fn current_input_type_literal(&self) -> (res: Option<&Type>)
        ensures
            res matches Some(t) ==> self@.current_input_type_literal() == Some(*t),
            res is None ==> self@.current_input_type_literal() is None,
    {
        if self.input_type_literal_stack.len() > 0 {
            self.input_type_literal_stack[self.input_type_literal_stack.len() - 1].as_ref()
        } else {
            None
        }
    }
}


/// A node of an executable document, as a hook sees it.
pub enum Node<'a> {
    Document(&'a Document),
    OperationDefinition(&'a OperationDefinition),
    FragmentDefinition(&'a FragmentDefinition),
    VariableDefinition(&'a VariableDefinition),
    Directive(&'a Directive),
    Argument(&'a (String, Value)),
    SelectionSet(&'a SelectionSet),
    Field(&'a Field),
    FragmentSpread(&'a FragmentSpread),
    InlineFragment(&'a InlineFragment),
    NullValue,
    ScalarValue(&'a Value),
    EnumValue(&'a String),
    VariableValue(&'a String),
    ListValue(&'a Vec<Value>),
    ObjectValue(&'a Vec<(String, Value)>),
    ObjectField(&'a (String, Value)),
}

/// The hooks that a walk calls, one pair for each kind of node.
///
/// A visitor has a mathematical state. `on_enter` and `on_leave` say what
/// entering and leaving a node does to it, given the context at that node;
/// each hook does to the visitor what they say for its kind of node. A
/// visitor that has nothing to do at a node leaves its state as it is.
pub trait OperationVisitor<'a> {
    /// The mathematical state of the visitor.
    type State;

    /// The state that the visitor is in.
    spec fn state(&self) -> Self::State;

    /// The state after entering `node` in state `state`.
    spec fn on_enter(state: Self::State, ctx: ContextView<'a>, node: Node<'a>) -> Self::State;

    /// The state after leaving `node` in state `state`.
    spec fn on_leave(state: Self::State, ctx: ContextView<'a>, node: Node<'a>) -> Self::State;

    fn enter_document(&mut self, ctx: &OperationVisitorContext<'a>, document: &'a Document)
        requires
            ctx.wf(),
        ensures
            final(self).state() == Self::on_enter(old(self).state(), ctx@, Node::Document(document)),
    ;

    fn leave_document(&mut self, ctx: &OperationVisitorContext<'a>, document: &'a Document)
        requires
            ctx.wf(),
        ensures
            final(self).state() == Self::on_leave(old(self).state(), ctx@, Node::Document(document)),
    ;

    fn enter_operation_definition(
        &mut self,
        ctx: &OperationVisitorContext<'a>,
        operation: &'a OperationDefinition,
    )
        requires
            ctx.wf(),
        ensures
            final(self).state() == Self::on_enter(
                old(self).state(),
                ctx@,
                Node::OperationDefinition(operation),
            ),
    ;

    fn leave_operation_definition(
        &mut self,
        ctx: &OperationVisitorContext<'a>,
        operation: &'a OperationDefinition,
    )
        requires
            ctx.wf(),
        ensures
            final(self).state() == Self::on_leave(
                old(self).state(),
                ctx@,
                Node::OperationDefinition(operation),
            ),
    ;

    fn enter_fragment_definition(
        &mut self,
        ctx: &OperationVisitorContext<'a>,
        fragment: &'a FragmentDefinition,
    )
        requires
            ctx.wf(),
        ensures
            final(self).state() == Self::on_enter(
                old(self).state(),
                ctx@,
                Node::FragmentDefinition(fragment),
            ),
    ;

    fn leave_fragment_definition(
        &mut self,
        ctx: &OperationVisitorContext<'a>,
        fragment: &'a FragmentDefinition,
    )
        requires
            ctx.wf(),
        ensures
            final(self).state() == Self::on_leave(
                old(self).state(),
                ctx@,
                Node::FragmentDefinition(fragment),
            ),
    ;

    fn enter_variable_definition(
        &mut self,
        ctx: &OperationVisitorContext<'a>,
        variable: &'a VariableDefinition,
    )
        requires
            ctx.wf(),
        ensures
            final(self).state() == Self::on_enter(
                old(self).state(),
                ctx@,
                Node::VariableDefinition(variable),
            ),
    ;

    fn leave_variable_definition(
        &mut self,
        ctx: &OperationVisitorContext<'a>,
        variable: &'a VariableDefinition,
    )
        requires
            ctx.wf(),
        ensures
            final(self).state() == Self::on_leave(
                old(self).state(),
                ctx@,
                Node::VariableDefinition(variable),
            ),
    ;

    fn enter_directive(&mut self, ctx: &OperationVisitorContext<'a>, directive: &'a Directive)
        requires
            ctx.wf(),
        ensures
            final(self).state() == Self::on_enter(
                old(self).state(),
                ctx@,
                Node::Directive(directive),
            ),
    ;

    fn leave_directive(&mut self, ctx: &OperationVisitorContext<'a>, directive: &'a Directive)
        requires
            ctx.wf(),
        ensures
            final(self).state() == Self::on_leave(
                old(self).state(),
                ctx@,
                Node::Directive(directive),
            ),
    ;

    fn enter_argument(&mut self, ctx: &OperationVisitorContext<'a>, argument: &'a (String, Value))
        requires
            ctx.wf(),
        ensures
            final(self).state() == Self::on_enter(old(self).state(), ctx@, Node::Argument(argument)),
    ;

    fn leave_argument(&mut self, ctx: &OperationVisitorContext<'a>, argument: &'a (String, Value))
        requires
            ctx.wf(),
        ensures
            final(self).state() == Self::on_leave(old(self).state(), ctx@, Node::Argument(argument)),
    ;

    fn enter_selection_set(
        &mut self,
        ctx: &OperationVisitorContext<'a>,
        selection_set: &'a SelectionSet,
    )
        requires
            ctx.wf(),
        ensures
            final(self).state() == Self::on_enter(
                old(self).state(),
                ctx@,
                Node::SelectionSet(selection_set),
            ),
    ;

    fn leave_selection_set(
        &mut self,
        ctx: &OperationVisitorContext<'a>,
        selection_set: &'a SelectionSet,
    )
        requires
            ctx.wf(),
        ensures
            final(self).state() == Self::on_leave(
                old(self).state(),
                ctx@,
                Node::SelectionSet(selection_set),
            ),
    ;

    fn enter_field(&mut self, ctx: &OperationVisitorContext<'a>, field: &'a Field)
        requires
            ctx.wf(),
        ensures
            final(self).state() == Self::on_enter(old(self).state(), ctx@, Node::Field(field)),
    ;

    fn leave_field(&mut self, ctx: &OperationVisitorContext<'a>, field: &'a Field)
        requires
            ctx.wf(),
        ensures
            final(self).state() == Self::on_leave(old(self).state(), ctx@, Node::Field(field)),
    ;

    fn enter_fragment_spread(
        &mut self,
        ctx: &OperationVisitorContext<'a>,
        fragment_spread: &'a FragmentSpread,
    )
        requires
            ctx.wf(),
        ensures
            final(self).state() == Self::on_enter(
                old(self).state(),
                ctx@,
                Node::FragmentSpread(fragment_spread),
            ),
    ;

    fn leave_fragment_spread(
        &mut self,
        ctx: &OperationVisitorContext<'a>,
        fragment_spread: &'a FragmentSpread,
    )
        requires
            ctx.wf(),
        ensures
            final(self).state() == Self::on_leave(
                old(self).state(),
                ctx@,
                Node::FragmentSpread(fragment_spread),
            ),
    ;

    fn enter_inline_fragment(
        &mut self,
        ctx: &OperationVisitorContext<'a>,
        inline_fragment: &'a InlineFragment,
    )
        requires
            ctx.wf(),
        ensures
            final(self).state() == Self::on_enter(
                old(self).state(),
                ctx@,
                Node::InlineFragment(inline_fragment),
            ),
    ;

    fn leave_inline_fragment(
        &mut self,
        ctx: &OperationVisitorContext<'a>,
        inline_fragment: &'a InlineFragment,
    )
        requires
            ctx.wf(),
        ensures
            final(self).state() == Self::on_leave(
                old(self).state(),
                ctx@,
                Node::InlineFragment(inline_fragment),
            ),
    ;

    fn enter_null_value(&mut self, ctx: &OperationVisitorContext<'a>)
        requires
            ctx.wf(),
        ensures
            final(self).state() == Self::on_enter(old(self).state(), ctx@, Node::NullValue),
    ;

    fn leave_null_value(&mut self, ctx: &OperationVisitorContext<'a>)
        requires
            ctx.wf(),
        ensures
            final(self).state() == Self::on_leave(old(self).state(), ctx@, Node::NullValue),
    ;

    fn enter_scalar_value(&mut self, ctx: &OperationVisitorContext<'a>, value: &'a Value)
        requires
            ctx.wf(),
        ensures
            final(self).state() == Self::on_enter(old(self).state(), ctx@, Node::ScalarValue(value)),
    ;

    fn leave_scalar_value(&mut self, ctx: &OperationVisitorContext<'a>, value: &'a Value)
        requires
            ctx.wf(),
        ensures
            final(self).state() == Self::on_leave(old(self).state(), ctx@, Node::ScalarValue(value)),
    ;

    fn enter_enum_value(&mut self, ctx: &OperationVisitorContext<'a>, value: &'a String)
        requires
            ctx.wf(),
        ensures
            final(self).state() == Self::on_enter(old(self).state(), ctx@, Node::EnumValue(value)),
    ;

    fn leave_enum_value(&mut self, ctx: &OperationVisitorContext<'a>, value: &'a String)
        requires
            ctx.wf(),
        ensures
            final(self).state() == Self::on_leave(old(self).state(), ctx@, Node::EnumValue(value)),
    ;

    fn enter_variable_value(&mut self, ctx: &OperationVisitorContext<'a>, name: &'a String)
        requires
            ctx.wf(),
        ensures
            final(self).state() == Self::on_enter(old(self).state(), ctx@, Node::VariableValue(name)),
    ;

    fn leave_variable_value(&mut self, ctx: &OperationVisitorContext<'a>, name: &'a String)
        requires
            ctx.wf(),
        ensures
            final(self).state() == Self::on_leave(old(self).state(), ctx@, Node::VariableValue(name)),
    ;

    fn enter_list_value(&mut self, ctx: &OperationVisitorContext<'a>, items: &'a Vec<Value>)
        requires
            ctx.wf(),
        ensures
            final(self).state() == Self::on_enter(old(self).state(), ctx@, Node::ListValue(items)),
    ;

    fn leave_list_value(&mut self, ctx: &OperationVisitorContext<'a>, items: &'a Vec<Value>)
        requires
            ctx.wf(),
        ensures
            final(self).state() == Self::on_leave(old(self).state(), ctx@, Node::ListValue(items)),
    ;

    fn enter_object_value(
        &mut self,
        ctx: &OperationVisitorContext<'a>,
        entries: &'a Vec<(String, Value)>,
    )
        requires
            ctx.wf(),
        ensures
            final(self).state() == Self::on_enter(old(self).state(), ctx@, Node::ObjectValue(entries)),
    ;

    fn leave_object_value(
        &mut self,
        ctx: &OperationVisitorContext<'a>,
        entries: &'a Vec<(String, Value)>,
    )
        requires
            ctx.wf(),
        ensures
            final(self).state() == Self::on_leave(old(self).state(), ctx@, Node::ObjectValue(entries)),
    ;

    fn enter_object_field(&mut self, ctx: &OperationVisitorContext<'a>, entry: &'a (String, Value))
        requires
            ctx.wf(),
        ensures
            final(self).state() == Self::on_enter(old(self).state(), ctx@, Node::ObjectField(entry)),
    ;

    fn leave_object_field(&mut self, ctx: &OperationVisitorContext<'a>, entry: &'a (String, Value))
        requires
            ctx.wf(),
        ensures
            final(self).state() == Self::on_leave(old(self).state(), ctx@, Node::ObjectField(entry)),
    ;
}

/// The input type of the items of a list value: the item type of the current
/// input type literal, where that literal is a list.
pub open spec fn spec_list_item_type(literal: Option<Type>) -> Option<Type> {
    match literal {
        Some(Type::ListType(inner)) => Some(*inner),
        _ => None,
    }
}

/// The input type of the entry `key` of an object value: the type of the
/// input field `key` of the type that the current input type literal names.
pub open spec fn spec_object_field_type(ctx: ContextView, key: Seq<char>) -> Option<Type> {
    match ctx.current_input_type_literal() {
        Some(t) => match ctx.schema.spec_type_by_name(t.spec_inner_type()@) {
            Some(def) => match def.spec_input_field_by_name(key) {
                Some(f) => Some(f.value_type),
                None => None,
            },
            None => None,
        },
        None => None,
    }
}

/// The input type of the argument `name`, where `defs` are the argument
/// definitions of the field or directive that it is passed to.
pub open spec fn spec_argument_type(defs: Option<Seq<schema::InputValue>>, name: Seq<char>) -> Option<
    Type,
> {
    match defs {
        Some(defs) => match spec_find_input_value(defs, name) {
            Some(def) => Some(def.value_type),
            None => None,
        },
        None => None,
    }
}

/// The definition of the field `name` on the current parent type.
pub open spec fn spec_field_definition<'a>(ctx: ContextView<'a>, name: Seq<char>) -> Option<
    &'a schema::Field,
> {
    match ctx.current_parent_type() {
        Some(t) => t.spec_field_by_name(name),
        None => None,
    }
}

/// The type literal of a field definition, if there is one.
pub open spec fn spec_field_type(def: Option<&schema::Field>) -> Option<Type> {
    match def {
        Some(f) => Some(f.field_type),
        None => None,
    }
}

/// The argument definitions of a field definition, if there is one.
pub open spec fn spec_field_arguments(def: Option<&schema::Field>) -> Option<
    Seq<schema::InputValue>,
> {
    match def {
        Some(f) => Some(f.arguments@),
        None => None,
    }
}

/// The argument definitions of the directive `name`, if the schema defines it.
pub open spec fn spec_directive_arguments(ctx: ContextView, name: Seq<char>) -> Option<
    Seq<schema::InputValue>,
> {
    match ctx.schema.spec_directive_by_name(name) {
        Some(d) => Some(d.arguments@),
        None => None,
    }
}

impl OperationDefinition {
    /// Which root type the operation starts from.
    pub open spec fn spec_root_kind(&self) -> RootKind {
        match self {
            OperationDefinition::SelectionSet(_) => RootKind::Query,
            OperationDefinition::Query(_) => RootKind::Query,
            OperationDefinition::Mutation(_) => RootKind::Mutation,
            OperationDefinition::Subscription(_) => RootKind::Subscription,
        }
    }

    /// The variable definitions of the operation; a bare selection set has
    /// none.
    pub open spec fn spec_variable_definitions(&self) -> Seq<VariableDefinition> {
        match self {
            OperationDefinition::SelectionSet(_) => Seq::empty(),
            OperationDefinition::Query(q) => q.variable_definitions@,
            OperationDefinition::Mutation(m) => m.variable_definitions@,
            OperationDefinition::Subscription(s) => s.variable_definitions@,
        }
    }

    /// The directives of the operation; a bare selection set has none.
    pub open spec fn spec_directives(&self) -> Seq<Directive> {
        match self {
            OperationDefinition::SelectionSet(_) => Seq::empty(),
            OperationDefinition::Query(q) => q.directives@,
            OperationDefinition::Mutation(m) => m.directives@,
            OperationDefinition::Subscription(s) => s.directives@,
        }
    }

    /// The selection set of the operation.
    pub open spec fn spec_selection_set(&self) -> &SelectionSet {
        match self {
            OperationDefinition::SelectionSet(s) => s,
            OperationDefinition::Query(q) => &q.selection_set,
            OperationDefinition::Mutation(m) => &m.selection_set,
            OperationDefinition::Subscription(s) => &s.selection_set,
        }
    }

    /// Returns the selection set of the operation.
    pub fn selection_set(&self) -> (res: &SelectionSet)
        ensures
            res == self.spec_selection_set(),
    {
        match self {
            OperationDefinition::SelectionSet(s) => s,
            OperationDefinition::Query(q) => &q.selection_set,
            OperationDefinition::Mutation(m) => &m.selection_set,
            OperationDefinition::Subscription(s) => &s.selection_set,
        }
    }
}

/// The type literal that is current in a definition: the type condition of a
/// fragment, the root type of an operation. None where the schema has no such
/// root type.
pub open spec fn spec_definition_type(ctx: ContextView, definition: &Definition) -> Option<Type> {
    match definition {
        Definition::Fragment(f) => match f.type_condition {
            TypeCondition::On(name) => Some(Type::NamedType(name)),
        },
        Definition::Operation(op) => match ctx.schema.spec_root_type(op.spec_root_kind()) {
            Some(t) => Some(Type::NamedType(t.name)),
            None => None,
        },
    }
}

/// The state after the walk of one input value.
pub open spec fn walk_input_value<'a, V: OperationVisitor<'a>>(
    state: V::State,
    ctx: ContextView<'a>,
    value: &'a Value,
) -> V::State
    decreases value, 1nat, 0nat,
{
    match value {
        Value::Null => V::on_leave(V::on_enter(state, ctx, Node::NullValue), ctx, Node::NullValue),
        Value::Enum(v) => V::on_leave(
            V::on_enter(state, ctx, Node::EnumValue(v)),
            ctx,
            Node::EnumValue(v),
        ),
        Value::Variable(v) => V::on_leave(
            V::on_enter(state, ctx, Node::VariableValue(v)),
            ctx,
            Node::VariableValue(v),
        ),
        Value::List(items) => {
            let inner = ctx.with_input_type(spec_list_item_type(ctx.current_input_type_literal()));
            V::on_leave(
                walk_list_items::<V>(
                    V::on_enter(state, ctx, Node::ListValue(items)),
                    inner,
                    value,
                    0,
                ),
                ctx,
                Node::ListValue(items),
            )
        },
        Value::Object(entries) => V::on_leave(
            walk_object_entries::<V>(
                V::on_enter(state, ctx, Node::ObjectValue(entries)),
                ctx,
                value,
                0,
            ),
            ctx,
            Node::ObjectValue(entries),
        ),
        _ => V::on_leave(
            V::on_enter(state, ctx, Node::ScalarValue(value)),
            ctx,
            Node::ScalarValue(value),
        ),
    }
}

/// The state after the walk of the items of the list `value` from the `i`-th
/// on.
pub open spec fn walk_list_items<'a, V: OperationVisitor<'a>>(
    state: V::State,
    ctx: ContextView<'a>,
    value: &'a Value,
    i: int,
) -> V::State
    decreases value, 0nat, value->List_0.len() - i,
{
    if value is List && 0 <= i < value->List_0.len() {
        walk_list_items::<V>(
            walk_input_value::<V>(state, ctx, &value->List_0[i]),
            ctx,
            value,
            i + 1,
        )
    } else {
        state
    }
}

/// The state after the walk of the entries of the object `value` from the
/// `i`-th on. Each entry is walked with the type of its input field as the
/// input type.
pub open spec fn walk_object_entries<'a, V: OperationVisitor<'a>>(
    state: V::State,
    ctx: ContextView<'a>,
    value: &'a Value,
    i: int,
) -> V::State
    decreases value, 0nat, value->Object_0.len() - i,
{
    if value is Object && 0 <= i < value->Object_0.len() {
        let entry = &value->Object_0[i];
        let inner = ctx.with_input_type(spec_object_field_type(ctx, entry.0@));
        let entered = V::on_enter(state, inner, Node::ObjectField(entry));
        let walked = walk_input_value::<V>(entered, inner, &entry.1);
        walk_object_entries::<V>(
            V::on_leave(walked, inner, Node::ObjectField(entry)),
            ctx,
            value,
            i + 1,
        )
    } else {
        state
    }
}

/// The state after the walk of the arguments from the `i`-th on. Each
/// argument is walked with the type of its definition in `defs` as the input
/// type.
pub open spec fn walk_arguments<'a, V: OperationVisitor<'a>>(
    state: V::State,
    ctx: ContextView<'a>,
    defs: Option<Seq<schema::InputValue>>,
    arguments: Seq<(String, Value)>,
    i: int,
) -> V::State
    decreases arguments.len() - i,
{
    if 0 <= i < arguments.len() {
        let argument = &arguments[i];
        let inner = ctx.with_input_type(spec_argument_type(defs, argument.0@));
        let entered = V::on_enter(state, inner, Node::Argument(argument));
        let walked = walk_input_value::<V>(entered, inner, &argument.1);
        walk_arguments::<V>(
            V::on_leave(walked, inner, Node::Argument(argument)),
            ctx,
            defs,
            arguments,
            i + 1,
        )
    } else {
        state
    }
}

/// The state after the walk of the directives from the `i`-th on.
pub open spec fn walk_directives<'a, V: OperationVisitor<'a>>(
    state: V::State,
    ctx: ContextView<'a>,
    directives: Seq<Directive>,
    i: int,
) -> V::State
    decreases directives.len() - i,
{
    if 0 <= i < directives.len() {
        let directive = &directives[i];
        let entered = V::on_enter(state, ctx, Node::Directive(directive));
        let walked = walk_arguments::<V>(
            entered,
            ctx,
            spec_directive_arguments(ctx, directive.name@),
            directive.arguments@,
            0,
        );
        walk_directives::<V>(
            V::on_leave(walked, ctx, Node::Directive(directive)),
            ctx,
            directives,
            i + 1,
        )
    } else {
        state
    }
}

/// The state after the walk of the variable definitions from the `i`-th on.
/// Each is walked with its declared type as the input type.
pub open spec fn walk_variable_definitions<'a, V: OperationVisitor<'a>>(
    state: V::State,
    ctx: ContextView<'a>,
    variables: Seq<VariableDefinition>,
    i: int,
) -> V::State
    decreases variables.len() - i,
{
    if 0 <= i < variables.len() {
        let variable = &variables[i];
        let inner = ctx.with_input_type(Some(variable.var_type));
        let entered = V::on_enter(state, inner, Node::VariableDefinition(variable));
        let walked = match variable.default_value {
            Some(default_value) => walk_input_value::<V>(entered, inner, &default_value),
            None => entered,
        };
        walk_variable_definitions::<V>(
            V::on_leave(walked, inner, Node::VariableDefinition(variable)),
            ctx,
            variables,
            i + 1,
        )
    } else {
        state
    }
}

/// The state after the walk of a selection set. The type that is current
/// outside the set is the parent type inside it.
pub open spec fn walk_selection_set<'a, V: OperationVisitor<'a>>(
    state: V::State,
    ctx: ContextView<'a>,
    selection_set: &'a SelectionSet,
) -> V::State
    decreases selection_set, 1nat, 0nat,
{
    let inner = ctx.with_parent_type();
    V::on_leave(
        walk_selections::<V>(
            V::on_enter(state, inner, Node::SelectionSet(selection_set)),
            inner,
            selection_set,
            0,
        ),
        inner,
        Node::SelectionSet(selection_set),
    )
}

/// The state after the walk of the selections of `selection_set` from the
/// `i`-th on.
pub open spec fn walk_selections<'a, V: OperationVisitor<'a>>(
    state: V::State,
    ctx: ContextView<'a>,
    selection_set: &'a SelectionSet,
    i: int,
) -> V::State
    decreases selection_set, 0nat, selection_set.items.len() - i,
{
    if 0 <= i < selection_set.items.len() {
        walk_selections::<V>(
            walk_selection::<V>(state, ctx, &selection_set.items[i]),
            ctx,
            selection_set,
            i + 1,
        )
    } else {
        state
    }
}

/// The state after the walk of one selection.
///
/// A field is walked with the type of its definition on the parent type as
/// the current type: its arguments, then its directives, then its selection
/// set. A fragment spread is entered and left with its directives between; its
/// fragment is not walked. An inline fragment is walked with its type
/// condition as the current type, where it has one.
pub open spec fn walk_selection<'a, V: OperationVisitor<'a>>(
    state: V::State,
    ctx: ContextView<'a>,
    selection: &'a Selection,
) -> V::State
    decreases selection, 0nat, 0nat,
{
    match selection {
        Selection::Field(field) => {
            let def = spec_field_definition(ctx, field.name@);
            let inner = ctx.with_type(spec_field_type(def));
            let s1 = V::on_enter(state, inner, Node::Field(field));
            let s2 = walk_arguments::<V>(s1, inner, spec_field_arguments(def), field.arguments@, 0);
            let s3 = walk_directives::<V>(s2, inner, field.directives@, 0);
            let s4 = walk_selection_set::<V>(s3, inner, &field.selection_set);
            V::on_leave(s4, inner, Node::Field(field))
        },
        Selection::FragmentSpread(spread) => {
            let s1 = V::on_enter(state, ctx, Node::FragmentSpread(spread));
            let s2 = walk_directives::<V>(s1, ctx, spread.directives@, 0);
            V::on_leave(s2, ctx, Node::FragmentSpread(spread))
        },
        Selection::InlineFragment(inline) => {
            let inner = match inline.type_condition {
                Some(TypeCondition::On(name)) => ctx.with_type(Some(Type::NamedType(name))),
                None => ctx,
            };
            let s1 = V::on_enter(state, inner, Node::InlineFragment(inline));
            let s2 = walk_directives::<V>(s1, inner, inline.directives@, 0);
            let s3 = walk_selection_set::<V>(s2, inner, &inline.selection_set);
            V::on_leave(s3, inner, Node::InlineFragment(inline))
        },
    }
}

/// The state after the walk of a fragment definition: its directives, then
/// its selection set.
pub open spec fn walk_fragment_definition<'a, V: OperationVisitor<'a>>(
    state: V::State,
    ctx: ContextView<'a>,
    fragment: &'a FragmentDefinition,
) -> V::State {
    let s1 = V::on_enter(state, ctx, Node::FragmentDefinition(fragment));
    let s2 = walk_directives::<V>(s1, ctx, fragment.directives@, 0);
    let s3 = walk_selection_set::<V>(s2, ctx, &fragment.selection_set);
    V::on_leave(s3, ctx, Node::FragmentDefinition(fragment))
}

/// The state after the walk of an operation definition: its variable
/// definitions, then its directives, then its selection set.
pub open spec fn walk_operation_definition<'a, V: OperationVisitor<'a>>(
    state: V::State,
    ctx: ContextView<'a>,
    operation: &'a OperationDefinition,
) -> V::State {
    let s1 = V::on_enter(state, ctx, Node::OperationDefinition(operation));
    let s2 = walk_variable_definitions::<V>(s1, ctx, operation.spec_variable_definitions(), 0);
    let s3 = walk_directives::<V>(s2, ctx, operation.spec_directives(), 0);
    let s4 = walk_selection_set::<V>(s3, ctx, operation.spec_selection_set());
    V::on_leave(s4, ctx, Node::OperationDefinition(operation))
}

/// The state after the walk of one definition, with the type of the
/// definition as the current type.
pub open spec fn walk_definition<'a, V: OperationVisitor<'a>>(
    state: V::State,
    ctx: ContextView<'a>,
    definition: &'a Definition,
) -> V::State {
    let inner = ctx.with_type(spec_definition_type(ctx, definition));
    match definition {
        Definition::Fragment(fragment) => walk_fragment_definition::<V>(state, inner, fragment),
        Definition::Operation(operation) => walk_operation_definition::<V>(state, inner, operation),
    }
}

/// The state after the walk of the definitions from the `i`-th on.
pub open spec fn walk_definitions<'a, V: OperationVisitor<'a>>(
    state: V::State,
    ctx: ContextView<'a>,
    definitions: Seq<Definition>,
    i: int,
) -> V::State
    decreases definitions.len() - i,
{
    if 0 <= i < definitions.len() {
        walk_definitions::<V>(
            walk_definition::<V>(state, ctx, &definitions[i]),
            ctx,
            definitions,
            i + 1,
        )
    } else {
        state
    }
}

/// The state after the walk of a whole document: the document is entered,
/// its definitions are walked in order, and the document is left, in the
/// context in which it was entered.
pub open spec fn walk_document<'a, V: OperationVisitor<'a>>(
    state: V::State,
    ctx: ContextView<'a>,
    document: &'a Document,
) -> V::State {
    let s1 = V::on_enter(state, ctx, Node::Document(document));
    let s2 = walk_definitions::<V>(s1, ctx, document.definitions@, 0);
    V::on_leave(s2, ctx, Node::Document(document))
}

/// Dropping the last element undoes a push.
pub proof fn lemma_push_drop_last<T>(s: Seq<T>, x: T)
    ensures
        s.push(x).drop_last() == s,
        s.push(x).len() == s.len() + 1,
{
    assert(s.push(x).drop_last() =~= s);
}


/// The views of the argument definitions, where there are any.
pub open spec fn spec_definitions_view(defs: Option<&Vec<schema::InputValue>>) -> Option<
    Seq<schema::InputValue>,
> {
    match defs {
        Some(defs) => Some(defs@),
        None => None,
    }
}

/// Leaving the scope of a current type restores the context.
pub proof fn lemma_type_scope(ctx: ContextView, t: Option<Type>)
    ensures
        ctx.wf() ==> ctx.with_type(t).wf(),
        ctx.with_type(t).type_stack.len() > 0,
        ctx.with_type(t).type_literal_stack.len() > 0,
        (ContextView {
            type_stack: ctx.with_type(t).type_stack.drop_last(),
            type_literal_stack: ctx.with_type(t).type_literal_stack.drop_last(),
            ..ctx.with_type(t)
        }) == ctx,
{
    lemma_push_drop_last(ctx.type_stack, ctx.resolve(t));
    lemma_push_drop_last(ctx.type_literal_stack, t);
}

/// Leaving the scope of a parent type restores the context.
pub proof fn lemma_parent_type_scope(ctx: ContextView)
    ensures
        ctx.wf() ==> ctx.with_parent_type().wf(),
        ctx.with_parent_type().parent_type_stack.len() > 0,
        (ContextView {
            parent_type_stack: ctx.with_parent_type().parent_type_stack.drop_last(),
            ..ctx.with_parent_type()
        }) == ctx,
{
    lemma_push_drop_last(ctx.parent_type_stack, ctx.current_type());
}

/// Leaving the scope of an input type restores the context.
pub proof fn lemma_input_type_scope(ctx: ContextView, t: Option<Type>)
    ensures
        ctx.wf() ==> ctx.with_input_type(t).wf(),
        ctx.with_input_type(t).input_type_stack.len() > 0,
        ctx.with_input_type(t).input_type_literal_stack.len() > 0,
        (ContextView {
            input_type_stack: ctx.with_input_type(t).input_type_stack.drop_last(),
            input_type_literal_stack: ctx.with_input_type(t).input_type_literal_stack.drop_last(),
            ..ctx.with_input_type(t)
        }) == ctx,
{
    lemma_push_drop_last(ctx.input_type_stack, ctx.resolve(t));
    lemma_push_drop_last(ctx.input_type_literal_stack, t);
}

/// Walks a whole document: enters it, walks its definitions in order, and
/// leaves it. The context comes back as it went in.
pub fn visit_document<'a, Visitor>(
    visitor: &mut Visitor,
    document: &'a Document,
    context: &mut OperationVisitorContext<'a>,
) where Visitor: OperationVisitor<'a>
    requires
        old(context).wf(),
    ensures
        final(context)@ == old(context)@,
        final(visitor).state() == walk_document::<Visitor>(
            old(visitor).state(),
            old(context)@,
            document,
        ),
{
    visitor.enter_document(context, document);
    visit_definitions(visitor, &document.definitions, context);
    visitor.leave_document(context, document);
}

/// Walks the definitions of a document in order, each with its own type as
/// the current type.
pub fn visit_definitions<'a, Visitor>(
    visitor: &mut Visitor,
    definitions: &'a Vec<Definition>,
    context: &mut OperationVisitorContext<'a>,
) where Visitor: OperationVisitor<'a>
    requires
        old(context).wf(),
    ensures
        final(context)@ == old(context)@,
        final(visitor).state() == walk_definitions::<Visitor>(
            old(visitor).state(),
            old(context)@,
            definitions@,
            0,
        ),
{
    let mut i: usize = 0;
    while i < definitions.len()
        invariant
            i <= definitions.len(),
            context@ == old(context)@,
            context.wf(),
            walk_definitions::<Visitor>(visitor.state(), context@, definitions@, i as int)
                == walk_definitions::<Visitor>(
                old(visitor).state(),
                old(context)@,
                definitions@,
                0,
            ),
        decreases definitions.len() - i,
    {
        let definition = &definitions[i];
        let schema_type: Option<Type> = match definition {
            Definition::Fragment(fragment) => match &fragment.type_condition {
                TypeCondition::On(name) => Some(Type::NamedType(name.clone())),
            },
            Definition::Operation(operation) => {
                let kind = match operation {
                    OperationDefinition::SelectionSet(_) => RootKind::Query,
                    OperationDefinition::Query(_) => RootKind::Query,
                    OperationDefinition::Mutation(_) => RootKind::Mutation,
                    OperationDefinition::Subscription(_) => RootKind::Subscription,
                };
                match context.schema().root_type(kind) {
                    Some(t) => Some(Type::NamedType(t.name.clone())),
                    None => None,
                }
            },
        };
        proof {
            lemma_type_scope(context@, schema_type);
        }
        context.push_type(schema_type);
        match definition {
            Definition::Fragment(fragment) => {
                visit_fragment_definition(visitor, fragment, context);
            },
            Definition::Operation(operation) => {
                visit_operation_definition(visitor, operation, context);
            },
        }
        context.pop_type();
        i += 1;
    }
}

/// Walks directives in order: each is entered, its arguments are walked
/// against the directive's definition, and it is left.
pub fn visit_directives<'a, Visitor>(
    visitor: &mut Visitor,
    directives: &'a Vec<Directive>,
    context: &mut OperationVisitorContext<'a>,
) where Visitor: OperationVisitor<'a>
    requires
        old(context).wf(),
    ensures
        final(context)@ == old(context)@,
        final(visitor).state() == walk_directives::<Visitor>(
            old(visitor).state(),
            old(context)@,
            directives@,
            0,
        ),
{
    let mut i: usize = 0;
    while i < directives.len()
        invariant
            i <= directives.len(),
            context@ == old(context)@,
            context.wf(),
            walk_directives::<Visitor>(visitor.state(), context@, directives@, i as int)
                == walk_directives::<Visitor>(
                old(visitor).state(),
                old(context)@,
                directives@,
                0,
            ),
        decreases directives.len() - i,
    {
        let directive = &directives[i];
        let directive_def_args: Option<&'a Vec<schema::InputValue>> =
            match context.schema().directive_by_name(&directive.name) {
            Some(def) => Some(&def.arguments),
            None => None,
        };
        visitor.enter_directive(context, directive);
        visit_arguments(visitor, directive_def_args, &directive.arguments, context);
        visitor.leave_directive(context, directive);
        i += 1;
    }
}

/// Walks arguments in order, each with the type of its definition as the
/// input type.
pub fn visit_arguments<'a, Visitor>(
    visitor: &mut Visitor,
    arguments_definition: Option<&'a Vec<schema::InputValue>>,
    arguments: &'a Vec<(String, Value)>,
    context: &mut OperationVisitorContext<'a>,
) where Visitor: OperationVisitor<'a>
    requires
        old(context).wf(),
    ensures
        final(context)@ == old(context)@,
        final(visitor).state() == walk_arguments::<Visitor>(
            old(visitor).state(),
            old(context)@,
            spec_definitions_view(arguments_definition),
            arguments@,
            0,
        ),
{
    let ghost defs = spec_definitions_view(arguments_definition);
    let mut i: usize = 0;
    while i < arguments.len()
        invariant
            i <= arguments.len(),
            context@ == old(context)@,
            context.wf(),
            defs == spec_definitions_view(arguments_definition),
            walk_arguments::<Visitor>(visitor.state(), context@, defs, arguments@, i as int)
                == walk_arguments::<Visitor>(
                old(visitor).state(),
                old(context)@,
                defs,
                arguments@,
                0,
            ),
        decreases arguments.len() - i,
    {
        let argument = &arguments[i];
        let arg_type: Option<Type> = match arguments_definition {
            Some(argument_defs) => match find_input_value_in(argument_defs, &argument.0) {
                Some(def) => Some(def.value_type.clone()),
                None => None,
            },
            None => None,
        };
        proof {
            lemma_input_type_scope(context@, arg_type);
        }
        context.push_input_type(arg_type);
        visitor.enter_argument(context, argument);
        visit_input_value(visitor, &argument.1, context);
        visitor.leave_argument(context, argument);
        context.pop_input_type();
        i += 1;
    }
}

/// Walks one input value. A list is entered, its items are walked with the
/// item type as the input type, and it is left. An object is entered, its
/// entries are walked each with the type of its input field as the input
/// type, and it is left. Any other value is entered and left.
pub fn visit_input_value<'a, Visitor>(
    visitor: &mut Visitor,
    input_value: &'a Value,
    context: &mut OperationVisitorContext<'a>,
) where Visitor: OperationVisitor<'a>
    requires
        old(context).wf(),
    ensures
        final(context)@ == old(context)@,
        final(visitor).state() == walk_input_value::<Visitor>(
            old(visitor).state(),
            old(context)@,
            input_value,
        ),
    decreases input_value,
{
    match input_value {
        Value::Null => {
            visitor.enter_null_value(context);
            visitor.leave_null_value(context);
        },
        Value::Enum(v) => {
            visitor.enter_enum_value(context, v);
            visitor.leave_enum_value(context, v);
        },
        Value::Variable(v) => {
            visitor.enter_variable_value(context, v);
            visitor.leave_variable_value(context, v);
        },
        Value::List(items) => {
            visitor.enter_list_value(context, items);
            let input_type: Option<Type> = match context.current_input_type_literal() {
                Some(Type::ListType(inner)) => Some((**inner).clone()),
                _ => None,
            };
            proof {
                lemma_input_type_scope(context@, input_type);
            }
            let ghost entered = visitor.state();
            context.push_input_type(input_type);
            let ghost inner = context@;
            let mut i: usize = 0;
            while i < items.len()
                invariant
                    i <= items.len(),
                    *input_value == Value::List(*items),
                    context@ == inner,
                    context.wf(),
                    walk_list_items::<Visitor>(visitor.state(), inner, input_value, i as int)
                        == walk_list_items::<Visitor>(entered, inner, input_value, 0),
                decreases items.len() - i,
            {
                visit_input_value(visitor, &items[i], context);
                i += 1;
            }
            context.pop_input_type();
            visitor.leave_list_value(context, items);
        },
        Value::Object(entries) => {
            visitor.enter_object_value(context, entries);
            let ghost entered = visitor.state();
            let mut i: usize = 0;
            while i < entries.len()
                invariant
                    i <= entries.len(),
                    *input_value == Value::Object(*entries),
                    context@ == old(context)@,
                    context.wf(),
                    walk_object_entries::<Visitor>(
                        visitor.state(),
                        context@,
                        input_value,
                        i as int,
                    ) == walk_object_entries::<Visitor>(entered, old(context)@, input_value, 0),
                decreases entries.len() - i,
            {
                let entry = &entries[i];
                let input_type: Option<Type> = match context.current_input_type_literal() {
                    Some(t) => match context.schema().type_by_name(t.inner_type()) {
                        Some(def) => match def.input_field_by_name(&entry.0) {
                            Some(f) => Some(f.value_type.clone()),
                            None => None,
                        },
                        None => None,
                    },
                    None => None,
                };
                proof {
                    lemma_input_type_scope(context@, input_type);
                }
                context.push_input_type(input_type);
                visitor.enter_object_field(context, entry);
                visit_input_value(visitor, &entry.1, context);
                visitor.leave_object_field(context, entry);
                context.pop_input_type();
                i += 1;
            }
            visitor.leave_object_value(context, entries);
        },
        _ => {
            visitor.enter_scalar_value(context, input_value);
            visitor.leave_scalar_value(context, input_value);
        },
    }
}

/// Walks variable definitions in order, each with its declared type as the
/// input type: the definition is entered, its default value is walked where
/// it has one, and it is left.
pub fn visit_variable_definitions<'a, Visitor>(
    visitor: &mut Visitor,
    variables: &'a Vec<VariableDefinition>,
    context: &mut OperationVisitorContext<'a>,
) where Visitor: OperationVisitor<'a>
    requires
        old(context).wf(),
    ensures
        final(context)@ == old(context)@,
        final(visitor).state() == walk_variable_definitions::<Visitor>(
            old(visitor).state(),
            old(context)@,
            variables@,
            0,
        ),
{
    let mut i: usize = 0;
    while i < variables.len()
        invariant
            i <= variables.len(),
            context@ == old(context)@,
            context.wf(),
            walk_variable_definitions::<Visitor>(visitor.state(), context@, variables@, i as int)
                == walk_variable_definitions::<Visitor>(
                old(visitor).state(),
                old(context)@,
                variables@,
                0,
            ),
        decreases variables.len() - i,
    {
        let variable = &variables[i];
        let var_type = Some(variable.var_type.clone());
        proof {
            lemma_input_type_scope(context@, var_type);
        }
        context.push_input_type(var_type);
        visitor.enter_variable_definition(context, variable);
        if let Some(default_value) = &variable.default_value {
            visit_input_value(visitor, default_value, context);
        }
        visitor.leave_variable_definition(context, variable);
        context.pop_input_type();
        i += 1;
    }
}

/// Walks one selection.
pub fn visit_selection<'a, Visitor>(
    visitor: &mut Visitor,
    selection: &'a Selection,
    context: &mut OperationVisitorContext<'a>,
) where Visitor: OperationVisitor<'a>
    requires
        old(context).wf(),
    ensures
        final(context)@ == old(context)@,
        final(visitor).state() == walk_selection::<Visitor>(
            old(visitor).state(),
            old(context)@,
            selection,
        ),
    decreases selection, 0nat,
{
    match selection {
        Selection::Field(field) => {
            let parent_type_def: Option<&'a schema::Field> = match context.current_parent_type() {
                Some(t) => t.field_by_name(&field.name),
                None => None,
            };
            let field_type: Option<Type> = match parent_type_def {
                Some(f) => Some(f.field_type.clone()),
                None => None,
            };
            let field_args: Option<&'a Vec<schema::InputValue>> = match parent_type_def {
                Some(f) => Some(&f.arguments),
                None => None,
            };
            proof {
                lemma_type_scope(context@, field_type);
            }
            context.push_type(field_type);
            visitor.enter_field(context, field);
            visit_arguments(visitor, field_args, &field.arguments, context);
            visit_directives(visitor, &field.directives, context);
            visit_selection_set(visitor, &field.selection_set, context);
            visitor.leave_field(context, field);
            context.pop_type();
        },
        Selection::FragmentSpread(fragment_spread) => {
            visitor.enter_fragment_spread(context, fragment_spread);
            visit_directives(visitor, &fragment_spread.directives, context);
            visitor.leave_fragment_spread(context, fragment_spread);
        },
        Selection::InlineFragment(inline_fragment) => {
            match &inline_fragment.type_condition {
                Some(TypeCondition::On(fragment_condition)) => {
                    let literal = Some(Type::NamedType(fragment_condition.clone()));
                    proof {
                        lemma_type_scope(context@, literal);
                    }
                    context.push_type(literal);
                    visitor.enter_inline_fragment(context, inline_fragment);
                    visit_directives(visitor, &inline_fragment.directives, context);
                    visit_selection_set(visitor, &inline_fragment.selection_set, context);
                    visitor.leave_inline_fragment(context, inline_fragment);
                    context.pop_type();
                },
                None => {
                    visitor.enter_inline_fragment(context, inline_fragment);
                    visit_directives(visitor, &inline_fragment.directives, context);
                    visit_selection_set(visitor, &inline_fragment.selection_set, context);
                    visitor.leave_inline_fragment(context, inline_fragment);
                },
            }
        },
    }
}

/// Walks a selection set with the current type as the parent type: the set
/// is entered, its selections are walked in order, and it is left.
pub fn visit_selection_set<'a, Visitor>(
    visitor: &mut Visitor,
    selection_set: &'a SelectionSet,
    context: &mut OperationVisitorContext<'a>,
) where Visitor: OperationVisitor<'a>
    requires
        old(context).wf(),
    ensures
        final(context)@ == old(context)@,
        final(visitor).state() == walk_selection_set::<Visitor>(
            old(visitor).state(),
            old(context)@,
            selection_set,
        ),
    decreases selection_set, 1nat,
{
    proof {
        lemma_parent_type_scope(context@);
    }
    context.push_parent_type();
    let ghost inner = context@;
    visitor.enter_selection_set(context, selection_set);
    let ghost entered = visitor.state();
    let mut i: usize = 0;
    while i < selection_set.items.len()
        invariant
            i <= selection_set.items.len(),
            context@ == inner,
            context.wf(),
            walk_selections::<Visitor>(visitor.state(), inner, selection_set, i as int)
                == walk_selections::<Visitor>(entered, inner, selection_set, 0),
        decreases selection_set.items.len() - i,
    {
        visit_selection(visitor, &selection_set.items[i], context);
        i += 1;
    }
    visitor.leave_selection_set(context, selection_set);
    context.pop_parent_type();
}

/// Walks a fragment definition: it is entered, its directives and then its
/// selection set are walked, and it is left.
pub fn visit_fragment_definition<'a, Visitor>(
    visitor: &mut Visitor,
    fragment: &'a FragmentDefinition,
    context: &mut OperationVisitorContext<'a>,
) where Visitor: OperationVisitor<'a>
    requires
        old(context).wf(),
    ensures
        final(context)@ == old(context)@,
        final(visitor).state() == walk_fragment_definition::<Visitor>(
            old(visitor).state(),
            old(context)@,
            fragment,
        ),
{
    visitor.enter_fragment_definition(context, fragment);
    visit_directives(visitor, &fragment.directives, context);
    visit_selection_set(visitor, &fragment.selection_set, context);
    visitor.leave_fragment_definition(context, fragment);
}

/// Walks an operation definition: it is entered, its variable definitions,
/// its directives and its selection set are walked in that order, and it is
/// left.
pub fn visit_operation_definition<'a, Visitor>(
    visitor: &mut Visitor,
    operation: &'a OperationDefinition,
    context: &mut OperationVisitorContext<'a>,
) where Visitor: OperationVisitor<'a>
    requires
        old(context).wf(),
    ensures
        final(context)@ == old(context)@,
        final(visitor).state() == walk_operation_definition::<Visitor>(
            old(visitor).state(),
            old(context)@,
            operation,
        ),
{
    visitor.enter_operation_definition(context, operation);
    match operation {
        OperationDefinition::SelectionSet(_) => {},
        OperationDefinition::Query(q) => {
            visit_variable_definitions(visitor, &q.variable_definitions, context);
            visit_directives(visitor, &q.directives, context);
        },
        OperationDefinition::Mutation(m) => {
            visit_variable_definitions(visitor, &m.variable_definitions, context);
            visit_directives(visitor, &m.directives, context);
        },
        OperationDefinition::Subscription(s) => {
            visit_variable_definitions(visitor, &s.variable_definitions, context);
            visit_directives(visitor, &s.directives, context);
        },
    }
    visit_selection_set(visitor, operation.selection_set(), context);
    visitor.leave_operation_definition(context, operation);
}

} // verus!
