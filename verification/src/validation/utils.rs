//! The error model and the context that a rule validates in.
use vstd::prelude::*;
use vstd::std_specs::cmp::PartialEqSpecImpl;
use crate::static_graphql::query::{self, Pos, Type};
use crate::ast::type_info_registry::TypeInfoRegistry;
use crate::static_graphql::schema;

verus! {

/// A validation error as mathematical values: its message and the places in
/// the source text that it points at.
pub struct ErrorView {
    pub message: Seq<char>,
    pub locations: Seq<Pos>,
}

/// One reason why a document is not valid.
///
/// Two errors are equal where they have the same message and point at the
/// same places, each as often; the order of the places does not count.
#[derive(Debug)]
pub struct ValidationError {
    pub locations: Vec<Pos>,
    pub message: String,
}

/// How often the position `x` occurs among the first `n` of `positions`.
pub open spec fn spec_count_position(positions: Seq<Pos>, x: Pos, n: int) -> nat
    decreases n,
{
    if n <= 0 || n > positions.len() {
        0
    } else if positions[n - 1] == x {
        spec_count_position(positions, x, n - 1) + 1
    } else {
        spec_count_position(positions, x, n - 1)
    }
}

/// Whether two lists hold the same positions, each as often.
pub open spec fn spec_same_locations(a: Seq<Pos>, b: Seq<Pos>) -> bool {
    forall|x: Pos|
        spec_count_position(a, x, a.len() as int) == spec_count_position(b, x, b.len() as int)
}

/// A position occurs at most as often as there are positions, and not at all
/// where no entry is that position.
pub proof fn lemma_count_position(positions: Seq<Pos>, x: Pos, n: int)
    requires
        0 <= n <= positions.len(),
    ensures
        spec_count_position(positions, x, n) <= n,
        (forall|i: int| 0 <= i < n ==> positions[i] != x) ==> spec_count_position(positions, x, n)
            == 0,
    decreases n,
{
    if n > 0 {
        lemma_count_position(positions, x, n - 1);
    }
}

/// Counts how often the position `x` occurs in `positions`.
pub fn count_position(positions: &Vec<Pos>, x: Pos) -> (res: usize)
    ensures
        res == spec_count_position(positions@, x, positions@.len() as int),
{
    let mut count: usize = 0;
    let mut i: usize = 0;
    while i < positions.len()
        invariant
            i <= positions.len(),
            count == spec_count_position(positions@, x, i as int),
            count <= i,
        decreases positions.len() - i,
    {
        if positions[i].line == x.line && positions[i].column == x.column {
            count += 1;
        }
        i += 1;
    }
    count
}

/// Tells whether each position of `a` occurs in `b` as often as in `a`.
fn counts_agree(a: &Vec<Pos>, b: &Vec<Pos>) -> (res: bool)
    ensures
        res == (forall|i: int|
            0 <= i < a@.len() ==> spec_count_position(a@, #[trigger] a@[i], a@.len() as int)
                == spec_count_position(b@, a@[i], b@.len() as int)),
{
    let mut i: usize = 0;
    while i < a.len()
        invariant
            i <= a.len(),
            forall|k: int|
                0 <= k < i ==> spec_count_position(a@, #[trigger] a@[k], a@.len() as int)
                    == spec_count_position(b@, a@[k], b@.len() as int),
        decreases a.len() - i,
    {
        if count_position(a, a[i]) != count_position(b, a[i]) {
            return false;
        }
        i += 1;
    }
    true
}

/// Tells whether two lists hold the same positions, each as often.
pub fn same_locations(a: &Vec<Pos>, b: &Vec<Pos>) -> (res: bool)
    ensures
        res == spec_same_locations(a@, b@),
{
    let agree = counts_agree(a, b) && counts_agree(b, a);
    proof {
        if agree {
            assert forall|x: Pos|
                spec_count_position(a@, x, a@.len() as int) == spec_count_position(
                    b@,
                    x,
                    b@.len() as int,
                ) by {
                lemma_count_position(a@, x, a@.len() as int);
                lemma_count_position(b@, x, b@.len() as int);
                if exists|i: int| 0 <= i < a@.len() && a@[i] == x {
                    let i = choose|i: int| 0 <= i < a@.len() && a@[i] == x;
                    assert(spec_count_position(a@, a@[i], a@.len() as int) == spec_count_position(
                        b@,
                        a@[i],
                        b@.len() as int,
                    ));
                } else if exists|j: int| 0 <= j < b@.len() && b@[j] == x {
                    let j = choose|j: int| 0 <= j < b@.len() && b@[j] == x;
                    assert(spec_count_position(b@, b@[j], b@.len() as int) == spec_count_position(
                        a@,
                        b@[j],
                        a@.len() as int,
                    ));
                }
            }
        }
    }
    agree
}

impl Clone for ValidationError {
    fn clone(&self) -> (res: ValidationError)
        ensures
            res@ == self@,
    {
        let mut locations: Vec<Pos> = Vec::new();
        let mut i: usize = 0;
        while i < self.locations.len()
            invariant
                i <= self.locations.len(),
                locations@ == self.locations@.take(i as int),
            decreases self.locations.len() - i,
        {
            locations.push(self.locations[i]);
            assert(self.locations@.take(i as int).push(self.locations@[i as int])
                =~= self.locations@.take(i + 1));
            i += 1;
        }
        assert(self.locations@.take(self.locations@.len() as int) =~= self.locations@);
        ValidationError { locations, message: self.message.clone() }
    }
}

impl PartialEq for ValidationError {
    fn eq(&self, other: &ValidationError) -> (res: bool) {
        self.message == other.message && same_locations(&self.locations, &other.locations)
    }
}

impl PartialEqSpecImpl for ValidationError {
    open spec fn obeys_eq_spec() -> bool {
        true
    }

    open spec fn eq_spec(&self, other: &ValidationError) -> bool {
        self.message@ == other.message@ && spec_same_locations(self.locations@, other.locations@)
    }
}

impl View for ValidationError {
    type V = ErrorView;

    open spec fn view(&self) -> ErrorView {
        ErrorView { message: self.message@, locations: self.locations@ }
    }
}

/// The views of a sequence of errors, in order.
pub open spec fn error_views(errors: Seq<ValidationError>) -> Seq<ErrorView> {
    errors.map_values(|e: ValidationError| e@)
}

/// The views of a sequence of errors grow with the sequence.
pub proof fn lemma_error_views_push(errors: Seq<ValidationError>, e: ValidationError)
    ensures
        error_views(errors.push(e)) == error_views(errors).push(e@),
{
    assert(error_views(errors.push(e)) =~= error_views(errors).push(e@));
}

/// No errors have no views.
pub proof fn lemma_error_views_empty()
    ensures
        error_views(Seq::<ValidationError>::empty()) == Seq::<ErrorView>::empty(),
{
    assert(error_views(Seq::<ValidationError>::empty()) =~= Seq::<ErrorView>::empty());
}

/// The views of two sequences of errors, one after the other.
pub proof fn lemma_error_views_add(a: Seq<ValidationError>, b: Seq<ValidationError>)
    ensures
        error_views(a + b) == error_views(a) + error_views(b),
{
    assert(error_views(a + b) =~= error_views(a) + error_views(b));
}

/// Adds an error with the given message and locations to `errors`.
pub fn report_error(errors: &mut Vec<ValidationError>, message: String, locations: Vec<Pos>)
    ensures
        error_views(final(errors)@) == error_views(old(errors)@).push(
            ErrorView { message: message@, locations: locations@ },
        ),
{
    let error = ValidationError { locations, message };
    proof {
        lemma_error_views_push(errors@, error);
    }
    errors.push(error);
}

/// What a rule validates: an executable document against a schema, with the
/// fragment definitions of the document and the index of the schema.
pub struct ValidationContext<'a> {
    pub operation: &'a query::Document,
    pub schema: &'a schema::Document,
    pub fragments: Vec<&'a query::FragmentDefinition>,
    pub type_info_registry: Option<TypeInfoRegistry<'a>>,
}

/// Makes the list of locations that holds `position` alone.
pub fn single_location(position: Pos) -> (res: Vec<Pos>)
    ensures
        res@ == seq![position],
{
    let mut locations: Vec<Pos> = Vec::new();
    locations.push(position);
    assert(locations@ =~= seq![position]);
    locations
}

/// Builds the message that reads `a`, then `x`, then `b`.
pub fn message_around(a: &str, x: &String, b: &str) -> (res: String)
    ensures
        res@ == a@ + x@ + b@,
{
    let mut message = String::from_str(a);
    message.append(x.as_str());
    message.append(b);
    message
}

/// Builds the message that reads `a`, `x`, `b`, `y` and `c`, in that order.
pub fn message_around_two(a: &str, x: &String, b: &str, y: &String, c: &str) -> (res: String)
    ensures
        res@ == a@ + x@ + b@ + y@ + c@,
{
    let mut message = String::from_str(a);
    message.append(x.as_str());
    message.append(b);
    message.append(y.as_str());
    message.append(c);
    message
}

/// A type literal as it is written in a document: a name, a list in square
/// brackets, a non-null type with an exclamation mark behind it.
pub open spec fn spec_type_text(t: Type) -> Seq<char>
    decreases t,
{
    match t {
        Type::NamedType(name) => name@,
        Type::ListType(inner) => "["@ + spec_type_text(*inner) + "]"@,
        Type::NonNullType(inner) => spec_type_text(*inner) + "!"@,
    }
}

/// Writes a type literal as it is written in a document.
pub fn type_text(t: &Type) -> (res: String)
    ensures
        res@ == spec_type_text(*t),
    decreases t,
{
    match t {
        Type::NamedType(name) => name.clone(),
        Type::ListType(inner) => {
            let text = type_text(inner);
            message_around("[", &text, "]")
        },
        Type::NonNullType(inner) => {
            let mut text = type_text(inner);
            text.append("!");
            text
        },
    }
}

} // verus!
