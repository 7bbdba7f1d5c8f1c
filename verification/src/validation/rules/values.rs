//! Equality of input values and of argument lists.
use vstd::prelude::*;
use crate::ast::lookup::{first_index, lemma_first_index_is, lemma_no_index};
use crate::static_graphql::query::Value;

verus! {

/// Whether the bit pattern is a number that is not a number.
pub open spec fn spec_float_is_nan(bits: u64) -> bool {
    (bits & 0x7ff0_0000_0000_0000u64) == 0x7ff0_0000_0000_0000u64 && (bits
        & 0x000f_ffff_ffff_ffffu64) != 0
}

/// Whether the bit pattern is a zero, positive or negative.
pub open spec fn spec_float_is_zero(bits: u64) -> bool {
    (bits & 0x7fff_ffff_ffff_ffffu64) == 0
}

/// Whether two double-precision numbers, given by their bit patterns, are
/// equal as numbers: neither is a not-a-number, and they have the same bits
/// or are both zero.
pub open spec fn spec_float_eq(a: u64, b: u64) -> bool {
    !spec_float_is_nan(a) && !spec_float_is_nan(b) && (a == b || (spec_float_is_zero(a)
        && spec_float_is_zero(b)))
}

/// Tells whether two double-precision numbers are equal as numbers.
pub fn float_eq(a: u64, b: u64) -> (res: bool)
    ensures
        res == spec_float_eq(a, b),
{
    let a_nan = (a & 0x7ff0_0000_0000_0000u64) == 0x7ff0_0000_0000_0000u64 && (a
        & 0x000f_ffff_ffff_ffffu64) != 0;
    let b_nan = (b & 0x7ff0_0000_0000_0000u64) == 0x7ff0_0000_0000_0000u64 && (b
        & 0x000f_ffff_ffff_ffffu64) != 0;
    let a_zero = (a & 0x7fff_ffff_ffff_ffffu64) == 0;
    let b_zero = (b & 0x7fff_ffff_ffff_ffffu64) == 0;
    !a_nan && !b_nan && (a == b || (a_zero && b_zero))
}

/// Whether two input values are equal in structure: of the same kind, with
/// equal content. Lists are equal item by item, objects entry by entry.
pub open spec fn spec_value_eq(a: &Value, b: &Value) -> bool
    decreases a, 1nat, 0nat,
{
    match (a, b) {
        (Value::Variable(x), Value::Variable(y)) => x@ == y@,
        (Value::Int(x), Value::Int(y)) => x == y,
        (Value::Float(x), Value::Float(y)) => spec_float_eq(*x, *y),
        (Value::String(x), Value::String(y)) => x@ == y@,
        (Value::Boolean(x), Value::Boolean(y)) => x == y,
        (Value::Null, Value::Null) => true,
        (Value::Enum(x), Value::Enum(y)) => x@ == y@,
        (Value::List(_), Value::List(ys)) => spec_list_eq_from(a, ys@, 0),
        (Value::Object(_), Value::Object(ys)) => spec_object_eq_from(a, ys@, 0),
        _ => false,
    }
}

/// Whether the items of the list `a` from the `i`-th on are equal to those of
/// `ys`, and the two are of one length.
pub open spec fn spec_list_eq_from(a: &Value, ys: Seq<Value>, i: int) -> bool
    decreases a, 0nat, a->List_0.len() - i,
{
    if !(a is List) || a->List_0.len() != ys.len() {
        false
    } else if 0 <= i < a->List_0.len() {
        spec_value_eq(&a->List_0[i], &ys[i]) && spec_list_eq_from(a, ys, i + 1)
    } else {
        true
    }
}

/// Whether the entries of the object `a` from the `i`-th on have the keys
/// and values of those of `ys`, and the two are of one length.
pub open spec fn spec_object_eq_from(a: &Value, ys: Seq<(String, Value)>, i: int) -> bool
    decreases a, 0nat, a->Object_0.len() - i,
{
    if !(a is Object) || a->Object_0.len() != ys.len() {
        false
    } else if 0 <= i < a->Object_0.len() {
        a->Object_0[i].0@ == ys[i].0@ && spec_value_eq(&a->Object_0[i].1, &ys[i].1)
            && spec_object_eq_from(a, ys, i + 1)
    } else {
        true
    }
}

/// Tells whether two input values are equal in structure.
pub fn value_eq(a: &Value, b: &Value) -> (res: bool)
    ensures
        res == spec_value_eq(a, b),
    decreases a,
{
    match (a, b) {
        (Value::Variable(x), Value::Variable(y)) => *x == *y,
        (Value::Int(x), Value::Int(y)) => *x == *y,
        (Value::Float(x), Value::Float(y)) => float_eq(*x, *y),
        (Value::String(x), Value::String(y)) => *x == *y,
        (Value::Boolean(x), Value::Boolean(y)) => *x == *y,
        (Value::Null, Value::Null) => true,
        (Value::Enum(x), Value::Enum(y)) => *x == *y,
        (Value::List(xs), Value::List(ys)) => {
            if xs.len() != ys.len() {
                return false;
            }
            let mut i: usize = 0;
            while i < xs.len()
                invariant
                    i <= xs.len(),
                    xs.len() == ys.len(),
                    *a == Value::List(*xs),
                    *b == Value::List(*ys),
                    spec_list_eq_from(a, ys@, i as int) == spec_list_eq_from(a, ys@, 0),
                decreases xs.len() - i,
            {
                if !value_eq(&xs[i], &ys[i]) {
                    return false;
                }
                i += 1;
            }
            true
        },
        (Value::Object(xs), Value::Object(ys)) => {
            if xs.len() != ys.len() {
                return false;
            }
            let mut i: usize = 0;
            while i < xs.len()
                invariant
                    i <= xs.len(),
                    xs.len() == ys.len(),
                    *a == Value::Object(*xs),
                    *b == Value::Object(*ys),
                    spec_object_eq_from(a, ys@, i as int) == spec_object_eq_from(a, ys@, 0),
                decreases xs.len() - i,
            {
                if !(xs[i].0 == ys[i].0) || !value_eq(&xs[i].1, &ys[i].1) {
                    return false;
                }
                i += 1;
            }
            true
        },
        _ => false,
    }
}

/// The argument is named `name`.
pub open spec fn is_argument_named(name: Seq<char>) -> spec_fn((String, Value)) -> bool {
    |argument: (String, Value)| argument.0@ == name
}

/// Whether each of the first `n` arguments of `a` has an argument of its name
/// in `b`, the first of that name, with an equal value.
pub open spec fn spec_arguments_match_upto(
    a: Seq<(String, Value)>,
    b: Seq<(String, Value)>,
    n: int,
) -> bool
    decreases n,
{
    if n <= 0 || n > a.len() {
        true
    } else {
        spec_arguments_match_upto(a, b, n - 1) && (match first_index(
            b,
            is_argument_named(a[n - 1].0@),
        ) {
            Some(j) => spec_value_eq(&a[n - 1].1, &b[j].1),
            None => false,
        })
    }
}

/// Whether two fields are called with the same arguments: as many, and each
/// argument of the one is an argument of the other with an equal value.
pub open spec fn spec_same_arguments(a: Seq<(String, Value)>, b: Seq<(String, Value)>) -> bool {
    a.len() == b.len() && spec_arguments_match_upto(a, b, a.len() as int)
}

/// Returns the index of the first argument named `name`, if there is one.
pub fn find_argument(arguments: &Vec<(String, Value)>, name: &String) -> (res: Option<usize>)
    ensures
        match res {
            Some(j) => first_index(arguments@, is_argument_named(name@)) == Some(j as int) && j
                < arguments@.len(),
            None => first_index(arguments@, is_argument_named(name@)) is None,
        },
{
    let mut j: usize = 0;
    while j < arguments.len()
        invariant
            j <= arguments.len(),
            forall|q: int| 0 <= q < j ==> !is_argument_named(name@)(#[trigger] arguments@[q]),
        decreases arguments.len() - j,
    {
        if arguments[j].0 == *name {
            proof {
                lemma_first_index_is(arguments@, is_argument_named(name@), j as int);
            }
            return Some(j);
        }
        j += 1;
    }
    proof {
        lemma_no_index(arguments@, is_argument_named(name@));
    }
    None
}

/// Tells whether two fields are called with the same arguments.
pub fn same_arguments(a: &Vec<(String, Value)>, b: &Vec<(String, Value)>) -> (res: bool)
    ensures
        res == spec_same_arguments(a@, b@),
{
    if a.len() != b.len() {
        return false;
    }
    let mut i: usize = 0;
    while i < a.len()
        invariant
            i <= a.len(),
            spec_arguments_match_upto(a@, b@, i as int),
        decreases a.len() - i,
    {
        let matches = match find_argument(b, &a[i].0) {
            Some(j) => value_eq(&a[i].1, &b[j].1),
            None => false,
        };
        if !matches {
            proof {
                lemma_arguments_mismatch(a@, b@, i + 1, a@.len() as int);
            }
            return false;
        }
        i += 1;
    }
    true
}

/// Where the first `n` arguments do not match, no more of them match.
pub proof fn lemma_arguments_mismatch(
    a: Seq<(String, Value)>,
    b: Seq<(String, Value)>,
    n: int,
    m: int,
)
    requires
        0 <= n <= m <= a.len(),
        !spec_arguments_match_upto(a, b, n),
    ensures
        !spec_arguments_match_upto(a, b, m),
    decreases m - n,
{
    if n < m {
        lemma_arguments_mismatch(a, b, n, m - 1);
    }
}

} // verus!
