//! The order of values.
//!
//! Values of one kind are ordered by what they hold. Values of different
//! kinds are ordered by the kinds alone, in the order in which the kinds are
//! declared: null, undefined, boolean, number, string, array, object; and,
//! for bindings, function, plain value, native function, module.

use crate::either::Either;
use crate::number::{int_rank, Float, Rank};
use crate::value::{Native, PrimitiveModel, PrimitiveTypes, ValueModel, ValueType};
use vstd::prelude::*;
use vstd::string::*;
use vstd::utf8::encode_utf8;

verus! {

/// The order of two byte strings from position `from` on, given that they
/// agree before it: the first byte that differs decides, and a string
/// that ends first comes first.
pub open spec fn bytes_rank(a: Seq<u8>, b: Seq<u8>, from: int) -> Rank
    decreases a.len() - from,
{
    if from < 0 {
        Rank::Equal
    } else if from >= a.len() && from >= b.len() {
        Rank::Equal
    } else if from >= a.len() {
        Rank::Less
    } else if from >= b.len() {
        Rank::Greater
    } else if a[from] != b[from] {
        int_rank(a[from] as int, b[from] as int)
    } else {
        bytes_rank(a, b, from + 1)
    }
}

/// The order of two strings: that of their UTF-8 bytes.
pub open spec fn text_rank(a: Seq<char>, b: Seq<char>) -> Rank {
    bytes_rank(encode_utf8(a), encode_utf8(b), 0)
}

/// The order of two numbers. An integer comes before a floating-point
/// number, whatever they hold.
pub open spec fn number_rank(a: Either<isize, Float>, b: Either<isize, Float>) -> Option<Rank> {
    match (a, b) {
        (Either::Left(x), Either::Left(y)) => Some(int_rank(x as int, y as int)),
        (Either::Left(_), Either::Right(_)) => Some(Rank::Less),
        (Either::Right(_), Either::Left(_)) => Some(Rank::Greater),
        (Either::Right(x), Either::Right(y)) => x.rank(y),
    }
}

/// The place of a native function among the native functions.
pub open spec fn native_place(native: Native) -> int {
    match native {
        Native::Printl => 0,
        Native::Print => 1,
        Native::Input => 2,
        Native::Inspect => 3,
    }
}

/// The place of a plain value's kind among the kinds.
pub open spec fn primitive_kind(value: PrimitiveModel) -> int {
    match value {
        PrimitiveModel::Null => 0,
        PrimitiveModel::Undefined => 1,
        PrimitiveModel::Boolean(_) => 2,
        PrimitiveModel::Number(_) => 3,
        PrimitiveModel::String(_) => 4,
        PrimitiveModel::Array(_) => 5,
        PrimitiveModel::Object(_) => 6,
    }
}

/// The place of a binding's kind among the kinds.
pub open spec fn value_kind(value: ValueModel) -> int {
    match value {
        ValueModel::Function(_) => 0,
        ValueModel::Variable(_) => 1,
        ValueModel::InternalFunction(_) => 2,
        ValueModel::Module(_) => 3,
    }
}

/// The order of two bindings; none where the two cannot be compared, which
/// is where the comparison comes to a floating-point NaN.
///
/// Functions and modules are ordered by their names, native functions by
/// their place among the native functions.
pub open spec fn value_rank(a: ValueModel, b: ValueModel) -> Option<Rank>
    decreases a,
{
    match (a, b) {
        (ValueModel::Function(f), ValueModel::Function(g)) => Some(text_rank(f.name, g.name)),
        (ValueModel::Variable(p), ValueModel::Variable(q)) => primitive_rank(p, q),
        (ValueModel::InternalFunction(m), ValueModel::InternalFunction(n)) => Some(
            int_rank(native_place(m), native_place(n)),
        ),
        (ValueModel::Module(m), ValueModel::Module(n)) => Some(text_rank(m.name, n.name)),
        _ => Some(int_rank(value_kind(a), value_kind(b))),
    }
}

/// The order of two plain values.
///
/// Arrays are ordered entry by entry: the first pair of entries that is not
/// equal decides, and an array that ends first comes first. Objects are
/// ordered likewise, each entry first by its key and then by its value.
pub open spec fn primitive_rank(a: PrimitiveModel, b: PrimitiveModel) -> Option<Rank>
    decreases a,
{
    match (a, b) {
        (PrimitiveModel::Null, PrimitiveModel::Null) => Some(Rank::Equal),
        (PrimitiveModel::Undefined, PrimitiveModel::Undefined) => Some(Rank::Equal),
        (PrimitiveModel::Boolean(x), PrimitiveModel::Boolean(y)) => Some(
            int_rank(
                if x {
                    1
                } else {
                    0
                },
                if y {
                    1
                } else {
                    0
                },
            ),
        ),
        (PrimitiveModel::Number(x), PrimitiveModel::Number(y)) => number_rank(x, y),
        (PrimitiveModel::String(x), PrimitiveModel::String(y)) => Some(text_rank(x, y)),
        (PrimitiveModel::Array(x), PrimitiveModel::Array(y)) => array_rank(x, y, 0),
        (PrimitiveModel::Object(x), PrimitiveModel::Object(y)) => object_rank(x, y, 0),
        _ => Some(int_rank(primitive_kind(a), primitive_kind(b))),
    }
}

/// The order of two arrays from position `from` on, given that their
/// entries before it are equal.
pub open spec fn array_rank(a: Seq<ValueModel>, b: Seq<ValueModel>, from: int) -> Option<Rank>
    decreases a, a.len() - from,
{
    if from < 0 {
        Some(Rank::Equal)
    } else if from >= a.len() && from >= b.len() {
        Some(Rank::Equal)
    } else if from >= a.len() {
        Some(Rank::Less)
    } else if from >= b.len() {
        Some(Rank::Greater)
    } else {
        match value_rank(a[from], b[from]) {
            Some(Rank::Equal) => array_rank(a, b, from + 1),
            other => other,
        }
    }
}

/// The order of two objects from entry `from` on, given that their entries
/// before it are equal.
pub open spec fn object_rank(
    a: Seq<(Seq<char>, ValueModel)>,
    b: Seq<(Seq<char>, ValueModel)>,
    from: int,
) -> Option<Rank>
    decreases a, a.len() - from,
{
    if from < 0 {
        Some(Rank::Equal)
    } else if from >= a.len() && from >= b.len() {
        Some(Rank::Equal)
    } else if from >= a.len() {
        Some(Rank::Less)
    } else if from >= b.len() {
        Some(Rank::Greater)
    } else if text_rank(a[from].0, b[from].0) != Rank::Equal {
        Some(text_rank(a[from].0, b[from].0))
    } else {
        match value_rank(a[from].1, b[from].1) {
            Some(Rank::Equal) => object_rank(a, b, from + 1),
            other => other,
        }
    }
}

/// Two byte strings that rank equal from a position on are the same from
/// that position on.
pub proof fn lemma_bytes_equal(a: Seq<u8>, b: Seq<u8>, from: int)
    requires
        0 <= from,
        bytes_rank(a, b, from) == Rank::Equal,
    ensures
        from <= a.len() && from <= b.len() ==> a.len() == b.len(),
        forall|i: int| from <= i < a.len() && i < b.len() ==> #[trigger] a[i] == b[i],
    decreases a.len() - from,
{
    if from < a.len() && from < b.len() && a[from] == b[from] {
        lemma_bytes_equal(a, b, from + 1);
    }
}

/// Where one byte string comes after another, the other comes before it.
pub proof fn lemma_bytes_flip(a: Seq<u8>, b: Seq<u8>, from: int)
    requires
        0 <= from,
    ensures
        bytes_rank(a, b, from) == Rank::Greater <==> bytes_rank(b, a, from) == Rank::Less,
    decreases a.len() - from,
{
    if from < a.len() && from < b.len() && a[from] == b[from] {
        lemma_bytes_flip(a, b, from + 1);
    }
}

/// Coming before is transitive.
pub proof fn lemma_bytes_transitive(a: Seq<u8>, b: Seq<u8>, c: Seq<u8>, from: int)
    requires
        0 <= from,
        bytes_rank(a, b, from) == Rank::Less,
        bytes_rank(b, c, from) == Rank::Less,
    ensures
        bytes_rank(a, c, from) == Rank::Less,
    decreases a.len() - from,
{
    if from < a.len() && from < b.len() && from < c.len() && a[from] == b[from] && b[from]
        == c[from] {
        lemma_bytes_transitive(a, b, c, from + 1);
    }
}

/// Compares two integers.
pub fn compare_integers(a: isize, b: isize) -> (r: Rank)
    ensures
        r == int_rank(a as int, b as int),
{
    if a < b {
        Rank::Less
    } else if a == b {
        Rank::Equal
    } else {
        Rank::Greater
    }
}

/// Compares two strings by their bytes.
pub fn compare_text(a: &str, b: &str) -> (r: Rank)
    ensures
        r == text_rank(a@, b@),
{
    let left = a.as_bytes();
    let right = b.as_bytes();
    let mut i: usize = 0;
    while i < left.len() && i < right.len()
        invariant
            left@ == encode_utf8(a@),
            right@ == encode_utf8(b@),
            i <= left@.len(),
            i <= right@.len(),
            text_rank(a@, b@) == bytes_rank(left@, right@, i as int),
        decreases left@.len() - i,
    {
        if left[i] != right[i] {
            return if left[i] < right[i] {
                Rank::Less
            } else {
                Rank::Greater
            };
        }
        i += 1;
    }
    if i < right.len() {
        Rank::Less
    } else if i < left.len() {
        Rank::Greater
    } else {
        Rank::Equal
    }
}

/// Compares two numbers.
pub fn compare_numbers(a: &Either<isize, Float>, b: &Either<isize, Float>) -> (r: Option<Rank>)
    ensures
        r == number_rank(*a, *b),
{
    match (a, b) {
        (Either::Left(x), Either::Left(y)) => Some(compare_integers(*x, *y)),
        (Either::Left(_), Either::Right(_)) => Some(Rank::Less),
        (Either::Right(_), Either::Left(_)) => Some(Rank::Greater),
        (Either::Right(x), Either::Right(y)) => x.compare(y),
    }
}

/// The place of a native function among the native functions.
pub fn place_of_native(native: Native) -> (r: isize)
    ensures
        r == native_place(native),
{
    match native {
        Native::Printl => 0,
        Native::Print => 1,
        Native::Input => 2,
        Native::Inspect => 3,
    }
}

impl PrimitiveTypes {
    /// The place of the value's kind among the kinds.
    pub fn kind(&self) -> (r: isize)
        ensures
            r == primitive_kind(self@),
    {
        match self {
            PrimitiveTypes::Null => 0,
            PrimitiveTypes::Undefined => 1,
            PrimitiveTypes::Boolean(_) => 2,
            PrimitiveTypes::Number(_) => 3,
            PrimitiveTypes::String(_) => 4,
            PrimitiveTypes::Array(_) => 5,
            PrimitiveTypes::Object(_) => 6,
        }
    }

    /// Compares two plain values.
    pub fn compare(&self, other: &PrimitiveTypes) -> (r: Option<Rank>)
        ensures
            r == primitive_rank(self@, other@),
        decreases *self,
    {
        match (self, other) {
            (PrimitiveTypes::Null, PrimitiveTypes::Null) => Some(Rank::Equal),
            (PrimitiveTypes::Undefined, PrimitiveTypes::Undefined) => Some(Rank::Equal),
            (PrimitiveTypes::Boolean(x), PrimitiveTypes::Boolean(y)) => Some(
                compare_integers(
                    if *x {
                        1
                    } else {
                        0
                    },
                    if *y {
                        1
                    } else {
                        0
                    },
                ),
            ),
            (PrimitiveTypes::Number(x), PrimitiveTypes::Number(y)) => compare_numbers(x, y),
            (PrimitiveTypes::String(x), PrimitiveTypes::String(y)) => Some(
                compare_text(x.as_str(), y.as_str()),
            ),
            (PrimitiveTypes::Array(x), PrimitiveTypes::Array(y)) => {
                let ghost a = self@->Array_0;
                let ghost b = other@->Array_0;
                let mut i: usize = 0;
                while i < x.len() && i < y.len()
                    invariant
                        *self == PrimitiveTypes::Array(*x),
                        *other == PrimitiveTypes::Array(*y),
                        a == self@->Array_0,
                        b == other@->Array_0,
                        i <= x.len(),
                        i <= y.len(),
                        array_rank(a, b, 0) == array_rank(a, b, i as int),
                    decreases x.len() - i,
                {
                    assert(decreases_to!(*self => self->Array_0));
                    assert(decreases_to!(*x => x[i as int]));
                    let rank = x[i].compare(&y[i]);
                    match rank {
                        Some(Rank::Equal) => {},
                        _ => {
                            return rank;
                        },
                    }
                    i += 1;
                }
                if i < y.len() {
                    Some(Rank::Less)
                } else if i < x.len() {
                    Some(Rank::Greater)
                } else {
                    Some(Rank::Equal)
                }
            },
            (PrimitiveTypes::Object(x), PrimitiveTypes::Object(y)) => {
                let ghost a = self@->Object_0;
                let ghost b = other@->Object_0;
                let mut i: usize = 0;
                while i < x.len() && i < y.len()
                    invariant
                        *self == PrimitiveTypes::Object(*x),
                        *other == PrimitiveTypes::Object(*y),
                        a == self@->Object_0,
                        b == other@->Object_0,
                        i <= x.len(),
                        i <= y.len(),
                        object_rank(a, b, 0) == object_rank(a, b, i as int),
                    decreases x.len() - i,
                {
                    let keys = compare_text(x[i].0.as_str(), y[i].0.as_str());
                    match keys {
                        Rank::Equal => {},
                        _ => {
                            return Some(keys);
                        },
                    }
                    assert(decreases_to!(*self => self->Object_0));
                    assert(decreases_to!(*x => x[i as int]));
                    assert(decreases_to!(x[i as int] => x[i as int].1));
                    let rank = x[i].1.compare(&y[i].1);
                    match rank {
                        Some(Rank::Equal) => {},
                        _ => {
                            return rank;
                        },
                    }
                    i += 1;
                }
                if i < y.len() {
                    Some(Rank::Less)
                } else if i < x.len() {
                    Some(Rank::Greater)
                } else {
                    Some(Rank::Equal)
                }
            },
            _ => Some(compare_integers(self.kind(), other.kind())),
        }
    }
}

impl ValueType {
    /// The place of the binding's kind among the kinds.
    pub fn kind(&self) -> (r: isize)
        ensures
            r == value_kind(self@),
    {
        match self {
            ValueType::Function(_) => 0,
            ValueType::Variable(_) => 1,
            ValueType::InternalFunction(_) => 2,
            ValueType::Module(_) => 3,
        }
    }

    /// Compares two bindings.
    pub fn compare(&self, other: &ValueType) -> (r: Option<Rank>)
        ensures
            r == value_rank(self@, other@),
        decreases *self,
    {
        match (self, other) {
            (ValueType::Function(f), ValueType::Function(g)) => Some(
                compare_text(f.name.as_str(), g.name.as_str()),
            ),
            (ValueType::Variable(p), ValueType::Variable(q)) => p.compare(q),
            (ValueType::InternalFunction(m), ValueType::InternalFunction(n)) => Some(
                compare_integers(place_of_native(*m), place_of_native(*n)),
            ),
            (ValueType::Module(m), ValueType::Module(n)) => Some(
                compare_text(m.name.as_str(), n.name.as_str()),
            ),
            _ => Some(compare_integers(self.kind(), other.kind())),
        }
    }
}

} // verus!
