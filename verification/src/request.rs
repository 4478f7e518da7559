//! Floating-point arithmetic, which the embedding program performs.
//!
//! The engine asks for the result of an operation with a [`FloatRequest`]
//! and is told it with [`crate::evaluator::Evaluator::learn`]. What it has
//! been told it keeps in a list of answers.

use crate::ast::MathOperation;
use crate::either::Either;
use crate::number::Float;
use vstd::prelude::*;

verus! {

/// A request for the floating-point result of a math operation on two
/// numbers, at least one of which is a floating-point number. An integer
/// operand is to be widened to floating point before the operation.
#[derive(Debug)]
pub struct FloatRequest {
    pub operation: MathOperation,
    pub left: Either<isize, Float>,
    pub right: Either<isize, Float>,
}

/// The answer that a list of answers holds for a request, looked for from
/// position `from` on: that of the first entry for the request.
pub open spec fn answer_from(
    known: Seq<(FloatRequest, Float)>,
    request: FloatRequest,
    from: int,
) -> Option<Float>
    decreases known.len() - from,
{
    if from < 0 || from >= known.len() {
        None
    } else if known[from].0 == request {
        Some(known[from].1)
    } else {
        answer_from(known, request, from + 1)
    }
}

/// The answer that a list of answers holds for a request.
pub open spec fn answer(known: Seq<(FloatRequest, Float)>, request: FloatRequest) -> Option<Float> {
    answer_from(known, request, 0)
}

/// Whether two numbers are the same number of the same kind, bit for bit.
pub fn same_number(a: &Either<isize, Float>, b: &Either<isize, Float>) -> (r: bool)
    ensures
        r == (*a == *b),
{
    match (a, b) {
        (Either::Left(x), Either::Left(y)) => *x == *y,
        (Either::Right(x), Either::Right(y)) => x.bits == y.bits,
        _ => false,
    }
}

/// A copy of a number.
pub fn copy_number(n: &Either<isize, Float>) -> (r: Either<isize, Float>)
    ensures
        r == *n,
{
    match n {
        Either::Left(i) => Either::Left(*i),
        Either::Right(f) => Either::Right(*f),
    }
}

impl FloatRequest {
    /// Whether two requests ask for the same thing.
    pub fn same(&self, other: &FloatRequest) -> (r: bool)
        ensures
            r == (*self == *other),
    {
        self.operation == other.operation && same_number(&self.left, &other.left) && same_number(
            &self.right,
            &other.right,
        )
    }

    /// A copy of the request.
    pub fn duplicate(&self) -> (r: Self)
        ensures
            r == *self,
    {
        FloatRequest {
            operation: self.operation,
            left: copy_number(&self.left),
            right: copy_number(&self.right),
        }
    }

    /// The answer that a list of answers holds for the request.
    pub fn find(&self, known: &Vec<(FloatRequest, Float)>) -> (r: Option<Float>)
        ensures
            r == answer(known@, *self),
    {
        let mut i: usize = 0;
        while i < known.len()
            invariant
                i <= known@.len(),
                answer(known@, *self) == answer_from(known@, *self, i as int),
            decreases known@.len() - i,
        {
            if known[i].0.same(self) {
                return Some(known[i].1);
            }
            i += 1;
        }
        None
    }
}

} // verus!
