//! A value of one of two types.

use vstd::prelude::*;

verus! {

/// A value that is either a `Left` or a `Right`.
///
/// Numbers of the language are `Either<isize, Float>`: the tag says whether
/// the number is an integer or a floating-point number.
#[derive(Debug)]
pub enum Either<L, R> {
    Left(L),
    Right(R),
}

} // verus!
