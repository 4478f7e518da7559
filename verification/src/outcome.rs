//! How the evaluation of an expression ends.

use crate::error::{Error, ErrorModel};
use crate::request::FloatRequest;
use crate::value::{ValueModel, ValueType};
use vstd::prelude::*;

verus! {

/// How the evaluation of an expression ends: with a value, with an error,
/// or at a floating-point operation whose result the engine has yet to
/// be told. Evaluation has no side effect, so after the answer has been
/// learnt the expression is evaluated again from its start.
#[derive(Debug)]
pub enum Outcome {
    Value(ValueType),
    Pending(FloatRequest),
    Failure(Error),
}

/// An outcome as a mathematical value.
pub enum OutcomeModel {
    Value(ValueModel),
    Pending(FloatRequest),
    Failure(ErrorModel),
}

impl View for Outcome {
    type V = OutcomeModel;

    open spec fn view(&self) -> OutcomeModel {
        match *self {
            Outcome::Value(value) => OutcomeModel::Value(value@),
            Outcome::Pending(request) => OutcomeModel::Pending(request),
            Outcome::Failure(error) => OutcomeModel::Failure(error@),
        }
    }
}

} // verus!
