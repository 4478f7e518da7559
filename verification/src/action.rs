//! What the engine asks of the embedding program after a step.

use crate::error::{Error, ErrorModel};
use crate::request::FloatRequest;
use crate::value::{values_model, Native, ValueModel, ValueType};
use vstd::prelude::*;

verus! {

/// What a step has come to, and what the embedding program is to do before
/// the next step.
#[derive(Debug)]
pub enum Action {
    /// There is more work: take the next step.
    Continue,
    /// The run has ended, with a value or with an error.
    Finished(Result<ValueType, Error>),
    /// The engine needs the result of a floating-point operation. Compute
    /// it, tell the engine with `learn`, and take the next step.
    Float(FloatRequest),
    /// The program calls a native function. Perform it, hand its result to
    /// `resume` unless it is undefined, and take the next step.
    Call { function: Native, arguments: Vec<ValueType> },
    /// The program imports a file. Read and parse the file at `path`,
    /// resolved against `directory`, hand the program or the error to
    /// `resume_import`, and take the next step.
    Import { directory: String, path: String },
    /// An imported program has failed. Write the error to the standard
    /// error and take the next step: the importing program goes on.
    Report(Error),
}

/// An action as a mathematical value.
pub enum ActionModel {
    Continue,
    Finished(Result<ValueModel, ErrorModel>),
    Float(FloatRequest),
    Call { function: Native, arguments: Seq<ValueModel> },
    Import { directory: Seq<char>, path: Seq<char> },
    Report(ErrorModel),
}

impl View for Action {
    type V = ActionModel;

    open spec fn view(&self) -> ActionModel {
        match *self {
            Action::Continue => ActionModel::Continue,
            Action::Finished(Ok(value)) => ActionModel::Finished(Ok(value@)),
            Action::Finished(Err(error)) => ActionModel::Finished(Err(error@)),
            Action::Float(request) => ActionModel::Float(request),
            Action::Call { function, arguments } => ActionModel::Call {
                function,
                arguments: values_model(arguments@),
            },
            Action::Import { directory, path } => ActionModel::Import {
                directory: directory@,
                path: path@,
            },
            Action::Report(error) => ActionModel::Report(error@),
        }
    }
}

} // verus!
