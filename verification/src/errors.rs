//! What a failed check reports.

use vstd::prelude::*;

use crate::representations::{ClarityName, SymbolicExpression};
use crate::signatures::TypeSignature;

verus! {

/// Why a check failed.
#[derive(Debug, PartialEq, Eq)]
pub enum CheckErrors {
    /// The applied thing is not a name.
    NonFunctionApplication,
    /// No function of this name can be applied here.
    IllegalOrUnknownFunctionApplication(ClarityName),
    /// Expected count of arguments, then the actual one.
    IncorrectArgumentCount(usize, usize),
    /// Least count of arguments, then the actual one.
    RequiresAtLeastArguments(usize, usize),
    /// A sequence was needed, and this was found.
    ExpectedSequence(Box<TypeSignature>),
    /// A list was needed.
    ExpectedListApplication,
    /// Expected type, then the actual one.
    TypeError(Box<TypeSignature>, Box<TypeSignature>),
    /// The list that the function would build is too large.
    ConstructedListTooLarge,
    /// A length does not fit.
    MaxLengthOverflow,
    /// A value of the type could be too large.
    ValueTooLarge,
    /// Any error that is raised elsewhere in the analysis, by its number.
    Raised(u64),
}

impl Clone for CheckErrors {
    fn clone(&self) -> (r: Self)
        ensures
            r == *self,
    {
        match self {
            CheckErrors::NonFunctionApplication => CheckErrors::NonFunctionApplication,
            CheckErrors::IllegalOrUnknownFunctionApplication(name) => {
                CheckErrors::IllegalOrUnknownFunctionApplication(name.clone())
            },
            CheckErrors::IncorrectArgumentCount(expected, actual) => {
                CheckErrors::IncorrectArgumentCount(*expected, *actual)
            },
            CheckErrors::RequiresAtLeastArguments(least, actual) => {
                CheckErrors::RequiresAtLeastArguments(*least, *actual)
            },
            CheckErrors::ExpectedSequence(found) => {
                CheckErrors::ExpectedSequence(Box::new((**found).clone()))
            },
            CheckErrors::ExpectedListApplication => CheckErrors::ExpectedListApplication,
            CheckErrors::TypeError(expected, found) => CheckErrors::TypeError(
                Box::new((**expected).clone()),
                Box::new((**found).clone()),
            ),
            CheckErrors::ConstructedListTooLarge => CheckErrors::ConstructedListTooLarge,
            CheckErrors::MaxLengthOverflow => CheckErrors::MaxLengthOverflow,
            CheckErrors::ValueTooLarge => CheckErrors::ValueTooLarge,
            CheckErrors::Raised(number) => CheckErrors::Raised(*number),
        }
    }
}

/// What is shown to the author of the contract.
#[derive(Debug, PartialEq, Eq)]
pub enum Diagnostic {
    /// The message for this error, at no place in the source.
    Unplaced(Box<CheckErrors>),
    /// A message made elsewhere in the analysis, by its number.
    Kept(u64),
}

impl Diagnostic {
    /// The diagnostic that says `error`, at no place in the source.
    pub fn err(error: &CheckErrors) -> (r: Diagnostic)
        ensures
            r == Diagnostic::Unplaced(Box::new(*error)),
    {
        Diagnostic::Unplaced(Box::new(error.clone()))
    }
}

/// A failed check: the reason, the expressions that it is about, and what to show for it.
#[derive(Debug, PartialEq, Eq)]
pub struct CheckError {
    pub err: Box<CheckErrors>,
    pub expressions: Option<Vec<SymbolicExpression>>,
    pub diagnostic: Diagnostic,
}

/// The failure that `reason` alone gives: about no expression, and shown as `reason`.
pub open spec fn failure(reason: CheckErrors) -> CheckError {
    CheckError {
        err: Box::new(reason),
        expressions: None,
        diagnostic: Diagnostic::Unplaced(Box::new(reason)),
    }
}

/// An outcome whose reason for failing stands alone, as one that fails with an error.
pub open spec fn with_reason<T>(outcome: Result<T, CheckErrors>) -> Result<T, CheckError> {
    match outcome {
        Ok(value) => Ok(value),
        Err(reason) => Err(
            CheckError {
                err: Box::new(reason),
                expressions: None,
                diagnostic: Diagnostic::Unplaced(Box::new(reason)),
            },
        ),
    }
}

impl vstd::std_specs::convert::FromSpecImpl<CheckErrors> for CheckError {
    open spec fn obeys_from_spec() -> bool {
        true
    }

    open spec fn from_spec(reason: CheckErrors) -> Self {
        failure(reason)
    }
}

impl From<CheckErrors> for CheckError {
    fn from(reason: CheckErrors) -> (r: Self) {
        let diagnostic = Diagnostic::err(&reason);
        CheckError { err: Box::new(reason), expressions: None, diagnostic }
    }
}

} // verus!
