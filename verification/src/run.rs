//! How far a rule has got through the record of a checker.

use vstd::prelude::*;

use crate::errors::{failure, CheckError, CheckErrors};

verus! {

/// What a rule comes to when it is held against a record from some place on.
///
/// The place in `Done` and in `Failed` is the first one that the rule has not looked at.
pub enum Run<T> {
    /// The rule was followed and gives this.
    Done(T, int),
    /// The rule was followed and fails with this.
    Failed(CheckError, int),
    /// The record is not one of the rule.
    Off,
}

impl<T> Run<T> {
    /// Goes on with `next` where this gave something.
    pub open spec fn and_then<U>(self, next: spec_fn(T, int) -> Run<U>) -> Run<U> {
        match self {
            Run::Done(value, at) => next(value, at),
            Run::Failed(error, at) => Run::Failed(error, at),
            Run::Off => Run::Off,
        }
    }
}

/// The run that ends at `at` with `result`.
pub open spec fn ended<T>(result: Result<T, CheckError>, at: int) -> Run<T> {
    match result {
        Ok(value) => Run::Done(value, at),
        Err(error) => Run::Failed(error, at),
    }
}

/// The run that ends at `at` with `result`, where a reason alone is given for failing.
pub open spec fn ended_for<T>(result: Result<T, CheckErrors>, at: int) -> Run<T> {
    match result {
        Ok(value) => Run::Done(value, at),
        Err(reason) => Run::Failed(failure(reason), at),
    }
}

/// The run that fails at `at` for `reason`.
pub open spec fn refused<T>(reason: CheckErrors, at: int) -> Run<T> {
    Run::Failed(failure(reason), at)
}

/// Goes on at `at` where `holds`, and fails for `reason` where it does not.
pub open spec fn provided(holds: bool, reason: CheckErrors, at: int) -> Run<()> {
    if holds {
        Run::Done((), at)
    } else {
        refused(reason, at)
    }
}

} // verus!
