//! How many arguments a function takes.

use vstd::prelude::*;

use crate::errors::{failure, CheckError, CheckErrors};
use crate::representations::SymbolicExpression;
use crate::run::{provided, Run};

verus! {

/// Taking `args` as exactly `count` arguments.
pub open spec fn exactly(args: Seq<SymbolicExpression>, count: usize, at: int) -> Run<()> {
    provided(
        args.len() == count,
        CheckErrors::IncorrectArgumentCount(count, args.len() as usize),
        at,
    )
}

/// Taking `args` as `count` arguments or more.
pub open spec fn at_least(args: Seq<SymbolicExpression>, count: usize, at: int) -> Run<()> {
    provided(
        args.len() >= count,
        CheckErrors::RequiresAtLeastArguments(count, args.len() as usize),
        at,
    )
}

/// Fails unless there are exactly `count` arguments.
pub fn get_arguments_exact(args: &[SymbolicExpression], count: usize) -> (r: Result<(), CheckError>)
    ensures
        r == (if args@.len() == count {
            Ok(())
        } else {
            Err(failure(CheckErrors::IncorrectArgumentCount(count, args.len())))
        }),
{
    if args.len() == count {
        Ok(())
    } else {
        Err(CheckError::from(CheckErrors::IncorrectArgumentCount(count, args.len())))
    }
}

/// Fails unless there are `count` arguments or more.
pub fn get_arguments_at_least(args: &[SymbolicExpression], count: usize) -> (r: Result<
    (),
    CheckError,
>)
    ensures
        r == (if args@.len() >= count {
            Ok(())
        } else {
            Err(failure(CheckErrors::RequiresAtLeastArguments(count, args.len())))
        }),
{
    if args.len() >= count {
        Ok(())
    } else {
        Err(CheckError::from(CheckErrors::RequiresAtLeastArguments(count, args.len())))
    }
}

} // verus!
