//! Type checks the functions that turn values into their serialized form and back.

use vstd::prelude::*;

use crate::analysis::{Analysis, TypingContext};
use crate::arguments::get_arguments_exact;
use crate::checker::TypeChecker;
use crate::errors::CheckError;
use crate::representations::{StacksEpochId, SymbolicExpression};
use crate::rules::{from_consensus_buff_rule, to_consensus_buff_rule};
use crate::run::ended;
use crate::signatures::TypeSignature;

verus! {

/// Type checks `to-consensus-buff?`, which admits exactly one argument:
/// * the value to serialize
///
/// It returns an `(optional (buff x))`, where `x` is the greatest length that a value of the type
/// of the argument is serialized to.
pub fn check_special_to_consensus_buff<A: Analysis>(
    checker: &mut TypeChecker<A>,
    args: &[SymbolicExpression],
    context: &TypingContext,
) -> (r: Result<TypeSignature, CheckError>)
    requires
        old(checker).ready(),
    ensures
        old(checker).grew_to(final(checker)),
        to_consensus_buff_rule(final(checker).log(), old(checker).now(), args@, *context) == ended(
            r,
            final(checker).now(),
        ),
{
    get_arguments_exact(args, 1)?;
    let input_type = checker.type_check(&args[0], context)?;
    let buffer_max_len: u32 = checker.max_serialized_size(&input_type)?;
    let buffer_type = TypeSignature::buffer_of(buffer_max_len)?;
    checker.new_option(buffer_type)
}

/// Type checks `from-consensus-buff?`, which admits exactly two arguments:
/// * a description of the type `t1` to return
/// * a buffer (of up to max length)
///
/// It returns an `(optional t1)`.
pub fn check_special_from_consensus_buff<A: Analysis>(
    checker: &mut TypeChecker<A>,
    args: &[SymbolicExpression],
    context: &TypingContext,
) -> (r: Result<TypeSignature, CheckError>)
    requires
        old(checker).ready(),
    ensures
        old(checker).grew_to(final(checker)),
        from_consensus_buff_rule(
            final(checker).log(),
            old(checker).now(),
            args@,
            *context,
        ) == ended(r, final(checker).now()),
{
    get_arguments_exact(args, 2)?;
    let result_type = checker.parse_type_repr(StacksEpochId::Epoch21, &args[0])?;
    checker.type_check_expects(&args[1], context, &TypeSignature::max_buffer())?;
    checker.new_option(result_type)
}

} // verus!
