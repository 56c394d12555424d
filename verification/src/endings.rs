//! How checks end, and what they ask on the way.

use vstd::prelude::*;

use crate::analysis::{ClarityCostFunction, ExecutionCost, FunctionType, TypingContext};
use crate::errors::{failure, CheckError, CheckErrors};
use crate::laws::Native;
use crate::record::{charged, Exchange};
use crate::representations::{atom_of, ClarityName, ClarityVersion, SymbolicExpression};
use crate::rules::{
    append_rule, as_max_len_rule, concat_rule, costs_added, element_at_rule, filter_rule, fold_end,
    fold_rule, from_consensus_buff_rule, function_rule, index_of_rule, len_rule, map_end, map_rule,
    map_step, map_steps, replace_at_rule, slice_rule, to_consensus_buff_rule, Mapping,
};
use crate::run::Run;
use crate::signatures::{SequenceSubtype, TypeSignature};

verus! {

/// What a check fails with at once where this came back. Looking at one argument of a function
/// never fails at once.
pub open spec fn refusal(exchange: Exchange) -> Option<CheckError> {
    match exchange {
        Exchange::RuntimeCost { reply: Err(error), .. } => Some(error),
        Exchange::AddCost { reply: Err(error), .. } => Some(error),
        Exchange::TypecheckCost { reply: Err(error), .. } => Some(error),
        Exchange::TypeNative { reply: Err(reason), .. } => Some(failure(reason)),
        Exchange::TypeCheck { reply: Err(error), .. } => Some(error),
        Exchange::TypeCheckExpects { reply: Err(error), .. } => Some(error),
        Exchange::SetType { reply: Err(error), .. } => Some(error),
        Exchange::CheckArgs { reply: Err(error), .. } => Some(error),
        Exchange::LeastSupertype { reply: Err(reason), .. } => Some(failure(reason)),
        Exchange::AdmitList { reply: Err(reason), .. } => Some(failure(reason)),
        Exchange::AdmitOption { reply: Err(reason), .. } => Some(failure(reason)),
        Exchange::TypeSize { reply: Err(reason), .. } => Some(failure(reason)),
        Exchange::MaxSerializedSize { reply: Err(reason), .. } => Some(failure(reason)),
        Exchange::ParseType { reply: Err(reason), .. } => Some(failure(reason)),
        _ => None,
    }
}

/// Nothing from `from` to `to` was refused.
pub open spec fn all_granted(log: Seq<Exchange>, from: int, to: int) -> bool {
    forall|i: int| from <= i < to ==> refusal(#[trigger] log[i]) is None
}

/// The run stays within the record, and the first refusal ends it with just that error.
pub open spec fn ends_at_refusal<T>(log: Seq<Exchange>, at: int, run: Run<T>) -> bool {
    match run {
        Run::Done(_, end) => at <= end <= log.len() && all_granted(log, at, end),
        Run::Failed(error, end) => {
            &&& at <= end <= log.len()
            &&& all_granted(log, at, end - 1)
            &&& at < end && refusal(log[end - 1]) is Some ==> refusal(log[end - 1]) == Some(error)
        },
        Run::Off => true,
    }
}

/// From `from` to `to`, sequences were looked at and nothing else.
pub open spec fn only_looked(log: Seq<Exchange>, from: int, to: int) -> bool {
    forall|i: int| from <= i < to ==> (#[trigger] log[i] is TypeCheck || log[i] is VisitArg)
}

/// From `from` to `to`, costs were charged and nothing else.
pub open spec fn only_charged(log: Seq<Exchange>, from: int, to: int) -> bool {
    forall|i: int| from <= i < to ==> #[trigger] log[i] is AddCost
}

/// From `from` to `to`, a function was looked up and nothing else.
pub open spec fn only_looked_up(log: Seq<Exchange>, from: int, to: int) -> bool {
    forall|i: int|
        from <= i < to ==> match #[trigger] log[i] {
            Exchange::RuntimeCost { function, .. } => function
                == ClarityCostFunction::AnalysisLookupFunction,
            Exchange::LookupNative { .. } => true,
            Exchange::TypeNative { .. } => true,
            Exchange::LookupUser { .. } => true,
            _ => false,
        }
}

/// What a check is seen to fail with where this came back: `map` has an error of its own for a
/// list that may not be formed.
pub open spec fn reported(native: Native, exchange: Exchange) -> Option<CheckError> {
    match (refusal(exchange), native, exchange) {
        (Some(_), Native::MapItems, Exchange::AdmitList { .. }) => Some(
            failure(CheckErrors::ConstructedListTooLarge),
        ),
        (refused, _, _) => refused,
    }
}

/// The run stays within the record, and the first refusal ends it with the error for that.
pub open spec fn ends_as_reported(
    native: Native,
    log: Seq<Exchange>,
    at: int,
    run: Run<TypeSignature>,
) -> bool {
    match run {
        Run::Done(_, end) => at <= end <= log.len() && all_granted(log, at, end),
        Run::Failed(error, end) => {
            &&& at <= end <= log.len()
            &&& all_granted(log, at, end - 1)
            &&& at < end && refusal(log[end - 1]) is Some ==> reported(native, log[end - 1])
                == Some(error)
        },
        Run::Off => true,
    }
}

pub(crate) proof fn lemma_function_ends(
    log: Seq<Exchange>,
    at: int,
    name: ClarityName,
    version: ClarityVersion,
)
    requires
        0 <= at <= log.len(),
    ensures
        ends_at_refusal(log, at, function_rule(log, at, name, version)),
        match function_rule(log, at, name, version) {
            Run::Done(_, end) => only_looked_up(log, at, end),
            Run::Failed(_, end) => only_looked_up(log, at, end),
            Run::Off => true,
        },
{
}

pub(crate) proof fn lemma_filter_ends(
    log: Seq<Exchange>,
    at: int,
    args: Seq<SymbolicExpression>,
    context: TypingContext,
    version: ClarityVersion,
)
    requires
        0 <= at <= log.len(),
    ensures
        ends_at_refusal(log, at, filter_rule(log, at, args, context, version)),
{
    if let Some(name) = atom_of(args[0]) {
        lemma_function_ends(log, at, name, version);
    }
}

#[verifier::rlimit(40)]
pub(crate) proof fn lemma_fold_ends(
    log: Seq<Exchange>,
    at: int,
    args: Seq<SymbolicExpression>,
    context: TypingContext,
    version: ClarityVersion,
)
    requires
        0 <= at <= log.len(),
    ensures
        ends_at_refusal(log, at, fold_rule(log, at, args, context, version)),
{
    if let Some(name) = atom_of(args[0]) {
        lemma_function_ends(log, at, name, version);
    }
}

pub(crate) proof fn lemma_concat_ends(
    log: Seq<Exchange>,
    at: int,
    args: Seq<SymbolicExpression>,
    context: TypingContext,
)
    requires
        0 <= at <= log.len(),
    ensures
        ends_at_refusal(log, at, concat_rule(log, at, args, context)),
{
}

pub(crate) proof fn lemma_append_ends(
    log: Seq<Exchange>,
    at: int,
    args: Seq<SymbolicExpression>,
    context: TypingContext,
)
    requires
        0 <= at <= log.len(),
    ensures
        ends_at_refusal(log, at, append_rule(log, at, args, context)),
{
}

pub(crate) proof fn lemma_as_max_len_ends(
    log: Seq<Exchange>,
    at: int,
    args: Seq<SymbolicExpression>,
    context: TypingContext,
)
    requires
        0 <= at <= log.len(),
    ensures
        ends_at_refusal(log, at, as_max_len_rule(log, at, args, context)),
{
}

pub(crate) proof fn lemma_len_ends(
    log: Seq<Exchange>,
    at: int,
    args: Seq<SymbolicExpression>,
    context: TypingContext,
)
    requires
        0 <= at <= log.len(),
    ensures
        ends_at_refusal(log, at, len_rule(log, at, args, context)),
{
}

pub(crate) proof fn lemma_element_at_ends(
    log: Seq<Exchange>,
    at: int,
    args: Seq<SymbolicExpression>,
    context: TypingContext,
)
    requires
        0 <= at <= log.len(),
    ensures
        ends_at_refusal(log, at, element_at_rule(log, at, args, context)),
{
}

pub(crate) proof fn lemma_index_of_ends(
    log: Seq<Exchange>,
    at: int,
    args: Seq<SymbolicExpression>,
    context: TypingContext,
)
    requires
        0 <= at <= log.len(),
    ensures
        ends_at_refusal(log, at, index_of_rule(log, at, args, context)),
{
}

pub(crate) proof fn lemma_slice_ends(
    log: Seq<Exchange>,
    at: int,
    args: Seq<SymbolicExpression>,
    context: TypingContext,
)
    requires
        0 <= at <= log.len(),
    ensures
        ends_at_refusal(log, at, slice_rule(log, at, args, context)),
{
}

pub(crate) proof fn lemma_replace_at_ends(
    log: Seq<Exchange>,
    at: int,
    args: Seq<SymbolicExpression>,
    context: TypingContext,
)
    requires
        0 <= at <= log.len(),
    ensures
        ends_at_refusal(log, at, replace_at_rule(log, at, args, context)),
{
}

pub(crate) proof fn lemma_to_consensus_buff_ends(
    log: Seq<Exchange>,
    at: int,
    args: Seq<SymbolicExpression>,
    context: TypingContext,
)
    requires
        0 <= at <= log.len(),
    ensures
        ends_at_refusal(log, at, to_consensus_buff_rule(log, at, args, context)),
{
}

pub(crate) proof fn lemma_from_consensus_buff_ends(
    log: Seq<Exchange>,
    at: int,
    args: Seq<SymbolicExpression>,
    context: TypingContext,
)
    requires
        0 <= at <= log.len(),
    ensures
        ends_at_refusal(log, at, from_consensus_buff_rule(log, at, args, context)),
{
}

pub(crate) proof fn lemma_map_step_ends(
    log: Seq<Exchange>,
    at: int,
    arg: SymbolicExpression,
    context: TypingContext,
    function: FunctionType,
    index: usize,
    known: Mapping,
)
    requires
        0 <= at <= log.len(),
    ensures
        ends_at_refusal(log, at, map_step(log, at, arg, context, function, index, known)),
        match map_step(log, at, arg, context, function, index, known) {
            Run::Done(_, end) => only_looked(log, at, end),
            Run::Failed(_, end) => only_looked(log, at, end),
            Run::Off => true,
        },
{
}

pub(crate) proof fn lemma_map_steps_ends(
    log: Seq<Exchange>,
    at: int,
    args: Seq<SymbolicExpression>,
    context: TypingContext,
    function: FunctionType,
    count: nat,
)
    requires
        0 <= at <= log.len(),
    ensures
        ends_at_refusal(log, at, map_steps(log, at, args, context, function, count)),
        match map_steps(log, at, args, context, function, count) {
            Run::Done(_, end) => only_looked(log, at, end),
            Run::Failed(_, end) => only_looked(log, at, end),
            Run::Off => true,
        },
    decreases count,
{
    if count > 0 {
        let last = (count - 1) as nat;
        lemma_map_steps_ends(log, at, args, context, function, last);
        if let Run::Done(known, mid) = map_steps(log, at, args, context, function, last) {
            let arg = args[count as int];
            lemma_map_step_ends(log, mid, arg, context, function, last as usize, known);
        }
    }
}

pub(crate) proof fn lemma_costs_added_ends(
    log: Seq<Exchange>,
    at: int,
    costs: Seq<Result<ExecutionCost, CheckError>>,
    count: nat,
)
    requires
        0 <= at <= log.len(),
    ensures
        ends_at_refusal(log, at, costs_added(log, at, costs, count)),
        match costs_added(log, at, costs, count) {
            Run::Done(_, end) => only_charged(log, at, end),
            Run::Failed(_, end) => only_charged(log, at, end),
            Run::Off => true,
        },
    decreases count,
{
    if count > 0 {
        lemma_costs_added_ends(log, at, costs, (count - 1) as nat);
    }
}

pub(crate) proof fn lemma_map_end_ends(
    log: Seq<Exchange>,
    at: int,
    args: Seq<SymbolicExpression>,
    context: TypingContext,
    function: FunctionType,
    known: Mapping,
)
    requires
        0 <= at <= log.len(),
    ensures
        ends_as_reported(
            Native::MapItems,
            log,
            at,
            map_end(log, at, args, context, function, known),
        ),
{
    if known.failed is Some {
        lemma_costs_added_ends(log, at, known.costs, known.costs.len());
    }
}

pub(crate) proof fn lemma_map_ends(
    log: Seq<Exchange>,
    at: int,
    args: Seq<SymbolicExpression>,
    context: TypingContext,
    version: ClarityVersion,
)
    requires
        0 <= at <= log.len(),
    ensures
        ends_as_reported(Native::MapItems, log, at, map_rule(log, at, args, context, version)),
{
    if args.len() >= 2 {
        if let Some(name) = atom_of(args[0]) {
            lemma_function_ends(log, at, name, version);
            if let Run::Done(function, found) = function_rule(log, at, name, version) {
                let count = (args.len() - 1) as nat;
                let iterable = ClarityCostFunction::AnalysisIterableFunc;
                if let Run::Done(_, begin) = charged(log, found, iterable, args.len() as u64) {
                    lemma_map_steps_ends(log, begin, args, context, function, count);
                    let steps = map_steps(log, begin, args, context, function, count);
                    if let Run::Done(known, mid) = steps {
                        lemma_map_end_ends(log, mid, args, context, function, known);
                    }
                }
            }
        }
    }
}

} // verus!
