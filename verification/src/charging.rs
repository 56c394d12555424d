//! What checks charge for.

use vstd::prelude::*;

use crate::analysis::{ClarityCostFunction, TypingContext};
use crate::endings::{lemma_costs_added_ends, lemma_function_ends, lemma_map_steps_ends};
use crate::laws::{rule_of, Native};
use crate::record::{charged, Exchange};
use crate::representations::{atom_of, ClarityVersion, SymbolicExpression};
use crate::rules::{function_rule, map_steps};
use crate::run::Run;
use crate::signatures::TypeSignature;

verus! {

/// The charge for working through a sequence.
pub open spec fn is_iterable_charge(exchange: Exchange) -> bool {
    match exchange {
        Exchange::RuntimeCost { function, .. } => function
            == ClarityCostFunction::AnalysisIterableFunc,
        _ => false,
    }
}

/// From `at` on, a run has charged for working through a sequence at `i`, for an input of size
/// `input`, and nowhere else. One that fails may not have got so far.
pub open spec fn charges_once(
    log: Seq<Exchange>,
    at: int,
    run: Run<TypeSignature>,
    i: int,
    input: u64,
) -> bool {
    match run {
        Run::Done(_, end) => {
            &&& at <= i < end
            &&& log[i] == (Exchange::RuntimeCost {
                function: ClarityCostFunction::AnalysisIterableFunc,
                input,
                reply: Ok(()),
            })
            &&& no_other_charge(log, at, end, i)
        },
        Run::Failed(_, end) => {
            &&& no_other_charge(log, at, end, i)
            &&& at <= i < end && is_iterable_charge(log[i]) ==> charged_by(log[i], input)
        },
        Run::Off => true,
    }
}

/// A charge for an input of this size.
pub open spec fn charged_by(exchange: Exchange, size: u64) -> bool {
    match exchange {
        Exchange::RuntimeCost { input, .. } => input == size,
        _ => false,
    }
}

/// From `from` to `to`, working through a sequence was charged for at `i` at most.
pub open spec fn no_other_charge(log: Seq<Exchange>, from: int, to: int, i: int) -> bool {
    forall|j: int| from <= j < to && j != i ==> !is_iterable_charge(#[trigger] log[j])
}

/// The size that working through a sequence is charged by.
pub open spec fn iterable_input(native: Native, args: Seq<SymbolicExpression>) -> u64 {
    match native {
        Native::MapItems => args.len() as u64,
        _ => 0,
    }
}

/// There is one place at which a check charges for working through a sequence.
pub open spec fn iterates_once(
    native: Native,
    log: Seq<Exchange>,
    at: int,
    args: Seq<SymbolicExpression>,
    context: TypingContext,
    version: ClarityVersion,
) -> bool {
    let run = rule_of(native, log, at, args, context, version);
    exists|i: int| #[trigger] charges_once(log, at, run, i, iterable_input(native, args))
}

proof fn lemma_map_charges_once(
    log: Seq<Exchange>,
    at: int,
    args: Seq<SymbolicExpression>,
    context: TypingContext,
    version: ClarityVersion,
)
    requires
        0 <= at <= log.len(),
    ensures
        iterates_once(Native::MapItems, log, at, args, context, version),
{
    let run = rule_of(Native::MapItems, log, at, args, context, version);
    let input = iterable_input(Native::MapItems, args);
    let place = match atom_of(args[0]) {
        Some(name) => match function_rule(log, at, name, version) {
            Run::Done(_, found) => found,
            _ => at,
        },
        None => at,
    };
    if let Some(name) = atom_of(args[0]) {
        lemma_function_ends(log, at, name, version);
        if let Run::Done(function, found) = function_rule(log, at, name, version) {
            let iterable = ClarityCostFunction::AnalysisIterableFunc;
            if args.len() >= 2 && charged(log, found, iterable, input) is Done {
                let count = (args.len() - 1) as nat;
                let steps = map_steps(log, found + 1, args, context, function, count);
                lemma_map_steps_ends(log, found + 1, args, context, function, count);
                if let Run::Done(known, mid) = steps {
                    lemma_costs_added_ends(log, mid, known.costs, known.costs.len());
                }
            }
        }
    }
    assert(charges_once(log, at, run, place, input));
}

proof fn lemma_filter_charges_once(
    log: Seq<Exchange>,
    at: int,
    args: Seq<SymbolicExpression>,
    context: TypingContext,
    version: ClarityVersion,
)
    requires
        0 <= at <= log.len(),
    ensures
        iterates_once(Native::Filter, log, at, args, context, version),
{
    let run = rule_of(Native::Filter, log, at, args, context, version);
    let input = iterable_input(Native::Filter, args);
    let place = match atom_of(args[0]) {
        Some(name) => match function_rule(log, at, name, version) {
            Run::Done(_, found) => found,
            _ => at,
        },
        None => at,
    };
    if let Some(name) = atom_of(args[0]) {
        lemma_function_ends(log, at, name, version);
    }
    assert(charges_once(log, at, run, place, input));
}

proof fn lemma_fold_charges_once(
    log: Seq<Exchange>,
    at: int,
    args: Seq<SymbolicExpression>,
    context: TypingContext,
    version: ClarityVersion,
)
    requires
        0 <= at <= log.len(),
    ensures
        iterates_once(Native::Fold, log, at, args, context, version),
{
    let run = rule_of(Native::Fold, log, at, args, context, version);
    let input = iterable_input(Native::Fold, args);
    let place = match atom_of(args[0]) {
        Some(name) => match function_rule(log, at, name, version) {
            Run::Done(_, found) => found,
            _ => at,
        },
        None => at,
    };
    if let Some(name) = atom_of(args[0]) {
        lemma_function_ends(log, at, name, version);
    }
    assert(charges_once(log, at, run, place, input));
}

proof fn lemma_concat_charges_once(
    log: Seq<Exchange>,
    at: int,
    args: Seq<SymbolicExpression>,
    context: TypingContext,
    version: ClarityVersion,
)
    requires
        0 <= at <= log.len(),
    ensures
        iterates_once(Native::Concat, log, at, args, context, version),
{
    let run = rule_of(Native::Concat, log, at, args, context, version);
    let input = iterable_input(Native::Concat, args);
    assert(charges_once(log, at, run, at + 2, input));
}

proof fn lemma_append_charges_once(
    log: Seq<Exchange>,
    at: int,
    args: Seq<SymbolicExpression>,
    context: TypingContext,
    version: ClarityVersion,
)
    requires
        0 <= at <= log.len(),
    ensures
        iterates_once(Native::Append, log, at, args, context, version),
{
    let run = rule_of(Native::Append, log, at, args, context, version);
    let input = iterable_input(Native::Append, args);
    assert(charges_once(log, at, run, at, input));
}

proof fn lemma_as_max_len_charges_once(
    log: Seq<Exchange>,
    at: int,
    args: Seq<SymbolicExpression>,
    context: TypingContext,
    version: ClarityVersion,
)
    requires
        0 <= at <= log.len(),
    ensures
        iterates_once(Native::AsMaxLen, log, at, args, context, version),
{
    let run = rule_of(Native::AsMaxLen, log, at, args, context, version);
    let input = iterable_input(Native::AsMaxLen, args);
    assert(charges_once(log, at, run, at + 4, input));
}

proof fn lemma_len_charges_once(
    log: Seq<Exchange>,
    at: int,
    args: Seq<SymbolicExpression>,
    context: TypingContext,
    version: ClarityVersion,
)
    requires
        0 <= at <= log.len(),
    ensures
        iterates_once(Native::Len, log, at, args, context, version),
{
    let run = rule_of(Native::Len, log, at, args, context, version);
    let input = iterable_input(Native::Len, args);
    assert(charges_once(log, at, run, at + 1, input));
}

proof fn lemma_element_at_charges_once(
    log: Seq<Exchange>,
    at: int,
    args: Seq<SymbolicExpression>,
    context: TypingContext,
    version: ClarityVersion,
)
    requires
        0 <= at <= log.len(),
    ensures
        iterates_once(Native::ElementAt, log, at, args, context, version),
{
    let run = rule_of(Native::ElementAt, log, at, args, context, version);
    let input = iterable_input(Native::ElementAt, args);
    assert(charges_once(log, at, run, at + 2, input));
}

proof fn lemma_index_of_charges_once(
    log: Seq<Exchange>,
    at: int,
    args: Seq<SymbolicExpression>,
    context: TypingContext,
    version: ClarityVersion,
)
    requires
        0 <= at <= log.len(),
    ensures
        iterates_once(Native::IndexOf, log, at, args, context, version),
{
    let run = rule_of(Native::IndexOf, log, at, args, context, version);
    let input = iterable_input(Native::IndexOf, args);
    assert(charges_once(log, at, run, at, input));
}

proof fn lemma_slice_charges_once(
    log: Seq<Exchange>,
    at: int,
    args: Seq<SymbolicExpression>,
    context: TypingContext,
    version: ClarityVersion,
)
    requires
        0 <= at <= log.len(),
    ensures
        iterates_once(Native::Slice, log, at, args, context, version),
{
    let run = rule_of(Native::Slice, log, at, args, context, version);
    let input = iterable_input(Native::Slice, args);
    assert(charges_once(log, at, run, at, input));
}

proof fn lemma_replace_at_charges_once(
    log: Seq<Exchange>,
    at: int,
    args: Seq<SymbolicExpression>,
    context: TypingContext,
    version: ClarityVersion,
)
    requires
        0 <= at <= log.len(),
    ensures
        iterates_once(Native::ReplaceAt, log, at, args, context, version),
{
    let run = rule_of(Native::ReplaceAt, log, at, args, context, version);
    let input = iterable_input(Native::ReplaceAt, args);
    assert(charges_once(log, at, run, at, input));
}

/// Every check of a function on sequences that succeeds has charged once for working through a
/// sequence: `map` by the count of its arguments, every other one as such. One that fails has
/// charged for that once at most.
pub proof fn law_iterating_is_charged_once(
    native: Native,
    log: Seq<Exchange>,
    at: int,
    args: Seq<SymbolicExpression>,
    context: TypingContext,
    version: ClarityVersion,
)
    requires
        0 <= at <= log.len(),
        !(native is ToConsensusBuff),
        !(native is FromConsensusBuff),
    ensures
        iterates_once(native, log, at, args, context, version),
{
    match native {
        Native::MapItems => lemma_map_charges_once(log, at, args, context, version),
        Native::Filter => lemma_filter_charges_once(log, at, args, context, version),
        Native::Fold => lemma_fold_charges_once(log, at, args, context, version),
        Native::Concat => lemma_concat_charges_once(log, at, args, context, version),
        Native::Append => lemma_append_charges_once(log, at, args, context, version),
        Native::AsMaxLen => lemma_as_max_len_charges_once(log, at, args, context, version),
        Native::Len => lemma_len_charges_once(log, at, args, context, version),
        Native::ElementAt => lemma_element_at_charges_once(log, at, args, context, version),
        Native::IndexOf => lemma_index_of_charges_once(log, at, args, context, version),
        Native::Slice => lemma_slice_charges_once(log, at, args, context, version),
        Native::ReplaceAt => lemma_replace_at_charges_once(log, at, args, context, version),
        Native::ToConsensusBuff | Native::FromConsensusBuff => {},
    }
}

/// The checks of the functions that convert charge for nothing on their own account, whether they
/// succeed or fail.
pub proof fn law_converting_is_not_charged(
    native: Native,
    log: Seq<Exchange>,
    at: int,
    args: Seq<SymbolicExpression>,
    context: TypingContext,
    version: ClarityVersion,
)
    requires
        native is ToConsensusBuff || native is FromConsensusBuff,
    ensures
        match rule_of(native, log, at, args, context, version) {
            Run::Done(_, end) => nothing_charged(log, at, end),
            Run::Failed(_, end) => nothing_charged(log, at, end),
            Run::Off => true,
        },
{
}

/// From `from` to `to`, nothing was charged.
pub open spec fn nothing_charged(log: Seq<Exchange>, from: int, to: int) -> bool {
    forall|i: int|
        from <= i < to ==> !(#[trigger] log[i] is RuntimeCost || log[i] is AddCost || log[i]
            is TypecheckCost)
}

} // verus!
