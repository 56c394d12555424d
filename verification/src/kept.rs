//! What a record shows once, it shows for good.

use vstd::prelude::*;

use crate::analysis::{ClarityCostFunction, ExecutionCost, FunctionType, TypingContext};
use crate::errors::CheckError;
use crate::record::{charged, extends, Exchange};
use crate::representations::{atom_of, ClarityName, ClarityVersion, SymbolicExpression};
use crate::rules::{
    append_rule, as_max_len_rule, concat_rule, costs_added, element_at_rule, filter_rule, fold_rule,
    from_consensus_buff_rule, function_rule, index_of_rule, len_rule, map_rule, map_steps,
    replace_at_rule, slice_rule, to_consensus_buff_rule,
};
use crate::run::Run;

verus! {

/// A record that shows how a function was found still shows it once it is longer.
pub(crate) proof fn lemma_function_rule_kept(
    log: Seq<Exchange>,
    longer: Seq<Exchange>,
    at: int,
    name: ClarityName,
    version: ClarityVersion,
)
    requires
        extends(log, longer),
        function_rule(log, at, name, version) !is Off,
    ensures
        function_rule(longer, at, name, version) == function_rule(log, at, name, version),
{
}

/// A record that shows how sequences were looked at still shows it once it is longer.
pub(crate) proof fn lemma_map_steps_kept(
    log: Seq<Exchange>,
    longer: Seq<Exchange>,
    at: int,
    args: Seq<SymbolicExpression>,
    context: TypingContext,
    function: FunctionType,
    count: nat,
)
    requires
        extends(log, longer),
        map_steps(log, at, args, context, function, count) !is Off,
    ensures
        map_steps(longer, at, args, context, function, count) == map_steps(
            log,
            at,
            args,
            context,
            function,
            count,
        ),
    decreases count,
{
    if count > 0 {
        lemma_map_steps_kept(log, longer, at, args, context, function, (count - 1) as nat);
    }
}

/// A record that shows how costs were charged still shows it once it is longer.
pub(crate) proof fn lemma_costs_added_kept(
    log: Seq<Exchange>,
    longer: Seq<Exchange>,
    at: int,
    costs: Seq<Result<ExecutionCost, CheckError>>,
    count: nat,
)
    requires
        extends(log, longer),
        costs_added(log, at, costs, count) !is Off,
    ensures
        costs_added(longer, at, costs, count) == costs_added(log, at, costs, count),
    decreases count,
{
    if count > 0 {
        lemma_costs_added_kept(log, longer, at, costs, (count - 1) as nat);
    }
}

/// Charging ends with the first cost that cannot be charged.
pub(crate) proof fn lemma_costs_added_stops(
    log: Seq<Exchange>,
    at: int,
    costs: Seq<Result<ExecutionCost, CheckError>>,
    count: nat,
    all: nat,
)
    requires
        costs_added(log, at, costs, count) is Failed,
        count <= all,
    ensures
        costs_added(log, at, costs, all) == costs_added(log, at, costs, count),
    decreases all,
{
    if count < all {
        lemma_costs_added_stops(log, at, costs, count, (all - 1) as nat);
    }
}

/// Looking at sequences ends with the first that is none.
pub(crate) proof fn lemma_map_steps_stops(
    log: Seq<Exchange>,
    at: int,
    args: Seq<SymbolicExpression>,
    context: TypingContext,
    function: FunctionType,
    count: nat,
    all: nat,
)
    requires
        map_steps(log, at, args, context, function, count) is Failed,
        count <= all,
    ensures
        map_steps(log, at, args, context, function, all) == map_steps(
            log,
            at,
            args,
            context,
            function,
            count,
        ),
    decreases all,
{
    if count < all {
        lemma_map_steps_stops(log, at, args, context, function, count, (all - 1) as nat);
    }
}

/// A record that shows a check of `filter` still shows it once it is longer.
pub(crate) proof fn lemma_filter_kept(
    log: Seq<Exchange>,
    longer: Seq<Exchange>,
    at: int,
    args: Seq<SymbolicExpression>,
    context: TypingContext,
    version: ClarityVersion,
)
    requires
        extends(log, longer),
        filter_rule(log, at, args, context, version) !is Off,
    ensures
        filter_rule(longer, at, args, context, version) == filter_rule(
            log,
            at,
            args,
            context,
            version,
        ),
{
}

/// A record that shows a check of `fold` still shows it once it is longer.
pub(crate) proof fn lemma_fold_kept(
    log: Seq<Exchange>,
    longer: Seq<Exchange>,
    at: int,
    args: Seq<SymbolicExpression>,
    context: TypingContext,
    version: ClarityVersion,
)
    requires
        extends(log, longer),
        fold_rule(log, at, args, context, version) !is Off,
    ensures
        fold_rule(longer, at, args, context, version) == fold_rule(log, at, args, context, version),
{
}

/// A record that shows a check of `concat` still shows it once it is longer.
pub(crate) proof fn lemma_concat_kept(
    log: Seq<Exchange>,
    longer: Seq<Exchange>,
    at: int,
    args: Seq<SymbolicExpression>,
    context: TypingContext,
)
    requires
        extends(log, longer),
        concat_rule(log, at, args, context) !is Off,
    ensures
        concat_rule(longer, at, args, context) == concat_rule(log, at, args, context),
{
}

/// A record that shows a check of `append` still shows it once it is longer.
pub(crate) proof fn lemma_append_kept(
    log: Seq<Exchange>,
    longer: Seq<Exchange>,
    at: int,
    args: Seq<SymbolicExpression>,
    context: TypingContext,
)
    requires
        extends(log, longer),
        append_rule(log, at, args, context) !is Off,
    ensures
        append_rule(longer, at, args, context) == append_rule(log, at, args, context),
{
}

/// A record that shows a check of `as-max-len?` still shows it once it is longer.
pub(crate) proof fn lemma_as_max_len_kept(
    log: Seq<Exchange>,
    longer: Seq<Exchange>,
    at: int,
    args: Seq<SymbolicExpression>,
    context: TypingContext,
)
    requires
        extends(log, longer),
        as_max_len_rule(log, at, args, context) !is Off,
    ensures
        as_max_len_rule(longer, at, args, context) == as_max_len_rule(log, at, args, context),
{
}

/// A record that shows a check of `len` still shows it once it is longer.
pub(crate) proof fn lemma_len_kept(
    log: Seq<Exchange>,
    longer: Seq<Exchange>,
    at: int,
    args: Seq<SymbolicExpression>,
    context: TypingContext,
)
    requires
        extends(log, longer),
        len_rule(log, at, args, context) !is Off,
    ensures
        len_rule(longer, at, args, context) == len_rule(log, at, args, context),
{
}

/// A record that shows a check of `element-at` still shows it once it is longer.
pub(crate) proof fn lemma_element_at_kept(
    log: Seq<Exchange>,
    longer: Seq<Exchange>,
    at: int,
    args: Seq<SymbolicExpression>,
    context: TypingContext,
)
    requires
        extends(log, longer),
        element_at_rule(log, at, args, context) !is Off,
    ensures
        element_at_rule(longer, at, args, context) == element_at_rule(log, at, args, context),
{
}

/// A record that shows a check of `index-of` still shows it once it is longer.
pub(crate) proof fn lemma_index_of_kept(
    log: Seq<Exchange>,
    longer: Seq<Exchange>,
    at: int,
    args: Seq<SymbolicExpression>,
    context: TypingContext,
)
    requires
        extends(log, longer),
        index_of_rule(log, at, args, context) !is Off,
    ensures
        index_of_rule(longer, at, args, context) == index_of_rule(log, at, args, context),
{
}

/// A record that shows a check of `slice?` still shows it once it is longer.
pub(crate) proof fn lemma_slice_kept(
    log: Seq<Exchange>,
    longer: Seq<Exchange>,
    at: int,
    args: Seq<SymbolicExpression>,
    context: TypingContext,
)
    requires
        extends(log, longer),
        slice_rule(log, at, args, context) !is Off,
    ensures
        slice_rule(longer, at, args, context) == slice_rule(log, at, args, context),
{
}

/// A record that shows a check of `replace-at?` still shows it once it is longer.
pub(crate) proof fn lemma_replace_at_kept(
    log: Seq<Exchange>,
    longer: Seq<Exchange>,
    at: int,
    args: Seq<SymbolicExpression>,
    context: TypingContext,
)
    requires
        extends(log, longer),
        replace_at_rule(log, at, args, context) !is Off,
    ensures
        replace_at_rule(longer, at, args, context) == replace_at_rule(log, at, args, context),
{
}

/// A record that shows a check of `to-consensus-buff?` still shows it once it is longer.
pub(crate) proof fn lemma_to_consensus_buff_kept(
    log: Seq<Exchange>,
    longer: Seq<Exchange>,
    at: int,
    args: Seq<SymbolicExpression>,
    context: TypingContext,
)
    requires
        extends(log, longer),
        to_consensus_buff_rule(log, at, args, context) !is Off,
    ensures
        to_consensus_buff_rule(longer, at, args, context) == to_consensus_buff_rule(
            log,
            at,
            args,
            context,
        ),
{
}

/// A record that shows a check of `from-consensus-buff?` still shows it once it is longer.
pub(crate) proof fn lemma_from_consensus_buff_kept(
    log: Seq<Exchange>,
    longer: Seq<Exchange>,
    at: int,
    args: Seq<SymbolicExpression>,
    context: TypingContext,
)
    requires
        extends(log, longer),
        from_consensus_buff_rule(log, at, args, context) !is Off,
    ensures
        from_consensus_buff_rule(longer, at, args, context) == from_consensus_buff_rule(
            log,
            at,
            args,
            context,
        ),
{
}

/// A record that shows a check of `map` still shows it once it is longer.
pub(crate) proof fn lemma_map_kept(
    log: Seq<Exchange>,
    longer: Seq<Exchange>,
    at: int,
    args: Seq<SymbolicExpression>,
    context: TypingContext,
    version: ClarityVersion,
)
    requires
        extends(log, longer),
        map_rule(log, at, args, context, version) !is Off,
    ensures
        map_rule(longer, at, args, context, version) == map_rule(log, at, args, context, version),
{
    if args.len() >= 2 {
        if let Some(name) = atom_of(args[0]) {
            lemma_function_rule_kept(log, longer, at, name, version);
            if let Run::Done(function, found) = function_rule(log, at, name, version) {
                let count = (args.len() - 1) as nat;
                let iterable = ClarityCostFunction::AnalysisIterableFunc;
                if let Run::Done(_, begin) = charged(log, found, iterable, args.len() as u64) {
                    lemma_map_steps_kept(log, longer, begin, args, context, function, count);
                    let steps = map_steps(log, begin, args, context, function, count);
                    if let Run::Done(known, end) = steps {
                        if known.failed is Some {
                            let all = known.costs.len();
                            lemma_costs_added_kept(log, longer, end, known.costs, all);
                        }
                    }
                }
            }
        }
    }
}

} // verus!
