//! What holds of `map`, `filter` and `fold`, which apply a function.

use vstd::prelude::*;

use crate::analysis::{
    ClarityCostFunction, ExecutionCost, FunctionType, TypedNativeFunction, TypingContext,
};
use crate::endings::{
    lemma_costs_added_ends, lemma_function_ends, lemma_map_step_ends, lemma_map_steps_ends,
};
use crate::errors::{failure, CheckError, CheckErrors, Diagnostic};
use crate::laws::{rule_of, Native};
use crate::record::{charged, typed, Exchange, Visit};
use crate::representations::{atom_of, ClarityName, ClarityVersion, SymbolicExpression};
use crate::rules::{
    costs_added, filter_rule, fold_rule, function_rule, map_rule, map_steps, Mapping,
};
use crate::run::Run;
use crate::signatures::{length_of, list_type, unit_of, SequenceSubtype, TypeSignature};
use crate::typing::{found, found_sequence};

verus! {

/// The analysis was asked what `function` returns for `inputs`, and gave `returned`.
pub open spec fn applies(
    exchange: Exchange,
    context: TypingContext,
    function: FunctionType,
    inputs: Seq<TypeSignature>,
    returned: TypeSignature,
) -> bool {
    exchange == (Exchange::CheckArgs {
        function,
        args: inputs,
        epoch: context.epoch,
        version: context.clarity_version,
        reply: Ok(returned),
    })
}

/// The analysis was asked what `function` returns for an `item`, and gave `returned`.
pub open spec fn applies_to_item(
    exchange: Exchange,
    context: TypingContext,
    function: FunctionType,
    item: TypeSignature,
    returned: TypeSignature,
) -> bool {
    applies(exchange, context, function, seq![item], returned)
}

/// The analysis was asked what `function` returns for an `item` and a `value`, and gave `returned`.
pub open spec fn applies_to_both(
    exchange: Exchange,
    context: TypingContext,
    function: FunctionType,
    item: TypeSignature,
    value: TypeSignature,
    returned: TypeSignature,
) -> bool {
    applies(exchange, context, function, seq![item, value], returned)
}

/// `filter` gives the very type of its sequence, and its function tells of an item whether it is
/// kept.
pub proof fn law_filter_keeps_the_type(
    log: Seq<Exchange>,
    at: int,
    args: Seq<SymbolicExpression>,
    context: TypingContext,
    version: ClarityVersion,
    given: TypeSignature,
    end: int,
)
    requires
        0 <= at <= log.len(),
        filter_rule(log, at, args, context, version) == Run::Done(given, end),
    ensures
        found(log, at, end, args[1], context, given),
        match given {
            TypeSignature::SequenceType(items) => exists|function: FunctionType|
                #[trigger] applies_to_item(
                    log[end - 1],
                    context,
                    function,
                    unit_of(items),
                    TypeSignature::BoolType,
                ),
            _ => false,
        },
{
    if let Some(name) = atom_of(args[0]) {
        lemma_function_ends(log, at, name, version);
        if let Run::Done(function, mid) = function_rule(log, at, name, version) {
            assert(log[mid + 1] == (Exchange::TypeCheck {
                expr: args[1],
                context,
                reply: Ok(given),
            }));
            if let TypeSignature::SequenceType(items) = given {
                let item = unit_of(items);
                let verdict = TypeSignature::BoolType;
                assert(applies_to_item(log[end - 1], context, function, item, verdict));
            }
        }
    }
}

/// `fold` gives what its function returns for an item and what it returned before. So the function
/// takes its own result, as well as the initial value.
pub proof fn law_fold_takes_its_own_result(
    log: Seq<Exchange>,
    at: int,
    args: Seq<SymbolicExpression>,
    context: TypingContext,
    version: ClarityVersion,
    given: TypeSignature,
    end: int,
)
    requires
        0 <= at <= log.len(),
        fold_rule(log, at, args, context, version) == Run::Done(given, end),
    ensures
        exists|
            function: FunctionType,
            items: SequenceSubtype,
            initial: TypeSignature,
            returned: TypeSignature,
        |
            found_sequence(log, at, end, args[1], context, items) && found(
                log,
                at,
                end,
                args[2],
                context,
                initial,
            ) && #[trigger] applies_to_both(
                log[end - 2],
                context,
                function,
                unit_of(items),
                initial,
                returned,
            ) && #[trigger] applies_to_both(
                log[end - 1],
                context,
                function,
                unit_of(items),
                returned,
                given,
            ),
{
    if let Some(name) = atom_of(args[0]) {
        lemma_function_ends(log, at, name, version);
        if let Run::Done(function, mid) = function_rule(log, at, name, version) {
            if let Run::Done(TypeSignature::SequenceType(items), _) = typed(
                log,
                mid + 1,
                args[1],
                context,
            ) {
                assert(log[mid + 1] == (Exchange::TypeCheck {
                    expr: args[1],
                    context,
                    reply: Ok(TypeSignature::SequenceType(items)),
                }));
                assert(found_sequence(log, at, end, args[1], context, items));
                if let Run::Done(initial, _) = typed(log, mid + 2, args[2], context) {
                    assert(log[mid + 2] == (Exchange::TypeCheck {
                        expr: args[2],
                        context,
                        reply: Ok(initial),
                    }));
                    assert(found(log, at, end, args[2], context, initial));
                    if let Exchange::CheckArgs { reply: Ok(returned), .. } = log[mid + 3] {
                        let item = unit_of(items);
                        let first = log[end - 2];
                        assert(applies_to_both(first, context, function, item, initial, returned));
                        let second = log[end - 1];
                        assert(applies_to_both(second, context, function, item, returned, given));
                    }
                }
            }
        }
    }
}

/// Between `from` and `to`, the sequence at `k` in `args` was found to be at least `n` long.
pub open spec fn no_shorter(
    log: Seq<Exchange>,
    from: int,
    to: int,
    args: Seq<SymbolicExpression>,
    context: TypingContext,
    k: int,
    n: u32,
) -> bool {
    exists|items: SequenceSubtype|
        #[trigger] found_sequence(log, from, to, args[k], context, items) && n <= length_of(items)
}

/// Between `from` and `to`, the sequence at `k` in `args` was found to be `n` long.
pub open spec fn as_long(
    log: Seq<Exchange>,
    from: int,
    to: int,
    args: Seq<SymbolicExpression>,
    context: TypingContext,
    k: int,
    n: u32,
) -> bool {
    exists|items: SequenceSubtype|
        #[trigger] found_sequence(log, from, to, args[k], context, items) && n == length_of(items)
}

/// Between `from` and `to`, `entry` was found to be an item of the sequence at `k` in `args`.
pub open spec fn item_of(
    log: Seq<Exchange>,
    from: int,
    to: int,
    args: Seq<SymbolicExpression>,
    context: TypingContext,
    k: int,
    entry: TypeSignature,
) -> bool {
    exists|items: SequenceSubtype|
        #[trigger] found_sequence(log, from, to, args[k], context, items) && entry == unit_of(items)
}

/// Once the sequences of a `map` have been looked at, each of them has been found to be one, and
/// the shortest is `known.min_args` long. Unless the function failed, the items of each are known.
pub proof fn law_map_looks_at_every_sequence(
    log: Seq<Exchange>,
    at: int,
    args: Seq<SymbolicExpression>,
    context: TypingContext,
    function: FunctionType,
    count: nat,
    known: Mapping,
    end: int,
)
    requires
        0 <= at <= log.len(),
        map_steps(log, at, args, context, function, count) == Run::Done(known, end),
    ensures
        forall|k: int|
            1 <= k <= count ==> #[trigger] no_shorter(
                log,
                at,
                end,
                args,
                context,
                k,
                known.min_args,
            ),
        count > 0 ==> exists|k: int|
            1 <= k <= count && #[trigger] as_long(log, at, end, args, context, k, known.min_args),
        known.failed is None ==> known.entries.len() == count && forall|k: int|
            1 <= k <= count ==> #[trigger] item_of(
                log,
                at,
                end,
                args,
                context,
                k,
                known.entries[k - 1],
            ),
    decreases count,
{
    if count > 0 {
        let last = (count - 1) as nat;
        lemma_map_steps_ends(log, at, args, context, function, last);
        if let Run::Done(before, mid) = map_steps(log, at, args, context, function, last) {
            law_map_looks_at_every_sequence(log, at, args, context, function, last, before, mid);
            let arg = args[count as int];
            lemma_map_step_ends(log, mid, arg, context, function, last as usize, before);
            if let Run::Done(TypeSignature::SequenceType(items), _) = typed(
                log,
                mid,
                arg,
                context,
            ) {
                assert(log[mid] == (Exchange::TypeCheck {
                    expr: arg,
                    context,
                    reply: Ok(TypeSignature::SequenceType(items)),
                }));
                assert(found_sequence(log, at, end, arg, context, items));
                assert forall|k: int, found_items: SequenceSubtype| 1 <= k <= last
                    && #[trigger] found_sequence(log, at, mid, args[k], context, found_items)
                    implies found_sequence(log, at, end, args[k], context, found_items) by {
                }
                assert forall|k: int| 1 <= k <= count implies #[trigger] no_shorter(
                    log,
                    at,
                    end,
                    args,
                    context,
                    k,
                    known.min_args,
                ) by {
                    if k <= last {
                        assert(no_shorter(log, at, mid, args, context, k, before.min_args));
                    }
                }
                if known.min_args == length_of(items) {
                    assert(as_long(log, at, end, args, context, count as int, known.min_args));
                } else {
                    let k = choose|k: int|
                        1 <= k <= last && #[trigger] as_long(
                            log,
                            at,
                            mid,
                            args,
                            context,
                            k,
                            before.min_args,
                        );
                    assert(as_long(log, at, end, args, context, k, known.min_args));
                }
                if known.failed is None {
                    assert forall|k: int| 1 <= k <= count implies #[trigger] item_of(
                        log,
                        at,
                        end,
                        args,
                        context,
                        k,
                        known.entries[k - 1],
                    ) by {
                        if k <= last {
                            assert(item_of(log, at, mid, args, context, k, before.entries[k - 1]));
                        }
                    }
                }
            }
        }
    }
}

/// `map` gives a list as long as the shortest of its sequences, of what its function returns for
/// one item of each.
pub proof fn law_map_is_as_long_as_the_shortest(
    log: Seq<Exchange>,
    at: int,
    args: Seq<SymbolicExpression>,
    context: TypingContext,
    version: ClarityVersion,
    given: TypeSignature,
    end: int,
)
    requires
        0 <= at <= log.len(),
        map_rule(log, at, args, context, version) == Run::Done(given, end),
    ensures
        exists|
            function: FunctionType,
            entries: Seq<TypeSignature>,
            mapped: TypeSignature,
            n: u32,
        |
            given == #[trigger] list_type(mapped, n) && #[trigger] applies(
                log[end - 2],
                context,
                function,
                entries,
                mapped,
            ) && entries.len() == args.len() - 1 && (forall|k: int|
                1 <= k < args.len() ==> #[trigger] item_of(
                    log,
                    at,
                    end,
                    args,
                    context,
                    k,
                    entries[k - 1],
                )) && (forall|k: int|
                1 <= k < args.len() ==> #[trigger] no_shorter(log, at, end, args, context, k, n))
                && (exists|k: int|
                1 <= k < args.len() && #[trigger] as_long(log, at, end, args, context, k, n)),
{
    if let Some(name) = atom_of(args[0]) {
        lemma_function_ends(log, at, name, version);
        if let Run::Done(function, start) = function_rule(log, at, name, version) {
            let count = (args.len() - 1) as nat;
            let begin = start + 1;
            lemma_map_steps_ends(log, begin, args, context, function, count);
            if let Run::Done(known, mid) = map_steps(log, begin, args, context, function, count) {
                law_map_looks_at_every_sequence(
                    log,
                    begin,
                    args,
                    context,
                    function,
                    count,
                    known,
                    mid,
                );
                if let Exchange::CheckArgs { reply: Ok(mapped), .. } = log[mid] {
                    assert forall|k: int, items: SequenceSubtype|
                        #[trigger] found_sequence(log, begin, mid, args[k], context, items) implies
                        found_sequence(log, at, end, args[k], context, items) by {
                    }
                    assert forall|k: int| 1 <= k < args.len() implies #[trigger] item_of(
                        log,
                        at,
                        end,
                        args,
                        context,
                        k,
                        known.entries[k - 1],
                    ) by {
                        assert(item_of(log, begin, mid, args, context, k, known.entries[k - 1]));
                    }
                    assert forall|k: int| 1 <= k < args.len() implies #[trigger] no_shorter(
                        log,
                        at,
                        end,
                        args,
                        context,
                        k,
                        known.min_args,
                    ) by {
                        assert(no_shorter(log, begin, mid, args, context, k, known.min_args));
                    }
                    let k = choose|k: int|
                        1 <= k <= count && #[trigger] as_long(
                            log,
                            begin,
                            mid,
                            args,
                            context,
                            k,
                            known.min_args,
                        );
                    assert(as_long(log, at, end, args, context, k, known.min_args));
                    assert(applies(log[end - 2], context, function, known.entries, mapped));
                    assert(given == list_type(mapped, known.min_args));
                }
            }
        }
    }
}

/// The costs that looking at arguments came to from `from` to `to`, in order.
pub open spec fn visited_costs(log: Seq<Exchange>, from: int, to: int) -> Seq<
    Result<ExecutionCost, CheckError>,
>
    decreases to - from,
{
    if to <= from {
        Seq::empty()
    } else {
        let before = visited_costs(log, from, to - 1);
        match log[to - 1] {
            Exchange::VisitArg { reply, .. } => before + reply.costs,
            _ => before,
        }
    }
}

/// Why a function did not take an argument that was looked at from `from` to `to`, if it did not.
pub open spec fn visit_failure(log: Seq<Exchange>, from: int, to: int) -> Option<CheckError>
    decreases to - from,
{
    if to <= from {
        None
    } else {
        match log[to - 1] {
            Exchange::VisitArg { reply: Visit { outcome: Err(error), .. }, .. } => Some(error),
            _ => visit_failure(log, from, to - 1),
        }
    }
}

/// The first `n` of `costs` were charged in order from `at` on.
pub open spec fn charged_up_to(
    log: Seq<Exchange>,
    at: int,
    costs: Seq<Result<ExecutionCost, CheckError>>,
    n: int,
) -> bool {
    forall|j: int|
        0 <= j < n ==> match #[trigger] costs[j] {
            Ok(cost) => log[at + j] == (Exchange::AddCost { cost, reply: Ok(()) }),
            Err(_) => false,
        }
}

/// The cost at `j` was the first of `costs` that could not be charged, for `error`: it was not
/// known, or charging it was refused. Nothing was asked after that.
pub open spec fn stops_charging(
    log: Seq<Exchange>,
    at: int,
    costs: Seq<Result<ExecutionCost, CheckError>>,
    j: int,
    error: CheckError,
    end: int,
) -> bool {
    &&& 0 <= j < costs.len()
    &&& charged_up_to(log, at, costs, j)
    &&& match costs[j] {
        Err(unknown) => unknown == error && end == at + j,
        Ok(cost) => end == at + j + 1 && log[at + j] == (Exchange::AddCost {
            cost,
            reply: Err(error),
        }),
    }
}

/// `error` is `failure`, which counts and shows `count` arguments where it is about the count of
/// arguments.
pub open spec fn counts_sequences(failure: CheckError, count: usize, error: CheckError) -> bool {
    match *failure.err {
        CheckErrors::IncorrectArgumentCount(expected, _) => {
            let reason = CheckErrors::IncorrectArgumentCount(expected, count);
            &&& *error.err == reason
            &&& error.diagnostic == Diagnostic::Unplaced(Box::new(reason))
            &&& error.expressions == failure.expressions
        },
        _ => error == failure,
    }
}

proof fn lemma_costs_added_outcome(
    log: Seq<Exchange>,
    at: int,
    costs: Seq<Result<ExecutionCost, CheckError>>,
    count: nat,
)
    requires
        count <= costs.len(),
    ensures
        match costs_added(log, at, costs, count) {
            Run::Done(_, end) => end == at + count && charged_up_to(log, at, costs, count as int),
            Run::Failed(error, end) => exists|j: int|
                #[trigger] stops_charging(log, at, costs, j, error, end),
            Run::Off => true,
        },
    decreases count,
{
    if count > 0 {
        let last = (count - 1) as nat;
        lemma_costs_added_outcome(log, at, costs, last);
        if let Run::Done(_, mid) = costs_added(log, at, costs, last) {
            if let Run::Failed(error, end) = costs_added(log, at, costs, count) {
                assert(stops_charging(log, at, costs, last as int, error, end));
            }
        }
    }
}

pub(crate) proof fn lemma_map_steps_visits(
    log: Seq<Exchange>,
    at: int,
    args: Seq<SymbolicExpression>,
    context: TypingContext,
    function: FunctionType,
    count: nat,
)
    requires
        0 <= at <= log.len(),
    ensures
        match map_steps(log, at, args, context, function, count) {
            Run::Done(known, end) => {
                &&& known.costs == visited_costs(log, at, end)
                &&& known.failed == visit_failure(log, at, end)
            },
            _ => true,
        },
    decreases count,
{
    if count > 0 {
        let last = (count - 1) as nat;
        lemma_map_steps_visits(log, at, args, context, function, last);
        lemma_map_steps_ends(log, at, args, context, function, last);
        if let Run::Done(before, mid) = map_steps(log, at, args, context, function, last) {
            reveal_with_fuel(visited_costs, 3);
            reveal_with_fuel(visit_failure, 3);
            if let Run::Done(known, end) = map_steps(log, at, args, context, function, count) {
                assert(known.costs =~= visited_costs(log, at, end));
            }
        }
    }
}

proof fn lemma_visit_failure_within(
    log: Seq<Exchange>,
    from: int,
    to: int,
    begin: int,
    end: int,
)
    requires
        begin <= from,
        to <= end,
        visit_failure(log, from, to) is Some,
    ensures
        visit_failure(log, begin, end) is Some,
    decreases end - begin,
{
    if to < end {
        lemma_visit_failure_within(log, from, to, begin, end - 1);
    } else {
        if visit_failure(log, from, to - 1) is Some {
            lemma_visit_failure_within(log, from, to - 1, begin, end - 1);
        }
    }
}

/// Where the function of a `map` does not take the items of all its sequences, what looking at them
/// came to is charged for, in order, before the error is given. An error about the count of
/// arguments then counts the sequences, and is shown so. The first cost that cannot be charged ends
/// the check with its own error instead.
pub proof fn law_failed_map_is_charged_for(
    log: Seq<Exchange>,
    at: int,
    args: Seq<SymbolicExpression>,
    context: TypingContext,
    version: ClarityVersion,
    name: ClarityName,
    function: FunctionType,
    start: int,
    known: Mapping,
    mid: int,
    failure: CheckError,
)
    requires
        0 <= at <= log.len(),
        args.len() >= 2,
        atom_of(args[0]) == Some(name),
        function_rule(log, at, name, version) == Run::Done(function, start),
        charged(log, start, ClarityCostFunction::AnalysisIterableFunc, args.len() as u64)
            == Run::Done((), start + 1),
        map_steps(log, start + 1, args, context, function, (args.len() - 1) as nat) == Run::Done(
            known,
            mid,
        ),
        visit_failure(log, start + 1, mid) == Some(failure),
    ensures
        match map_rule(log, at, args, context, version) {
            Run::Done(_, _) => false,
            Run::Failed(error, end) => {
                let costs = visited_costs(log, start + 1, mid);
                let count = (args.len() - 1) as usize;
                ||| end == mid + costs.len() && charged_up_to(log, mid, costs, costs.len() as int)
                    && counts_sequences(failure, count, error)
                ||| exists|j: int| #[trigger] stops_charging(log, mid, costs, j, error, end)
            },
            Run::Off => true,
        },
{
    let count = (args.len() - 1) as nat;
    lemma_function_ends(log, at, name, version);
    lemma_map_steps_visits(log, start + 1, args, context, function, count);
    lemma_costs_added_outcome(log, mid, known.costs, known.costs.len());
}

/// `map` adds costs only after its function has not taken the items of a sequence. So one that
/// succeeds adds none.
pub proof fn law_only_failed_maps_add_costs(
    log: Seq<Exchange>,
    at: int,
    args: Seq<SymbolicExpression>,
    context: TypingContext,
    version: ClarityVersion,
)
    requires
        0 <= at <= log.len(),
    ensures
        match map_rule(log, at, args, context, version) {
            Run::Done(_, end) => forall|i: int|
                at <= i < end ==> !(#[trigger] log[i] is AddCost),
            Run::Failed(_, end) => forall|i: int|
                at <= i < end && #[trigger] log[i] is AddCost ==> visit_failure(log, at, i) is Some,
            Run::Off => true,
        },
{
    if let Some(name) = atom_of(args[0]) {
        lemma_function_ends(log, at, name, version);
        if let Run::Done(function, start) = function_rule(log, at, name, version) {
            let iterable = ClarityCostFunction::AnalysisIterableFunc;
            if args.len() >= 2 && charged(log, start, iterable, args.len() as u64) is Done {
                let count = (args.len() - 1) as nat;
                let begin = start + 1;
                lemma_map_steps_ends(log, begin, args, context, function, count);
                lemma_map_steps_visits(log, begin, args, context, function, count);
                if let Run::Done(known, mid) = map_steps(
                    log,
                    begin,
                    args,
                    context,
                    function,
                    count,
                ) {
                    if known.failed is Some {
                        assert forall|i: int| mid <= i implies #[trigger] visit_failure(
                            log,
                            at,
                            i,
                        ) is Some by {
                            lemma_visit_failure_within(log, begin, mid, at, i);
                        }
                    }
                }
            }
        }
    }
}

/// The analysis gave that a function has a rule of its own.
pub open spec fn met_special(exchange: Exchange) -> bool {
    match exchange {
        Exchange::TypeNative { reply: Ok(TypedNativeFunction::Special), .. } => true,
        _ => false,
    }
}

/// A run asks nothing more once it has met a function that has a rule of its own, and fails for
/// the name of that function, which is `function`.
pub open spec fn stops_at_special(
    log: Seq<Exchange>,
    at: int,
    function: SymbolicExpression,
    run: Run<TypeSignature>,
) -> bool {
    match run {
        Run::Done(_, end) => forall|i: int| at <= i < end ==> !met_special(#[trigger] log[i]),
        Run::Failed(error, end) => forall|i: int|
            at <= i < end && met_special(#[trigger] log[i]) ==> i + 1 == end && match atom_of(
                function,
            ) {
                Some(name) => error == failure(
                    CheckErrors::IllegalOrUnknownFunctionApplication(name),
                ),
                None => false,
            },
        Run::Off => true,
    }
}

/// If a function of the contract was looked for at `i`, it was `name`, and just before that, not
/// before `from`, the language was found to have none of that name.
pub open spec fn language_had_none(
    log: Seq<Exchange>,
    from: int,
    i: int,
    name: ClarityName,
    version: ClarityVersion,
) -> bool {
    match log[i] {
        Exchange::LookupUser { name: sought, .. } => from < i && sought == name && log[i - 1] == (
        Exchange::LookupNative { name, version, reply: None }),
        _ => true,
    }
}

/// From `from` to `to`, a function of the contract was looked for only under `name`, and only where
/// the language had none of that name.
pub open spec fn language_first(
    log: Seq<Exchange>,
    from: int,
    to: int,
    name: ClarityName,
    version: ClarityVersion,
) -> bool {
    forall|i: int| from <= i < to ==> #[trigger] language_had_none(log, from, i, name, version)
}

/// The same of a run that applies the function that `function` names.
pub open spec fn looks_to_language_first(
    log: Seq<Exchange>,
    at: int,
    function: SymbolicExpression,
    version: ClarityVersion,
    run: Run<TypeSignature>,
) -> bool {
    match (run, atom_of(function)) {
        (Run::Done(_, end), Some(name)) => language_first(log, at, end, name, version),
        (Run::Failed(_, end), Some(name)) => language_first(log, at, end, name, version),
        (Run::Failed(_, end), None) => end == at,
        (Run::Done(_, _), None) => false,
        (Run::Off, _) => true,
    }
}

proof fn lemma_function_looks_up(
    log: Seq<Exchange>,
    at: int,
    name: ClarityName,
    version: ClarityVersion,
)
    ensures
        match function_rule(log, at, name, version) {
            Run::Done(_, end) => {
                &&& forall|i: int| at <= i < end ==> !met_special(#[trigger] log[i])
                &&& language_first(log, at, end, name, version)
            },
            Run::Failed(error, end) => {
                &&& forall|i: int|
                    at <= i < end && met_special(#[trigger] log[i]) ==> i + 1 == end && error
                        == failure(CheckErrors::IllegalOrUnknownFunctionApplication(name))
                &&& language_first(log, at, end, name, version)
            },
            Run::Off => true,
        },
{
}

proof fn lemma_map_looks_up(
    log: Seq<Exchange>,
    at: int,
    args: Seq<SymbolicExpression>,
    context: TypingContext,
    version: ClarityVersion,
)
    requires
        0 <= at <= log.len(),
    ensures
        stops_at_special(log, at, args[0], map_rule(log, at, args, context, version)),
        looks_to_language_first(
            log,
            at,
            args[0],
            version,
            map_rule(log, at, args, context, version),
        ),
{
    if let Some(name) = atom_of(args[0]) {
        lemma_function_ends(log, at, name, version);
        lemma_function_looks_up(log, at, name, version);
        if let Run::Done(function, found) = function_rule(log, at, name, version) {
            if args.len() >= 2 {
                let count = (args.len() - 1) as nat;
                let iterable = ClarityCostFunction::AnalysisIterableFunc;
                if let Run::Done(_, begin) = charged(log, found, iterable, args.len() as u64) {
                    lemma_map_steps_ends(log, begin, args, context, function, count);
                    let steps = map_steps(log, begin, args, context, function, count);
                    if let Run::Done(known, mid) = steps {
                        if known.failed is Some {
                            lemma_costs_added_ends(log, mid, known.costs, known.costs.len());
                        }
                    }
                }
            }
        }
    }
}

proof fn lemma_filter_looks_up(
    log: Seq<Exchange>,
    at: int,
    args: Seq<SymbolicExpression>,
    context: TypingContext,
    version: ClarityVersion,
)
    requires
        0 <= at <= log.len(),
    ensures
        stops_at_special(log, at, args[0], filter_rule(log, at, args, context, version)),
        looks_to_language_first(
            log,
            at,
            args[0],
            version,
            filter_rule(log, at, args, context, version),
        ),
{
    if let Some(name) = atom_of(args[0]) {
        lemma_function_ends(log, at, name, version);
        lemma_function_looks_up(log, at, name, version);
    }
}

proof fn lemma_fold_looks_up(
    log: Seq<Exchange>,
    at: int,
    args: Seq<SymbolicExpression>,
    context: TypingContext,
    version: ClarityVersion,
)
    requires
        0 <= at <= log.len(),
    ensures
        stops_at_special(log, at, args[0], fold_rule(log, at, args, context, version)),
        looks_to_language_first(
            log,
            at,
            args[0],
            version,
            fold_rule(log, at, args, context, version),
        ),
{
    if let Some(name) = atom_of(args[0]) {
        lemma_function_ends(log, at, name, version);
        lemma_function_looks_up(log, at, name, version);
    }
}

/// A function that has a rule of its own is never applied to items: the check that meets one
/// fails for its name, and asks nothing more.
pub proof fn law_special_functions_are_not_applied(
    native: Native,
    log: Seq<Exchange>,
    at: int,
    args: Seq<SymbolicExpression>,
    context: TypingContext,
    version: ClarityVersion,
)
    requires
        native is MapItems || native is Filter || native is Fold,
        0 <= at <= log.len(),
    ensures
        stops_at_special(
            log,
            at,
            args[0],
            rule_of(native, log, at, args, context, version),
        ),
{
    match native {
        Native::MapItems => lemma_map_looks_up(log, at, args, context, version),
        Native::Filter => lemma_filter_looks_up(log, at, args, context, version),
        _ => lemma_fold_looks_up(log, at, args, context, version),
    }
}

/// `map`, `filter` and `fold` look for a function of the contract only where the language has none
/// of its name, whatever comes of it.
pub proof fn law_contracts_do_not_redefine_the_language(
    native: Native,
    log: Seq<Exchange>,
    at: int,
    args: Seq<SymbolicExpression>,
    context: TypingContext,
    version: ClarityVersion,
)
    requires
        native is MapItems || native is Filter || native is Fold,
        0 <= at <= log.len(),
    ensures
        looks_to_language_first(
            log,
            at,
            args[0],
            version,
            rule_of(native, log, at, args, context, version),
        ),
{
    match native {
        Native::MapItems => lemma_map_looks_up(log, at, args, context, version),
        Native::Filter => lemma_filter_looks_up(log, at, args, context, version),
        _ => lemma_fold_looks_up(log, at, args, context, version),
    }
}

/// A function of the contract is found only where the language has none of its name, and looked
/// for only there, whatever comes of it.
pub proof fn law_the_language_is_looked_to_first(
    log: Seq<Exchange>,
    at: int,
    name: ClarityName,
    version: ClarityVersion,
)
    ensures
        match function_rule(log, at, name, version) {
            Run::Done(function, end) => {
                &&& language_first(log, at, end, name, version)
                &&& log[end - 1] is LookupUser ==> log[end - 1] == (Exchange::LookupUser {
                    name,
                    reply: Some(function),
                })
            },
            Run::Failed(_, end) => language_first(log, at, end, name, version),
            Run::Off => true,
        },
{
}

} // verus!
