//! What `map` comes to, told from the questions and answers themselves.

use vstd::prelude::*;

use crate::analysis::{ClarityCostFunction, ExecutionCost, FunctionType, TypingContext};
use crate::applying::{
    charged_up_to, counts_sequences, lemma_map_steps_visits, stops_charging, visited_costs,
};
use crate::endings::{
    lemma_costs_added_ends, lemma_function_ends, lemma_map_step_ends, lemma_map_steps_ends,
};
use crate::errors::{failure, CheckError, CheckErrors};
use crate::kept::{lemma_costs_added_stops, lemma_map_steps_stops};
use crate::laws::{rule_of, Native};
use crate::outcomes::{charged_iterating, gave_type, holds, returned_for};
use crate::record::{charged, Exchange};
use crate::representations::{
    atom_of, ClarityName, ClarityVersion, SymbolicExpression, SymbolicExpressionType,
};
use crate::rules::{
    costs_added, filter_rule, fold_rule, function_rule, map_rule, map_steps,
};
use crate::run::Run;
use crate::signatures::{length_of, unit_of, ListTypeData, SequenceSubtype, TypeSignature};

verus! {

/// The last type in the first `k` of `returned`, if there is one.
pub open spec fn latest(returned: Seq<Option<TypeSignature>>, k: int) -> Option<TypeSignature>
    decreases k,
{
    if k <= 0 {
        None
    } else {
        match returned[k - 1] {
            Some(found) => Some(found),
            None => latest(returned, k - 1),
        }
    }
}

/// At `i`, `function` was shown an item of `items` as its argument at `k`, with the last that it
/// had returned before, and that came to `outcome`.
pub open spec fn shown_item(
    log: Seq<Exchange>,
    i: int,
    function: FunctionType,
    items: SequenceSubtype,
    returned: Seq<Option<TypeSignature>>,
    k: int,
    outcome: Result<Option<TypeSignature>, CheckError>,
) -> bool {
    &&& 0 <= i < log.len()
    &&& match log[i] {
        Exchange::VisitArg { function: f, arg, index, accumulated, reply } => f == function && arg
            == unit_of(items) && index == k as usize && accumulated == latest(returned, k)
            && reply.outcome == outcome,
        _ => false,
    }
}

/// The sequence at `k`, which follows the function in `args`, was found to be `items[k]`, and the
/// function took an item of it.
pub open spec fn took_item(
    log: Seq<Exchange>,
    begin: int,
    args: Seq<SymbolicExpression>,
    context: TypingContext,
    function: FunctionType,
    items: Seq<SequenceSubtype>,
    returned: Seq<Option<TypeSignature>>,
    k: int,
) -> bool {
    &&& gave_type(
        log,
        begin + 2 * k,
        args[k + 1],
        context,
        TypeSignature::SequenceType(items[k]),
    )
    &&& shown_item(log, begin + 2 * k + 1, function, items[k], returned, k, Ok(returned[k]))
}

/// The function took an item of each of the first `n` sequences.
pub open spec fn took_items(
    log: Seq<Exchange>,
    begin: int,
    args: Seq<SymbolicExpression>,
    context: TypingContext,
    function: FunctionType,
    items: Seq<SequenceSubtype>,
    returned: Seq<Option<TypeSignature>>,
    n: int,
) -> bool {
    forall|k: int|
        0 <= k < n ==> #[trigger] took_item(
            log,
            begin,
            args,
            context,
            function,
            items,
            returned,
            k,
        )
}

/// After the function did not take an item of the sequence at `f`, the sequence at `k` was found to
/// be `items[k]`, and no item of it was shown to the function.
pub open spec fn passed_by(
    log: Seq<Exchange>,
    begin: int,
    args: Seq<SymbolicExpression>,
    context: TypingContext,
    items: Seq<SequenceSubtype>,
    f: int,
    k: int,
) -> bool {
    gave_type(
        log,
        begin + f + 1 + k,
        args[k + 1],
        context,
        TypeSignature::SequenceType(items[k]),
    )
}

/// The function took an item of each sequence before the one at `f`, and did not take one of that,
/// for `failed`. Up to `n`, those after it are sequences too.
pub open spec fn failed_at(
    log: Seq<Exchange>,
    begin: int,
    args: Seq<SymbolicExpression>,
    context: TypingContext,
    function: FunctionType,
    items: Seq<SequenceSubtype>,
    returned: Seq<Option<TypeSignature>>,
    f: int,
    failed: CheckError,
    n: int,
) -> bool {
    &&& 0 <= f < n
    &&& took_items(log, begin, args, context, function, items, returned, f)
    &&& gave_type(
        log,
        begin + 2 * f,
        args[f + 1],
        context,
        TypeSignature::SequenceType(items[f]),
    )
    &&& shown_item(log, begin + 2 * f + 1, function, items[f], returned, f, Err(failed))
    &&& forall|k: int|
        f < k < n ==> #[trigger] passed_by(log, begin, args, context, items, f, k)
}

/// `n` is the least of the lengths of `items`.
pub open spec fn is_shortest(items: Seq<SequenceSubtype>, n: u32) -> bool {
    &&& forall|k: int| 0 <= k < items.len() ==> n <= length_of(#[trigger] items[k])
    &&& exists|k: int| 0 <= k < items.len() && n == length_of(#[trigger] items[k])
}

/// `entries` are the types of one item of each of `items`.
pub open spec fn one_of_each(items: Seq<SequenceSubtype>, entries: Seq<TypeSignature>) -> bool {
    &&& entries.len() == items.len()
    &&& forall|k: int| 0 <= k < items.len() ==> #[trigger] entries[k] == unit_of(items[k])
}

/// `map` has looked up the function that its first argument names, and was charged for it by the
/// count of its arguments.
pub open spec fn began(
    log: Seq<Exchange>,
    at: int,
    args: Seq<SymbolicExpression>,
    version: ClarityVersion,
    name: ClarityName,
    function: FunctionType,
    begin: int,
) -> bool {
    &&& 0 <= at <= log.len()
    &&& args.len() >= 2
    &&& args[0].expr == SymbolicExpressionType::Atom(name)
    &&& function_rule(log, at, name, version) == Run::Done(function, begin - 1)
    &&& charged_iterating(log, begin - 1, args.len() as u64)
}

proof fn lemma_took_items(
    log: Seq<Exchange>,
    begin: int,
    args: Seq<SymbolicExpression>,
    context: TypingContext,
    function: FunctionType,
    items: Seq<SequenceSubtype>,
    returned: Seq<Option<TypeSignature>>,
    n: nat,
)
    requires
        0 <= begin,
        n <= items.len(),
        took_items(log, begin, args, context, function, items, returned, n as int),
    ensures
        match map_steps(log, begin, args, context, function, n) {
            Run::Done(known, end) => {
                &&& end == begin + 2 * n
                &&& known.failed is None
                &&& known.accumulated == latest(returned, n as int)
                &&& one_of_each(items.take(n as int), known.entries)
                &&& n > 0 ==> is_shortest(items.take(n as int), known.min_args)
                &&& n == 0 ==> known.min_args == u32::MAX
            },
            _ => false,
        },
    decreases n,
{
    if n > 0 {
        let last = (n - 1) as nat;
        lemma_took_items(log, begin, args, context, function, items, returned, last);
        assert(took_item(log, begin, args, context, function, items, returned, last as int));
        let part = items.take(n as int);
        let before = items.take(last as int);
        assert(part =~= before.push(items[last as int]));
        if let Run::Done(known, _) = map_steps(log, begin, args, context, function, n) {
            assert(part[last as int] == items[last as int]);
            assert forall|k: int| 0 <= k < part.len() implies known.min_args <= length_of(
                #[trigger] part[k],
            ) by {
                if k < last {
                    assert(part[k] == before[k]);
                }
            }
            if known.min_args != length_of(items[last as int]) {
                if let Run::Done(earlier, _) = map_steps(
                    log,
                    begin,
                    args,
                    context,
                    function,
                    last,
                ) {
                    let k = choose|k: int|
                        0 <= k < before.len() && earlier.min_args == length_of(
                            #[trigger] before[k],
                        );
                    assert(part[k] == before[k]);
                }
            }
            assert forall|k: int| 0 <= k < part.len() implies #[trigger] known.entries[k]
                == unit_of(part[k]) by {
                if k < last {
                    assert(part[k] == before[k]);
                }
            }
        }
    }
}

proof fn lemma_failed_at(
    log: Seq<Exchange>,
    begin: int,
    args: Seq<SymbolicExpression>,
    context: TypingContext,
    function: FunctionType,
    items: Seq<SequenceSubtype>,
    returned: Seq<Option<TypeSignature>>,
    f: int,
    failed: CheckError,
    n: nat,
)
    requires
        0 <= begin,
        n <= items.len(),
        failed_at(log, begin, args, context, function, items, returned, f, failed, n as int),
    ensures
        match map_steps(log, begin, args, context, function, n) {
            Run::Done(known, end) => end == begin + f + 1 + n && known.failed == Some(failed),
            _ => false,
        },
    decreases n,
{
    let last = (n - 1) as nat;
    if f == last {
        lemma_took_items(log, begin, args, context, function, items, returned, last);
    } else {
        lemma_failed_at(log, begin, args, context, function, items, returned, f, failed, last);
        assert(passed_by(log, begin, args, context, items, f, last as int));
    }
}

/// `map` takes sequences of any kinds, as many as there are. Where the function that its first
/// argument names takes an item of each in turn and returns `mapped` for one of each, `map` gives a
/// list of that, as long as the shortest of them. Where such a list may not be formed, it is
/// refused as too large.
pub proof fn law_map_takes_any_sequences(
    log: Seq<Exchange>,
    at: int,
    args: Seq<SymbolicExpression>,
    context: TypingContext,
    version: ClarityVersion,
    name: ClarityName,
    function: FunctionType,
    begin: int,
    items: Seq<SequenceSubtype>,
    returned: Seq<Option<TypeSignature>>,
    entries: Seq<TypeSignature>,
    mapped: TypeSignature,
    shortest: u32,
    reply: Result<(), CheckErrors>,
)
    requires
        began(log, at, args, version, name, function, begin),
        items.len() == args.len() - 1,
        took_items(log, begin, args, context, function, items, returned, items.len() as int),
        one_of_each(items, entries),
        is_shortest(items, shortest),
        returned_for(log, begin + 2 * items.len(), function, entries, context, mapped),
        holds(
            log,
            begin + 2 * items.len() + 1,
            Exchange::AdmitList { entry: mapped, max_len: shortest, reply },
        ),
    ensures
        reply is Ok ==> map_rule(log, at, args, context, version) == Run::Done(
            TypeSignature::SequenceType(
                SequenceSubtype::ListType(
                    ListTypeData { entry_type: Box::new(mapped), max_len: shortest },
                ),
            ),
            begin + 2 * items.len() + 2,
        ),
        reply is Err ==> map_rule(log, at, args, context, version) == Run::<
            TypeSignature,
        >::Failed(
            failure(CheckErrors::ConstructedListTooLarge),
            begin + 2 * items.len() + 2,
        ),
{
    lemma_function_ends(log, at, name, version);
    lemma_took_items(log, begin, args, context, function, items, returned, items.len());
    assert(items.take(items.len() as int) =~= items);
    if let Run::Done(known, _) = map_steps(log, begin, args, context, function, items.len()) {
        assert(known.entries =~= entries) by {
            assert forall|k: int| 0 <= k < entries.len() implies known.entries[k] == entries[k] by {
                assert(known.entries[k] == unit_of(items[k]));
                assert(entries[k] == unit_of(items[k]));
            }
        }
        let k = choose|k: int| 0 <= k < items.len() && shortest == length_of(#[trigger] items[k]);
        let j = choose|j: int|
            0 <= j < items.len() && known.min_args == length_of(#[trigger] items[j]);
        assert(shortest <= length_of(items[j]) && known.min_args <= length_of(items[k]));
    }
}

/// `map` refuses what is no sequence as soon as it is found not to be one, and charges for nothing
/// more. That is so after the function has taken an item of each before it, and also after it has
/// not.
pub proof fn law_map_needs_sequences(
    log: Seq<Exchange>,
    at: int,
    args: Seq<SymbolicExpression>,
    context: TypingContext,
    version: ClarityVersion,
    name: ClarityName,
    function: FunctionType,
    begin: int,
    items: Seq<SequenceSubtype>,
    returned: Seq<Option<TypeSignature>>,
    f: int,
    failed: CheckError,
    found: TypeSignature,
)
    requires
        began(log, at, args, version, name, function, begin),
        items.len() < args.len() - 1,
        !(found is SequenceType),
    ensures
        took_items(log, begin, args, context, function, items, returned, items.len() as int)
            && gave_type(log, begin + 2 * items.len(), args[items.len() as int + 1], context, found)
            ==> map_rule(log, at, args, context, version) == Run::<TypeSignature>::Failed(
            failure(CheckErrors::ExpectedSequence(Box::new(found))),
            begin + 2 * items.len() + 1,
        ),
        failed_at(
            log,
            begin,
            args,
            context,
            function,
            items,
            returned,
            f,
            failed,
            items.len() as int,
        ) && gave_type(
            log,
            begin + f + 1 + items.len(),
            args[items.len() as int + 1],
            context,
            found,
        ) ==> map_rule(log, at, args, context, version) == Run::<TypeSignature>::Failed(
            failure(CheckErrors::ExpectedSequence(Box::new(found))),
            begin + f + 2 + items.len(),
        ),
{
    let n = items.len();
    let all = (args.len() - 1) as nat;
    lemma_function_ends(log, at, name, version);
    if took_items(log, begin, args, context, function, items, returned, n as int) && gave_type(
        log,
        begin + 2 * n,
        args[n as int + 1],
        context,
        found,
    ) {
        lemma_took_items(log, begin, args, context, function, items, returned, n);
        lemma_map_steps_stops(log, begin, args, context, function, n + 1, all);
    }
    if failed_at(log, begin, args, context, function, items, returned, f, failed, n as int)
        && gave_type(log, begin + f + 1 + n, args[n as int + 1], context, found) {
        lemma_failed_at(log, begin, args, context, function, items, returned, f, failed, n);
        lemma_map_steps_stops(log, begin, args, context, function, n + 1, all);
    }
}

proof fn lemma_costs_charged(
    log: Seq<Exchange>,
    at: int,
    costs: Seq<Result<ExecutionCost, CheckError>>,
    n: nat,
)
    requires
        0 <= at,
        n <= costs.len(),
        at + n <= log.len(),
        charged_up_to(log, at, costs, n as int),
    ensures
        costs_added(log, at, costs, n) == Run::Done((), at + n),
    decreases n,
{
    if n > 0 {
        lemma_costs_charged(log, at, costs, (n - 1) as nat);
        assert(costs[n - 1] is Ok);
    }
}

/// Where the function of a `map` does not take an item of one of the sequences, those after it are
/// still looked at, and then all that looking came to is charged for, in order. Then the error is
/// given, which counts the sequences where it is about the count of arguments. The first cost that
/// cannot be charged ends the check with its own error instead.
pub proof fn law_map_charges_for_what_failed(
    log: Seq<Exchange>,
    at: int,
    args: Seq<SymbolicExpression>,
    context: TypingContext,
    version: ClarityVersion,
    name: ClarityName,
    function: FunctionType,
    begin: int,
    items: Seq<SequenceSubtype>,
    returned: Seq<Option<TypeSignature>>,
    f: int,
    failed: CheckError,
    mid: int,
)
    requires
        began(log, at, args, version, name, function, begin),
        items.len() == args.len() - 1,
        failed_at(
            log,
            begin,
            args,
            context,
            function,
            items,
            returned,
            f,
            failed,
            items.len() as int,
        ),
        mid == begin + f + 1 + items.len(),
    ensures
        ({
            let costs = visited_costs(log, begin, mid);
            let count = (args.len() - 1) as usize;
            mid + costs.len() <= log.len() && charged_up_to(log, mid, costs, costs.len() as int)
                ==> match map_rule(log, at, args, context, version) {
                Run::Failed(error, end) => end == mid + costs.len() && counts_sequences(
                    failed,
                    count,
                    error,
                ),
                _ => false,
            }
        }),
        forall|j: int, error: CheckError, end: int|
            end <= log.len() && #[trigger] stops_charging(
                log,
                mid,
                visited_costs(log, begin, mid),
                j,
                error,
                end,
            ) ==> map_rule(log, at, args, context, version) == Run::<TypeSignature>::Failed(
                error,
                end,
            ),
{
    let n = items.len();
    lemma_function_ends(log, at, name, version);
    lemma_failed_at(log, begin, args, context, function, items, returned, f, failed, n);
    lemma_map_steps_visits(log, begin, args, context, function, n);
    let costs = visited_costs(log, begin, mid);
    if mid + costs.len() <= log.len() && charged_up_to(log, mid, costs, costs.len() as int) {
        lemma_costs_charged(log, mid, costs, costs.len());
    }
    assert forall|j: int, error: CheckError, end: int|
        end <= log.len() && #[trigger] stops_charging(log, mid, costs, j, error, end) implies
        map_rule(log, at, args, context, version) == Run::<TypeSignature>::Failed(error, end) by {
        lemma_costs_charged(log, mid, costs, j as nat);
        assert(costs_added(log, mid, costs, (j + 1) as nat) == Run::<()>::Failed(error, end));
        lemma_costs_added_stops(log, mid, costs, (j + 1) as nat, costs.len());
    }
}

/// `map` needs a name to apply, and fails as the looking up of that name does.
pub proof fn law_map_needs_a_function(
    log: Seq<Exchange>,
    at: int,
    args: Seq<SymbolicExpression>,
    context: TypingContext,
    version: ClarityVersion,
)
    requires
        args.len() >= 2,
    ensures
        match args[0].expr {
            SymbolicExpressionType::Atom(name) => match function_rule(log, at, name, version) {
                Run::Failed(error, end) => map_rule(log, at, args, context, version) == Run::<
                    TypeSignature,
                >::Failed(error, end),
                _ => true,
            },
            _ => map_rule(log, at, args, context, version) == Run::<TypeSignature>::Failed(
                failure(CheckErrors::NonFunctionApplication),
                at,
            ),
        },
{
}

/// If a function was applied to items here, it was `function`.
pub open spec fn applies_this(exchange: Exchange, function: FunctionType) -> bool {
    match exchange {
        Exchange::CheckArgs { function: used, .. } => used == function,
        Exchange::VisitArg { function: used, .. } => used == function,
        _ => true,
    }
}

/// From `from` to `to`, no function was applied to items but `function`.
pub open spec fn applies_only(
    log: Seq<Exchange>,
    from: int,
    to: int,
    function: FunctionType,
) -> bool {
    forall|i: int| from <= i < to ==> applies_this(#[trigger] log[i], function)
}

/// A run applies the function that the name `function` was found to stand for, and no other. One
/// that succeeds has found it.
pub open spec fn applies_the_named(
    log: Seq<Exchange>,
    at: int,
    function: SymbolicExpression,
    version: ClarityVersion,
    run: Run<TypeSignature>,
) -> bool {
    match function.expr {
        SymbolicExpressionType::Atom(name) => match (run, function_rule(log, at, name, version)) {
            (Run::Done(_, end), Run::Done(found, _)) => applies_only(log, at, end, found),
            (Run::Failed(_, end), Run::Done(found, _)) => applies_only(log, at, end, found),
            (Run::Done(_, _), _) => false,
            _ => true,
        },
        _ => !(run is Done),
    }
}

proof fn lemma_map_steps_apply(
    log: Seq<Exchange>,
    at: int,
    args: Seq<SymbolicExpression>,
    context: TypingContext,
    function: FunctionType,
    count: nat,
)
    requires
        0 <= at <= log.len(),
    ensures
        match map_steps(log, at, args, context, function, count) {
            Run::Done(_, end) => applies_only(log, at, end, function),
            Run::Failed(_, end) => applies_only(log, at, end, function),
            Run::Off => true,
        },
    decreases count,
{
    if count > 0 {
        let last = (count - 1) as nat;
        lemma_map_steps_apply(log, at, args, context, function, last);
        lemma_map_steps_ends(log, at, args, context, function, last);
        if let Run::Done(known, mid) = map_steps(log, at, args, context, function, last) {
            let arg = args[count as int];
            lemma_map_step_ends(log, mid, arg, context, function, last as usize, known);
        }
    }
}

proof fn lemma_map_applies(
    log: Seq<Exchange>,
    at: int,
    args: Seq<SymbolicExpression>,
    context: TypingContext,
    version: ClarityVersion,
)
    requires
        0 <= at <= log.len(),
    ensures
        applies_the_named(
            log,
            at,
            args[0],
            version,
            map_rule(log, at, args, context, version),
        ),
{
    if let Some(name) = atom_of(args[0]) {
        lemma_function_ends(log, at, name, version);
        if let Run::Done(function, start) = function_rule(log, at, name, version) {
            let iterable = ClarityCostFunction::AnalysisIterableFunc;
            if args.len() >= 2 && charged(log, start, iterable, args.len() as u64) is Done {
                let begin = start + 1;
                let count = (args.len() - 1) as nat;
                lemma_map_steps_ends(log, begin, args, context, function, count);
                lemma_map_steps_apply(log, begin, args, context, function, count);
                let steps = map_steps(log, begin, args, context, function, count);
                if let Run::Done(known, mid) = steps {
                    lemma_costs_added_ends(log, mid, known.costs, known.costs.len());
                }
            }
        }
    }
}

proof fn lemma_filter_applies(
    log: Seq<Exchange>,
    at: int,
    args: Seq<SymbolicExpression>,
    context: TypingContext,
    version: ClarityVersion,
)
    requires
        0 <= at <= log.len(),
    ensures
        applies_the_named(
            log,
            at,
            args[0],
            version,
            filter_rule(log, at, args, context, version),
        ),
{
    if let Some(name) = atom_of(args[0]) {
        lemma_function_ends(log, at, name, version);
    }
}

proof fn lemma_fold_applies(
    log: Seq<Exchange>,
    at: int,
    args: Seq<SymbolicExpression>,
    context: TypingContext,
    version: ClarityVersion,
)
    requires
        0 <= at <= log.len(),
    ensures
        applies_the_named(
            log,
            at,
            args[0],
            version,
            fold_rule(log, at, args, context, version),
        ),
{
    if let Some(name) = atom_of(args[0]) {
        lemma_function_ends(log, at, name, version);
    }
}

/// The function that `map`, `filter` and `fold` apply is the one that their first argument names,
/// every time, and no other.
pub proof fn law_the_named_function_is_applied(
    native: Native,
    log: Seq<Exchange>,
    at: int,
    args: Seq<SymbolicExpression>,
    context: TypingContext,
    version: ClarityVersion,
)
    requires
        native is MapItems || native is Filter || native is Fold,
        0 <= at <= log.len(),
    ensures
        applies_the_named(
            log,
            at,
            args[0],
            version,
            rule_of(native, log, at, args, context, version),
        ),
{
    match native {
        Native::MapItems => lemma_map_applies(log, at, args, context, version),
        Native::Filter => lemma_filter_applies(log, at, args, context, version),
        _ => lemma_fold_applies(log, at, args, context, version),
    }
}

} // verus!
