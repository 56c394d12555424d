//! Checks are determined by the answers that they get.

use vstd::prelude::*;

use crate::analysis::{ClarityCostFunction, ExecutionCost, FunctionType, TypingContext};
use crate::endings::{lemma_costs_added_ends, lemma_function_ends, lemma_map_steps_ends};
use crate::errors::CheckError;
use crate::laws::{rule_of, Native};
use crate::record::{charged, Exchange};
use crate::representations::{atom_of, ClarityName, ClarityVersion, SymbolicExpression};
use crate::rules::{
    append_rule, as_max_len_rule, concat_rule, costs_added, element_at_rule, filter_rule, fold_rule,
    from_consensus_buff_rule, function_rule, index_of_rule, len_rule, map_end, map_rule, map_steps,
    replace_at_rule, slice_rule, to_consensus_buff_rule, Mapping,
};
use crate::run::Run;

verus! {

/// Two exchanges with one question.
pub open spec fn same_question(one: Exchange, other: Exchange) -> bool {
    match (one, other) {
        (
            Exchange::RuntimeCost { function: function1, input: input1, .. },
            Exchange::RuntimeCost { function: function2, input: input2, .. },
        ) => function1 == function2 && input1 == input2,
        (
            Exchange::AddCost { cost: cost1, .. },
            Exchange::AddCost { cost: cost2, .. },
        ) => cost1 == cost2,
        (
            Exchange::TypecheckCost { left: left1, right: right1, .. },
            Exchange::TypecheckCost { left: left2, right: right2, .. },
        ) => left1 == left2 && right1 == right2,
        (
            Exchange::LookupNative { name: name1, version: version1, .. },
            Exchange::LookupNative { name: name2, version: version2, .. },
        ) => name1 == name2 && version1 == version2,
        (
            Exchange::TypeNative { function: function1, .. },
            Exchange::TypeNative { function: function2, .. },
        ) => function1 == function2,
        (
            Exchange::LookupUser { name: name1, .. },
            Exchange::LookupUser { name: name2, .. },
        ) => name1 == name2,
        (
            Exchange::TypeCheck { expr: expr1, context: context1, .. },
            Exchange::TypeCheck { expr: expr2, context: context2, .. },
        ) => expr1 == expr2 && context1 == context2,
        (
            Exchange::TypeCheckExpects { expr: expr1, context: context1, expected: expected1, .. },
            Exchange::TypeCheckExpects { expr: expr2, context: context2, expected: expected2, .. },
        ) => expr1 == expr2 && context1 == context2 && expected1 == expected2,
        (
            Exchange::SetType { expr: expr1, found: found1, .. },
            Exchange::SetType { expr: expr2, found: found2, .. },
        ) => expr1 == expr2 && found1 == found2,
        (
            Exchange::CheckArgs {
                function: function1,
                args: args1,
                epoch: epoch1,
                version: version1,
                ..
            },
            Exchange::CheckArgs {
                function: function2,
                args: args2,
                epoch: epoch2,
                version: version2,
                ..
            },
        ) => function1 == function2 && args1 == args2 && epoch1 == epoch2 && version1 == version2,
        (
            Exchange::VisitArg {
                function: function1,
                arg: arg1,
                index: index1,
                accumulated: accumulated1,
                ..
            },
            Exchange::VisitArg {
                function: function2,
                arg: arg2,
                index: index2,
                accumulated: accumulated2,
                ..
            },
        ) => function1 == function2 && arg1 == arg2 && index1 == index2 && accumulated1
            == accumulated2,
        (
            Exchange::LeastSupertype { epoch: epoch1, left: left1, right: right1, .. },
            Exchange::LeastSupertype { epoch: epoch2, left: left2, right: right2, .. },
        ) => epoch1 == epoch2 && left1 == left2 && right1 == right2,
        (
            Exchange::AdmitList { entry: entry1, max_len: max_len1, .. },
            Exchange::AdmitList { entry: entry2, max_len: max_len2, .. },
        ) => entry1 == entry2 && max_len1 == max_len2,
        (
            Exchange::AdmitOption { inner: inner1, .. },
            Exchange::AdmitOption { inner: inner2, .. },
        ) => inner1 == inner2,
        (
            Exchange::TypeSize { of: of1, .. },
            Exchange::TypeSize { of: of2, .. },
        ) => of1 == of2,
        (
            Exchange::MaxSerializedSize { of: of1, .. },
            Exchange::MaxSerializedSize { of: of2, .. },
        ) => of1 == of2,
        (
            Exchange::ParseType { epoch: epoch1, expr: expr1, .. },
            Exchange::ParseType { epoch: epoch2, expr: expr2, .. },
        ) => epoch1 == epoch2 && expr1 == expr2,
        _ => false,
    }
}

/// Read from `at` and from `from` on, the records have one answer wherever they have one question
/// in one place.
pub open spec fn answers_agree(
    log: Seq<Exchange>,
    at: int,
    other: Seq<Exchange>,
    from: int,
) -> bool {
    forall|i: int, j: int|
        #![trigger log[i], other[j]]
        at <= i < log.len() && from <= j < other.len() && i - at == j - from && same_question(
            log[i],
            other[j],
        ) ==> log[i] == other[j]
}

/// Two runs, from `at` and from `from` on, that come to the same in as many steps.
pub open spec fn same_course<T>(run: Run<T>, at: int, other: Run<T>, from: int) -> bool {
    match (run, other) {
        (Run::Done(value1, end1), Run::Done(value2, end2)) => value1 == value2 && end1 - at == end2
            - from,
        (Run::Failed(error1, end1), Run::Failed(error2, end2)) => error1 == error2 && end1 - at
            == end2 - from,
        _ => false,
    }
}

proof fn lemma_function_determined(
    log: Seq<Exchange>,
    at: int,
    other: Seq<Exchange>,
    from: int,
    name: ClarityName,
    version: ClarityVersion,
)
    requires
        0 <= at,
        0 <= from,
        answers_agree(log, at, other, from),
        function_rule(log, at, name, version) !is Off,
        function_rule(other, from, name, version) !is Off,
    ensures
        same_course(
            function_rule(log, at, name, version),
            at,
            function_rule(other, from, name, version),
            from,
        ),
{
}

proof fn lemma_filter_determined(
    log: Seq<Exchange>,
    at: int,
    other: Seq<Exchange>,
    from: int,
    args: Seq<SymbolicExpression>,
    context: TypingContext,
    version: ClarityVersion,
)
    requires
        0 <= at,
        0 <= from,
        answers_agree(log, at, other, from),
        filter_rule(log, at, args, context, version) !is Off,
        filter_rule(other, from, args, context, version) !is Off,
    ensures
        same_course(
            filter_rule(log, at, args, context, version),
            at,
            filter_rule(other, from, args, context, version),
            from,
        ),
{
    if args.len() == 2 {
        if let Some(name) = atom_of(args[0]) {
            lemma_function_determined(log, at, other, from, name, version);
        }
    }
}

proof fn lemma_fold_determined(
    log: Seq<Exchange>,
    at: int,
    other: Seq<Exchange>,
    from: int,
    args: Seq<SymbolicExpression>,
    context: TypingContext,
    version: ClarityVersion,
)
    requires
        0 <= at,
        0 <= from,
        answers_agree(log, at, other, from),
        fold_rule(log, at, args, context, version) !is Off,
        fold_rule(other, from, args, context, version) !is Off,
    ensures
        same_course(
            fold_rule(log, at, args, context, version),
            at,
            fold_rule(other, from, args, context, version),
            from,
        ),
{
    if args.len() == 3 {
        if let Some(name) = atom_of(args[0]) {
            lemma_function_determined(log, at, other, from, name, version);
        }
    }
}

proof fn lemma_concat_determined(
    log: Seq<Exchange>,
    at: int,
    other: Seq<Exchange>,
    from: int,
    args: Seq<SymbolicExpression>,
    context: TypingContext,
)
    requires
        0 <= at,
        0 <= from,
        answers_agree(log, at, other, from),
        concat_rule(log, at, args, context) !is Off,
        concat_rule(other, from, args, context) !is Off,
    ensures
        same_course(
            concat_rule(log, at, args, context),
            at,
            concat_rule(other, from, args, context),
            from,
        ),
{
}

proof fn lemma_append_determined(
    log: Seq<Exchange>,
    at: int,
    other: Seq<Exchange>,
    from: int,
    args: Seq<SymbolicExpression>,
    context: TypingContext,
)
    requires
        0 <= at,
        0 <= from,
        answers_agree(log, at, other, from),
        append_rule(log, at, args, context) !is Off,
        append_rule(other, from, args, context) !is Off,
    ensures
        same_course(
            append_rule(log, at, args, context),
            at,
            append_rule(other, from, args, context),
            from,
        ),
{
}

proof fn lemma_as_max_len_determined(
    log: Seq<Exchange>,
    at: int,
    other: Seq<Exchange>,
    from: int,
    args: Seq<SymbolicExpression>,
    context: TypingContext,
)
    requires
        0 <= at,
        0 <= from,
        answers_agree(log, at, other, from),
        as_max_len_rule(log, at, args, context) !is Off,
        as_max_len_rule(other, from, args, context) !is Off,
    ensures
        same_course(
            as_max_len_rule(log, at, args, context),
            at,
            as_max_len_rule(other, from, args, context),
            from,
        ),
{
}

proof fn lemma_len_determined(
    log: Seq<Exchange>,
    at: int,
    other: Seq<Exchange>,
    from: int,
    args: Seq<SymbolicExpression>,
    context: TypingContext,
)
    requires
        0 <= at,
        0 <= from,
        answers_agree(log, at, other, from),
        len_rule(log, at, args, context) !is Off,
        len_rule(other, from, args, context) !is Off,
    ensures
        same_course(
            len_rule(log, at, args, context),
            at,
            len_rule(other, from, args, context),
            from,
        ),
{
}

proof fn lemma_element_at_determined(
    log: Seq<Exchange>,
    at: int,
    other: Seq<Exchange>,
    from: int,
    args: Seq<SymbolicExpression>,
    context: TypingContext,
)
    requires
        0 <= at,
        0 <= from,
        answers_agree(log, at, other, from),
        element_at_rule(log, at, args, context) !is Off,
        element_at_rule(other, from, args, context) !is Off,
    ensures
        same_course(
            element_at_rule(log, at, args, context),
            at,
            element_at_rule(other, from, args, context),
            from,
        ),
{
}

proof fn lemma_index_of_determined(
    log: Seq<Exchange>,
    at: int,
    other: Seq<Exchange>,
    from: int,
    args: Seq<SymbolicExpression>,
    context: TypingContext,
)
    requires
        0 <= at,
        0 <= from,
        answers_agree(log, at, other, from),
        index_of_rule(log, at, args, context) !is Off,
        index_of_rule(other, from, args, context) !is Off,
    ensures
        same_course(
            index_of_rule(log, at, args, context),
            at,
            index_of_rule(other, from, args, context),
            from,
        ),
{
}

proof fn lemma_slice_determined(
    log: Seq<Exchange>,
    at: int,
    other: Seq<Exchange>,
    from: int,
    args: Seq<SymbolicExpression>,
    context: TypingContext,
)
    requires
        0 <= at,
        0 <= from,
        answers_agree(log, at, other, from),
        slice_rule(log, at, args, context) !is Off,
        slice_rule(other, from, args, context) !is Off,
    ensures
        same_course(
            slice_rule(log, at, args, context),
            at,
            slice_rule(other, from, args, context),
            from,
        ),
{
}

proof fn lemma_replace_at_determined(
    log: Seq<Exchange>,
    at: int,
    other: Seq<Exchange>,
    from: int,
    args: Seq<SymbolicExpression>,
    context: TypingContext,
)
    requires
        0 <= at,
        0 <= from,
        answers_agree(log, at, other, from),
        replace_at_rule(log, at, args, context) !is Off,
        replace_at_rule(other, from, args, context) !is Off,
    ensures
        same_course(
            replace_at_rule(log, at, args, context),
            at,
            replace_at_rule(other, from, args, context),
            from,
        ),
{
}

proof fn lemma_to_consensus_buff_determined(
    log: Seq<Exchange>,
    at: int,
    other: Seq<Exchange>,
    from: int,
    args: Seq<SymbolicExpression>,
    context: TypingContext,
)
    requires
        0 <= at,
        0 <= from,
        answers_agree(log, at, other, from),
        to_consensus_buff_rule(log, at, args, context) !is Off,
        to_consensus_buff_rule(other, from, args, context) !is Off,
    ensures
        same_course(
            to_consensus_buff_rule(log, at, args, context),
            at,
            to_consensus_buff_rule(other, from, args, context),
            from,
        ),
{
}

proof fn lemma_from_consensus_buff_determined(
    log: Seq<Exchange>,
    at: int,
    other: Seq<Exchange>,
    from: int,
    args: Seq<SymbolicExpression>,
    context: TypingContext,
)
    requires
        0 <= at,
        0 <= from,
        answers_agree(log, at, other, from),
        from_consensus_buff_rule(log, at, args, context) !is Off,
        from_consensus_buff_rule(other, from, args, context) !is Off,
    ensures
        same_course(
            from_consensus_buff_rule(log, at, args, context),
            at,
            from_consensus_buff_rule(other, from, args, context),
            from,
        ),
{
}

proof fn lemma_map_steps_determined(
    log: Seq<Exchange>,
    at: int,
    other: Seq<Exchange>,
    from: int,
    args: Seq<SymbolicExpression>,
    context: TypingContext,
    function: FunctionType,
    count: nat,
)
    requires
        0 <= at <= log.len(),
        0 <= from <= other.len(),
        answers_agree(log, at, other, from),
        map_steps(log, at, args, context, function, count) !is Off,
        map_steps(other, from, args, context, function, count) !is Off,
    ensures
        same_course(
            map_steps(log, at, args, context, function, count),
            at,
            map_steps(other, from, args, context, function, count),
            from,
        ),
    decreases count,
{
    if count > 0 {
        let last = (count - 1) as nat;
        lemma_map_steps_determined(log, at, other, from, args, context, function, last);
        lemma_map_steps_ends(log, at, args, context, function, last);
        lemma_map_steps_ends(other, from, args, context, function, last);
    }
}

proof fn lemma_costs_added_determined(
    log: Seq<Exchange>,
    at: int,
    other: Seq<Exchange>,
    from: int,
    costs: Seq<Result<ExecutionCost, CheckError>>,
    count: nat,
)
    requires
        0 <= at <= log.len(),
        0 <= from <= other.len(),
        answers_agree(log, at, other, from),
        costs_added(log, at, costs, count) !is Off,
        costs_added(other, from, costs, count) !is Off,
    ensures
        same_course(
            costs_added(log, at, costs, count),
            at,
            costs_added(other, from, costs, count),
            from,
        ),
    decreases count,
{
    if count > 0 {
        let last = (count - 1) as nat;
        lemma_costs_added_determined(log, at, other, from, costs, last);
        lemma_costs_added_ends(log, at, costs, last);
        lemma_costs_added_ends(other, from, costs, last);
    }
}

proof fn lemma_map_end_determined(
    log: Seq<Exchange>,
    at: int,
    other: Seq<Exchange>,
    from: int,
    args: Seq<SymbolicExpression>,
    context: TypingContext,
    function: FunctionType,
    known: Mapping,
)
    requires
        0 <= at <= log.len(),
        0 <= from <= other.len(),
        answers_agree(log, at, other, from),
        map_end(log, at, args, context, function, known) !is Off,
        map_end(other, from, args, context, function, known) !is Off,
    ensures
        same_course(
            map_end(log, at, args, context, function, known),
            at,
            map_end(other, from, args, context, function, known),
            from,
        ),
{
    if known.failed is Some {
        let all = known.costs.len();
        lemma_costs_added_determined(log, at, other, from, known.costs, all);
    }
}

proof fn lemma_map_determined(
    log: Seq<Exchange>,
    at: int,
    other: Seq<Exchange>,
    from: int,
    args: Seq<SymbolicExpression>,
    context: TypingContext,
    version: ClarityVersion,
)
    requires
        0 <= at <= log.len(),
        0 <= from <= other.len(),
        answers_agree(log, at, other, from),
        map_rule(log, at, args, context, version) !is Off,
        map_rule(other, from, args, context, version) !is Off,
    ensures
        same_course(
            map_rule(log, at, args, context, version),
            at,
            map_rule(other, from, args, context, version),
            from,
        ),
{
    if args.len() >= 2 {
        if let Some(name) = atom_of(args[0]) {
            lemma_function_determined(log, at, other, from, name, version);
            lemma_function_ends(log, at, name, version);
            lemma_function_ends(other, from, name, version);
            if let Run::Done(function, found) = function_rule(log, at, name, version) {
                let shift = found - at;
                let count = (args.len() - 1) as nat;
                let iterable = ClarityCostFunction::AnalysisIterableFunc;
                let input = args.len() as u64;
                if let Run::Done(_, begin) = charged(log, found, iterable, input) {
                    if let Run::Done(_, start) = charged(other, from + shift, iterable, input) {
                        lemma_map_steps_determined(
                            log,
                            begin,
                            other,
                            start,
                            args,
                            context,
                            function,
                            count,
                        );
                        lemma_map_steps_ends(log, begin, args, context, function, count);
                        lemma_map_steps_ends(other, start, args, context, function, count);
                        let steps = map_steps(log, begin, args, context, function, count);
                        let others = map_steps(other, start, args, context, function, count);
                        if let (Run::Done(known, mid), Run::Done(_, mid2)) = (steps, others) {
                            lemma_map_end_determined(
                                log,
                                mid,
                                other,
                                mid2,
                                args,
                                context,
                                function,
                                known,
                            );
                        }
                    }
                }
            }
        }
    }
}

/// Checks are determined by the answers that they get. Where two checks of one function on the same
/// arguments get one answer to one question in one place, they come to the same, after as many
/// questions.
pub proof fn law_answers_determine_the_check(
    native: Native,
    log: Seq<Exchange>,
    at: int,
    other: Seq<Exchange>,
    from: int,
    args: Seq<SymbolicExpression>,
    context: TypingContext,
    version: ClarityVersion,
)
    requires
        0 <= at <= log.len(),
        0 <= from <= other.len(),
        answers_agree(log, at, other, from),
        rule_of(native, log, at, args, context, version) !is Off,
        rule_of(native, other, from, args, context, version) !is Off,
    ensures
        same_course(
            rule_of(native, log, at, args, context, version),
            at,
            rule_of(native, other, from, args, context, version),
            from,
        ),
{
    match native {
        Native::MapItems => lemma_map_determined(log, at, other, from, args, context, version),
        Native::Filter => lemma_filter_determined(log, at, other, from, args, context, version),
        Native::Fold => lemma_fold_determined(log, at, other, from, args, context, version),
        Native::Concat => lemma_concat_determined(log, at, other, from, args, context),
        Native::Append => lemma_append_determined(log, at, other, from, args, context),
        Native::AsMaxLen => lemma_as_max_len_determined(log, at, other, from, args, context),
        Native::Len => lemma_len_determined(log, at, other, from, args, context),
        Native::ElementAt => lemma_element_at_determined(log, at, other, from, args, context),
        Native::IndexOf => lemma_index_of_determined(log, at, other, from, args, context),
        Native::Slice => lemma_slice_determined(log, at, other, from, args, context),
        Native::ReplaceAt => lemma_replace_at_determined(log, at, other, from, args, context),
        Native::ToConsensusBuff => {
            lemma_to_consensus_buff_determined(log, at, other, from, args, context)
        },
        Native::FromConsensusBuff => {
            lemma_from_consensus_buff_determined(log, at, other, from, args, context)
        },
    }
}

} // verus!
