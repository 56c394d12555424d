//! The record of what an analysis was asked, and how it is read.

use vstd::prelude::*;

use crate::analysis::{
    Analysis, ClarityCostFunction, ExecutionCost, FunctionType, NativeFunctions,
    TypedNativeFunction, TypingContext,
};
use crate::errors::{CheckError, CheckErrors};
use crate::representations::{ClarityName, ClarityVersion, StacksEpochId, SymbolicExpression};
use crate::run::{ended, ended_for, Run};
use crate::signatures::{list_type, optional_type, TypeSignature};

verus! {

/// What came of looking at one argument of a function: the costs, in order, and what is known
/// afterwards.
pub struct Visit {
    pub costs: Seq<Result<ExecutionCost, CheckError>>,
    pub outcome: Result<Option<TypeSignature>, CheckError>,
}

/// One question to the analysis, with what came back.
#[allow(inconsistent_fields)]
pub enum Exchange {
    RuntimeCost { function: ClarityCostFunction, input: u64, reply: Result<(), CheckError> },
    AddCost { cost: ExecutionCost, reply: Result<(), CheckError> },
    TypecheckCost { left: TypeSignature, right: TypeSignature, reply: Result<(), CheckError> },
    LookupNative { name: ClarityName, version: ClarityVersion, reply: Option<NativeFunctions> },
    TypeNative { function: NativeFunctions, reply: Result<TypedNativeFunction, CheckErrors> },
    LookupUser { name: ClarityName, reply: Option<FunctionType> },
    TypeCheck {
        expr: SymbolicExpression,
        context: TypingContext,
        reply: Result<TypeSignature, CheckError>,
    },
    TypeCheckExpects {
        expr: SymbolicExpression,
        context: TypingContext,
        expected: TypeSignature,
        reply: Result<TypeSignature, CheckError>,
    },
    SetType { expr: SymbolicExpression, found: TypeSignature, reply: Result<(), CheckError> },
    CheckArgs {
        function: FunctionType,
        args: Seq<TypeSignature>,
        epoch: StacksEpochId,
        version: ClarityVersion,
        reply: Result<TypeSignature, CheckError>,
    },
    VisitArg {
        function: FunctionType,
        arg: TypeSignature,
        index: usize,
        accumulated: Option<TypeSignature>,
        reply: Visit,
    },
    LeastSupertype {
        epoch: StacksEpochId,
        left: TypeSignature,
        right: TypeSignature,
        reply: Result<TypeSignature, CheckErrors>,
    },
    AdmitList { entry: TypeSignature, max_len: u32, reply: Result<(), CheckErrors> },
    AdmitOption { inner: TypeSignature, reply: Result<(), CheckErrors> },
    TypeSize { of: TypeSignature, reply: Result<u32, CheckErrors> },
    MaxSerializedSize { of: TypeSignature, reply: Result<u32, CheckErrors> },
    ParseType {
        epoch: StacksEpochId,
        expr: SymbolicExpression,
        reply: Result<TypeSignature, CheckErrors>,
    },
}

/// `longer` begins with all of `log`.
pub open spec fn extends(log: Seq<Exchange>, longer: Seq<Exchange>) -> bool {
    &&& log.len() <= longer.len()
    &&& forall|i: int| 0 <= i < log.len() ==> #[trigger] longer[i] == log[i]
}

/// The record shows `exchange` at `at`.
pub open spec fn shows(log: Seq<Exchange>, at: int, exchange: Exchange) -> bool {
    0 <= at < log.len() && log[at] == exchange
}

/// The type that is referred to, if one is.
pub open spec fn pointee(reference: Option<&TypeSignature>) -> Option<TypeSignature> {
    match reference {
        Some(found) => Some(*found),
        None => None,
    }
}

/// A question that only looks something up, or only computes.
pub open spec fn only_reads(exchange: Exchange) -> bool {
    match exchange {
        Exchange::LookupNative { .. } => true,
        Exchange::TypeNative { .. } => true,
        Exchange::LookupUser { .. } => true,
        Exchange::LeastSupertype { .. } => true,
        Exchange::AdmitList { .. } => true,
        Exchange::AdmitOption { .. } => true,
        Exchange::TypeSize { .. } => true,
        Exchange::MaxSerializedSize { .. } => true,
        _ => false,
    }
}

/// The analysis `before` answers so and is `after` then: this is one of the replies that it may
/// give to this question, and one of the things that it may have become with it. A question that
/// only looks something up, or only computes, leaves it as it was.
pub open spec fn genuine<A: Analysis>(before: A, exchange: Exchange, after: A) -> bool {
    match exchange {
        Exchange::RuntimeCost { function, input, reply } => call_ensures(
            A::runtime_cost,
            (before, function, input),
            (after, reply),
        ),
        Exchange::AddCost { cost, reply } => call_ensures(
            A::add_cost,
            (before, cost),
            (after, reply),
        ),
        Exchange::TypecheckCost { left, right, reply } => call_ensures(
            A::analysis_typecheck_cost,
            (before, &left, &right),
            (after, reply),
        ),
        Exchange::LookupNative { name, version, reply } => after == before && call_ensures(
            A::lookup_by_name_at_version,
            (&before, &name, version),
            reply,
        ),
        Exchange::TypeNative { function, reply } => after == before && call_ensures(
            A::type_native_function,
            (&before, function),
            reply,
        ),
        Exchange::LookupUser { name, reply } => after == before && call_ensures(
            A::get_function_type,
            (&before, &name),
            reply,
        ),
        Exchange::TypeCheck { expr, context, reply } => call_ensures(
            A::type_check,
            (before, &expr, &context),
            (after, reply),
        ),
        Exchange::TypeCheckExpects { expr, context, expected, reply } => call_ensures(
            A::type_check_expects,
            (before, &expr, &context, &expected),
            (after, reply),
        ),
        Exchange::SetType { expr, found, reply } => call_ensures(
            A::set_type,
            (before, &expr, &found),
            (after, reply),
        ),
        Exchange::CheckArgs { function, args, epoch, version, reply } => exists|
            given: &[TypeSignature],
        |
            given@ == args && #[trigger] call_ensures(
                A::check_args,
                (before, function, given, epoch, version),
                (after, reply),
            ),
        Exchange::VisitArg { function, arg, index, accumulated, reply } => exists|
            given: Option<&TypeSignature>,
            costs: Vec<Result<ExecutionCost, CheckError>>,
        |
            pointee(given) == accumulated && costs@ == reply.costs && #[trigger] call_ensures(
                A::check_args_visitor_2_1,
                (before, function, &arg, index, given),
                (after, (costs, reply.outcome)),
            ),
        Exchange::LeastSupertype { epoch, left, right, reply } => after == before && call_ensures(
            A::least_supertype,
            (&before, epoch, &left, &right),
            reply,
        ),
        Exchange::AdmitList { entry, max_len, reply } => after == before && call_ensures(
            A::admit_list,
            (&before, &entry, max_len),
            reply,
        ),
        Exchange::AdmitOption { inner, reply } => after == before && call_ensures(
            A::admit_option,
            (&before, &inner),
            reply,
        ),
        Exchange::TypeSize { of, reply } => after == before && call_ensures(
            A::type_size,
            (&before, &of),
            reply,
        ),
        Exchange::MaxSerializedSize { of, reply } => after == before && call_ensures(
            A::max_serialized_size,
            (&before, &of),
            reply,
        ),
        Exchange::ParseType { epoch, expr, reply } => call_ensures(
            A::parse_type_repr,
            (before, epoch, &expr),
            (after, reply),
        ),
    }
}

/// Charging what `function` costs for an input of size `input`.
pub open spec fn charged(
    log: Seq<Exchange>,
    at: int,
    function: ClarityCostFunction,
    input: u64,
) -> Run<()> {
    match log[at] {
        Exchange::RuntimeCost { reply, .. } if shows(
            log,
            at,
            Exchange::RuntimeCost { function, input, reply },
        ) => ended(reply, at + 1),
        _ => Run::Off,
    }
}

/// Charging `cost`.
pub open spec fn cost_added(log: Seq<Exchange>, at: int, cost: ExecutionCost) -> Run<()> {
    match log[at] {
        Exchange::AddCost { reply, .. } if shows(
            log,
            at,
            Exchange::AddCost { cost, reply },
        ) => ended(reply, at + 1),
        _ => Run::Off,
    }
}

/// Charging what it costs to hold `left` and `right` against each other.
pub open spec fn compared(
    log: Seq<Exchange>,
    at: int,
    left: TypeSignature,
    right: TypeSignature,
) -> Run<()> {
    match log[at] {
        Exchange::TypecheckCost { reply, .. } if shows(
            log,
            at,
            Exchange::TypecheckCost { left, right, reply },
        ) => ended(reply, at + 1),
        _ => Run::Off,
    }
}

/// Looking up a function of the language.
pub open spec fn native_found(
    log: Seq<Exchange>,
    at: int,
    name: ClarityName,
    version: ClarityVersion,
) -> Run<Option<NativeFunctions>> {
    match log[at] {
        Exchange::LookupNative { reply, .. } if shows(
            log,
            at,
            Exchange::LookupNative { name, version, reply },
        ) => Run::Done(reply, at + 1),
        _ => Run::Off,
    }
}

/// Finding out how a function of the language is typed.
pub open spec fn native_typed(
    log: Seq<Exchange>,
    at: int,
    function: NativeFunctions,
) -> Run<TypedNativeFunction> {
    match log[at] {
        Exchange::TypeNative { reply, .. } if shows(
            log,
            at,
            Exchange::TypeNative { function, reply },
        ) => ended_for(reply, at + 1),
        _ => Run::Off,
    }
}

/// Looking up a function of the contract.
pub open spec fn user_found(
    log: Seq<Exchange>,
    at: int,
    name: ClarityName,
) -> Run<Option<FunctionType>> {
    match log[at] {
        Exchange::LookupUser { reply, .. } if shows(
            log,
            at,
            Exchange::LookupUser { name, reply },
        ) => Run::Done(reply, at + 1),
        _ => Run::Off,
    }
}

/// Finding the type of `expr`.
pub open spec fn typed(
    log: Seq<Exchange>,
    at: int,
    expr: SymbolicExpression,
    context: TypingContext,
) -> Run<TypeSignature> {
    match log[at] {
        Exchange::TypeCheck { reply, .. } if shows(
            log,
            at,
            Exchange::TypeCheck { expr, context, reply },
        ) => ended(reply, at + 1),
        _ => Run::Off,
    }
}

/// Finding the type of `expr`, which has to be of type `expected`.
pub open spec fn typed_as(
    log: Seq<Exchange>,
    at: int,
    expr: SymbolicExpression,
    context: TypingContext,
    expected: TypeSignature,
) -> Run<TypeSignature> {
    match log[at] {
        Exchange::TypeCheckExpects { reply, .. } if shows(
            log,
            at,
            Exchange::TypeCheckExpects { expr, context, expected, reply },
        ) => ended(reply, at + 1),
        _ => Run::Off,
    }
}

/// Noting that `expr` is of type `found`.
pub open spec fn noted(
    log: Seq<Exchange>,
    at: int,
    expr: SymbolicExpression,
    found: TypeSignature,
) -> Run<()> {
    match log[at] {
        Exchange::SetType { reply, .. } if shows(
            log,
            at,
            Exchange::SetType { expr, found, reply },
        ) => ended(reply, at + 1),
        _ => Run::Off,
    }
}

/// Finding what `function` returns for arguments of the types `args`.
pub open spec fn applied(
    log: Seq<Exchange>,
    at: int,
    function: FunctionType,
    args: Seq<TypeSignature>,
    epoch: StacksEpochId,
    version: ClarityVersion,
) -> Run<TypeSignature> {
    match log[at] {
        Exchange::CheckArgs { reply, .. } if shows(
            log,
            at,
            Exchange::CheckArgs { function, args, epoch, version, reply },
        ) => ended(reply, at + 1),
        _ => Run::Off,
    }
}

/// Looking at the argument of `function` at `index`, after those before it have given
/// `accumulated`.
pub open spec fn visited(
    log: Seq<Exchange>,
    at: int,
    function: FunctionType,
    arg: TypeSignature,
    index: usize,
    accumulated: Option<TypeSignature>,
) -> Run<Visit> {
    match log[at] {
        Exchange::VisitArg { reply, .. } if shows(
            log,
            at,
            Exchange::VisitArg { function, arg, index, accumulated, reply },
        ) => Run::Done(reply, at + 1),
        _ => Run::Off,
    }
}

/// Finding the smallest type that `left` and `right` belong to.
pub open spec fn joined(
    log: Seq<Exchange>,
    at: int,
    epoch: StacksEpochId,
    left: TypeSignature,
    right: TypeSignature,
) -> Run<TypeSignature> {
    match log[at] {
        Exchange::LeastSupertype { reply, .. } if shows(
            log,
            at,
            Exchange::LeastSupertype { epoch, left, right, reply },
        ) => ended_for(reply, at + 1),
        _ => Run::Off,
    }
}

/// Finding out whether lists of up to `max_len` items of type `entry` may be formed.
pub open spec fn list_admitted(
    log: Seq<Exchange>,
    at: int,
    entry: TypeSignature,
    max_len: u32,
) -> Run<()> {
    match log[at] {
        Exchange::AdmitList { reply, .. } if shows(
            log,
            at,
            Exchange::AdmitList { entry, max_len, reply },
        ) => ended_for(reply, at + 1),
        _ => Run::Off,
    }
}

/// Finding out whether optional values of type `inner` may be formed.
pub open spec fn option_admitted(log: Seq<Exchange>, at: int, inner: TypeSignature) -> Run<()> {
    match log[at] {
        Exchange::AdmitOption { reply, .. } if shows(
            log,
            at,
            Exchange::AdmitOption { inner, reply },
        ) => ended_for(reply, at + 1),
        _ => Run::Off,
    }
}

/// Finding the size of the description of the type `of`.
pub open spec fn sized(log: Seq<Exchange>, at: int, of: TypeSignature) -> Run<u32> {
    match log[at] {
        Exchange::TypeSize { reply, .. } if shows(
            log,
            at,
            Exchange::TypeSize { of, reply },
        ) => ended_for(reply, at + 1),
        _ => Run::Off,
    }
}

/// Finding how many bytes a value of type `of` is serialized to at most.
pub open spec fn serialized_size(log: Seq<Exchange>, at: int, of: TypeSignature) -> Run<u32> {
    match log[at] {
        Exchange::MaxSerializedSize { reply, .. } if shows(
            log,
            at,
            Exchange::MaxSerializedSize { of, reply },
        ) => ended_for(reply, at + 1),
        _ => Run::Off,
    }
}

/// Reading the type that `expr` describes.
pub open spec fn type_parsed(
    log: Seq<Exchange>,
    at: int,
    epoch: StacksEpochId,
    expr: SymbolicExpression,
) -> Run<TypeSignature> {
    match log[at] {
        Exchange::ParseType { reply, .. } if shows(
            log,
            at,
            Exchange::ParseType { epoch, expr, reply },
        ) => ended_for(reply, at + 1),
        _ => Run::Off,
    }
}

/// Forming the type of lists of up to `max_len` items of type `entry`.
pub open spec fn list_formed(
    log: Seq<Exchange>,
    at: int,
    entry: TypeSignature,
    max_len: u32,
) -> Run<TypeSignature> {
    list_admitted(log, at, entry, max_len).and_then(
        |_u: (), at: int| Run::Done(list_type(entry, max_len), at),
    )
}

/// Forming the type of optional values of type `inner`.
pub open spec fn option_formed(log: Seq<Exchange>, at: int, inner: TypeSignature) -> Run<
    TypeSignature,
> {
    option_admitted(log, at, inner).and_then(|_u: (), at: int| Run::Done(optional_type(inner), at))
}

} // verus!
