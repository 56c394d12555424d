//! The rules by which the functions on sequences, and those that convert to and from the
//! serialized form, are typed.
//!
//! A rule reads the record of a checker from some place on. It says what has to be asked next,
//! given what came back so far, and what the check comes to.

use vstd::prelude::*;

use crate::analysis::{
    ClarityCostFunction, ExecutionCost, FunctionType, NativeFunctions, SimpleNativeFunction,
    TypedNativeFunction, TypingContext,
};
use crate::arguments::{at_least, exactly};
use crate::errors::{CheckError, CheckErrors, Diagnostic};
use crate::record::{
    applied, charged, compared, cost_added, joined, list_formed, native_found, native_typed, noted,
    option_formed, serialized_size, sized, type_parsed, typed, typed_as, user_found, visited,
    Exchange, Visit,
};
use crate::representations::{
    atom_of, ClarityName, ClarityVersion, StacksEpochId, SymbolicExpression, SymbolicExpressionType,
    Value,
};
use crate::run::{refused, Run};
use crate::signatures::{
    ascii_type, buffer_type, length_of, optional_type, unit_of, utf8_type, BufferLength,
    MAX_VALUE_SIZE, SequenceSubtype, StringSubtype, StringUTF8Length, TypeSignature,
};

verus! {

/// Finding the type of the function `name`: one of the language that is typed by what it takes
/// and returns or, where the language has none of that name, one of the contract.
pub open spec fn function_rule(
    log: Seq<Exchange>,
    at: int,
    name: ClarityName,
    version: ClarityVersion,
) -> Run<FunctionType> {
    let unknown = CheckErrors::IllegalOrUnknownFunctionApplication(name);
    charged(log, at, ClarityCostFunction::AnalysisLookupFunction, 0).and_then(|_u: (), at: int|
    native_found(log, at, name, version).and_then(|native: Option<NativeFunctions>, at: int|
    match native {
        Some(native) => native_typed(log, at, native).and_then(
            |typing: TypedNativeFunction, at: int|
            match typing {
                TypedNativeFunction::Simple(SimpleNativeFunction(found)) => Run::Done(found, at),
                TypedNativeFunction::Special => refused(unknown, at),
            }),
        None => user_found(log, at, name).and_then(|found: Option<FunctionType>, at: int|
            match found {
                Some(found) => Run::Done(found, at),
                None => refused(unknown, at),
            }),
    }))
}

/// Taking `arg` as the name of a function.
pub open spec fn named(arg: SymbolicExpression, at: int) -> Run<ClarityName> {
    match atom_of(arg) {
        Some(name) => Run::Done(name, at),
        None => refused(CheckErrors::NonFunctionApplication, at),
    }
}

/// Taking `found` as the type of a sequence.
pub open spec fn sequence(found: TypeSignature, at: int) -> Run<SequenceSubtype> {
    match found {
        TypeSignature::SequenceType(sequence) => Run::Done(sequence, at),
        _ => refused(CheckErrors::ExpectedSequence(Box::new(found)), at),
    }
}

/// Adding two lengths.
pub open spec fn lengths_added(left: u32, right: u32, at: int) -> Run<u32> {
    if left + right <= u32::MAX {
        Run::Done((left + right) as u32, at)
    } else {
        refused(CheckErrors::MaxLengthOverflow, at)
    }
}

/// Forming the type of buffers of up to `n` bytes.
pub open spec fn buffer_formed(n: u32, at: int) -> Run<TypeSignature> {
    if BufferLength::fits(n) {
        Run::Done(buffer_type(n), at)
    } else {
        refused(CheckErrors::ValueTooLarge, at)
    }
}

/// Forming the type of ASCII strings of up to `n` characters.
pub open spec fn ascii_formed(n: u32, at: int) -> Run<TypeSignature> {
    if BufferLength::fits(n) {
        Run::Done(ascii_type(n), at)
    } else {
        refused(CheckErrors::ValueTooLarge, at)
    }
}

/// Forming the type of Unicode strings of up to `n` characters.
pub open spec fn utf8_formed(n: u32, at: int) -> Run<TypeSignature> {
    if StringUTF8Length::fits(n) {
        Run::Done(utf8_type(n), at)
    } else {
        refused(CheckErrors::ValueTooLarge, at)
    }
}

/// What is known of a `map` once some of its sequences have been looked at.
#[verifier::ext_equal]
pub struct Mapping {
    /// The least of their lengths.
    pub min_args: u32,
    /// The types of their items, up to the first that the function did not take.
    pub entries: Seq<TypeSignature>,
    /// What the function has made of the items.
    pub accumulated: Option<TypeSignature>,
    /// What looking at the items costs.
    pub costs: Seq<Result<ExecutionCost, CheckError>>,
    /// Why the function did not take the items.
    pub failed: Option<CheckError>,
}

/// What is known before any sequence has been looked at.
pub open spec fn mapping_begun() -> Mapping {
    Mapping {
        min_args: u32::MAX,
        entries: Seq::empty(),
        accumulated: None,
        costs: Seq::empty(),
        failed: None,
    }
}

/// What is known after one more sequence, which is `sequence` and has given `visit`.
pub open spec fn mapping_joined(
    known: Mapping,
    sequence: SequenceSubtype,
    visit: Visit,
) -> Mapping {
    Mapping {
        min_args: lesser(known.min_args, length_of(sequence)),
        entries: known.entries.push(unit_of(sequence)),
        accumulated: match visit.outcome {
            Ok(Some(returned)) => Some(returned),
            _ => known.accumulated,
        },
        costs: known.costs + visit.costs,
        failed: match visit.outcome {
            Ok(_) => None,
            Err(error) => Some(error),
        },
    }
}

/// The lesser of two numbers.
pub open spec fn lesser(a: u32, b: u32) -> u32 {
    if a <= b {
        a
    } else {
        b
    }
}

/// Looking at the sequence `arg`, the one at `index`. Once the function has not taken the items
/// of one sequence, those after it are only checked for being sequences.
pub open spec fn map_step(
    log: Seq<Exchange>,
    at: int,
    arg: SymbolicExpression,
    context: TypingContext,
    function: FunctionType,
    index: usize,
    known: Mapping,
) -> Run<Mapping> {
    typed(log, at, arg, context).and_then(|found: TypeSignature, at: int|
    match found {
        TypeSignature::SequenceType(sequence) => if known.failed is Some {
            let min_args = lesser(known.min_args, length_of(sequence));
            Run::Done(Mapping { min_args, ..known }, at)
        } else {
            visited(log, at, function, unit_of(sequence), index, known.accumulated).and_then(
                |visit: Visit, at: int| Run::Done(mapping_joined(known, sequence, visit), at))
        },
        _ => refused(CheckErrors::ExpectedSequence(Box::new(found)), at),
    })
}

/// Looking at the first `count` of the sequences, which follow the function in `args`.
pub open spec fn map_steps(
    log: Seq<Exchange>,
    at: int,
    args: Seq<SymbolicExpression>,
    context: TypingContext,
    function: FunctionType,
    count: nat,
) -> Run<Mapping>
    decreases count,
{
    if count == 0 {
        Run::Done(mapping_begun(), at)
    } else {
        let last = (count - 1) as nat;
        map_steps(log, at, args, context, function, last).and_then(|known: Mapping, at: int|
            map_step(log, at, args[count as int], context, function, last as usize, known))
    }
}

/// Charging the first `count` of `costs`.
pub open spec fn costs_added(
    log: Seq<Exchange>,
    at: int,
    costs: Seq<Result<ExecutionCost, CheckError>>,
    count: nat,
) -> Run<()>
    decreases count,
{
    if count == 0 {
        Run::Done((), at)
    } else {
        costs_added(log, at, costs, (count - 1) as nat).and_then(|_u: (), at: int|
        match costs[count - 1] {
            Ok(cost) => cost_added(log, at, cost),
            Err(error) => Run::Failed(error, at),
        })
    }
}

/// `error`, with `actual` for the count of arguments where it is about that count.
pub open spec fn recounted(error: CheckError, actual: usize) -> CheckError {
    match *error.err {
        CheckErrors::IncorrectArgumentCount(expected, _) => {
            let reason = CheckErrors::IncorrectArgumentCount(expected, actual);
            CheckError {
                err: Box::new(reason),
                diagnostic: Diagnostic::Unplaced(Box::new(reason)),
                ..error
            }
        },
        _ => error,
    }
}

/// What `map` comes to once all sequences have been looked at.
pub open spec fn map_end(
    log: Seq<Exchange>,
    at: int,
    args: Seq<SymbolicExpression>,
    context: TypingContext,
    function: FunctionType,
    known: Mapping,
) -> Run<TypeSignature> {
    match known.failed {
        Some(error) => costs_added(log, at, known.costs, known.costs.len()).and_then(
            |_u: (), at: int| Run::Failed(recounted(error, (args.len() - 1) as usize), at)),
        None =>
            applied(log, at, function, known.entries, context.epoch, context.clarity_version)
            .and_then(|mapped: TypeSignature, at: int|
            match list_formed(log, at, mapped, known.min_args) {
                Run::Failed(_, at) => refused(CheckErrors::ConstructedListTooLarge, at),
                formed => formed,
            }),
    }
}

/// Finding the type of `(map function sequence ..)`.
pub open spec fn map_rule(
    log: Seq<Exchange>,
    at: int,
    args: Seq<SymbolicExpression>,
    context: TypingContext,
    version: ClarityVersion,
) -> Run<TypeSignature> {
    at_least(args, 2, at).and_then(|_u: (), at: int|
    named(args[0], at).and_then(|name: ClarityName, at: int|
    function_rule(log, at, name, version).and_then(|function: FunctionType, at: int|
    charged(log, at, ClarityCostFunction::AnalysisIterableFunc, args.len() as u64).and_then(
        |_u: (), at: int|
    map_steps(log, at, args, context, function, (args.len() - 1) as nat).and_then(
        |known: Mapping, at: int|
    map_end(log, at, args, context, function, known))))))
}

/// Finding the type of `(filter function sequence)`, which is that of the sequence.
pub open spec fn filter_rule(
    log: Seq<Exchange>,
    at: int,
    args: Seq<SymbolicExpression>,
    context: TypingContext,
    version: ClarityVersion,
) -> Run<TypeSignature> {
    exactly(args, 2, at).and_then(|_u: (), at: int|
    named(args[0], at).and_then(|name: ClarityName, at: int|
    function_rule(log, at, name, version).and_then(|function: FunctionType, at: int|
    charged(log, at, ClarityCostFunction::AnalysisIterableFunc, 0).and_then(|_u: (), at: int|
    typed(log, at, args[1], context).and_then(|found: TypeSignature, at: int|
    sequence(found, at).and_then(|items: SequenceSubtype, at: int|
    applied(
        log,
        at,
        function,
        seq![unit_of(items)],
        context.epoch,
        context.clarity_version,
    ).and_then(|verdict: TypeSignature, at: int|
    match verdict {
        TypeSignature::BoolType => Run::Done(found, at),
        _ => refused(
            CheckErrors::TypeError(Box::new(TypeSignature::BoolType), Box::new(verdict)),
            at,
        ),
    })))))))
}

/// Carrying a value of type `initial` through the items of a sequence. The function has to take an
/// item with the initial value, and an item with what it then returns.
pub open spec fn fold_end(
    log: Seq<Exchange>,
    at: int,
    context: TypingContext,
    function: FunctionType,
    items: SequenceSubtype,
    initial: TypeSignature,
) -> Run<TypeSignature> {
    applied(
        log,
        at,
        function,
        seq![unit_of(items), initial],
        context.epoch,
        context.clarity_version,
    ).and_then(|returned: TypeSignature, at: int|
    applied(
        log,
        at,
        function,
        seq![unit_of(items), returned],
        context.epoch,
        context.clarity_version,
    ))
}

/// Finding the type of `(fold function sequence initial)`.
pub open spec fn fold_rule(
    log: Seq<Exchange>,
    at: int,
    args: Seq<SymbolicExpression>,
    context: TypingContext,
    version: ClarityVersion,
) -> Run<TypeSignature> {
    exactly(args, 3, at).and_then(|_u: (), at: int|
    named(args[0], at).and_then(|name: ClarityName, at: int|
    function_rule(log, at, name, version).and_then(|function: FunctionType, at: int|
    charged(log, at, ClarityCostFunction::AnalysisIterableFunc, 0).and_then(|_u: (), at: int|
    typed(log, at, args[1], context).and_then(|found: TypeSignature, at: int|
    sequence(found, at).and_then(|items: SequenceSubtype, at: int|
    typed(log, at, args[2], context).and_then(|initial: TypeSignature, at: int|
    fold_end(log, at, context, function, items, initial))))))))
}

/// Joining two sequences of the types `left` and `right`.
pub open spec fn concat_end(
    log: Seq<Exchange>,
    at: int,
    left: TypeSignature,
    right: TypeSignature,
) -> Run<TypeSignature> {
    match (left, right) {
        (TypeSignature::SequenceType(l), TypeSignature::SequenceType(r)) => match (l, r) {
            (SequenceSubtype::ListType(l), SequenceSubtype::ListType(r)) =>
                joined(log, at, StacksEpochId::Epoch21, *l.entry_type, *r.entry_type).and_then(
                    |entry: TypeSignature, at: int|
                lengths_added(l.max_len, r.max_len, at).and_then(|n: u32, at: int|
                list_formed(log, at, entry, n))),
            (SequenceSubtype::BufferType(l), SequenceSubtype::BufferType(r)) =>
                lengths_added(l.value(), r.value(), at).and_then(|n: u32, at: int|
                buffer_formed(n, at)),
            (
                SequenceSubtype::StringType(StringSubtype::ASCII(l)),
                SequenceSubtype::StringType(StringSubtype::ASCII(r)),
            ) =>
                lengths_added(l.value(), r.value(), at).and_then(|n: u32, at: int|
                ascii_formed(n, at)),
            (
                SequenceSubtype::StringType(StringSubtype::UTF8(l)),
                SequenceSubtype::StringType(StringSubtype::UTF8(r)),
            ) =>
                lengths_added(l.value(), r.value(), at).and_then(|n: u32, at: int|
                utf8_formed(n, at)),
            _ => refused(CheckErrors::TypeError(Box::new(left), Box::new(right)), at),
        },
        _ => refused(CheckErrors::ExpectedSequence(Box::new(left)), at),
    }
}

/// Finding the type of `(concat sequence sequence)`.
pub open spec fn concat_rule(
    log: Seq<Exchange>,
    at: int,
    args: Seq<SymbolicExpression>,
    context: TypingContext,
) -> Run<TypeSignature> {
    exactly(args, 2, at).and_then(|_u: (), at: int|
    typed(log, at, args[0], context).and_then(|left: TypeSignature, at: int|
    typed(log, at, args[1], context).and_then(|right: TypeSignature, at: int|
    charged(log, at, ClarityCostFunction::AnalysisIterableFunc, 0).and_then(|_u: (), at: int|
    compared(log, at, left, right).and_then(|_u: (), at: int|
    concat_end(log, at, left, right))))))
}

/// Finding the type of `(append list item)`.
pub open spec fn append_rule(
    log: Seq<Exchange>,
    at: int,
    args: Seq<SymbolicExpression>,
    context: TypingContext,
) -> Run<TypeSignature> {
    exactly(args, 2, at).and_then(|_u: (), at: int|
    charged(log, at, ClarityCostFunction::AnalysisIterableFunc, 0).and_then(|_u: (), at: int|
    typed(log, at, args[0], context).and_then(|found: TypeSignature, at: int|
    match found {
        TypeSignature::SequenceType(SequenceSubtype::ListType(list)) =>
            typed(log, at, args[1], context).and_then(|item: TypeSignature, at: int|
            compared(log, at, *list.entry_type, item).and_then(|_u: (), at: int|
            joined(log, at, StacksEpochId::Epoch21, *list.entry_type, item).and_then(
                |entry: TypeSignature, at: int|
            lengths_added(list.max_len, 1, at).and_then(|n: u32, at: int|
            list_formed(log, at, entry, n))))),
        _ => refused(CheckErrors::ExpectedListApplication, at),
    })))
}

/// The number that `e` consists of, if it is a literal unsigned integer.
pub open spec fn uint_literal(e: SymbolicExpression) -> Option<u128> {
    match e.expr {
        SymbolicExpressionType::LiteralValue(Value::UInt(n)) => Some(n),
        _ => None,
    }
}

/// Taking `n` as a length.
pub open spec fn as_length(n: u128, at: int) -> Run<u32> {
    if n <= u32::MAX {
        Run::Done(n as u32, at)
    } else {
        refused(CheckErrors::MaxLengthOverflow, at)
    }
}

/// Limiting a sequence of type `found` to `n` items.
pub open spec fn resized(log: Seq<Exchange>, at: int, found: TypeSignature, n: u32) -> Run<
    TypeSignature,
> {
    sequence(found, at).and_then(|items: SequenceSubtype, at: int|
    match items {
        SequenceSubtype::ListType(list) => list_formed(log, at, *list.entry_type, n),
        SequenceSubtype::BufferType(_) => buffer_formed(n, at),
        SequenceSubtype::StringType(StringSubtype::ASCII(_)) => ascii_formed(n, at),
        SequenceSubtype::StringType(StringSubtype::UTF8(_)) => utf8_formed(n, at),
    })
}

/// Finding the type of `(as-max-len? sequence length)`, where the length is a literal.
pub open spec fn as_max_len_rule(
    log: Seq<Exchange>,
    at: int,
    args: Seq<SymbolicExpression>,
    context: TypingContext,
) -> Run<TypeSignature> {
    let uint = TypeSignature::UIntType;
    exactly(args, 2, at).and_then(|_u: (), at: int|
    match uint_literal(args[1]) {
        Some(literal) =>
            sized(log, at, uint).and_then(|size: u32, at: int|
            charged(log, at, ClarityCostFunction::AnalysisTypeAnnotate, size as u64).and_then(
                |_u: (), at: int|
            noted(log, at, args[1], uint).and_then(|_u: (), at: int|
            as_length(literal, at).and_then(|n: u32, at: int|
            typed(log, at, args[0], context).and_then(|found: TypeSignature, at: int|
            charged(log, at, ClarityCostFunction::AnalysisIterableFunc, 0).and_then(
                |_u: (), at: int|
            resized(log, at, found, n).and_then(|limited: TypeSignature, at: int|
            Run::Done(optional_type(limited), at)))))))),
        None => typed(log, at, args[1], context).and_then(|length: TypeSignature, at: int|
            refused(CheckErrors::TypeError(Box::new(uint), Box::new(length)), at)),
    })
}

/// Finding the type of `(len sequence)`.
pub open spec fn len_rule(
    log: Seq<Exchange>,
    at: int,
    args: Seq<SymbolicExpression>,
    context: TypingContext,
) -> Run<TypeSignature> {
    exactly(args, 1, at).and_then(|_u: (), at: int|
    typed(log, at, args[0], context).and_then(|found: TypeSignature, at: int|
    charged(log, at, ClarityCostFunction::AnalysisIterableFunc, 0).and_then(|_u: (), at: int|
    sequence(found, at).and_then(|_items: SequenceSubtype, at: int|
    Run::Done(TypeSignature::UIntType, at)))))
}

/// Finding the type of `(element-at sequence index)`. That of an item of a list is asked for
/// whether it may be optional; that of a byte or of a character always may be.
pub open spec fn element_at_rule(
    log: Seq<Exchange>,
    at: int,
    args: Seq<SymbolicExpression>,
    context: TypingContext,
) -> Run<TypeSignature> {
    exactly(args, 2, at).and_then(|_u: (), at: int|
    typed_as(log, at, args[1], context, TypeSignature::UIntType).and_then(
        |_index: TypeSignature, at: int|
    typed(log, at, args[0], context).and_then(|found: TypeSignature, at: int|
    charged(log, at, ClarityCostFunction::AnalysisIterableFunc, 0).and_then(|_u: (), at: int|
    sequence(found, at).and_then(|items: SequenceSubtype, at: int|
    match items {
        SequenceSubtype::ListType(_) => option_formed(log, at, unit_of(items)),
        _ => Run::Done(optional_type(unit_of(items)), at),
    })))))
}

/// Finding the type of `(index-of sequence item)`.
pub open spec fn index_of_rule(
    log: Seq<Exchange>,
    at: int,
    args: Seq<SymbolicExpression>,
    context: TypingContext,
) -> Run<TypeSignature> {
    exactly(args, 2, at).and_then(|_u: (), at: int|
    charged(log, at, ClarityCostFunction::AnalysisIterableFunc, 0).and_then(|_u: (), at: int|
    typed(log, at, args[0], context).and_then(|found: TypeSignature, at: int|
    sequence(found, at).and_then(|items: SequenceSubtype, at: int|
    typed_as(log, at, args[1], context, unit_of(items)).and_then(|_item: TypeSignature, at: int|
    option_formed(log, at, TypeSignature::UIntType))))))
}

/// Finding the type of `(slice? sequence left right)`.
pub open spec fn slice_rule(
    log: Seq<Exchange>,
    at: int,
    args: Seq<SymbolicExpression>,
    context: TypingContext,
) -> Run<TypeSignature> {
    let uint = TypeSignature::UIntType;
    exactly(args, 3, at).and_then(|_u: (), at: int|
    charged(log, at, ClarityCostFunction::AnalysisIterableFunc, 0).and_then(|_u: (), at: int|
    typed(log, at, args[0], context).and_then(|found: TypeSignature, at: int|
    sequence(found, at).and_then(|_items: SequenceSubtype, at: int|
    option_formed(log, at, found).and_then(|part: TypeSignature, at: int|
    typed_as(log, at, args[1], context, uint).and_then(|_left: TypeSignature, at: int|
    typed_as(log, at, args[2], context, uint).and_then(|_right: TypeSignature, at: int|
    Run::Done(part, at))))))))
}

/// Finding the type of `(replace-at? sequence index item)`.
pub open spec fn replace_at_rule(
    log: Seq<Exchange>,
    at: int,
    args: Seq<SymbolicExpression>,
    context: TypingContext,
) -> Run<TypeSignature> {
    let uint = TypeSignature::UIntType;
    exactly(args, 3, at).and_then(|_u: (), at: int|
    charged(log, at, ClarityCostFunction::AnalysisIterableFunc, 0).and_then(|_u: (), at: int|
    typed(log, at, args[0], context).and_then(|found: TypeSignature, at: int|
    sequence(found, at).and_then(|items: SequenceSubtype, at: int|
    typed_as(log, at, args[1], context, uint).and_then(|_index: TypeSignature, at: int|
    typed_as(log, at, args[2], context, unit_of(items)).and_then(|_item: TypeSignature, at: int|
    option_formed(log, at, found)))))))
}

/// Finding the type of `(to-consensus-buff? value)`: an optional buffer, as long as a value of
/// the type may get.
pub open spec fn to_consensus_buff_rule(
    log: Seq<Exchange>,
    at: int,
    args: Seq<SymbolicExpression>,
    context: TypingContext,
) -> Run<TypeSignature> {
    exactly(args, 1, at).and_then(|_u: (), at: int|
    typed(log, at, args[0], context).and_then(|found: TypeSignature, at: int|
    serialized_size(log, at, found).and_then(|n: u32, at: int|
    buffer_formed(n, at).and_then(|buffer: TypeSignature, at: int|
    option_formed(log, at, buffer)))))
}

/// Finding the type of `(from-consensus-buff? type buffer)`: an optional value of that type, from
/// a buffer of any length.
pub open spec fn from_consensus_buff_rule(
    log: Seq<Exchange>,
    at: int,
    args: Seq<SymbolicExpression>,
    context: TypingContext,
) -> Run<TypeSignature> {
    exactly(args, 2, at).and_then(|_u: (), at: int|
    type_parsed(log, at, StacksEpochId::Epoch21, args[0]).and_then(
        |described: TypeSignature, at: int|
    typed_as(log, at, args[1], context, buffer_type(MAX_VALUE_SIZE)).and_then(
        |_buffer: TypeSignature, at: int|
    option_formed(log, at, described))))
}

} // verus!
